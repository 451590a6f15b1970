//! One submit-and-grade cycle, as a machine that is driven from outside.
//!
//! The machine never talks to the portal. In every state it names the one
//! action that is due; whoever drives it performs the action and hands back
//! what came of it as an event, which moves the machine to its next state.
//! The cycle is: activate the course, fetch the form, upload the solution,
//! read the clock, queue a grading run, check the queue until the run that
//! was queued has ended, fetch its result.

use vstd::prelude::*;
use crate::list_api::api::{ListApiError, ListApiErrorView};
use crate::list_api::models::{Submit, SubmitForm, SubmitFormView, Test, Timestamp};

verus! {

/// Whether `run` was started after `cutoff`.
pub open spec fn qualifies(run: Test, cutoff: Timestamp) -> bool {
    run.start_time.later_than(cutoff)
}

/// Whether the run at index `i` is the one to watch: it was started after
/// `cutoff`, no run that was started after `cutoff` was started later than
/// it, and of the runs that were started with it, it stands last.
pub open spec fn is_chosen(queue: Seq<Test>, cutoff: Timestamp, i: int) -> bool {
    &&& 0 <= i < queue.len()
    &&& qualifies(queue[i], cutoff)
    &&& forall|j: int|
        0 <= j < i && qualifies(#[trigger] queue[j], cutoff) ==> !queue[j].start_time.later_than(
            queue[i].start_time,
        )
    &&& forall|j: int|
        i < j < queue.len() && qualifies(#[trigger] queue[j], cutoff)
            ==> queue[i].start_time.later_than(queue[j].start_time)
}

/// The index of the run to watch; `None` where no run was started after
/// `cutoff`.
pub open spec fn chosen(queue: Seq<Test>, cutoff: Timestamp) -> Option<int> {
    if exists|i: int| is_chosen(queue, cutoff, i) {
        Some(choose|i: int| is_chosen(queue, cutoff, i))
    } else {
        None
    }
}

/// At most one run is the one to watch.
pub proof fn chosen_is_unique(queue: Seq<Test>, cutoff: Timestamp, i: int, k: int)
    requires
        is_chosen(queue, cutoff, i),
        is_chosen(queue, cutoff, k),
    ensures
        i == k,
{
    if i < k {
        Timestamp::later_than_is_total(queue[i].start_time, queue[k].start_time);
    } else if k < i {
        Timestamp::later_than_is_total(queue[i].start_time, queue[k].start_time);
    }
}

/// A run is watched exactly where some run was started after the cutoff.
pub proof fn chosen_exists_iff_qualified(queue: Seq<Test>, cutoff: Timestamp)
    ensures
        chosen(queue, cutoff) is Some <==> exists|j: int|
            0 <= j < queue.len() && qualifies(#[trigger] queue[j], cutoff),
        chosen(queue, cutoff) matches Some(i) ==> is_chosen(queue, cutoff, i),
    decreases queue.len(),
{
    if exists|j: int| 0 <= j < queue.len() && qualifies(#[trigger] queue[j], cutoff) {
        lemma_some_run_is_chosen(queue, cutoff, queue.len() as int);
        let i = choose|i: int| is_chosen_among(queue, cutoff, queue.len() as int, i);
        assert(is_chosen(queue, cutoff, i));
    }
}

/// `is_chosen` for the first `n` runs of the queue.
pub open spec fn is_chosen_among(queue: Seq<Test>, cutoff: Timestamp, n: int, i: int) -> bool {
    &&& 0 <= i < n <= queue.len()
    &&& qualifies(queue[i], cutoff)
    &&& forall|j: int|
        0 <= j < i && qualifies(#[trigger] queue[j], cutoff) ==> !queue[j].start_time.later_than(
            queue[i].start_time,
        )
    &&& forall|j: int|
        i < j < n && qualifies(#[trigger] queue[j], cutoff) ==> queue[i].start_time.later_than(
            queue[j].start_time,
        )
}

proof fn lemma_some_run_is_chosen(queue: Seq<Test>, cutoff: Timestamp, n: int)
    requires
        0 <= n <= queue.len(),
        exists|j: int| 0 <= j < n && qualifies(#[trigger] queue[j], cutoff),
    ensures
        exists|i: int| is_chosen_among(queue, cutoff, n, i),
    decreases n,
{
    let last = n - 1;
    if exists|j: int| 0 <= j < last && qualifies(#[trigger] queue[j], cutoff) {
        lemma_some_run_is_chosen(queue, cutoff, last);
        let best = choose|i: int| is_chosen_among(queue, cutoff, last, i);
        if qualifies(queue[last], cutoff) && !queue[best].start_time.later_than(
            queue[last].start_time,
        ) {
            lemma_step_to_later(queue, cutoff, last, best);
            assert(is_chosen_among(queue, cutoff, n, last));
        } else {
            assert(is_chosen_among(queue, cutoff, n, best));
        }
    } else {
        assert(qualifies(queue[last], cutoff));
        assert(is_chosen_among(queue, cutoff, n, last));
    }
}

proof fn lemma_step_to_later(queue: Seq<Test>, cutoff: Timestamp, last: int, best: int)
    requires
        is_chosen_among(queue, cutoff, last, best),
        0 <= last < queue.len(),
        qualifies(queue[last], cutoff),
        !queue[best].start_time.later_than(queue[last].start_time),
    ensures
        forall|j: int|
            0 <= j < last && qualifies(#[trigger] queue[j], cutoff)
                ==> !queue[j].start_time.later_than(queue[last].start_time),
{
    assert forall|j: int| 0 <= j < last && qualifies(#[trigger] queue[j], cutoff) implies !queue[j].start_time.later_than(
        queue[last].start_time,
    ) by {
        if queue[j].start_time.later_than(queue[last].start_time) {
            Timestamp::later_than_is_total(queue[best].start_time, queue[last].start_time);
            Timestamp::later_than_is_total(queue[best].start_time, queue[j].start_time);
            if queue[last].start_time.later_than(queue[best].start_time) {
                Timestamp::later_than_is_transitive(
                    queue[j].start_time,
                    queue[last].start_time,
                    queue[best].start_time,
                );
            }
        }
    }
}

/// Picks the run to watch: of the runs that were started after `cutoff`, the
/// one that was started last; of several that were started together, the one
/// that stands last in the queue.
pub fn select_run(queue: &Vec<Test>, cutoff: &Timestamp) -> (picked: Option<usize>)
    ensures
        match picked {
            Some(i) => chosen(queue@, *cutoff) == Some(i as int),
            None => chosen(queue@, *cutoff) is None,
        },
{
    let mut picked: Option<usize> = None;
    let mut n: usize = 0;
    while n < queue.len()
        invariant
            n <= queue.len(),
            match picked {
                Some(i) => is_chosen_among(queue@, *cutoff, n as int, i as int),
                None => forall|j: int| 0 <= j < n ==> !qualifies(#[trigger] queue@[j], *cutoff),
            },
        decreases queue.len() - n,
    {
        if queue[n].start_time.is_after(cutoff) {
            match picked {
                None => {
                    picked = Some(n);
                },
                Some(best) => {
                    if !queue[best].start_time.is_after(&queue[n].start_time) {
                        proof {
                            lemma_step_to_later(queue@, *cutoff, n as int, best as int);
                        }
                        picked = Some(n);
                    }
                },
            }
        }
        n += 1;
    }
    proof {
        match picked {
            Some(i) => {
                assert(is_chosen(queue@, *cutoff, i as int));
                let k = choose|k: int| is_chosen(queue@, *cutoff, k);
                chosen_is_unique(queue@, *cutoff, i as int, k);
            },
            None => {
                assert forall|k: int| !is_chosen(queue@, *cutoff, k) by {
                    if is_chosen(queue@, *cutoff, k) {
                        assert(qualifies(queue@[k], *cutoff));
                    }
                }
            },
        }
    }
    picked
}

/// What one look at the queue tells.
#[derive(Debug, Clone, Copy, PartialEq, Eq)]
pub enum Poll {
    /// The run that was queued is not in the queue yet, or has not ended.
    Wait,
    /// The run with this id has ended.
    Finished(u32),
}

/// What the queue tells about the run that was queued after `cutoff`: the
/// run to watch has ended exactly where it has an end time.
pub open spec fn poll_of(queue: Seq<Test>, cutoff: Timestamp) -> Poll {
    match chosen(queue, cutoff) {
        None => Poll::Wait,
        Some(i) => match queue[i].end_time {
            Some(_) => Poll::Finished(queue[i].id),
            None => Poll::Wait,
        },
    }
}

/// Looks at the queue once.
pub fn poll(queue: &Vec<Test>, cutoff: &Timestamp) -> (told: Poll)
    ensures
        told == poll_of(queue@, *cutoff),
{
    match select_run(queue, cutoff) {
        None => Poll::Wait,
        Some(i) => {
            proof {
                chosen_exists_iff_qualified(queue@, *cutoff);
            }
            match queue[i].end_time {
                Some(_) => Poll::Finished(queue[i].id),
                None => Poll::Wait,
            }
        },
    }
}

/// Where a cycle stands.
#[derive(Debug, Clone, Copy, PartialEq, Eq)]
pub enum Stage {
    /// The session is open; the course is not active yet.
    Authenticated,
    /// The course is active; the form has not been fetched.
    CourseActive,
    /// The form has been fetched, or found missing; nothing is uploaded yet.
    FormFetched,
    /// The solution is uploaded and the problem has a form.
    Submitted,
    /// The grading run is queued; the queue has not been looked at.
    TestEnqueued,
    /// The queue has been looked at and the run has not ended.
    Polling,
    /// The run has ended; its result has not been fetched.
    RunCompleted,
    /// The result has been fetched. The cycle is over.
    ResultFetched,
    /// The solution is uploaded and the problem has no automated tests. The
    /// cycle is over.
    TestingUnsupported,
    /// An operation failed. The cycle is over.
    Failed,
    /// The queue was looked at as often as allowed and the run has not
    /// ended. The cycle is over.
    Abandoned,
}

/// What is due in a state.
#[derive(Debug, Clone, Copy, PartialEq, Eq)]
pub enum Action {
    ActivateCourse { course_id: u32 },
    FetchForm { problem_id: u32 },
    Submit { problem_id: u32 },
    ReadClock,
    Enqueue { problem_id: u32, version: u32 },
    FetchQueue { problem_id: u32, student_id: u32 },
    Wait { millis: u32 },
    FetchResult { run_id: u32 },
    /// Nothing: the cycle is over.
    Finish,
}

/// What came of an action.
#[derive(Debug, Clone, PartialEq, Eq)]
pub enum Event {
    CourseActivated,
    FormFetched(Option<SubmitForm>),
    Submitted(Submit),
    Clock(Timestamp),
    Enqueued,
    Queue(Vec<Test>),
    Waited,
    ResultFetched,
    Failed(ListApiError),
}

pub ghost enum EventView {
    CourseActivated,
    FormFetched(Option<SubmitFormView>),
    Submitted(u32),
    Clock(Timestamp),
    Enqueued,
    Queue(Seq<Test>),
    Waited,
    ResultFetched,
    Failed(ListApiErrorView),
}

impl View for Event {
    type V = EventView;

    /// The event as the machine reads it. Of a submission it reads the
    /// version and nothing else.
    open spec fn view(&self) -> EventView {
        match self {
            Event::CourseActivated => EventView::CourseActivated,
            Event::FormFetched(form) => EventView::FormFetched(form.deep_view()),
            Event::Submitted(submit) => EventView::Submitted(submit.version),
            Event::Clock(now) => EventView::Clock(*now),
            Event::Enqueued => EventView::Enqueued,
            Event::Queue(runs) => EventView::Queue(runs@),
            Event::Waited => EventView::Waited,
            Event::ResultFetched => EventView::ResultFetched,
            Event::Failed(error) => EventView::Failed(error@),
        }
    }
}

/// How a cycle ended.
#[derive(Debug, Clone, PartialEq, Eq)]
pub enum Outcome {
    /// The run with this id has ended and its result has been fetched.
    Graded(u32),
    /// The solution is uploaded; the problem has no automated tests.
    TestingUnsupported,
    /// An operation failed.
    Failed(ListApiError),
    /// The run had not ended after this many looks at the queue.
    Abandoned(u32),
}

pub ghost enum OutcomeView {
    Graded(u32),
    TestingUnsupported,
    Failed(ListApiErrorView),
    Abandoned(u32),
}

impl View for Outcome {
    type V = OutcomeView;

    open spec fn view(&self) -> OutcomeView {
        match self {
            Outcome::Graded(run_id) => OutcomeView::Graded(*run_id),
            Outcome::TestingUnsupported => OutcomeView::TestingUnsupported,
            Outcome::Failed(error) => OutcomeView::Failed(error@),
            Outcome::Abandoned(checks) => OutcomeView::Abandoned(*checks),
        }
    }
}

impl DeepView for Outcome {
    type V = OutcomeView;

    open spec fn deep_view(&self) -> OutcomeView {
        self@
    }
}

/// The time to wait between two looks at the queue, in milliseconds.
pub const POLL_INTERVAL: u32 = 500;

/// One submit-and-grade cycle.
#[derive(Debug, Clone, PartialEq, Eq)]
pub struct Workflow {
    stage: Stage,
    course_id: u32,
    problem_id: u32,
    form: Option<SubmitForm>,
    version: u32,
    cutoff: Option<Timestamp>,
    resting: bool,
    checks: u32,
    limit: Option<u32>,
    run_id: u32,
    error: Option<ListApiError>,
}

/// The state of a cycle: its stage, the course and the problem it is for,
/// the form as fetched, the version of the upload, the time before the run
/// was queued, whether a pause is due before the next look at the queue,
/// how often the queue has been looked at and how often it may be, the id of
/// the run that ended, and the failure that ended the cycle.
pub ghost struct WorkflowView {
    pub stage: Stage,
    pub course_id: u32,
    pub problem_id: u32,
    pub form: Option<SubmitFormView>,
    pub version: u32,
    pub cutoff: Option<Timestamp>,
    pub resting: bool,
    pub checks: u32,
    pub limit: Option<u32>,
    pub run_id: u32,
    pub error: Option<ListApiErrorView>,
}

impl View for Workflow {
    type V = WorkflowView;

    closed spec fn view(&self) -> WorkflowView {
        WorkflowView {
            stage: self.stage,
            course_id: self.course_id,
            problem_id: self.problem_id,
            form: self.form.deep_view(),
            version: self.version,
            cutoff: self.cutoff,
            resting: self.resting,
            checks: self.checks,
            limit: self.limit,
            run_id: self.run_id,
            error: self.error.deep_view(),
        }
    }
}

/// The state in which a cycle for `problem_id` of `course_id` begins.
pub open spec fn initial(course_id: u32, problem_id: u32, limit: Option<u32>) -> WorkflowView {
    WorkflowView {
        stage: Stage::Authenticated,
        course_id,
        problem_id,
        form: None,
        version: 0,
        cutoff: None,
        resting: false,
        checks: 0,
        limit,
        run_id: 0,
        error: None,
    }
}

/// Whether the cycle is over.
pub open spec fn is_over(stage: Stage) -> bool {
    stage is ResultFetched || stage is TestingUnsupported || stage is Failed || stage is Abandoned
}

/// The student whose runs the cycle watches: the one that the form names.
pub open spec fn student_of(state: WorkflowView) -> u32 {
    match state.form {
        Some(form) => form.student_id,
        None => 0,
    }
}

/// The action that is due in `state`.
pub open spec fn action_of(state: WorkflowView) -> Action {
    match state.stage {
        Stage::Authenticated => Action::ActivateCourse { course_id: state.course_id },
        Stage::CourseActive => Action::FetchForm { problem_id: state.problem_id },
        Stage::FormFetched => Action::Submit { problem_id: state.problem_id },
        Stage::Submitted => if state.cutoff is None {
            Action::ReadClock
        } else {
            Action::Enqueue { problem_id: state.problem_id, version: state.version }
        },
        Stage::TestEnqueued => Action::FetchQueue {
            problem_id: state.problem_id,
            student_id: student_of(state),
        },
        Stage::Polling => if state.resting {
            Action::Wait { millis: POLL_INTERVAL }
        } else {
            Action::FetchQueue { problem_id: state.problem_id, student_id: student_of(state) }
        },
        Stage::RunCompleted => Action::FetchResult { run_id: state.run_id },
        _ => Action::Finish,
    }
}

/// The number of looks at the queue after one more.
pub open spec fn one_more(checks: u32) -> u32 {
    if checks < u32::MAX {
        (checks + 1) as u32
    } else {
        checks
    }
}

/// The state after a look at the queue that showed `runs`. The look is
/// counted. Where the run that was queued has ended, its result is due.
/// Else a pause is due, unless the queue has now been looked at as often as
/// allowed.
pub open spec fn after_look(state: WorkflowView, runs: Seq<Test>) -> WorkflowView {
    let checks = one_more(state.checks);
    match state.cutoff {
        None => state,
        Some(cutoff) => match poll_of(runs, cutoff) {
            Poll::Finished(run_id) => WorkflowView {
                stage: Stage::RunCompleted,
                checks,
                run_id,
                resting: false,
                ..state
            },
            Poll::Wait => if state.limit matches Some(limit) && checks >= limit {
                WorkflowView { stage: Stage::Abandoned, checks, resting: false, ..state }
            } else {
                WorkflowView { stage: Stage::Polling, checks, resting: true, ..state }
            },
        },
    }
}

/// The state that follows `state` on `event`. An event that does not answer
/// the action that is due leaves the state as it is. A failure ends the
/// cycle from any state in which it is not over.
pub open spec fn next_of(state: WorkflowView, event: EventView) -> WorkflowView {
    match event {
        EventView::Failed(error) => if is_over(state.stage) {
            state
        } else {
            WorkflowView { stage: Stage::Failed, error: Some(error), ..state }
        },
        EventView::CourseActivated => if state.stage is Authenticated {
            WorkflowView { stage: Stage::CourseActive, ..state }
        } else {
            state
        },
        EventView::FormFetched(form) => if state.stage is CourseActive {
            WorkflowView { stage: Stage::FormFetched, form, ..state }
        } else {
            state
        },
        EventView::Submitted(version) => if state.stage is FormFetched {
            if state.form is Some {
                WorkflowView { stage: Stage::Submitted, version, ..state }
            } else {
                WorkflowView { stage: Stage::TestingUnsupported, version, ..state }
            }
        } else {
            state
        },
        EventView::Clock(now) => if state.stage is Submitted && state.cutoff is None {
            WorkflowView { cutoff: Some(now), ..state }
        } else {
            state
        },
        EventView::Enqueued => if state.stage is Submitted && state.cutoff is Some {
            WorkflowView { stage: Stage::TestEnqueued, ..state }
        } else {
            state
        },
        EventView::Queue(runs) => if state.stage is TestEnqueued || (state.stage is Polling
            && !state.resting) {
            after_look(state, runs)
        } else {
            state
        },
        EventView::Waited => if state.stage is Polling && state.resting {
            WorkflowView { resting: false, ..state }
        } else {
            state
        },
        EventView::ResultFetched => if state.stage is RunCompleted {
            WorkflowView { stage: Stage::ResultFetched, ..state }
        } else {
            state
        },
    }
}

/// How the cycle in `state` ended; `None` while it is not over.
pub open spec fn outcome_of(state: WorkflowView) -> Option<OutcomeView> {
    match state.stage {
        Stage::ResultFetched => Some(OutcomeView::Graded(state.run_id)),
        Stage::TestingUnsupported => Some(OutcomeView::TestingUnsupported),
        Stage::Failed => match state.error {
            Some(error) => Some(OutcomeView::Failed(error)),
            None => None,
        },
        Stage::Abandoned => Some(OutcomeView::Abandoned(state.checks)),
        _ => None,
    }
}

/// What holds of every state that a cycle reaches: a run is queued and
/// watched only with a form and with the time before it was queued, and a
/// failed cycle holds its failure.
pub open spec fn well_formed(state: WorkflowView) -> bool {
    &&& state.stage is Submitted ==> state.form is Some
    &&& (state.stage is TestEnqueued || state.stage is Polling || state.stage is RunCompleted
        || state.stage is ResultFetched || state.stage is Abandoned) ==> state.form is Some
        && state.cutoff is Some
    &&& state.stage is Failed ==> state.error is Some
}

/// A cycle begins well formed.
pub proof fn initial_is_well_formed(course_id: u32, problem_id: u32, limit: Option<u32>)
    ensures
        well_formed(initial(course_id, problem_id, limit)),
{
}

/// No event makes a well-formed state ill formed.
pub proof fn well_formed_is_kept(state: WorkflowView, event: EventView)
    requires
        well_formed(state),
    ensures
        well_formed(next_of(state, event)),
{
}

/// A cycle that is over stays as it is, and asks for nothing more.
pub proof fn over_is_final(state: WorkflowView, event: EventView)
    requires
        is_over(state.stage),
    ensures
        next_of(state, event) == state,
        action_of(state) == Action::Finish,
{
}

/// A well-formed cycle has an outcome exactly where it is over.
pub proof fn outcome_iff_over(state: WorkflowView)
    requires
        well_formed(state),
    ensures
        outcome_of(state) is Some <==> is_over(state.stage),
        action_of(state) == Action::Finish <==> is_over(state.stage),
{
}

/// The state after the queue has been looked at once for each of `queues`,
/// in their order, with a pause before every look.
pub open spec fn after_looks(state: WorkflowView, queues: Seq<Seq<Test>>) -> WorkflowView
    decreases queues.len(),
{
    if queues.len() == 0 {
        state
    } else {
        next_of(
            next_of(after_looks(state, queues.drop_last()), EventView::Waited),
            EventView::Queue(queues.last()),
        )
    }
}

proof fn lemma_looks_in_vain(state: WorkflowView, queues: Seq<Seq<Test>>)
    requires
        state.stage is TestEnqueued,
        state.cutoff is Some,
        queues.len() > 0,
        state.checks + queues.len() <= u32::MAX,
        state.limit matches Some(limit) ==> state.checks + queues.len() < limit,
        forall|k: int|
            0 <= k < queues.len() ==> poll_of(#[trigger] queues[k], state.cutoff->0) == Poll::Wait,
    ensures
        after_looks(state, queues) == (WorkflowView {
            stage: Stage::Polling,
            resting: true,
            checks: (state.checks + queues.len()) as u32,
            ..state
        }),
    decreases queues.len(),
{
    let front = queues.drop_last();
    if front.len() > 0 {
        assert forall|k: int| 0 <= k < front.len() implies poll_of(
            #[trigger] front[k],
            state.cutoff->0,
        ) == Poll::Wait by {
            assert(front[k] == queues[k]);
        }
        lemma_looks_in_vain(state, front);
    } else {
        assert(after_looks(state, front) == state);
    }
    assert(poll_of(queues[queues.len() - 1], state.cutoff->0) == Poll::Wait);
}

/// The queue is looked at until the run that was queued has ended, and no
/// longer. Where every look but the last finds that the run has not ended,
/// and the last finds that the run `run_id` has ended, the cycle has then
/// counted one look for each queue, and the result of `run_id` is due. This
/// holds where the looks are within what the cycle allows.
pub proof fn looks_until_ended(state: WorkflowView, queues: Seq<Seq<Test>>, run_id: u32)
    requires
        state.stage is TestEnqueued,
        state.cutoff is Some,
        queues.len() > 0,
        state.checks + queues.len() <= u32::MAX,
        state.limit matches Some(limit) ==> state.checks + queues.len() <= limit,
        forall|k: int|
            0 <= k < queues.len() - 1 ==> poll_of(#[trigger] queues[k], state.cutoff->0)
                == Poll::Wait,
        poll_of(queues.last(), state.cutoff->0) == Poll::Finished(run_id),
    ensures
        after_looks(state, queues).stage is RunCompleted,
        after_looks(state, queues).checks == state.checks + queues.len(),
        action_of(after_looks(state, queues)) == (Action::FetchResult { run_id }),
        forall|n: int|
            0 < n < queues.len() ==> (#[trigger] after_looks(state, queues.take(n))).stage
                is Polling,
{
    let front = queues.drop_last();
    if front.len() > 0 {
        assert forall|k: int| 0 <= k < front.len() implies poll_of(
            #[trigger] front[k],
            state.cutoff->0,
        ) == Poll::Wait by {
            assert(front[k] == queues[k]);
        }
        lemma_looks_in_vain(state, front);
    } else {
        assert(after_looks(state, front) == state);
    }
    assert forall|n: int| 0 < n < queues.len() implies (#[trigger] after_looks(
        state,
        queues.take(n),
    )).stage is Polling by {
        let part = queues.take(n);
        assert forall|k: int| 0 <= k < part.len() implies poll_of(
            #[trigger] part[k],
            state.cutoff->0,
        ) == Poll::Wait by {
            assert(part[k] == queues[k]);
        }
        lemma_looks_in_vain(state, part);
    }
}

impl Workflow {
    /// Begins a cycle for `problem_id` of `course_id`. With a `limit` the
    /// queue is looked at that many times at most.
    pub fn start(course_id: u32, problem_id: u32, limit: Option<u32>) -> (cycle: Workflow)
        ensures
            cycle@ == initial(course_id, problem_id, limit),
    {
        Workflow {
            stage: Stage::Authenticated,
            course_id,
            problem_id,
            form: None,
            version: 0,
            cutoff: None,
            resting: false,
            checks: 0,
            limit,
            run_id: 0,
            error: None,
        }
    }

    /// The stage of the cycle.
    pub fn stage(&self) -> (stage: Stage)
        ensures
            stage == self@.stage,
    {
        self.stage
    }

    /// The form as it was fetched.
    pub fn form(&self) -> (form: &Option<SubmitForm>)
        ensures
            form.deep_view() == self@.form,
    {
        &self.form
    }

    /// How often the queue has been looked at.
    pub fn checks(&self) -> (checks: u32)
        ensures
            checks == self@.checks,
    {
        self.checks
    }

    /// The time before the run was queued, once the clock has been read.
    pub fn cutoff(&self) -> (cutoff: Option<Timestamp>)
        ensures
            cutoff == self@.cutoff,
    {
        self.cutoff
    }

    /// Whether the cycle is over.
    pub fn is_finished(&self) -> (over: bool)
        ensures
            over == is_over(self@.stage),
    {
        match self.stage {
            Stage::ResultFetched | Stage::TestingUnsupported | Stage::Failed | Stage::Abandoned => true,
            _ => false,
        }
    }

    /// The action that is due.
    pub fn action(&self) -> (due: Action)
        ensures
            due == action_of(self@),
    {
        let student_id = match &self.form {
            Some(form) => form.student_id,
            None => 0,
        };
        match self.stage {
            Stage::Authenticated => Action::ActivateCourse { course_id: self.course_id },
            Stage::CourseActive => Action::FetchForm { problem_id: self.problem_id },
            Stage::FormFetched => Action::Submit { problem_id: self.problem_id },
            Stage::Submitted => {
                if self.cutoff.is_none() {
                    Action::ReadClock
                } else {
                    Action::Enqueue { problem_id: self.problem_id, version: self.version }
                }
            },
            Stage::TestEnqueued => Action::FetchQueue { problem_id: self.problem_id, student_id },
            Stage::Polling => {
                if self.resting {
                    Action::Wait { millis: POLL_INTERVAL }
                } else {
                    Action::FetchQueue { problem_id: self.problem_id, student_id }
                }
            },
            Stage::RunCompleted => Action::FetchResult { run_id: self.run_id },
            _ => Action::Finish,
        }
    }

    /// Moves the cycle on by what came of the action that was due.
    pub fn advance(self, event: Event) -> (next: Workflow)
        ensures
            next@ == next_of(self@, event@),
    {
        let mut next = self;
        match event {
            Event::Failed(error) => {
                if !next.is_finished() {
                    next.stage = Stage::Failed;
                    next.error = Some(error);
                }
            },
            Event::CourseActivated => {
                if let Stage::Authenticated = next.stage {
                    next.stage = Stage::CourseActive;
                }
            },
            Event::FormFetched(form) => {
                if let Stage::CourseActive = next.stage {
                    next.stage = Stage::FormFetched;
                    next.form = form;
                }
            },
            Event::Submitted(submit) => {
                if let Stage::FormFetched = next.stage {
                    next.version = submit.version;
                    if next.form.is_some() {
                        next.stage = Stage::Submitted;
                    } else {
                        next.stage = Stage::TestingUnsupported;
                    }
                }
            },
            Event::Clock(now) => {
                if let Stage::Submitted = next.stage {
                    if next.cutoff.is_none() {
                        next.cutoff = Some(now);
                    }
                }
            },
            Event::Enqueued => {
                if let Stage::Submitted = next.stage {
                    if next.cutoff.is_some() {
                        next.stage = Stage::TestEnqueued;
                    }
                }
            },
            Event::Queue(runs) => {
                let looking = match next.stage {
                    Stage::TestEnqueued => true,
                    Stage::Polling => !next.resting,
                    _ => false,
                };
                if looking {
                    match next.cutoff {
                        None => {},
                        Some(cutoff) => {
                            let checks = if next.checks < u32::MAX {
                                next.checks + 1
                            } else {
                                next.checks
                            };
                            next.checks = checks;
                            next.resting = false;
                            match poll(&runs, &cutoff) {
                                Poll::Finished(run_id) => {
                                    next.stage = Stage::RunCompleted;
                                    next.run_id = run_id;
                                },
                                Poll::Wait => {
                                    let spent = match next.limit {
                                        Some(limit) => checks >= limit,
                                        None => false,
                                    };
                                    if spent {
                                        next.stage = Stage::Abandoned;
                                    } else {
                                        next.stage = Stage::Polling;
                                        next.resting = true;
                                    }
                                },
                            }
                        },
                    }
                }
            },
            Event::Waited => {
                if let Stage::Polling = next.stage {
                    if next.resting {
                        next.resting = false;
                    }
                }
            },
            Event::ResultFetched => {
                if let Stage::RunCompleted = next.stage {
                    next.stage = Stage::ResultFetched;
                }
            },
        }
        next
    }

    /// How the cycle ended; `None` while it is not over.
    pub fn outcome(self) -> (ended: Option<Outcome>)
        ensures
            ended.deep_view() == outcome_of(self@),
    {
        match self.stage {
            Stage::ResultFetched => Some(Outcome::Graded(self.run_id)),
            Stage::TestingUnsupported => Some(Outcome::TestingUnsupported),
            Stage::Failed => match self.error {
                Some(error) => Some(Outcome::Failed(error)),
                None => None,
            },
            Stage::Abandoned => Some(Outcome::Abandoned(self.checks)),
            _ => None,
        }
    }
}

} // verus!
