//! The records that the portal's pages are read into.
//!
//! Each record that holds text has a view with the same fields, in which a
//! `String` becomes its sequence of characters.

use vstd::prelude::*;

verus! {

/// A course of one academic period.
#[derive(Debug, Clone, PartialEq, Eq)]
pub struct Course {
    pub id: u32,
    pub name: String,
}

pub ghost struct CourseView {
    pub id: u32,
    pub name: Seq<char>,
}

impl View for Course {
    type V = CourseView;

    open spec fn view(&self) -> CourseView {
        CourseView { id: self.id, name: self.name@ }
    }
}

impl DeepView for Course {
    type V = CourseView;

    open spec fn deep_view(&self) -> CourseView {
        self@
    }
}

/// An assignment of a course. `id` is the number that `full_id` starts with.
#[derive(Debug, Clone, PartialEq, Eq)]
pub struct Problem {
    pub id: u32,
    pub full_id: String,
    pub name: String,
}

pub ghost struct ProblemView {
    pub id: u32,
    pub full_id: Seq<char>,
    pub name: Seq<char>,
}

impl View for Problem {
    type V = ProblemView;

    open spec fn view(&self) -> ProblemView {
        ProblemView { id: self.id, full_id: self.full_id@, name: self.name@ }
    }
}

impl DeepView for Problem {
    type V = ProblemView;

    open spec fn deep_view(&self) -> ProblemView {
        self@
    }
}

/// One uploaded solution. `id` is the token that the portal gave it.
#[derive(Debug, Clone, PartialEq, Eq)]
pub struct Submit {
    pub id: String,
    pub version: u32,
    pub name: String,
    pub problem_id: u32,
}

pub ghost struct SubmitView {
    pub id: Seq<char>,
    pub version: u32,
    pub name: Seq<char>,
    pub problem_id: u32,
}

impl View for Submit {
    type V = SubmitView;

    open spec fn view(&self) -> SubmitView {
        SubmitView {
            id: self.id@,
            version: self.version,
            name: self.name@,
            problem_id: self.problem_id,
        }
    }
}

impl DeepView for Submit {
    type V = SubmitView;

    open spec fn deep_view(&self) -> SubmitView {
        self@
    }
}

/// A calendar date and time of day without a time zone.
///
/// Two timestamps are ordered field by field, the year first.
#[derive(Debug, Clone, Copy, PartialEq, Eq, PartialOrd, Ord)]
pub struct Timestamp {
    pub year: i32,
    pub month: u32,
    pub day: u32,
    pub hour: u32,
    pub minute: u32,
    pub second: u32,
    pub nanosecond: u32,
}

impl Timestamp {
    /// Whether `self` is strictly later than `other`.
    pub open spec fn later_than(self, other: Timestamp) -> bool {
        if self.year != other.year {
            self.year > other.year
        } else if self.month != other.month {
            self.month > other.month
        } else if self.day != other.day {
            self.day > other.day
        } else if self.hour != other.hour {
            self.hour > other.hour
        } else if self.minute != other.minute {
            self.minute > other.minute
        } else if self.second != other.second {
            self.second > other.second
        } else {
            self.nanosecond > other.nanosecond
        }
    }

    /// Whether `self` is strictly later than `other`.
    pub fn is_after(&self, other: &Timestamp) -> (later: bool)
        ensures
            later == self.later_than(*other),
    {
        if self.year != other.year {
            self.year > other.year
        } else if self.month != other.month {
            self.month > other.month
        } else if self.day != other.day {
            self.day > other.day
        } else if self.hour != other.hour {
            self.hour > other.hour
        } else if self.minute != other.minute {
            self.minute > other.minute
        } else if self.second != other.second {
            self.second > other.second
        } else {
            self.nanosecond > other.nanosecond
        }
    }

    /// Being later is irreflexive, and of two different timestamps exactly
    /// one is the later.
    pub proof fn later_than_is_total(a: Timestamp, b: Timestamp)
        ensures
            !a.later_than(a),
            a != b ==> (a.later_than(b) != b.later_than(a)),
            a == b ==> !a.later_than(b),
    {
    }

    /// Being later is transitive.
    pub proof fn later_than_is_transitive(a: Timestamp, b: Timestamp, c: Timestamp)
        requires
            a.later_than(b),
            b.later_than(c),
        ensures
            a.later_than(c),
    {
    }
}

/// One grading run. A run without an `end_time` is still in progress.
#[derive(Debug, Clone, Copy, PartialEq, Eq)]
pub struct Test {
    pub id: u32,
    pub start_time: Timestamp,
    pub end_time: Option<Timestamp>,
}

impl View for Test {
    type V = Test;

    open spec fn view(&self) -> Test {
        *self
    }
}

impl DeepView for Test {
    type V = Test;

    open spec fn deep_view(&self) -> Test {
        *self
    }
}

/// The hidden fields of the form that queues a grading run. They are sent
/// back as they were read.
#[derive(Debug, Clone, PartialEq, Eq)]
pub struct SubmitForm {
    pub tests: Vec<String>,
    pub task_set_id: String,
    pub student_id: u32,
    pub select_test_type: String,
}

pub ghost struct SubmitFormView {
    pub tests: Seq<Seq<char>>,
    pub task_set_id: Seq<char>,
    pub student_id: u32,
    pub select_test_type: Seq<char>,
}

impl View for SubmitForm {
    type V = SubmitFormView;

    open spec fn view(&self) -> SubmitFormView {
        SubmitFormView {
            tests: self.tests.deep_view(),
            task_set_id: self.task_set_id@,
            student_id: self.student_id,
            select_test_type: self.select_test_type@,
        }
    }
}

impl DeepView for SubmitForm {
    type V = SubmitFormView;

    open spec fn deep_view(&self) -> SubmitFormView {
        self@
    }
}

/// The outcome of a finished grading run. Points and percentages are kept as
/// the page writes them, trimmed, the percentage without its percent sign.
/// A result that was read from a page holds texts that write numbers.
#[derive(Debug, Clone, PartialEq, Eq)]
pub struct TestResult {
    pub normal_points: String,
    pub bonus_points: String,
    pub problems: Vec<TestResultProblem>,
}

pub ghost struct TestResultView {
    pub normal_points: Seq<char>,
    pub bonus_points: Seq<char>,
    pub problems: Seq<TestResultProblemView>,
}

impl View for TestResult {
    type V = TestResultView;

    open spec fn view(&self) -> TestResultView {
        TestResultView {
            normal_points: self.normal_points@,
            bonus_points: self.bonus_points@,
            problems: self.problems.deep_view(),
        }
    }
}

impl DeepView for TestResult {
    type V = TestResultView;

    open spec fn deep_view(&self) -> TestResultView {
        self@
    }
}

/// The grading of one part of an assignment, with what the grader printed.
#[derive(Debug, Clone, PartialEq, Eq)]
pub struct TestResultProblem {
    pub name: String,
    pub percentage: String,
    pub points: String,
    pub output: String,
}

pub ghost struct TestResultProblemView {
    pub name: Seq<char>,
    pub percentage: Seq<char>,
    pub points: Seq<char>,
    pub output: Seq<char>,
}

impl View for TestResultProblem {
    type V = TestResultProblemView;

    open spec fn view(&self) -> TestResultProblemView {
        TestResultProblemView {
            name: self.name@,
            percentage: self.percentage@,
            points: self.points@,
            output: self.output@,
        }
    }
}

impl DeepView for TestResultProblem {
    type V = TestResultProblemView;

    open spec fn deep_view(&self) -> TestResultProblemView {
        self@
    }
}

} // verus!
