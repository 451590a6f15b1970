//! The requests that the portal understands and the meaning of its answers.

use vstd::prelude::*;
use vstd::string::*;
use crate::list_api::models::{
    Course, CourseView, Problem, ProblemView, Submit, SubmitForm, SubmitFormView, SubmitView,
    Test, TestResult, TestResultView,
};
use crate::list_api::parser::{
    courses_on_page, parse_all_courses, parse_problems, parse_run_test_form, parse_submits,
    parse_test_queue, parse_test_result, problems_on_page, queue_on_page, result_on_page,
    run_test_form_on_page, submits_on_page, ListParserError,
};
use crate::text::{contains, decimal, occurs_in, render_number, same_text};

verus! {

/// Why an operation on the portal failed.
#[derive(Debug, Clone, PartialEq, Eq)]
pub enum ListApiError {
    /// The request could not be carried out; the text says why.
    HttpError(String),
    /// The answer did not have the expected shape.
    ParseError(ListParserError),
    /// The portal did not accept the credentials.
    InvalidCredentials,
    /// The answer to the login carried no session cookie.
    NoCookie,
    /// The portal answered with a false status.
    ResponseStatusFalse,
    /// The problem has no automated tests.
    TestNotSupported,
}

pub ghost enum ListApiErrorView {
    HttpError(Seq<char>),
    ParseError(Seq<char>),
    InvalidCredentials,
    NoCookie,
    ResponseStatusFalse,
    TestNotSupported,
}

impl View for ListApiError {
    type V = ListApiErrorView;

    open spec fn view(&self) -> ListApiErrorView {
        match self {
            ListApiError::HttpError(reason) => ListApiErrorView::HttpError(reason@),
            ListApiError::ParseError(error) => ListApiErrorView::ParseError(error@),
            ListApiError::InvalidCredentials => ListApiErrorView::InvalidCredentials,
            ListApiError::NoCookie => ListApiErrorView::NoCookie,
            ListApiError::ResponseStatusFalse => ListApiErrorView::ResponseStatusFalse,
            ListApiError::TestNotSupported => ListApiErrorView::TestNotSupported,
        }
    }
}

impl DeepView for ListApiError {
    type V = ListApiErrorView;

    open spec fn deep_view(&self) -> ListApiErrorView {
        self@
    }
}

impl ListApiError {
    /// The error as one line of text.
    pub fn message(&self) -> (line: String)
        ensures
            line@ == match self@ {
                ListApiErrorView::HttpError(reason) => "http error: "@ + reason,
                ListApiErrorView::ParseError(hint) => "parse error: parse error: "@ + hint,
                ListApiErrorView::InvalidCredentials => "invalid credentials"@,
                ListApiErrorView::NoCookie => "failed to obtain session cookie"@,
                ListApiErrorView::ResponseStatusFalse => "list returned false status"@,
                ListApiErrorView::TestNotSupported =>
                    "the specified problem does not support running tests"@,
            },
    {
        match self {
            ListApiError::HttpError(reason) => {
                let mut line = "http error: ".to_owned();
                line.append(reason.as_str());
                line
            },
            ListApiError::ParseError(error) => {
                let mut line = "parse error: parse error: ".to_owned();
                line.append(error.hint());
                line
            },
            ListApiError::InvalidCredentials => "invalid credentials".to_owned(),
            ListApiError::NoCookie => "failed to obtain session cookie".to_owned(),
            ListApiError::ResponseStatusFalse => "list returned false status".to_owned(),
            ListApiError::TestNotSupported =>
                "the specified problem does not support running tests".to_owned(),
        }
    }
}

/// Whether `got` is what `expected` describes: the same value by its view, or
/// the same error by its view.
pub open spec fn answers<T: DeepView>(
    got: Result<T, ListApiError>,
    expected: Result<T::V, ListApiErrorView>,
) -> bool {
    match expected {
        Ok(value) => got matches Ok(v) && v.deep_view() == value,
        Err(error) => got matches Err(e) && e@ == error,
    }
}

/// A page's reading as the answer of an operation: a fault of the page
/// becomes a parse error with the same hint.
pub open spec fn lifted<V>(read: Result<V, Seq<char>>) -> Result<V, ListApiErrorView> {
    match read {
        Ok(value) => Ok(value),
        Err(hint) => Err(ListApiErrorView::ParseError(hint)),
    }
}

/// How a request is sent.
#[derive(Debug, Clone, Copy, PartialEq, Eq)]
pub enum Method {
    /// A `GET` without a body.
    Get,
    /// A `POST` whose body holds the fields in form encoding.
    PostForm,
    /// A `POST` whose body holds the fields and the uploaded file as parts.
    PostMultipart,
}

/// What kind of answer a request expects.
#[derive(Debug, Clone, Copy, PartialEq, Eq)]
pub enum Reply {
    /// A page of HTML.
    Page,
    /// A JSON object with the boolean member `status`.
    Status,
}

/// One field of a request body.
#[derive(Debug, Clone, PartialEq, Eq)]
pub struct Field {
    pub name: String,
    pub value: String,
}

pub ghost struct FieldView {
    pub name: Seq<char>,
    pub value: Seq<char>,
}

impl View for Field {
    type V = FieldView;

    open spec fn view(&self) -> FieldView {
        FieldView { name: self.name@, value: self.value@ }
    }
}

impl DeepView for Field {
    type V = FieldView;

    open spec fn deep_view(&self) -> FieldView {
        self@
    }
}

/// Where an uploaded file goes in a multipart body: the name of its part and
/// the file name that the part announces.
#[derive(Debug, Clone, PartialEq, Eq)]
pub struct Upload {
    pub part: String,
    pub file_name: String,
}

pub ghost struct UploadView {
    pub part: Seq<char>,
    pub file_name: Seq<char>,
}

impl View for Upload {
    type V = UploadView;

    open spec fn view(&self) -> UploadView {
        UploadView { part: self.part@, file_name: self.file_name@ }
    }
}

impl DeepView for Upload {
    type V = UploadView;

    open spec fn deep_view(&self) -> UploadView {
        self@
    }
}

/// A request to the portal, ready to be sent.
#[derive(Debug, Clone, PartialEq, Eq)]
pub struct Request {
    pub method: Method,
    pub url: String,
    pub fields: Vec<Field>,
    pub upload: Option<Upload>,
    pub reply: Reply,
}

pub ghost struct RequestView {
    pub method: Method,
    pub url: Seq<char>,
    pub fields: Seq<FieldView>,
    pub upload: Option<UploadView>,
    pub reply: Reply,
}

impl View for Request {
    type V = RequestView;

    open spec fn view(&self) -> RequestView {
        RequestView {
            method: self.method,
            url: self.url@,
            fields: self.fields.deep_view(),
            upload: self.upload.deep_view(),
            reply: self.reply,
        }
    }
}

impl DeepView for Request {
    type V = RequestView;

    open spec fn deep_view(&self) -> RequestView {
        self@
    }
}

/// The address of the portal.
pub open spec fn list_url() -> Seq<char> {
    "https://list.fmph.uniba.sk"@
}

/// The text that only a page for a logged-in student holds.
pub open spec fn login_marker() -> Seq<char> {
    "Môj účet"@
}

/// A `GET` for the page at `url`.
pub open spec fn page_request(url: Seq<char>) -> RequestView {
    RequestView {
        method: Method::Get,
        url,
        fields: Seq::empty(),
        upload: None,
        reply: Reply::Page,
    }
}

/// The request that logs a student in.
pub open spec fn login_request_of(email: Seq<char>, password: Seq<char>) -> RequestView {
    RequestView {
        method: Method::PostForm,
        url: list_url() + "/students/do_login.html"@,
        fields: seq![
            FieldView { name: "student[email]"@, value: email },
            FieldView { name: "student[password]"@, value: password },
            FieldView { name: "button_submit"@, value: "Prihlás ma"@ },
        ],
        upload: None,
        reply: Reply::Page,
    }
}

/// What the answer to a login means: without a cookie of the name
/// `cookie` the session was not opened, whatever the page says; with the
/// cookie but without the marker on the page the credentials were refused.
pub open spec fn login_outcome(cookie: Seq<char>, cookies: Seq<Seq<char>>, body: Seq<char>) -> Result<
    (),
    ListApiErrorView,
> {
    if !cookies.contains(cookie) {
        Err(ListApiErrorView::NoCookie)
    } else if !occurs_in(login_marker(), body) {
        Err(ListApiErrorView::InvalidCredentials)
    } else {
        Ok(())
    }
}

/// A login succeeds only with both the cookie and the marker. Without the
/// cookie the outcome is `NoCookie`, whether the page holds the marker or
/// not; with the cookie and without the marker it is `InvalidCredentials`.
pub proof fn login_needs_cookie_and_marker(
    cookie: Seq<char>,
    cookies: Seq<Seq<char>>,
    body: Seq<char>,
)
    ensures
        login_outcome(cookie, cookies, body) is Ok <==> cookies.contains(cookie) && occurs_in(
            login_marker(),
            body,
        ),
        !cookies.contains(cookie) ==> login_outcome(cookie, cookies, body) == Err::<
            (),
            ListApiErrorView,
        >(ListApiErrorView::NoCookie),
        cookies.contains(cookie) && !occurs_in(login_marker(), body) ==> login_outcome(
            cookie,
            cookies,
            body,
        ) == Err::<(), ListApiErrorView>(ListApiErrorView::InvalidCredentials),
{
}

/// The request that selects an academic period and lists its courses.
pub open spec fn semester_request_of(base: Seq<char>, semester_id: u32) -> RequestView {
    RequestView {
        method: Method::PostForm,
        url: base + "/courses.html"@,
        fields: seq![
            FieldView { name: "period_id"@, value: decimal(semester_id as nat) },
            FieldView { name: "submit_button"@, value: "Vyber obdobie"@ },
        ],
        upload: None,
        reply: Reply::Page,
    }
}

/// The request that makes a course the active one of the session.
pub open spec fn activate_request_of(base: Seq<char>, course_id: u32) -> RequestView {
    RequestView {
        method: Method::Get,
        url: base + "/courses/activate_course/"@ + decimal(course_id as nat) + ".html"@,
        fields: Seq::empty(),
        upload: None,
        reply: Reply::Status,
    }
}

/// The request that uploads a solution: the button field that the portal
/// looks for, and the archive as the part `file`.
pub open spec fn upload_request_of(base: Seq<char>, problem_id: u32) -> RequestView {
    RequestView {
        method: Method::PostMultipart,
        url: base + "/tasks/upload_solution/"@ + decimal(problem_id as nat) + ".html"@,
        fields: seq![FieldView { name: "submit_button"@, value: "Odovzdať riešenie"@ }],
        upload: Some(UploadView { part: "file"@, file_name: "solution.zip"@ }),
        reply: Reply::Page,
    }
}

/// The fields that repeat the test ids: one field `test[id][]` for each id,
/// in the order of the ids.
pub open spec fn test_fields(tests: Seq<Seq<char>>) -> Seq<FieldView> {
    Seq::new(tests.len(), |i: int| FieldView { name: "test[id][]"@, value: tests[i] })
}

/// The request that queues a grading run: the fields of the form as they
/// were read, the version of the submission, then the test ids.
pub open spec fn enqueue_request_of(base: Seq<char>, form: SubmitFormView, version: u32) -> RequestView {
    RequestView {
        method: Method::PostForm,
        url: base + "/fetests/enqueue_test"@,
        fields: seq![
            FieldView { name: "test[task_set_id]"@, value: form.task_set_id },
            FieldView { name: "test[student_id]"@, value: decimal(form.student_id as nat) },
            FieldView { name: "test[version]"@, value: decimal(version as nat) },
            FieldView { name: "select_test_type"@, value: form.select_test_type },
        ] + test_fields(form.tests),
        upload: None,
        reply: Reply::Status,
    }
}

/// What a status answer means: a false status is a failure of its own kind.
pub open spec fn status_outcome(status: bool) -> Result<(), ListApiErrorView> {
    if status {
        Ok(())
    } else {
        Err(ListApiErrorView::ResponseStatusFalse)
    }
}

/// The newest submission of a page: the last one that the page lists.
pub open spec fn newest_submit(read: Result<Seq<SubmitView>, Seq<char>>) -> Result<
    SubmitView,
    ListApiErrorView,
> {
    match read {
        Err(hint) => Err(ListApiErrorView::ParseError(hint)),
        Ok(submits) => if submits.len() == 0 {
            Err(ListApiErrorView::ParseError("no submission on the page"@))
        } else {
            Ok(submits.last())
        },
    }
}

fn lift<T: DeepView>(read: Result<T, ListParserError>) -> (answer: Result<T, ListApiError>)
    ensures
        forall|expected: Result<T::V, Seq<char>>|
            crate::list_api::parser::agrees(read, expected) ==> answers(answer, lifted(expected)),
{
    match read {
        Ok(value) => Ok(value),
        Err(error) => Err(ListApiError::ParseError(error)),
    }
}

fn join(head: &str, tail: &str) -> (text: String)
    ensures
        text@ == head@ + tail@,
{
    let mut text = head.to_owned();
    text.append(tail);
    text
}

fn numbered(head: &str, number: u32, tail: &str) -> (text: String)
    ensures
        text@ == head@ + decimal(number as nat) + tail@,
{
    let mut text = head.to_owned();
    text.append(render_number(number).as_str());
    text.append(tail);
    text
}

fn field(name: &str, value: &str) -> (made: Field)
    ensures
        made@ == (FieldView { name: name@, value: value@ }),
{
    Field { name: name.to_owned(), value: value.to_owned() }
}

fn get(url: String, reply: Reply) -> (request: Request)
    ensures
        request@ == (RequestView {
            method: Method::Get,
            url: url@,
            fields: Seq::empty(),
            upload: None,
            reply,
        }),
{
    let request = Request { method: Method::Get, url, fields: Vec::new(), upload: None, reply };
    assert(request.fields.deep_view() =~= Seq::empty());
    request
}

/// Whether one of `cookies` is `wanted`.
pub fn has_cookie(cookies: &Vec<String>, wanted: &str) -> (found: bool)
    ensures
        found == cookies.deep_view().contains(wanted@),
{
    let mut i: usize = 0;
    while i < cookies.len()
        invariant
            i <= cookies.len(),
            forall|j: int| 0 <= j < i ==> cookies.deep_view()[j] != wanted@,
        decreases cookies.len() - i,
    {
        assert(cookies.deep_view()[i as int] == cookies@[i as int]@);
        if same_text(cookies[i].as_str(), wanted) {
            return true;
        }
        i += 1;
    }
    false
}

/// A session with the portal: where the portal is, and which course the
/// portal holds as the active one of the session.
#[derive(Debug, Clone, PartialEq, Eq)]
pub struct ListApiClient {
    base_url: String,
    active_course: Option<u32>,
}

impl ListApiClient {
    /// The address at which the session reaches the portal.
    pub closed spec fn base(&self) -> Seq<char> {
        self.base_url@
    }

    /// The course that the session has made active, if any.
    pub closed spec fn active(&self) -> Option<u32> {
        self.active_course
    }

    /// The address at which the session reaches the portal.
    pub fn base_url(&self) -> (url: &str)
        ensures
            url@ == self.base(),
    {
        self.base_url.as_str()
    }

    /// The course that the session has made active, if any.
    pub fn active_course(&self) -> (course: Option<u32>)
        ensures
            course == self.active(),
    {
        self.active_course
    }

    /// The request that logs a student in.
    pub fn login_request(email: &str, password: &str) -> (request: Request)
        ensures
            request@ == login_request_of(email@, password@),
    {
        let mut fields: Vec<Field> = Vec::new();
        fields.push(field("student[email]", email));
        fields.push(field("student[password]", password));
        fields.push(field("button_submit", "Prihlás ma"));
        assert(fields.deep_view() =~= login_request_of(email@, password@).fields);
        Request {
            method: Method::PostForm,
            url: join("https://list.fmph.uniba.sk", "/students/do_login.html"),
            fields,
            upload: None,
            reply: Reply::Page,
        }
    }

    /// Judges the answer to a login by the names of the cookies that came
    /// with it and by its page. `session_cookie` is the name of the cookie
    /// that carries the session. The session is open only where a cookie has
    /// that name and the page holds the marker of a logged-in student:
    /// without the cookie the answer is `NoCookie` whatever the page holds,
    /// with the cookie and without the marker it is `InvalidCredentials`. A
    /// session that was just opened has no active course.
    pub fn new_with_credentials(session_cookie: &str, cookies: &Vec<String>, body: &str) -> (opened:
        Result<ListApiClient, ListApiError>)
        ensures
            match login_outcome(session_cookie@, cookies.deep_view(), body@) {
                Ok(_) => opened matches Ok(client) && client.base() == list_url()
                    && client.active() is None,
                Err(error) => opened matches Err(e) && e@ == error,
            },
    {
        if !has_cookie(cookies, session_cookie) {
            Err(ListApiError::NoCookie)
        } else if !contains(body, "Môj účet") {
            Err(ListApiError::InvalidCredentials)
        } else {
            Ok(
                ListApiClient {
                    base_url: "https://list.fmph.uniba.sk".to_owned(),
                    active_course: None,
                },
            )
        }
    }

    /// The request that lists the courses.
    pub fn get_all_course_request(&self) -> (request: Request)
        ensures
            request@ == page_request(self.base() + "/courses.html"@),
    {
        get(join(self.base_url.as_str(), "/courses.html"), Reply::Page)
    }

    /// Reads the courses from the answer.
    pub fn get_all_course(&self, body: &str) -> (answer: Result<Vec<Course>, ListApiError>)
        ensures
            answers(answer, lifted(courses_on_page(body@))),
    {
        lift(parse_all_courses(body))
    }

    /// The request that selects an academic period and lists its courses.
    pub fn mark_semester_active_and_get_courses_request(&self, semester_id: u32) -> (request:
        Request)
        ensures
            request@ == semester_request_of(self.base(), semester_id),
    {
        let mut fields: Vec<Field> = Vec::new();
        fields.push(field("period_id", render_number(semester_id).as_str()));
        fields.push(field("submit_button", "Vyber obdobie"));
        assert(fields.deep_view() =~= semester_request_of(self.base(), semester_id).fields);
        Request {
            method: Method::PostForm,
            url: join(self.base_url.as_str(), "/courses.html"),
            fields,
            upload: None,
            reply: Reply::Page,
        }
    }

    /// Reads the courses of the selected period from the answer. `accepted`
    /// says whether the portal answered with a status of success; where it
    /// did not, the page is not read.
    pub fn mark_semester_active_and_get_courses(&self, accepted: bool, body: &str) -> (answer:
        Result<Vec<Course>, ListApiError>)
        ensures
            answers(
                answer,
                if accepted {
                    lifted(courses_on_page(body@))
                } else {
                    Err(ListApiErrorView::ResponseStatusFalse)
                },
            ),
    {
        if !accepted {
            Err(ListApiError::ResponseStatusFalse)
        } else {
            lift(parse_all_courses(body))
        }
    }

    /// The request that makes `course_id` the active course.
    pub fn mark_course_active_request(&self, course_id: u32) -> (request: Request)
        ensures
            request@ == activate_request_of(self.base(), course_id),
    {
        get(
            numbered(join(self.base_url.as_str(), "/courses/activate_course/").as_str(), course_id, ".html"),
            Reply::Status,
        )
    }

    /// Takes note of the answer to the activation of `course_id`. With a
    /// true status the course is the active one from now on; with a false
    /// status the operation fails and the active course stays what it was.
    pub fn mark_course_active(&mut self, course_id: u32, status: bool) -> (answer: Result<
        (),
        ListApiError,
    >)
        ensures
            answers(answer, status_outcome(status)),
            final(self).base() == old(self).base(),
            final(self).active() == if status {
                Some(course_id)
            } else {
                old(self).active()
            },
    {
        if status {
            self.active_course = Some(course_id);
            Ok(())
        } else {
            Err(ListApiError::ResponseStatusFalse)
        }
    }

    /// The request that lists the problems of `course_id`. There is one only
    /// while that course is the active one: the portal shows the problems of
    /// the active course and of no other.
    pub fn get_problems_for_course_request(&self, course_id: u32) -> (request: Option<Request>)
        ensures
            request.deep_view() == if self.active() == Some(course_id) {
                Some(page_request(self.base() + "/tasks.html"@))
            } else {
                None
            },
    {
        match self.active_course {
            Some(active) => {
                if active == course_id {
                    Some(get(join(self.base_url.as_str(), "/tasks.html"), Reply::Page))
                } else {
                    None
                }
            },
            None => None,
        }
    }

    /// Reads the problems of the active course from the answer.
    pub fn get_problems_for_course(&self, body: &str) -> (answer: Result<
        Vec<Problem>,
        ListApiError,
    >)
        ensures
            answers(answer, lifted(problems_on_page(body@))),
    {
        lift(parse_problems(body))
    }

    /// The request that uploads a solution of `problem_id`.
    pub fn submit_solution_request(&self, problem_id: u32) -> (request: Request)
        ensures
            request@ == upload_request_of(self.base(), problem_id),
    {
        let mut fields: Vec<Field> = Vec::new();
        fields.push(field("submit_button", "Odovzdať riešenie"));
        assert(fields.deep_view() =~= upload_request_of(self.base(), problem_id).fields);
        Request {
            method: Method::PostMultipart,
            url: numbered(
                join(self.base_url.as_str(), "/tasks/upload_solution/").as_str(),
                problem_id,
                ".html",
            ),
            fields,
            upload: Some(Upload { part: "file".to_owned(), file_name: "solution.zip".to_owned() }),
            reply: Reply::Page,
        }
    }

    /// Reads the submission that an upload made from the answer: the last of
    /// the submissions that the page lists.
    pub fn submit_solution(&self, problem_id: u32, body: &str) -> (answer: Result<
        Submit,
        ListApiError,
    >)
        ensures
            answers(answer, newest_submit(submits_on_page(body@, problem_id))),
    {
        match parse_submits(body, problem_id) {
            Err(error) => Err(ListApiError::ParseError(error)),
            Ok(submits) => {
                let mut submits = submits;
                let ghost all = submits.deep_view();
                match submits.pop() {
                    None => Err(
                        ListApiError::ParseError(
                            ListParserError::ParseError("no submission on the page".to_owned()),
                        ),
                    ),
                    Some(newest) => {
                        assert(newest@ == all.last());
                        Ok(newest)
                    },
                }
            },
        }
    }

    /// The request for the page of `problem_id`, which holds the form.
    pub fn get_submit_form_request(&self, problem_id: u32) -> (request: Request)
        ensures
            request@ == page_request(
                self.base() + "/tasks/task/"@ + decimal(problem_id as nat) + ".html"@,
            ),
    {
        get(
            numbered(join(self.base_url.as_str(), "/tasks/task/").as_str(), problem_id, ".html"),
            Reply::Page,
        )
    }

    /// Reads the form from the answer; nothing where the problem has no
    /// automated tests.
    pub fn get_submit_form(&self, body: &str) -> (answer: Result<Option<SubmitForm>, ListApiError>)
        ensures
            answers(answer, lifted(run_test_form_on_page(body@))),
    {
        lift(parse_run_test_form(body))
    }

    /// The request that queues a grading run of the submission
    /// `submit_version`. Without a form there is none: the problem has no
    /// automated tests.
    pub fn run_test_for_submit_request(&self, form: &Option<SubmitForm>, submit_version: u32) -> (request:
        Result<Request, ListApiError>)
        ensures
            answers(
                request,
                match form.deep_view() {
                    Some(form) => Ok(enqueue_request_of(self.base(), form, submit_version)),
                    None => Err(ListApiErrorView::TestNotSupported),
                },
            ),
    {
        match form {
            None => Err(ListApiError::TestNotSupported),
            Some(form) => {
                let mut fields: Vec<Field> = Vec::new();
                fields.push(field("test[task_set_id]", form.task_set_id.as_str()));
                fields.push(field("test[student_id]", render_number(form.student_id).as_str()));
                fields.push(field("test[version]", render_number(submit_version).as_str()));
                fields.push(field("select_test_type", form.select_test_type.as_str()));
                let ghost wanted = enqueue_request_of(self.base(), form@, submit_version).fields;
                let mut i: usize = 0;
                while i < form.tests.len()
                    invariant
                        i <= form.tests.len(),
                        wanted == enqueue_request_of(self.base(), form@, submit_version).fields,
                        fields.deep_view() == wanted.take(4 + i),
                    decreases form.tests.len() - i,
                {
                    let ghost before = fields.deep_view();
                    let made = field("test[id][]", form.tests[i].as_str());
                    assert(form@.tests[i as int] == form.tests@[i as int]@);
                    fields.push(made);
                    assert(fields.deep_view() =~= before.push(made@));
                    assert(wanted.take(4 + i + 1) =~= wanted.take(4 + i).push(wanted[4 + i]));
                    i += 1;
                }
                assert(wanted.take(4 + i) =~= wanted);
                Ok(
                    Request {
                        method: Method::PostForm,
                        url: join(self.base_url.as_str(), "/fetests/enqueue_test"),
                        fields,
                        upload: None,
                        reply: Reply::Status,
                    },
                )
            },
        }
    }

    /// Judges the answer to the queueing of a grading run.
    pub fn run_test_for_submit(&self, status: bool) -> (answer: Result<(), ListApiError>)
        ensures
            answers(answer, status_outcome(status)),
    {
        if status {
            Ok(())
        } else {
            Err(ListApiError::ResponseStatusFalse)
        }
    }

    /// The request that lists the grading runs of `student_id` for
    /// `problem_id`.
    pub fn get_student_test_queue_request(&self, problem_id: u32, student_id: u32) -> (request:
        Request)
        ensures
            request@ == page_request(
                self.base() + "/fetests/get_student_test_queue/"@ + decimal(problem_id as nat)
                    + "/"@ + decimal(student_id as nat),
            ),
    {
        let head = numbered(
            join(self.base_url.as_str(), "/fetests/get_student_test_queue/").as_str(),
            problem_id,
            "/",
        );
        let ghost left = self.base() + "/fetests/get_student_test_queue/"@ + decimal(
            problem_id as nat,
        ) + "/"@;
        assert(head@ =~= left);
        let url = join(head.as_str(), render_number(student_id).as_str());
        get(url, Reply::Page)
    }

    /// Reads the grading runs from the answer, in the order of the page.
    pub fn get_student_test_queue(&self, body: &str) -> (answer: Result<Vec<Test>, ListApiError>)
        ensures
            answers(answer, lifted(queue_on_page(body@))),
    {
        lift(parse_test_queue(body))
    }

    /// The request for the result of the grading run `test_id`.
    pub fn get_test_result_request(&self, test_id: u32) -> (request: Request)
        ensures
            request@ == page_request(
                self.base() + "/tasks/test_result/"@ + decimal(test_id as nat) + ".html"@,
            ),
    {
        get(
            numbered(join(self.base_url.as_str(), "/tasks/test_result/").as_str(), test_id, ".html"),
            Reply::Page,
        )
    }

    /// Reads the result of a grading run from the answer.
    pub fn get_test_result(&self, body: &str) -> (answer: Result<TestResult, ListApiError>)
        ensures
            answers(answer, lifted(result_on_page(body@))),
    {
        lift(parse_test_result(body))
    }
}

} // verus!
