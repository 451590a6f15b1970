use list_submit::list_api::api::{
    has_cookie, Field, ListApiClient, ListApiError, Method, Reply, Request, Upload,
};
use list_submit::list_api::models::{Course, Submit, SubmitForm};
use list_submit::list_api::parser::ListParserError;

fn names(list: &[&str]) -> Vec<String> {
    list.iter().map(|name| name.to_string()).collect()
}

fn field(name: &str, value: &str) -> Field {
    Field { name: name.to_owned(), value: value.to_owned() }
}

fn page(url: &str) -> Request {
    Request {
        method: Method::Get,
        url: url.to_owned(),
        fields: vec![],
        upload: None,
        reply: Reply::Page,
    }
}

fn logged_in() -> ListApiClient {
    ListApiClient::new_with_credentials(
        "list_session",
        &names(&["list_session"]),
        "<a>Môj účet</a>",
    )
    .unwrap()
}

#[test]
fn login_without_the_marker_is_invalid_credentials() {
    let cookies = names(&["lang", "list_session"]);
    assert_eq!(
        ListApiClient::new_with_credentials(
            "list_session",
            &cookies,
            "<html>Prihlásenie zlyhalo</html>"
        ),
        Err(ListApiError::InvalidCredentials)
    );
}

#[test]
fn login_without_the_cookie_is_no_cookie_whatever_the_page_says() {
    assert_eq!(
        ListApiClient::new_with_credentials("list_session", &names(&[]), "<html>Môj účet</html>"),
        Err(ListApiError::NoCookie)
    );
    assert_eq!(
        ListApiClient::new_with_credentials("session", &names(&["lang"]), "<html>nothing</html>"),
        Err(ListApiError::NoCookie)
    );
    assert_eq!(
        ListApiClient::new_with_credentials("list_session", &names(&["list_session2"]), "Môj účet"),
        Err(ListApiError::NoCookie)
    );
}

#[test]
fn login_with_cookie_and_marker_opens_a_session_without_active_course() {
    let client = logged_in();
    assert_eq!(client.base_url(), "https://list.fmph.uniba.sk");
    assert_eq!(client.active_course(), None);
}

#[test]
fn fixture_scenario_login_then_courses_with_one_broken_block() {
    let client = ListApiClient::new_with_credentials(
        "session",
        &names(&["session"]),
        "<html><body><a href=\"/students/my_account.html\">Môj účet</a></body></html>",
    )
    .unwrap();
    let block = |name: &str, id: u32, label: &str| {
        format!(
            "<div class=\"period_course\"><h4>{name}</h4><a href=\"/courses/show_details/{id}.html\">{label}</a></div>"
        )
    };
    let broken = format!(
        "<html><body>{}{}{}</body></html>",
        block("A", 1, "Zobraz detaily"),
        block("B", 2, ""),
        block("C", 3, "Zobraz detaily")
    );
    assert_eq!(
        client.get_all_course(&broken),
        Err(ListApiError::ParseError(ListParserError::ParseError(
            "'Zobraz detaily' missing in course element".to_owned()
        )))
    );
    let without_link = format!(
        "<html><body>{}<div class=\"period_course\"><h4>B</h4></div>{}</body></html>",
        block("A", 1, "Zobraz detaily"),
        block("C", 3, "Zobraz detaily")
    );
    assert_eq!(
        client.get_all_course(&without_link),
        Err(ListApiError::ParseError(ListParserError::ParseError(
            "course block without a link".to_owned()
        )))
    );
    let whole = format!(
        "<html><body>{}{}{}</body></html>",
        block("A", 1, "Zobraz detaily"),
        block("B", 2, "Zobraz detaily"),
        block("C", 3, "Zobraz detaily")
    );
    assert_eq!(
        client.get_all_course(&whole),
        Ok(vec![
            Course { id: 1, name: "A".to_owned() },
            Course { id: 2, name: "B".to_owned() },
            Course { id: 3, name: "C".to_owned() },
        ])
    );
}

#[test]
fn has_cookie_compares_whole_names() {
    assert!(has_cookie(&names(&["a", "list_session"]), "list_session"));
    assert!(!has_cookie(&names(&["a", "list_sessio"]), "list_session"));
    assert!(!has_cookie(&names(&[]), "list_session"));
}

#[test]
fn login_request_posts_the_credentials_and_the_button() {
    assert_eq!(
        ListApiClient::login_request("jano@uniba.sk", "tajné heslo"),
        Request {
            method: Method::PostForm,
            url: "https://list.fmph.uniba.sk/students/do_login.html".to_owned(),
            fields: vec![
                field("student[email]", "jano@uniba.sk"),
                field("student[password]", "tajné heslo"),
                field("button_submit", "Prihlás ma"),
            ],
            upload: None,
            reply: Reply::Page,
        }
    );
}

#[test]
fn page_requests_name_their_pages() {
    let client = logged_in();
    assert_eq!(client.get_all_course_request(), page("https://list.fmph.uniba.sk/courses.html"));
    assert_eq!(
        client.get_submit_form_request(5365),
        page("https://list.fmph.uniba.sk/tasks/task/5365.html")
    );
    assert_eq!(
        client.get_student_test_queue_request(5365, 4711),
        page("https://list.fmph.uniba.sk/fetests/get_student_test_queue/5365/4711")
    );
    assert_eq!(
        client.get_test_result_request(0),
        page("https://list.fmph.uniba.sk/tasks/test_result/0.html")
    );
    assert_eq!(
        client.get_test_result_request(u32::MAX),
        page("https://list.fmph.uniba.sk/tasks/test_result/4294967295.html")
    );
}

#[test]
fn semester_request_posts_the_period() {
    let client = logged_in();
    assert_eq!(
        client.mark_semester_active_and_get_courses_request(42),
        Request {
            method: Method::PostForm,
            url: "https://list.fmph.uniba.sk/courses.html".to_owned(),
            fields: vec![field("period_id", "42"), field("submit_button", "Vyber obdobie")],
            upload: None,
            reply: Reply::Page,
        }
    );
    assert_eq!(
        client.mark_semester_active_and_get_courses(false, "<html></html>"),
        Err(ListApiError::ResponseStatusFalse)
    );
    assert_eq!(client.mark_semester_active_and_get_courses(true, "<html></html>"), Ok(vec![]));
}

#[test]
fn problems_are_listed_only_for_the_active_course() {
    let mut client = logged_in();
    assert_eq!(client.get_problems_for_course_request(12), None);
    assert_eq!(
        client.mark_course_active_request(12),
        Request {
            method: Method::Get,
            url: "https://list.fmph.uniba.sk/courses/activate_course/12.html".to_owned(),
            fields: vec![],
            upload: None,
            reply: Reply::Status,
        }
    );
    assert_eq!(client.mark_course_active(12, false), Err(ListApiError::ResponseStatusFalse));
    assert_eq!(client.active_course(), None);
    assert_eq!(client.get_problems_for_course_request(12), None);
    assert_eq!(client.mark_course_active(12, true), Ok(()));
    assert_eq!(client.active_course(), Some(12));
    assert_eq!(
        client.get_problems_for_course_request(12),
        Some(page("https://list.fmph.uniba.sk/tasks.html"))
    );
    assert_eq!(client.get_problems_for_course_request(13), None);
    assert_eq!(client.mark_course_active(13, false), Err(ListApiError::ResponseStatusFalse));
    assert_eq!(client.active_course(), Some(12));
    assert_eq!(client.get_problems_for_course("<html></html>"), Ok(vec![]));
}

#[test]
fn upload_request_names_the_button_and_the_file_part() {
    let client = logged_in();
    assert_eq!(
        client.submit_solution_request(5365),
        Request {
            method: Method::PostMultipart,
            url: "https://list.fmph.uniba.sk/tasks/upload_solution/5365.html".to_owned(),
            fields: vec![field("submit_button", "Odovzdať riešenie")],
            upload: Some(Upload { part: "file".to_owned(), file_name: "solution.zip".to_owned() }),
            reply: Reply::Page,
        }
    );
}

#[test]
fn submit_solution_returns_the_last_submission_of_the_page() {
    let client = logged_in();
    let row = |version: u32| {
        format!(
            "<tr><td class=\"version\">{version}</td><td class=\"file\"><a href=\"/d/id{version}.zip\">s{version}.zip</a></td></tr>"
        )
    };
    let html = format!(
        "<table class=\"solutions_table\"><tbody>{}{}{}</tbody></table>",
        row(3),
        row(1),
        row(2)
    );
    assert_eq!(
        client.submit_solution(77, &html),
        Ok(Submit {
            id: "id2".to_owned(),
            version: 2,
            name: "s2.zip".to_owned(),
            problem_id: 77
        })
    );
    assert_eq!(
        client.submit_solution(77, "<table class=\"solutions_table\"><tbody></tbody></table>"),
        Err(ListApiError::ParseError(ListParserError::ParseError(
            "no submission on the page".to_owned()
        )))
    );
}

#[test]
fn enqueue_request_repeats_the_form_and_the_test_ids_in_order() {
    let client = logged_in();
    let form = SubmitForm {
        tests: vec!["903".to_owned(), "901".to_owned(), "903".to_owned()],
        task_set_id: "2221".to_owned(),
        student_id: 4711,
        select_test_type: "python_io".to_owned(),
    };
    assert_eq!(
        client.run_test_for_submit_request(&Some(form), 12),
        Ok(Request {
            method: Method::PostForm,
            url: "https://list.fmph.uniba.sk/fetests/enqueue_test".to_owned(),
            fields: vec![
                field("test[task_set_id]", "2221"),
                field("test[student_id]", "4711"),
                field("test[version]", "12"),
                field("select_test_type", "python_io"),
                field("test[id][]", "903"),
                field("test[id][]", "901"),
                field("test[id][]", "903"),
            ],
            upload: None,
            reply: Reply::Status,
        })
    );
    assert_eq!(
        client.run_test_for_submit_request(&None, 12),
        Err(ListApiError::TestNotSupported)
    );
    let bare = SubmitForm {
        tests: vec![],
        task_set_id: "".to_owned(),
        student_id: 0,
        select_test_type: "".to_owned(),
    };
    assert_eq!(
        client.run_test_for_submit_request(&Some(bare), 0).map(|request| request.fields.len()),
        Ok(4)
    );
}

#[test]
fn a_false_status_is_a_failure_of_its_own_kind() {
    let client = logged_in();
    assert_eq!(client.run_test_for_submit(true), Ok(()));
    assert_eq!(client.run_test_for_submit(false), Err(ListApiError::ResponseStatusFalse));
}

#[test]
fn form_queue_and_result_answers_are_read_by_the_page_readers() {
    let client = logged_in();
    assert_eq!(client.get_submit_form("<p>none</p>"), Ok(None));
    assert_eq!(client.get_student_test_queue("<table><tbody></tbody></table>"), Ok(vec![]));
    assert_eq!(
        client.get_test_result("<p>none</p>"),
        Err(ListApiError::ParseError(ListParserError::ParseError(
            "normal points missing".to_owned()
        )))
    );
}

#[test]
fn api_error_messages() {
    assert_eq!(ListApiError::HttpError("timed out".to_owned()).message(), "http error: timed out");
    assert_eq!(
        ListApiError::ParseError(ListParserError::ParseError("x".to_owned())).message(),
        "parse error: parse error: x"
    );
    assert_eq!(ListApiError::InvalidCredentials.message(), "invalid credentials");
    assert_eq!(ListApiError::NoCookie.message(), "failed to obtain session cookie");
    assert_eq!(ListApiError::ResponseStatusFalse.message(), "list returned false status");
    assert_eq!(
        ListApiError::TestNotSupported.message(),
        "the specified problem does not support running tests"
    );
}
