use list_submit::list_api::models::{
    Course, Problem, Submit, SubmitForm, Test, TestResult, TestResultProblem, Timestamp,
};
use list_submit::list_api::parser::{
    course_from_block, courses_from_blocks, form_from_inputs, graded_from_row, parse_all_courses, parse_problems,
    parse_run_test_form, parse_submit_form, parse_submits, parse_test_queue, parse_test_result,
    problems_from_cells, read_submit_rows, result_from_page, run_from_parts, run_from_row,
    submits_from_rows, CourseBlock, FormInputs, Link, ListParserError, QueueRow, ResultPage,
    SubmitRow,
};

fn hint_of<T: std::fmt::Debug>(read: Result<T, ListParserError>) -> String {
    match read {
        Err(ListParserError::ParseError(hint)) => hint,
        Ok(value) => panic!("expected a parse error, got {:?}", value),
    }
}

fn submit_row_html(id: &str, version: u32, name: &str) -> String {
    format!(
        "<tr>\n<td class=\"version\">\n  {version}\n</td>\n<td class=\"file\"><a href=\"https://list.fmph.uniba.sk/index.php/tasks/download_solution/5365/{id}.html\">{name}</a></td>\n<td class=\"comment\"></td>\n</tr>\n"
    )
}

fn submits_page(rows: &[(&str, u32, &str)]) -> String {
    let mut html = String::from(
        "<!DOCTYPE html><html><head><title>LIST</title></head><body>\n<h3>Riešenia</h3>\n<table class=\"solutions_table\">\n<thead><tr><th>Verzia</th><th>Súbor</th><th>Komentár</th></tr></thead>\n<tbody>\n",
    );
    for (id, version, name) in rows {
        html.push_str(&submit_row_html(id, *version, name));
    }
    html.push_str("</tbody>\n</table>\n<form><input type=\"hidden\" name=\"test[id][]\" value=\"1\"><input type=\"hidden\" name=\"test[id][]\" value=\"2\"><input type=\"hidden\" name=\"test[id][]\" value=\"3\"></form>\n</body></html>\n");
    html
}

fn twelve_submits() -> Vec<(&'static str, u32, &'static str)> {
    vec![
        ("MjIyMV9KdXJhalBldHJhc183ZDA0XzEuemlw", 1, "JurajPetras_1.zip"),
        ("MjIyMV9KdXJhalBldHJhc185MDAxXzIuemlw", 2, "JurajPetras_2.zip"),
        ("MjIyMV9KdXJhalBldHJhc183MGZmXzMuemlw", 3, "JurajPetras_3.zip"),
        ("MjIyMV9KdXJhalBldHJhc19iM2U1XzQuemlw", 4, "JurajPetras_4.zip"),
        ("MjIyMV9KdXJhalBldHJhc19mYmIxXzUuemlw", 5, "JurajPetras_5.zip"),
        ("MjIyMV9KdXJhalBldHJhc180YzJiXzYuemlw", 6, "JurajPetras_6.zip"),
        ("MjIyMV9KdXJhalBldHJhc183MDZmXzcuemlw", 7, "JurajPetras_7.zip"),
        ("MjIyMV9KdXJhalBldHJhc19kMDdiXzguemlw", 8, "JurajPetras_8.zip"),
        ("MjIyMV9KdXJhalBldHJhc18xNTE5Xzkuemlw", 9, "JurajPetras_9.zip"),
        ("MjIyMV9KdXJhalBldHJhc18xZTZlXzEwLnppcA__", 10, "JurajPetras_10.zip"),
        ("MjIyMV9KdXJhalBldHJhc19mODk3XzExLnppcA__", 11, "JurajPetras_11.zip"),
        ("MjIyMV9KdXJhalBldHJhc19iMjhmXzEyLnppcA__", 12, "JurajPetras_12.zip"),
    ]
}

#[test]
fn test_parse_submits() {
    let html = submits_page(&twelve_submits());

    let submits = parse_submits(&html, 5365).unwrap();

    assert_eq!(submits.len(), 12);

    assert_eq!(
        submits,
        vec![
            Submit {
                id: "MjIyMV9KdXJhalBldHJhc183ZDA0XzEuemlw".to_owned(),
                version: 1,
                name: "JurajPetras_1.zip".to_owned(),
                problem_id: 5365,
            },
            Submit {
                id: "MjIyMV9KdXJhalBldHJhc185MDAxXzIuemlw".to_owned(),
                version: 2,
                name: "JurajPetras_2.zip".to_owned(),
                problem_id: 5365,
            },
            Submit {
                id: "MjIyMV9KdXJhalBldHJhc183MGZmXzMuemlw".to_owned(),
                version: 3,
                name: "JurajPetras_3.zip".to_owned(),
                problem_id: 5365,
            },
            Submit {
                id: "MjIyMV9KdXJhalBldHJhc19iM2U1XzQuemlw".to_owned(),
                version: 4,
                name: "JurajPetras_4.zip".to_owned(),
                problem_id: 5365,
            },
            Submit {
                id: "MjIyMV9KdXJhalBldHJhc19mYmIxXzUuemlw".to_owned(),
                version: 5,
                name: "JurajPetras_5.zip".to_owned(),
                problem_id: 5365,
            },
            Submit {
                id: "MjIyMV9KdXJhalBldHJhc180YzJiXzYuemlw".to_owned(),
                version: 6,
                name: "JurajPetras_6.zip".to_owned(),
                problem_id: 5365,
            },
            Submit {
                id: "MjIyMV9KdXJhalBldHJhc183MDZmXzcuemlw".to_owned(),
                version: 7,
                name: "JurajPetras_7.zip".to_owned(),
                problem_id: 5365,
            },
            Submit {
                id: "MjIyMV9KdXJhalBldHJhc19kMDdiXzguemlw".to_owned(),
                version: 8,
                name: "JurajPetras_8.zip".to_owned(),
                problem_id: 5365,
            },
            Submit {
                id: "MjIyMV9KdXJhalBldHJhc18xNTE5Xzkuemlw".to_owned(),
                version: 9,
                name: "JurajPetras_9.zip".to_owned(),
                problem_id: 5365,
            },
            Submit {
                id: "MjIyMV9KdXJhalBldHJhc18xZTZlXzEwLnppcA__".to_owned(),
                version: 10,
                name: "JurajPetras_10.zip".to_owned(),
                problem_id: 5365,
            },
            Submit {
                id: "MjIyMV9KdXJhalBldHJhc19mODk3XzExLnppcA__".to_owned(),
                version: 11,
                name: "JurajPetras_11.zip".to_owned(),
                problem_id: 5365,
            },
            Submit {
                id: "MjIyMV9KdXJhalBldHJhc19iMjhmXzEyLnppcA__".to_owned(),
                version: 12,
                name: "JurajPetras_12.zip".to_owned(),
                problem_id: 5365,
            },
        ]
    );
}

#[test]
fn parse_submits_returns_one_submission_per_row_in_page_order() {
    for n in [0usize, 1, 2, 5, 12] {
        let rows = twelve_submits();
        let html = submits_page(&rows[..n]);
        let submits = parse_submits(&html, 7).unwrap();
        assert_eq!(submits.len(), n);
        for (i, submit) in submits.iter().enumerate() {
            assert_eq!(submit.id, rows[i].0);
            assert_eq!(submit.version, rows[i].1);
            assert_eq!(submit.name, rows[i].2);
            assert_eq!(submit.problem_id, 7);
        }
    }
}

#[test]
fn read_submit_rows_copies_cells_as_they_are() {
    let html = submits_page(&[("abc", 3, "a.zip")]);
    let rows = read_submit_rows(&html).unwrap();
    assert_eq!(
        rows,
        vec![SubmitRow {
            version: Some("\n  3\n".to_owned()),
            file: Some(Link {
                text: "a.zip".to_owned(),
                href: Some(
                    "https://list.fmph.uniba.sk/index.php/tasks/download_solution/5365/abc.html"
                        .to_owned()
                ),
            }),
        }]
    );
}

#[test]
fn parse_submits_takes_the_link_of_the_first_file_cell_only() {
    let html = "<table class=\"solutions_table\"><tbody><tr><td class=\"version\">1</td><td class=\"file\">none</td><td class=\"file\"><a href=\"x/y.zip\">y</a></td></tr></tbody></table>";
    assert_eq!(
        hint_of(parse_submits(html, 1)),
        "submission row without a file link"
    );
}

#[test]
fn submits_from_rows_rejects_rows_that_cannot_be_read() {
    let good = SubmitRow {
        version: Some(" 4 ".to_owned()),
        file: Some(Link { text: "s.zip".to_owned(), href: Some("/d/tok.en.zip".to_owned()) }),
    };
    assert_eq!(
        submits_from_rows(&vec![good.clone()], 9),
        Ok(vec![Submit {
            id: "tok".to_owned(),
            version: 4,
            name: "s.zip".to_owned(),
            problem_id: 9
        }])
    );

    let no_version = SubmitRow { version: None, file: good.file.clone() };
    assert_eq!(
        hint_of(submits_from_rows(&vec![good.clone(), no_version], 9)),
        "submission row without a version cell"
    );

    let bad_version = SubmitRow { version: Some("v4".to_owned()), file: good.file.clone() };
    assert_eq!(
        hint_of(submits_from_rows(&vec![bad_version, good.clone()], 9)),
        "submission version is not a number"
    );

    let no_file = SubmitRow { version: Some("1".to_owned()), file: None };
    assert_eq!(
        hint_of(submits_from_rows(&vec![no_file], 9)),
        "submission row without a file link"
    );

    let no_href = SubmitRow {
        version: Some("1".to_owned()),
        file: Some(Link { text: "s.zip".to_owned(), href: None }),
    };
    assert_eq!(
        hint_of(submits_from_rows(&vec![no_href], 9)),
        "submission file link without href"
    );

    assert_eq!(submits_from_rows(&vec![], 9), Ok(vec![]));
}

#[test]
fn submits_from_rows_reports_the_first_fault() {
    let no_version = SubmitRow { version: None, file: None };
    let no_file = SubmitRow { version: Some("1".to_owned()), file: None };
    assert_eq!(
        hint_of(submits_from_rows(&vec![no_file.clone(), no_version.clone()], 1)),
        "submission row without a file link"
    );
    assert_eq!(
        hint_of(submits_from_rows(&vec![no_version, no_file], 1)),
        "submission row without a version cell"
    );
}

#[test]
fn parse_problems_reads_id_full_id_and_name() {
    let html = "<table><tbody>\
        <tr><td class=\"td_name\"><a href=\"https://list.fmph.uniba.sk/tasks/task/5365_domaca-uloha-1.html\">Domáca úloha 1</a></td><td>x</td></tr>\
        <tr><td class=\"td_name\"><a href=\"/tasks/task/5370_du2.html\">DU <b>2</b></a></td></tr>\
        </tbody></table>";
    assert_eq!(
        parse_problems(html),
        Ok(vec![
            Problem {
                id: 5365,
                full_id: "5365_domaca-uloha-1".to_owned(),
                name: "Domáca úloha 1".to_owned()
            },
            Problem { id: 5370, full_id: "5370_du2".to_owned(), name: "DU 2".to_owned() },
        ])
    );
}

#[test]
fn parse_problems_rejects_cells_that_cannot_be_read() {
    assert_eq!(
        hint_of(parse_problems("<table><tr><td class=\"td_name\">no link</td></tr></table>")),
        "problem cell without a link"
    );
    assert_eq!(
        hint_of(parse_problems("<table><tr><td class=\"td_name\"><a>x</a></td></tr></table>")),
        "problem link without href"
    );
    assert_eq!(
        hint_of(parse_problems(
            "<table><tr><td class=\"td_name\"><a href=\"/t/du_1.html\">x</a></td></tr></table>"
        )),
        "problem id is not a number"
    );
    assert_eq!(parse_problems("<p>nothing</p>"), Ok(vec![]));
}

#[test]
fn problems_from_cells_reads_plain_cells() {
    let cell = Some(Link { text: "A".to_owned(), href: Some("12_a.html".to_owned()) });
    assert_eq!(
        problems_from_cells(&vec![cell]),
        Ok(vec![Problem { id: 12, full_id: "12_a".to_owned(), name: "A".to_owned() }])
    );
    assert_eq!(hint_of(problems_from_cells(&vec![None])), "problem cell without a link");
}

fn course_block(name: &str, id: u32, label: &str) -> String {
    format!(
        "<div class=\"period_course\"><h4>{name}</h4><p><a href=\"/teachers.html\">Učitelia</a> <a href=\"https://list.fmph.uniba.sk/courses/show_details/{id}.html\">{label}</a></p></div>"
    )
}

#[test]
fn parse_all_courses_reads_name_and_id() {
    let html = format!(
        "<html><body>{}{}</body></html>",
        course_block("Programovanie (1)", 112, "Zobraz detaily"),
        course_block("Algoritmy", 97, "Zobraz detaily")
    );
    assert_eq!(
        parse_all_courses(&html),
        Ok(vec![
            Course { id: 112, name: "Programovanie (1)".to_owned() },
            Course { id: 97, name: "Algoritmy".to_owned() },
        ])
    );
}

#[test]
fn parse_all_courses_fails_on_one_block_without_the_details_label() {
    let html = format!(
        "<html><body>{}{}{}</body></html>",
        course_block("A", 1, "Zobraz detaily"),
        course_block("B", 2, "Detaily"),
        course_block("C", 3, "Zobraz detaily")
    );
    assert_eq!(
        parse_all_courses(&html),
        Err(ListParserError::ParseError(
            "'Zobraz detaily' missing in course element".to_owned()
        ))
    );
}

#[test]
fn parse_all_courses_fails_on_a_block_without_heading_or_link() {
    let no_link = "<div class='period_course'><h4>A</h4><a href='/c/1.html'>Zobraz detaily</a></div>\
        <div class='period_course'><h4>B</h4></div>\
        <div class='period_course'><h4>C</h4><a href='/c/3.html'>Zobraz detaily</a></div>";
    assert_eq!(
        parse_all_courses(no_link),
        Err(ListParserError::ParseError("course block without a link".to_owned()))
    );
    let no_heading = format!(
        "{}<div class=\"period_course\"><p><a href=\"/c/5.html\">Zobraz detaily</a></p></div>",
        course_block("Kept", 8, "Zobraz detaily")
    );
    assert_eq!(
        parse_all_courses(&no_heading),
        Err(ListParserError::ParseError("course block without a heading".to_owned()))
    );
    let bare = "<div class=\"period_course\"></div>";
    assert_eq!(hint_of(parse_all_courses(bare)), "course block without a heading");
    assert_eq!(parse_all_courses("<p>no courses</p>"), Ok(vec![]));
}

#[test]
fn courses_from_blocks_reads_plain_blocks() {
    let details = |href: Option<&str>, text: &str| {
        Some(Link { text: text.to_owned(), href: href.map(|h| h.to_owned()) })
    };
    let block = |name: &str, id: u32| CourseBlock {
        heading: Some(name.to_owned()),
        details: details(Some(&format!("/courses/show_details/{id}.html")), "Zobraz detaily"),
    };
    let good = block("A", 31);
    assert_eq!(
        courses_from_blocks(&vec![good.clone(), block("B", 7)]),
        Ok(vec![Course { id: 31, name: "A".to_owned() }, Course { id: 7, name: "B".to_owned() }])
    );
    assert_eq!(courses_from_blocks(&vec![]), Ok(vec![]));
    let no_heading = CourseBlock { heading: None, details: details(None, "whatever") };
    assert_eq!(
        hint_of(courses_from_blocks(&vec![good.clone(), no_heading, block("C", 3)])),
        "course block without a heading"
    );
    let no_link = CourseBlock { heading: Some("B".to_owned()), details: None };
    assert_eq!(
        hint_of(courses_from_blocks(&vec![block("A", 1), no_link.clone(), block("C", 3)])),
        "course block without a link"
    );
    assert_eq!(course_from_block(&no_link).map(|course| course.id).ok(), None);
    assert_eq!(course_from_block(&good), Ok(Course { id: 31, name: "A".to_owned() }));
    let no_href =
        CourseBlock { heading: Some("A".to_owned()), details: details(None, "Zobraz detaily") };
    assert_eq!(hint_of(courses_from_blocks(&vec![no_href])), "course link without href");
    let no_number = CourseBlock {
        heading: Some("A".to_owned()),
        details: details(Some("/courses/show_details/x.html"), "Zobraz detaily"),
    };
    assert_eq!(hint_of(courses_from_blocks(&vec![good, no_number])), "course id is not a number");
    let padded = CourseBlock {
        heading: Some("A".to_owned()),
        details: details(Some("/c/1.html"), " Zobraz detaily"),
    };
    assert_eq!(
        hint_of(courses_from_blocks(&vec![padded])),
        "'Zobraz detaily' missing in course element"
    );
}

fn form_page(with_type: bool) -> String {
    let mut html = String::from(
        "<form id=\"tests_form\">\
         <input type=\"hidden\" name=\"test[task_set_id]\" value=\"2221\">\
         <input type=\"hidden\" name=\"test[student_id]\" value=\"4711\">\
         <input type=\"checkbox\" name=\"test[id][]\" value=\"901\">\
         <input type=\"checkbox\" name=\"test[id][]\">\
         <input type=\"checkbox\" name=\"test[id][]\" value=\"903\">",
    );
    if with_type {
        html.push_str("<input type=\"hidden\" name=\"select_test_type\" value=\"python_io\">");
    }
    html.push_str("</form>");
    html
}

#[test]
fn parse_submit_form_reads_the_four_fields() {
    assert_eq!(
        parse_submit_form(&form_page(true)),
        Ok(SubmitForm {
            tests: vec!["901".to_owned(), "903".to_owned()],
            task_set_id: "2221".to_owned(),
            student_id: 4711,
            select_test_type: "python_io".to_owned(),
        })
    );
}

#[test]
fn parse_submit_form_fails_without_a_single_field() {
    assert_eq!(hint_of(parse_submit_form(&form_page(false))), "input select_test_type missing");
    assert_eq!(
        hint_of(parse_submit_form("<p>no form</p>")),
        "input test[task_set_id] missing"
    );
}

#[test]
fn parse_run_test_form_tells_a_missing_form_from_a_broken_one() {
    assert_eq!(parse_run_test_form("<html><body><p>no tests</p></body></html>"), Ok(None));
    assert_eq!(
        parse_run_test_form(&form_page(true)).map(|form| form.map(|f| f.student_id)),
        Ok(Some(4711))
    );
    assert_eq!(hint_of(parse_run_test_form(&form_page(false))), "input select_test_type missing");
}

#[test]
fn form_from_inputs_reads_plain_inputs() {
    let some = |v: &str| Some(v.to_owned());
    let inputs = FormInputs {
        tests: vec![some("1"), None, some("2"), some("1")],
        task_set_id: vec![some("ts"), some("other")],
        student_id: vec![some("15")],
        select_test_type: vec![some("t")],
    };
    assert_eq!(
        form_from_inputs(&inputs),
        Ok(SubmitForm {
            tests: vec!["1".to_owned(), "2".to_owned(), "1".to_owned()],
            task_set_id: "ts".to_owned(),
            student_id: 15,
            select_test_type: "t".to_owned(),
        })
    );
    let no_value = FormInputs { task_set_id: vec![None], ..inputs.clone() };
    assert_eq!(hint_of(form_from_inputs(&no_value)), "input test[task_set_id] without value");
    let bad_student = FormInputs { student_id: vec![some(" 15")], ..inputs.clone() };
    assert_eq!(hint_of(form_from_inputs(&bad_student)), "student id is not a number");
    let no_student = FormInputs { student_id: vec![], ..inputs };
    assert_eq!(hint_of(form_from_inputs(&no_student)), "input test[student_id] missing");
}

fn stamp(year: i32, month: u32, day: u32, hour: u32, minute: u32, second: u32) -> Timestamp {
    Timestamp { year, month, day, hour, minute, second, nanosecond: 0 }
}

fn queue_row(id: u32, start: &str, end: &str) -> String {
    format!(
        "<tr><td><a href=\"https://list.fmph.uniba.sk/tasks/test_result/{id}.html\">#{id}</a></td><td>python_io</td><td>{start}</td><td>{end}</td><td>100</td></tr>"
    )
}

fn queue_page(rows: &[String]) -> String {
    format!(
        "<table><thead><tr><th>Test</th></tr></thead><tbody>{}</tbody></table>",
        rows.concat()
    )
}

#[test]
fn parse_test_queue_maps_the_mark_of_a_run_in_progress_to_no_end() {
    let html = queue_page(&[
        queue_row(801, "03.11.2023 14:05:09", "03.11.2023 14:05:31"),
        queue_row(802, "03.11.2023 14:07:00", "Ešte neukončené!"),
    ]);
    assert_eq!(
        parse_test_queue(&html),
        Ok(vec![
            Test {
                id: 801,
                start_time: stamp(2023, 11, 3, 14, 5, 9),
                end_time: Some(stamp(2023, 11, 3, 14, 5, 31)),
            },
            Test { id: 802, start_time: stamp(2023, 11, 3, 14, 7, 0), end_time: None },
        ])
    );
}

#[test]
fn parse_test_queue_fails_on_a_malformed_time() {
    let bad_end = queue_page(&[queue_row(1, "03.11.2023 14:05:09", "soon")]);
    assert_eq!(hint_of(parse_test_queue(&bad_end)), "end time of a run cannot be read");
    let empty_end = queue_page(&[queue_row(1, "03.11.2023 14:05:09", "")]);
    assert_eq!(hint_of(parse_test_queue(&empty_end)), "end time of a run cannot be read");
    let near_mark = queue_page(&[queue_row(1, "03.11.2023 14:05:09", "Ešte neukončené")]);
    assert_eq!(hint_of(parse_test_queue(&near_mark)), "end time of a run cannot be read");
    let bad_start = queue_page(&[queue_row(1, "2023-11-03 14:05:09", "Ešte neukončené!")]);
    assert_eq!(hint_of(parse_test_queue(&bad_start)), "start time of a run cannot be read");
    let bad_day = queue_page(&[queue_row(1, "31.02.2023 14:05:09", "Ešte neukončené!")]);
    assert_eq!(hint_of(parse_test_queue(&bad_day)), "start time of a run cannot be read");
}

#[test]
fn parse_test_queue_fails_on_rows_of_another_shape() {
    let short = "<table><tbody><tr><td><a href=\"/r/1.html\">1</a></td><td>x</td><td>03.11.2023 14:05:09</td></tr></tbody></table>";
    assert_eq!(hint_of(parse_test_queue(short)), "queue row with fewer than four cells");
    let no_link = "<table><tbody><tr><td>1</td><td>x</td><td>03.11.2023 14:05:09</td><td>Ešte neukončené!</td></tr></tbody></table>";
    assert_eq!(hint_of(parse_test_queue(no_link)), "queue row without a link");
    assert_eq!(parse_test_queue("<table><tbody></tbody></table>"), Ok(vec![]));
}

#[test]
fn run_from_parts_follows_the_end_cell() {
    let link = Some(Link { text: "#5".to_owned(), href: Some("/r/5.html".to_owned()) });
    let start = stamp(2024, 1, 2, 3, 4, 5);
    let end = stamp(2024, 1, 2, 3, 4, 50);
    assert_eq!(
        run_from_parts(&link, Some(start), "Ešte neukončené!", None),
        Ok(Test { id: 5, start_time: start, end_time: None })
    );
    assert_eq!(
        run_from_parts(&link, Some(start), "Ešte neukončené!", Some(end)),
        Ok(Test { id: 5, start_time: start, end_time: None })
    );
    assert_eq!(
        run_from_parts(&link, Some(start), "02.01.2024 03:04:50", Some(end)),
        Ok(Test { id: 5, start_time: start, end_time: Some(end) })
    );
    assert_eq!(
        hint_of(run_from_parts(&link, Some(start), "later", None)),
        "end time of a run cannot be read"
    );
    assert_eq!(
        hint_of(run_from_parts(&link, None, "Ešte neukončené!", None)),
        "start time of a run cannot be read"
    );
    assert_eq!(
        hint_of(run_from_parts(&None, Some(start), "Ešte neukončené!", None)),
        "queue row without a link"
    );
}

#[test]
fn run_from_row_reads_times_in_the_layout_of_the_queue() {
    let row = QueueRow {
        link: Some(Link { text: "x".to_owned(), href: Some("a/b/77.html".to_owned()) }),
        cells: vec![
            "77".to_owned(),
            "t".to_owned(),
            "29.02.2024 23:59:58".to_owned(),
            "01.03.2024 00:00:02".to_owned(),
        ],
    };
    assert_eq!(
        run_from_row(&row),
        Ok(Test {
            id: 77,
            start_time: stamp(2024, 2, 29, 23, 59, 58),
            end_time: Some(stamp(2024, 3, 1, 0, 0, 2)),
        })
    );
}

fn result_page_html(rows: &[(&str, &str, &str)], outputs: &[&str]) -> String {
    let mut html = String::from(
        "<table class=\"tests_result_sum_table\"><tbody>\
         <tr><th>a</th></tr><tr><th>b</th></tr><tr><th>c</th></tr>\
         <tr><th>Body</th><td> 7.5 </td></tr>\
         <tr><th>Bonus</th><td>\n1\n</td></tr>\
         </tbody></table>\
         <table class=\"tests_evaluation_table\"><tbody>",
    );
    for (name, percentage, points) in rows {
        html.push_str(&format!(
            "<tr><td> {name} </td><td>{percentage}</td><td>{points}</td></tr>"
        ));
    }
    html.push_str("</tbody></table>");
    for output in outputs {
        html.push_str(&format!("<fieldset><legend>out</legend><pre>{output}</pre></fieldset>"));
    }
    html
}

#[test]
fn parse_test_result_pairs_rows_and_outputs_by_place() {
    let html = result_page_html(
        &[("uloha 1", " 100% ", "5"), ("uloha 2", "50.5%", " 2.5 ")],
        &["\nOK\n", "  Traceback:\n  line 1\n"],
    );
    assert_eq!(
        parse_test_result(&html),
        Ok(TestResult {
            normal_points: "7.5".to_owned(),
            bonus_points: "1".to_owned(),
            problems: vec![
                TestResultProblem {
                    name: "uloha 1".to_owned(),
                    percentage: "100".to_owned(),
                    points: "5".to_owned(),
                    output: "OK".to_owned(),
                },
                TestResultProblem {
                    name: "uloha 2".to_owned(),
                    percentage: "50.5".to_owned(),
                    points: "2.5".to_owned(),
                    output: "Traceback:\n  line 1".to_owned(),
                },
            ],
        })
    );
}

#[test]
fn parse_test_result_fails_where_rows_and_outputs_differ_in_number() {
    let fewer_outputs = result_page_html(&[("a", "1%", "1"), ("b", "2%", "2")], &["x"]);
    assert_eq!(
        hint_of(parse_test_result(&fewer_outputs)),
        "result rows and output blocks differ in number"
    );
    let more_outputs = result_page_html(&[("a", "1%", "1")], &["x", "y"]);
    assert_eq!(
        hint_of(parse_test_result(&more_outputs)),
        "result rows and output blocks differ in number"
    );
    let none = result_page_html(&[], &[]);
    assert_eq!(parse_test_result(&none).map(|result| result.problems.len()), Ok(0));
}

#[test]
fn parse_test_result_fails_on_a_page_of_another_shape() {
    assert_eq!(hint_of(parse_test_result("<p>gone</p>")), "normal points missing");
    let four_rows = "<table class=\"tests_result_sum_table\"><tbody><tr><td>a</td></tr><tr><td>b</td></tr><tr><td>c</td></tr><tr><td>4</td></tr></tbody></table>";
    assert_eq!(hint_of(parse_test_result(four_rows)), "bonus points missing");
    let no_sign = result_page_html(&[("a", "100", "1")], &["x"]);
    assert_eq!(hint_of(parse_test_result(&no_sign)), "percentage without a percent sign");
}

#[test]
fn result_from_page_reads_plain_pages() {
    let page = ResultPage {
        normal_points: Some(" 3 ".to_owned()),
        bonus_points: Some("0".to_owned()),
        rows: vec![vec![" n ".to_owned(), " 12.5% ".to_owned(), "1".to_owned(), "x".to_owned()]],
        outputs: vec![" out ".to_owned()],
    };
    assert_eq!(
        result_from_page(&page),
        Ok(TestResult {
            normal_points: "3".to_owned(),
            bonus_points: "0".to_owned(),
            problems: vec![TestResultProblem {
                name: "n".to_owned(),
                percentage: "12.5".to_owned(),
                points: "1".to_owned(),
                output: "out".to_owned(),
            }],
        })
    );
    let short = ResultPage { rows: vec![vec!["n".to_owned(), "1%".to_owned()]], ..page.clone() };
    assert_eq!(hint_of(result_from_page(&short)), "result row with fewer than three cells");
    assert_eq!(
        hint_of(graded_from_row(&vec!["n".to_owned(), "%1".to_owned(), "1".to_owned()], "")),
        "percentage without a percent sign"
    );
}

#[test]
fn parser_error_message_names_the_kind_and_the_hint() {
    let error = ListParserError::ParseError("queue row without a link".to_owned());
    assert_eq!(error.hint(), "queue row without a link");
    assert_eq!(error.message(), "parse error: queue row without a link");
}

#[test]
fn result_from_page_rejects_texts_that_write_no_number() {
    let row = |percentage: &str, points: &str| {
        vec!["n".to_owned(), percentage.to_owned(), points.to_owned()]
    };
    let page = |normal: &str, bonus: &str, cells: Vec<String>| ResultPage {
        normal_points: Some(normal.to_owned()),
        bonus_points: Some(bonus.to_owned()),
        rows: vec![cells],
        outputs: vec!["".to_owned()],
    };
    assert!(result_from_page(&page("1", "0.5", row("100%", "1e1"))).is_ok());
    assert_eq!(
        hint_of(result_from_page(&page("many", "0", row("100%", "1")))),
        "normal points are not a number"
    );
    assert_eq!(
        hint_of(result_from_page(&page("", "0", row("100%", "1")))),
        "normal points are not a number"
    );
    assert_eq!(
        hint_of(result_from_page(&page("1", "1,5", row("100%", "1")))),
        "bonus points are not a number"
    );
    assert_eq!(
        hint_of(result_from_page(&page("1", "0", row("12.5 %", "1")))),
        "percentage is not a number"
    );
    assert_eq!(
        hint_of(result_from_page(&page("1", "0", row("%", "1")))),
        "percentage is not a number"
    );
    assert_eq!(
        hint_of(result_from_page(&page("1", "0", row("50%", "-")))),
        "points of a part are not a number"
    );
}

#[test]
fn texts_of_a_result_read_as_numbers() {
    let html = result_page_html(&[("a", "33.3%", ".5"), ("b", "1e2%", "-0")], &["x", "y"]);
    let result = parse_test_result(&html).unwrap();
    let total = result.normal_points.parse::<f32>().unwrap()
        + result.bonus_points.parse::<f32>().unwrap();
    assert_eq!(total, 8.5);
    let read: Vec<(f32, f32)> = result
        .problems
        .iter()
        .map(|part| (part.percentage.parse().unwrap(), part.points.parse().unwrap()))
        .collect();
    assert_eq!(read, vec![(33.3, 0.5), (100.0, -0.0)]);
}
