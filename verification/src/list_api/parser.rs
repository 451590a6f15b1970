//! Readers for the portal's pages.
//!
//! Each page is read in two steps. A reader walks the document with a fixed
//! set of selectors and copies what it finds into plain rows; it fails only
//! where one of its selectors is no selector. A second function turns the rows
//! into records and rejects rows that lack an element or hold text that
//! cannot be read. The `parse_*` functions run one step after the other.

use vstd::prelude::*;
use crate::list_api::dom::{
    attr_of, compile_selector, compiled_selector, document_matches, element_attr,
    element_matches, element_text, parse_document, parsed_document, select_in_document,
    select_in_element, text_of,
};
use crate::list_api::clock::{read_timestamp, timestamp_of};
use crate::list_api::models::{
    Course, CourseView, Problem, ProblemView, Submit, SubmitForm, SubmitFormView, SubmitView,
    Test, TestResult, TestResultProblem, TestResultProblemView, TestResultView, Timestamp,
};
use crate::text::{
    before_first, is_number_text, link_stem, number, parse_number, same_text, stem_of_link,
    strip_suffix, take_before_first, trim, trimmed, without_suffix, writes_number,
};

verus! {

/// A page did not have the shape that its reader expects. The text says which
/// element or field was at fault.
#[derive(Debug, Clone, PartialEq, Eq)]
pub enum ListParserError {
    ParseError(String),
}

impl View for ListParserError {
    type V = Seq<char>;

    /// The hint that the error carries.
    open spec fn view(&self) -> Seq<char> {
        match self {
            ListParserError::ParseError(hint) => hint@,
        }
    }
}

impl ListParserError {
    /// The hint that the error carries.
    pub fn hint(&self) -> (hint: &str)
        ensures
            hint@ == self@,
    {
        match self {
            ListParserError::ParseError(hint) => hint.as_str(),
        }
    }

    /// The error as one line of text.
    pub fn message(&self) -> (line: String)
        ensures
            line@ == "parse error: "@ + self@,
    {
        let mut line = "parse error: ".to_owned();
        line.append(self.hint());
        line
    }
}

/// Whether `got` is what `expected` describes: the same value by its view, or
/// an error with the same hint.
pub open spec fn agrees<T: DeepView>(
    got: Result<T, ListParserError>,
    expected: Result<T::V, Seq<char>>,
) -> bool {
    match expected {
        Ok(value) => got matches Ok(v) && v.deep_view() == value,
        Err(hint) => got matches Err(e) && e@ == hint,
    }
}

fn failure<T: DeepView>(hint: &str) -> (failed: Result<T, ListParserError>)
    ensures
        agrees(failed, Err(hint@)),
{
    Err(ListParserError::ParseError(hint.to_owned()))
}

/// All the values of `results`, in order, where every one of them is a
/// success; else the hint of the first failure.
pub open spec fn collect<B>(results: Seq<Result<B, Seq<char>>>) -> Result<Seq<B>, Seq<char>>
    decreases results.len(),
{
    if results.len() == 0 {
        Ok(Seq::empty())
    } else {
        match collect(results.drop_last()) {
            Err(hint) => Err(hint),
            Ok(done) => match results.last() {
                Err(hint) => Err(hint),
                Ok(value) => Ok(done.push(value)),
            },
        }
    }
}

/// `collect` succeeds exactly where no result is a failure, and then keeps
/// every value at its place; where it fails, it fails with the hint of the
/// first failure.
pub proof fn collect_keeps_order<B>(results: Seq<Result<B, Seq<char>>>)
    ensures
        collect(results) is Ok <==> forall|i: int|
            0 <= i < results.len() ==> (#[trigger] results[i]) is Ok,
        collect(results) matches Ok(values) ==> values.len() == results.len() && forall|i: int|
            0 <= i < results.len() ==> (#[trigger] results[i]) == Ok::<B, Seq<char>>(values[i]),
        collect(results) matches Err(hint) ==> exists|k: int|
            0 <= k < results.len() && (#[trigger] results[k]) == Err::<B, Seq<char>>(hint)
                && forall|i: int| 0 <= i < k ==> (#[trigger] results[i]) is Ok,
    decreases results.len(),
{
    if results.len() > 0 {
        let front = results.drop_last();
        collect_keeps_order(front);
        assert forall|i: int| 0 <= i < front.len() implies #[trigger] front[i] == results[i] by {}
        match collect(front) {
            Err(hint) => {
                let k = choose|k: int|
                    0 <= k < front.len() && (#[trigger] front[k]) == Err::<B, Seq<char>>(hint)
                        && forall|i: int| 0 <= i < k ==> (#[trigger] front[i]) is Ok;
                assert(results[k] == Err::<B, Seq<char>>(hint));
                assert forall|i: int| 0 <= i < k implies (#[trigger] results[i]) is Ok by {
                    assert(front[i] is Ok);
                }
            },
            Ok(done) => {
                assert forall|i: int| 0 <= i < front.len() implies (#[trigger] results[i]) is Ok by {
                    assert(front[i] is Ok);
                }
                match results.last() {
                    Err(hint) => {
                        let k = results.len() - 1;
                        assert(results[k] == Err::<B, Seq<char>>(hint));
                    },
                    Ok(value) => {
                        let values = done.push(value);
                        assert forall|i: int| 0 <= i < results.len() implies (
                        #[trigger] results[i]) == Ok::<B, Seq<char>>(values[i]) by {
                            if i < front.len() {
                                assert(front[i] == Ok::<B, Seq<char>>(done[i]));
                            }
                        }
                    },
                }
            },
        }
    }
}

proof fn lemma_collect_step<B>(results: Seq<Result<B, Seq<char>>>, i: int)
    requires
        0 <= i < results.len(),
    ensures
        collect(results.take(i + 1)) == match collect(results.take(i)) {
            Err(hint) => Err(hint),
            Ok(done) => match results[i] {
                Err(hint) => Err(hint),
                Ok(value) => Ok(done.push(value)),
            },
        },
{
    assert(results.take(i + 1).drop_last() =~= results.take(i));
}

proof fn lemma_collect_stops<B>(results: Seq<Result<B, Seq<char>>>, i: int)
    requires
        0 <= i <= results.len(),
        collect(results.take(i)) is Err,
    ensures
        collect(results) == collect(results.take(i)),
    decreases results.len() - i,
{
    if i == results.len() {
        assert(results.take(i) =~= results);
    } else {
        lemma_collect_step(results, i);
        lemma_collect_stops(results, i + 1);
    }
}

proof fn lemma_collect_all<B>(results: Seq<Result<B, Seq<char>>>)
    ensures
        collect(results.take(results.len() as int)) == collect(results),
{
    assert(results.take(results.len() as int) =~= results);
}

/// A link as a reader finds it: its text and where it points.
#[derive(Debug, Clone, PartialEq, Eq)]
pub struct Link {
    pub text: String,
    pub href: Option<String>,
}

pub ghost struct LinkView {
    pub text: Seq<char>,
    pub href: Option<Seq<char>>,
}

impl View for Link {
    type V = LinkView;

    open spec fn view(&self) -> LinkView {
        LinkView { text: self.text@, href: self.href.deep_view() }
    }
}

impl DeepView for Link {
    type V = LinkView;

    open spec fn deep_view(&self) -> LinkView {
        self@
    }
}

/// The text of the first element of `found`.
pub open spec fn first_text_in(found: Seq<scraper::ElementRef>) -> Option<Seq<char>> {
    if found.len() > 0 {
        Some(element_text(found[0]))
    } else {
        None
    }
}

/// The texts of all elements of `found`.
pub open spec fn texts_in(found: Seq<scraper::ElementRef>) -> Seq<Seq<char>> {
    Seq::new(found.len(), |i: int| element_text(found[i]))
}

/// The link that the element `anchor` is.
pub open spec fn link_at(anchor: scraper::ElementRef) -> LinkView {
    LinkView { text: element_text(anchor), href: element_attr(anchor, "href"@) }
}

/// The first element of `found`, as a link.
pub open spec fn first_link_in(found: Seq<scraper::ElementRef>) -> Option<LinkView> {
    if found.len() > 0 {
        Some(link_at(found[0]))
    } else {
        None
    }
}

/// The last element of `found`, as a link.
pub open spec fn last_link_in(found: Seq<scraper::ElementRef>) -> Option<LinkView> {
    if found.len() > 0 {
        Some(link_at(found.last()))
    } else {
        None
    }
}

fn first_text(found: &Vec<scraper::ElementRef>) -> (text: Option<String>)
    ensures
        text.deep_view() == first_text_in(found@),
{
    if found.len() > 0 {
        Some(text_of(&found[0]))
    } else {
        None
    }
}

fn texts(found: &Vec<scraper::ElementRef>) -> (all: Vec<String>)
    ensures
        all.deep_view() == texts_in(found@),
{
    let mut all: Vec<String> = Vec::new();
    let mut i: usize = 0;
    while i < found.len()
        invariant
            i <= found.len(),
            all.len() == i,
            forall|j: int| 0 <= j < i ==> (#[trigger] all@[j])@ == element_text(found@[j]),
        decreases found.len() - i,
    {
        all.push(text_of(&found[i]));
        i += 1;
    }
    assert(all.deep_view() =~= texts_in(found@));
    all
}

fn link_of(anchor: &scraper::ElementRef) -> (link: Link)
    ensures
        link@ == link_at(*anchor),
{
    Link { text: text_of(anchor), href: attr_of(anchor, "href") }
}

fn first_link(found: &Vec<scraper::ElementRef>) -> (link: Option<Link>)
    ensures
        link.deep_view() == first_link_in(found@),
{
    if found.len() > 0 {
        Some(link_of(&found[0]))
    } else {
        None
    }
}

fn last_link(found: &Vec<scraper::ElementRef>) -> (link: Option<Link>)
    ensures
        link.deep_view() == last_link_in(found@),
{
    if found.len() > 0 {
        Some(link_of(&found[found.len() - 1]))
    } else {
        None
    }
}

/// The hint of the error that a reader returns where one of its selectors is
/// rejected.
pub open spec fn selector_hint() -> Seq<char> {
    "selector rejected"@
}

// ---------------------------------------------------------------------------
// Submissions
// ---------------------------------------------------------------------------

/// One row of the table of submissions: the text of its version cell and the
/// first link of its file cell, as far as the row has them.
#[derive(Debug, Clone, PartialEq, Eq)]
pub struct SubmitRow {
    pub version: Option<String>,
    pub file: Option<Link>,
}

pub ghost struct SubmitRowView {
    pub version: Option<Seq<char>>,
    pub file: Option<LinkView>,
}

impl View for SubmitRow {
    type V = SubmitRowView;

    open spec fn view(&self) -> SubmitRowView {
        SubmitRowView { version: self.version.deep_view(), file: self.file.deep_view() }
    }
}

impl DeepView for SubmitRow {
    type V = SubmitRowView;

    open spec fn deep_view(&self) -> SubmitRowView {
        self@
    }
}

/// What the reader of the submissions page copies from one table row.
pub open spec fn submit_row_at(
    row: scraper::ElementRef,
    version: scraper::Selector,
    file: scraper::Selector,
    anchor: scraper::Selector,
) -> SubmitRowView {
    let cells = element_matches(row, file);
    SubmitRowView {
        version: first_text_in(element_matches(row, version)),
        file: if cells.len() > 0 {
            first_link_in(element_matches(cells[0], anchor))
        } else {
            None
        },
    }
}

/// The rows of the submissions page `html`: one for each element that
/// `table.solutions_table tbody tr` matches, in that order. `None` where a
/// selector is rejected.
pub open spec fn submit_rows(html: Seq<char>) -> Option<Seq<SubmitRowView>> {
    match (
        compiled_selector("table.solutions_table tbody tr"@),
        compiled_selector("td.version"@),
        compiled_selector("td.file"@),
        compiled_selector("a"@),
    ) {
        (Some(rows), Some(version), Some(file), Some(anchor)) => {
            let found = document_matches(parsed_document(html), rows);
            Some(Seq::new(found.len(), |i: int| submit_row_at(found[i], version, file, anchor)))
        },
        _ => None,
    }
}

/// Copies the rows of the submissions page.
pub fn read_submit_rows(html: &str) -> (rows: Option<Vec<SubmitRow>>)
    ensures
        rows.deep_view() == submit_rows(html@),
{
    let rows_selector = compile_selector("table.solutions_table tbody tr");
    let version_selector = compile_selector("td.version");
    let file_selector = compile_selector("td.file");
    let anchor_selector = compile_selector("a");
    match (rows_selector, version_selector, file_selector, anchor_selector) {
        (Some(rows_selector), Some(version_selector), Some(file_selector), Some(anchor_selector)) => {
            let document = parse_document(html);
            let found = select_in_document(&document, &rows_selector);
            let mut rows: Vec<SubmitRow> = Vec::new();
            let mut i: usize = 0;
            while i < found.len()
                invariant
                    i <= found.len(),
                    rows.len() == i,
                    forall|j: int|
                        0 <= j < i ==> (#[trigger] rows@[j])@ == submit_row_at(
                            found@[j],
                            version_selector,
                            file_selector,
                            anchor_selector,
                        ),
                decreases found.len() - i,
            {
                let cells = select_in_element(&found[i], &file_selector);
                let file = if cells.len() > 0 {
                    first_link(&select_in_element(&cells[0], &anchor_selector))
                } else {
                    None
                };
                let version = first_text(&select_in_element(&found[i], &version_selector));
                rows.push(SubmitRow { version, file });
                i += 1;
            }
            assert(rows.deep_view() =~= submit_rows(html@)->0);
            Some(rows)
        },
        _ => None,
    }
}

/// The submission that one row describes: the version is the number in the
/// trimmed version cell, the id is the stem of the link, the name is the
/// text of the link.
pub open spec fn submit_of(row: SubmitRowView, problem_id: u32) -> Result<SubmitView, Seq<char>> {
    match row.version {
        None => Err("submission row without a version cell"@),
        Some(version) => match number(trimmed(version)) {
            None => Err("submission version is not a number"@),
            Some(version) => match row.file {
                None => Err("submission row without a file link"@),
                Some(link) => match link.href {
                    None => Err("submission file link without href"@),
                    Some(href) => Ok(
                        SubmitView {
                            id: link_stem(href),
                            version,
                            name: link.text,
                            problem_id,
                        },
                    ),
                },
            },
        },
    }
}

/// What each of `rows` describes, at the place of its row.
pub open spec fn submit_results(rows: Seq<SubmitRowView>, problem_id: u32) -> Seq<
    Result<SubmitView, Seq<char>>,
> {
    Seq::new(rows.len(), |i: int| submit_of(rows[i], problem_id))
}

/// The submissions that `rows` describe, in the order of the rows; the first
/// fault where a row cannot be read.
pub open spec fn submits_of(rows: Seq<SubmitRowView>, problem_id: u32) -> Result<
    Seq<SubmitView>,
    Seq<char>,
> {
    collect(submit_results(rows, problem_id))
}

/// Reads one submission from its row.
pub fn submit_from_row(row: &SubmitRow, problem_id: u32) -> (read: Result<Submit, ListParserError>)
    ensures
        agrees(read, submit_of(row@, problem_id)),
{
    match &row.version {
        None => failure("submission row without a version cell"),
        Some(version) => match parse_number(trim(version.as_str())) {
            None => failure("submission version is not a number"),
            Some(version) => match &row.file {
                None => failure("submission row without a file link"),
                Some(link) => match &link.href {
                    None => failure("submission file link without href"),
                    Some(href) => Ok(
                        Submit {
                            id: stem_of_link(href.as_str()).to_owned(),
                            version,
                            name: link.text.clone(),
                            problem_id,
                        },
                    ),
                },
            },
        },
    }
}

/// Reads the submissions from the rows of their table. Succeeds exactly where
/// every row can be read, with one submission for each row, in the order of
/// the rows.
pub fn submits_from_rows(rows: &Vec<SubmitRow>, problem_id: u32) -> (read: Result<
    Vec<Submit>,
    ListParserError,
>)
    ensures
        agrees(read, submits_of(rows.deep_view(), problem_id)),
        read matches Ok(submits) ==> submits.len() == rows.len() && forall|i: int|
            0 <= i < rows.len() ==> submit_of(#[trigger] rows[i]@, problem_id) == Ok::<
                SubmitView,
                Seq<char>,
            >(submits[i]@),
{
    let ghost results = submit_results(rows.deep_view(), problem_id);
    let mut submits: Vec<Submit> = Vec::new();
    let mut i: usize = 0;
    assert(results.take(0).len() == 0);
    assert(submits.deep_view() =~= Seq::empty());
    while i < rows.len()
        invariant
            i <= rows.len(),
            results == submit_results(rows.deep_view(), problem_id),
            collect(results.take(i as int)) == Ok::<Seq<SubmitView>, Seq<char>>(
                submits.deep_view(),
            ),
        decreases rows.len() - i,
    {
        proof {
            lemma_collect_step(results, i as int);
        }
        match submit_from_row(&rows[i], problem_id) {
            Err(error) => {
                proof {
                    lemma_collect_stops(results, i + 1);
                }
                return Err(error);
            },
            Ok(submit) => {
                let ghost before = submits.deep_view();
                submits.push(submit);
                assert(submits.deep_view() =~= before.push(submit@));
            },
        }
        i += 1;
    }
    proof {
        lemma_collect_all(results);
        collect_keeps_order(results);
        assert forall|i: int| 0 <= i < rows.len() implies submit_of(
            #[trigger] rows[i]@,
            problem_id,
        ) == Ok::<SubmitView, Seq<char>>(submits[i]@) by {
            assert(results[i] == Ok::<SubmitView, Seq<char>>(submits.deep_view()[i]));
        }
    }
    Ok(submits)
}

/// What the submissions page `html` holds for the problem `problem_id`.
pub open spec fn submits_on_page(html: Seq<char>, problem_id: u32) -> Result<
    Seq<SubmitView>,
    Seq<char>,
> {
    match submit_rows(html) {
        None => Err(selector_hint()),
        Some(rows) => submits_of(rows, problem_id),
    }
}

/// A page of submissions is read as one submission for each of its rows, in
/// the order of the rows: the id of each is the stem of the row's link and
/// its version is the number in the row's trimmed version cell.
pub proof fn page_has_one_submit_per_row(html: Seq<char>, problem_id: u32)
    ensures
        submits_on_page(html, problem_id) matches Ok(submits) ==> submit_rows(html) matches Some(
            rows,
        ) && submits.len() == rows.len() && forall|i: int|
            0 <= i < rows.len() ==> {
                &&& submit_of(#[trigger] rows[i], problem_id) == Ok::<SubmitView, Seq<char>>(
                    submits[i],
                )
                &&& rows[i].version matches Some(cell)
                &&& number(trimmed(cell)) == Some(submits[i].version)
                &&& rows[i].file matches Some(link)
                &&& link.href matches Some(href)
                &&& submits[i].id == link_stem(href)
                &&& submits[i].name == link.text
                &&& submits[i].problem_id == problem_id
            },
{
    if let Some(rows) = submit_rows(html) {
        collect_keeps_order(submit_results(rows, problem_id));
        if let Ok(submits) = submits_of(rows, problem_id) {
            assert forall|i: int| 0 <= i < rows.len() implies {
                &&& submit_of(#[trigger] rows[i], problem_id) == Ok::<SubmitView, Seq<char>>(
                    submits[i],
                )
                &&& rows[i].version matches Some(cell)
                &&& number(trimmed(cell)) == Some(submits[i].version)
                &&& rows[i].file matches Some(link)
                &&& link.href matches Some(href)
                &&& submits[i].id == link_stem(href)
                &&& submits[i].name == link.text
                &&& submits[i].problem_id == problem_id
            } by {
                assert(submit_results(rows, problem_id)[i] == Ok::<SubmitView, Seq<char>>(
                    submits[i],
                ));
            }
        }
    }
}

/// Reads the page that lists the submissions of one problem: one submission
/// for each table row, in the order of the page.
pub fn parse_submits(html: &str, problem_id: u32) -> (read: Result<Vec<Submit>, ListParserError>)
    ensures
        agrees(read, submits_on_page(html@, problem_id)),
{
    match read_submit_rows(html) {
        None => failure("selector rejected"),
        Some(rows) => submits_from_rows(&rows, problem_id),
    }
}

// ---------------------------------------------------------------------------
// Problems
// ---------------------------------------------------------------------------

/// The cells of the problems page `html`: for each element that `td.td_name`
/// matches, in that order, the first link in it. `None` where a selector is
/// rejected.
pub open spec fn problem_cells(html: Seq<char>) -> Option<Seq<Option<LinkView>>> {
    match (compiled_selector("td.td_name"@), compiled_selector("a"@)) {
        (Some(cells), Some(anchor)) => {
            let found = document_matches(parsed_document(html), cells);
            Some(Seq::new(found.len(), |i: int| first_link_in(element_matches(found[i], anchor))))
        },
        _ => None,
    }
}

/// Copies the name cells of the problems page.
pub fn read_problem_cells(html: &str) -> (cells: Option<Vec<Option<Link>>>)
    ensures
        cells.deep_view() == problem_cells(html@),
{
    match (compile_selector("td.td_name"), compile_selector("a")) {
        (Some(cells_selector), Some(anchor_selector)) => {
            let document = parse_document(html);
            let found = select_in_document(&document, &cells_selector);
            let mut cells: Vec<Option<Link>> = Vec::new();
            let mut i: usize = 0;
            while i < found.len()
                invariant
                    i <= found.len(),
                    cells.len() == i,
                    forall|j: int|
                        0 <= j < i ==> (#[trigger] cells@[j]).deep_view() == first_link_in(
                            element_matches(found@[j], anchor_selector),
                        ),
                decreases found.len() - i,
            {
                cells.push(first_link(&select_in_element(&found[i], &anchor_selector)));
                i += 1;
            }
            assert(cells.deep_view() =~= problem_cells(html@)->0);
            Some(cells)
        },
        _ => None,
    }
}

/// The problem that one name cell describes: the full id is the stem of the
/// link, the id is the number before the first underscore of the full id,
/// the name is the text of the link.
pub open spec fn problem_of(cell: Option<LinkView>) -> Result<ProblemView, Seq<char>> {
    match cell {
        None => Err("problem cell without a link"@),
        Some(link) => match link.href {
            None => Err("problem link without href"@),
            Some(href) => match number(before_first(link_stem(href), '_')) {
                None => Err("problem id is not a number"@),
                Some(id) => Ok(ProblemView { id, full_id: link_stem(href), name: link.text }),
            },
        },
    }
}

/// What each of `cells` describes, at the place of its cell.
pub open spec fn problem_results(cells: Seq<Option<LinkView>>) -> Seq<
    Result<ProblemView, Seq<char>>,
> {
    Seq::new(cells.len(), |i: int| problem_of(cells[i]))
}

/// The problems that `cells` describe, in the order of the cells; the first
/// fault where a cell cannot be read.
pub open spec fn problems_of(cells: Seq<Option<LinkView>>) -> Result<Seq<ProblemView>, Seq<char>> {
    collect(problem_results(cells))
}

/// Reads one problem from its name cell.
pub fn problem_from_cell(cell: &Option<Link>) -> (read: Result<Problem, ListParserError>)
    ensures
        agrees(read, problem_of(cell.deep_view())),
{
    match cell {
        None => failure("problem cell without a link"),
        Some(link) => match &link.href {
            None => failure("problem link without href"),
            Some(href) => {
                let full_id = stem_of_link(href.as_str());
                match parse_number(take_before_first(full_id, '_')) {
                    None => failure("problem id is not a number"),
                    Some(id) => Ok(
                        Problem { id, full_id: full_id.to_owned(), name: link.text.clone() },
                    ),
                }
            },
        },
    }
}

/// Reads the problems from the name cells of their table. Succeeds exactly
/// where every cell can be read, with one problem for each cell, in order.
pub fn problems_from_cells(cells: &Vec<Option<Link>>) -> (read: Result<
    Vec<Problem>,
    ListParserError,
>)
    ensures
        agrees(read, problems_of(cells.deep_view())),
        read matches Ok(problems) ==> problems.len() == cells.len(),
{
    let ghost results = problem_results(cells.deep_view());
    let mut problems: Vec<Problem> = Vec::new();
    let mut i: usize = 0;
    assert(results.take(0).len() == 0);
    assert(problems.deep_view() =~= Seq::empty());
    while i < cells.len()
        invariant
            i <= cells.len(),
            problems.len() == i,
            results == problem_results(cells.deep_view()),
            collect(results.take(i as int)) == Ok::<Seq<ProblemView>, Seq<char>>(
                problems.deep_view(),
            ),
        decreases cells.len() - i,
    {
        proof {
            lemma_collect_step(results, i as int);
        }
        match problem_from_cell(&cells[i]) {
            Err(error) => {
                proof {
                    lemma_collect_stops(results, i + 1);
                }
                return Err(error);
            },
            Ok(problem) => {
                let ghost before = problems.deep_view();
                problems.push(problem);
                assert(problems.deep_view() =~= before.push(problem@));
            },
        }
        i += 1;
    }
    proof {
        lemma_collect_all(results);
    }
    Ok(problems)
}

/// What the problems page `html` holds.
pub open spec fn problems_on_page(html: Seq<char>) -> Result<Seq<ProblemView>, Seq<char>> {
    match problem_cells(html) {
        None => Err(selector_hint()),
        Some(cells) => problems_of(cells),
    }
}

/// Reads the page that lists the problems of the active course: one problem
/// for each name cell, in the order of the page.
pub fn parse_problems(html: &str) -> (read: Result<Vec<Problem>, ListParserError>)
    ensures
        agrees(read, problems_on_page(html@)),
{
    match read_problem_cells(html) {
        None => failure("selector rejected"),
        Some(cells) => problems_from_cells(&cells),
    }
}

// ---------------------------------------------------------------------------
// Courses
// ---------------------------------------------------------------------------

/// One course block: the text of its first heading and the last link in it,
/// as far as the block has them.
#[derive(Debug, Clone, PartialEq, Eq)]
pub struct CourseBlock {
    pub heading: Option<String>,
    pub details: Option<Link>,
}

pub ghost struct CourseBlockView {
    pub heading: Option<Seq<char>>,
    pub details: Option<LinkView>,
}

impl View for CourseBlock {
    type V = CourseBlockView;

    open spec fn view(&self) -> CourseBlockView {
        CourseBlockView { heading: self.heading.deep_view(), details: self.details.deep_view() }
    }
}

impl DeepView for CourseBlock {
    type V = CourseBlockView;

    open spec fn deep_view(&self) -> CourseBlockView {
        self@
    }
}

/// What the reader of the courses page copies from one course block.
pub open spec fn course_block_at(
    block: scraper::ElementRef,
    heading: scraper::Selector,
    anchor: scraper::Selector,
) -> CourseBlockView {
    CourseBlockView {
        heading: first_text_in(element_matches(block, heading)),
        details: last_link_in(element_matches(block, anchor)),
    }
}

/// The blocks of the courses page `html`: one for each element that
/// `div.period_course` matches, in that order. `None` where a selector is
/// rejected.
pub open spec fn course_blocks(html: Seq<char>) -> Option<Seq<CourseBlockView>> {
    match (
        compiled_selector("div.period_course"@),
        compiled_selector("h4"@),
        compiled_selector("a"@),
    ) {
        (Some(blocks), Some(heading), Some(anchor)) => {
            let found = document_matches(parsed_document(html), blocks);
            Some(Seq::new(found.len(), |i: int| course_block_at(found[i], heading, anchor)))
        },
        _ => None,
    }
}

/// Copies the course blocks of the courses page.
pub fn read_course_blocks(html: &str) -> (blocks: Option<Vec<CourseBlock>>)
    ensures
        blocks.deep_view() == course_blocks(html@),
{
    match (compile_selector("div.period_course"), compile_selector("h4"), compile_selector("a")) {
        (Some(blocks_selector), Some(heading_selector), Some(anchor_selector)) => {
            let document = parse_document(html);
            let found = select_in_document(&document, &blocks_selector);
            let mut blocks: Vec<CourseBlock> = Vec::new();
            let mut i: usize = 0;
            while i < found.len()
                invariant
                    i <= found.len(),
                    blocks.len() == i,
                    forall|j: int|
                        0 <= j < i ==> (#[trigger] blocks@[j])@ == course_block_at(
                            found@[j],
                            heading_selector,
                            anchor_selector,
                        ),
                decreases found.len() - i,
            {
                let heading = first_text(&select_in_element(&found[i], &heading_selector));
                let details = last_link(&select_in_element(&found[i], &anchor_selector));
                blocks.push(CourseBlock { heading, details });
                i += 1;
            }
            assert(blocks.deep_view() =~= course_blocks(html@)->0);
            Some(blocks)
        },
        _ => None,
    }
}

/// The label that the last link of a course block must carry.
pub open spec fn details_label() -> Seq<char> {
    "Zobraz detaily"@
}

/// The course that one block describes. The block must have a heading and
/// a link, and its last link must carry the details label; the id of the
/// course is the number that the stem of that link writes, its name is the
/// heading.
pub open spec fn course_of(block: CourseBlockView) -> Result<CourseView, Seq<char>> {
    match block.heading {
        None => Err("course block without a heading"@),
        Some(name) => match block.details {
            None => Err("course block without a link"@),
            Some(link) => if link.text != details_label() {
                Err("'Zobraz detaily' missing in course element"@)
            } else {
                match link.href {
                    None => Err("course link without href"@),
                    Some(href) => match number(link_stem(href)) {
                        None => Err("course id is not a number"@),
                        Some(id) => Ok(CourseView { id, name }),
                    },
                }
            },
        },
    }
}

/// What each of `blocks` describes, at the place of its block.
pub open spec fn course_results(blocks: Seq<CourseBlockView>) -> Seq<
    Result<CourseView, Seq<char>>,
> {
    Seq::new(blocks.len(), |i: int| course_of(blocks[i]))
}

/// The courses that `blocks` describe, in the order of the blocks; the first
/// fault where a block cannot be read.
pub open spec fn courses_of(blocks: Seq<CourseBlockView>) -> Result<Seq<CourseView>, Seq<char>> {
    collect(course_results(blocks))
}

/// A page of courses is read in full or not at all: the reading succeeds
/// exactly where every block describes a course, and then gives one course
/// for each block, in the order of the blocks. One block at fault makes it
/// fail whatever the other blocks hold.
pub proof fn courses_all_or_nothing(blocks: Seq<CourseBlockView>)
    ensures
        courses_of(blocks) is Ok <==> forall|i: int|
            0 <= i < blocks.len() ==> course_of(#[trigger] blocks[i]) is Ok,
        courses_of(blocks) matches Ok(courses) ==> courses.len() == blocks.len() && forall|i: int|
            0 <= i < blocks.len() ==> course_of(#[trigger] blocks[i]) == Ok::<
                CourseView,
                Seq<char>,
            >(courses[i]),
{
    let results = course_results(blocks);
    collect_keeps_order(results);
    if courses_of(blocks) is Ok {
        let courses = courses_of(blocks)->Ok_0;
        assert forall|i: int| 0 <= i < blocks.len() implies course_of(#[trigger] blocks[i])
            == Ok::<CourseView, Seq<char>>(courses[i]) by {
            assert(results[i] == Ok::<CourseView, Seq<char>>(courses[i]));
        }
    } else {
        let hint = courses_of(blocks)->Err_0;
        let k = choose|k: int|
            0 <= k < results.len() && (#[trigger] results[k]) == Err::<CourseView, Seq<char>>(hint)
                && forall|i: int| 0 <= i < k ==> (#[trigger] results[i]) is Ok;
        assert(course_of(blocks[k]) is Err);
    }
    if forall|i: int| 0 <= i < blocks.len() ==> course_of(#[trigger] blocks[i]) is Ok {
        assert forall|i: int| 0 <= i < results.len() implies (#[trigger] results[i]) is Ok by {
            assert(course_of(blocks[i]) is Ok);
        }
    }
}

/// Reads one course from its block.
pub fn course_from_block(block: &CourseBlock) -> (read: Result<Course, ListParserError>)
    ensures
        agrees(read, course_of(block@)),
{
    match &block.heading {
        None => failure("course block without a heading"),
        Some(name) => match &block.details {
            None => failure("course block without a link"),
            Some(link) => {
                if !same_text(link.text.as_str(), "Zobraz detaily") {
                    failure("'Zobraz detaily' missing in course element")
                } else {
                    match &link.href {
                        None => failure("course link without href"),
                        Some(href) => match parse_number(stem_of_link(href.as_str())) {
                            None => failure("course id is not a number"),
                            Some(id) => Ok(Course { id, name: name.clone() }),
                        },
                    }
                }
            },
        },
    }
}

/// Reads the courses from the blocks of their page. Succeeds exactly where
/// every block can be read, with one course for each block, in the order of
/// the blocks.
pub fn courses_from_blocks(blocks: &Vec<CourseBlock>) -> (read: Result<
    Vec<Course>,
    ListParserError,
>)
    ensures
        agrees(read, courses_of(blocks.deep_view())),
        read matches Ok(courses) ==> courses.len() == blocks.len(),
{
    let ghost results = course_results(blocks.deep_view());
    let mut courses: Vec<Course> = Vec::new();
    let mut i: usize = 0;
    assert(results.take(0).len() == 0);
    assert(courses.deep_view() =~= Seq::empty());
    while i < blocks.len()
        invariant
            i <= blocks.len(),
            courses.len() == i,
            results == course_results(blocks.deep_view()),
            collect(results.take(i as int)) == Ok::<Seq<CourseView>, Seq<char>>(
                courses.deep_view(),
            ),
        decreases blocks.len() - i,
    {
        proof {
            lemma_collect_step(results, i as int);
        }
        match course_from_block(&blocks[i]) {
            Err(error) => {
                proof {
                    lemma_collect_stops(results, i + 1);
                }
                return Err(error);
            },
            Ok(course) => {
                let ghost before = courses.deep_view();
                courses.push(course);
                assert(courses.deep_view() =~= before.push(course@));
            },
        }
        i += 1;
    }
    proof {
        lemma_collect_all(results);
    }
    Ok(courses)
}

/// What the courses page `html` holds.
pub open spec fn courses_on_page(html: Seq<char>) -> Result<Seq<CourseView>, Seq<char>> {
    match course_blocks(html) {
        None => Err(selector_hint()),
        Some(blocks) => courses_of(blocks),
    }
}

/// Reads the page that lists the courses: one course for each course block,
/// in the order of the page. One block without a heading, without a link, or
/// whose last link does not carry the details label makes the whole reading
/// fail.
pub fn parse_all_courses(html: &str) -> (read: Result<Vec<Course>, ListParserError>)
    ensures
        agrees(read, courses_on_page(html@)),
{
    match read_course_blocks(html) {
        None => failure("selector rejected"),
        Some(blocks) => courses_from_blocks(&blocks),
    }
}

// ---------------------------------------------------------------------------
// The form that queues a grading run
// ---------------------------------------------------------------------------

/// The `value` attributes of all elements of `found`.
pub open spec fn values_in(found: Seq<scraper::ElementRef>) -> Seq<Option<Seq<char>>> {
    Seq::new(found.len(), |i: int| element_attr(found[i], "value"@))
}

fn values(found: &Vec<scraper::ElementRef>) -> (all: Vec<Option<String>>)
    ensures
        all.deep_view() == values_in(found@),
{
    let mut all: Vec<Option<String>> = Vec::new();
    let mut i: usize = 0;
    while i < found.len()
        invariant
            i <= found.len(),
            all.len() == i,
            forall|j: int|
                0 <= j < i ==> (#[trigger] all@[j]).deep_view() == element_attr(
                    found@[j],
                    "value"@,
                ),
        decreases found.len() - i,
    {
        all.push(attr_of(&found[i], "value"));
        i += 1;
    }
    assert(all.deep_view() =~= values_in(found@));
    all
}

/// The inputs of the form on a problem's page: for each of the four field
/// names, the `value` attribute of every input of that name, in the order of
/// the page.
#[derive(Debug, Clone, PartialEq, Eq)]
pub struct FormInputs {
    pub tests: Vec<Option<String>>,
    pub task_set_id: Vec<Option<String>>,
    pub student_id: Vec<Option<String>>,
    pub select_test_type: Vec<Option<String>>,
}

pub ghost struct FormInputsView {
    pub tests: Seq<Option<Seq<char>>>,
    pub task_set_id: Seq<Option<Seq<char>>>,
    pub student_id: Seq<Option<Seq<char>>>,
    pub select_test_type: Seq<Option<Seq<char>>>,
}

impl View for FormInputs {
    type V = FormInputsView;

    open spec fn view(&self) -> FormInputsView {
        FormInputsView {
            tests: self.tests.deep_view(),
            task_set_id: self.task_set_id.deep_view(),
            student_id: self.student_id.deep_view(),
            select_test_type: self.select_test_type.deep_view(),
        }
    }
}

impl DeepView for FormInputs {
    type V = FormInputsView;

    open spec fn deep_view(&self) -> FormInputsView {
        self@
    }
}

/// The form inputs of the problem page `html`. `None` where a selector is
/// rejected.
pub open spec fn form_inputs(html: Seq<char>) -> Option<FormInputsView> {
    match (
        compiled_selector("input[name=\"test[id][]\"]"@),
        compiled_selector("input[name=\"test[task_set_id]\"]"@),
        compiled_selector("input[name=\"test[student_id]\"]"@),
        compiled_selector("input[name=\"select_test_type\"]"@),
    ) {
        (Some(tests), Some(task_set_id), Some(student_id), Some(select_test_type)) => {
            let document = parsed_document(html);
            Some(
                FormInputsView {
                    tests: values_in(document_matches(document, tests)),
                    task_set_id: values_in(document_matches(document, task_set_id)),
                    student_id: values_in(document_matches(document, student_id)),
                    select_test_type: values_in(document_matches(document, select_test_type)),
                },
            )
        },
        _ => None,
    }
}

/// Copies the form inputs of a problem's page.
pub fn read_form_inputs(html: &str) -> (inputs: Option<FormInputs>)
    ensures
        inputs.deep_view() == form_inputs(html@),
{
    match (
        compile_selector("input[name=\"test[id][]\"]"),
        compile_selector("input[name=\"test[task_set_id]\"]"),
        compile_selector("input[name=\"test[student_id]\"]"),
        compile_selector("input[name=\"select_test_type\"]"),
    ) {
        (Some(tests), Some(task_set_id), Some(student_id), Some(select_test_type)) => {
            let document = parse_document(html);
            Some(
                FormInputs {
                    tests: values(&select_in_document(&document, &tests)),
                    task_set_id: values(&select_in_document(&document, &task_set_id)),
                    student_id: values(&select_in_document(&document, &student_id)),
                    select_test_type: values(&select_in_document(&document, &select_test_type)),
                },
            )
        },
        _ => None,
    }
}

/// The values that are there, in their order.
pub open spec fn present(values: Seq<Option<Seq<char>>>) -> Seq<Seq<char>>
    decreases values.len(),
{
    if values.len() == 0 {
        Seq::empty()
    } else {
        match values.last() {
            Some(value) => present(values.drop_last()).push(value),
            None => present(values.drop_last()),
        }
    }
}

/// The value of the first input of a field that occurs once; a fault where
/// the page has no such input (`missing`) or the input has no value
/// (`empty`).
pub open spec fn single_value(
    values: Seq<Option<Seq<char>>>,
    missing: Seq<char>,
    empty: Seq<char>,
) -> Result<Seq<char>, Seq<char>> {
    if values.len() == 0 {
        Err(missing)
    } else {
        match values[0] {
            None => Err(empty),
            Some(value) => Ok(value),
        }
    }
}

/// The form that the inputs make up. The test ids are the values that are
/// there, in the order of the page. Each of the three other fields is the
/// value of its first input, which must be there; the student id must be a
/// number.
pub open spec fn form_of(inputs: FormInputsView) -> Result<SubmitFormView, Seq<char>> {
    match single_value(
        inputs.task_set_id,
        "input test[task_set_id] missing"@,
        "input test[task_set_id] without value"@,
    ) {
        Err(hint) => Err(hint),
        Ok(task_set_id) => match single_value(
            inputs.student_id,
            "input test[student_id] missing"@,
            "input test[student_id] without value"@,
        ) {
            Err(hint) => Err(hint),
            Ok(student) => match number(student) {
                None => Err("student id is not a number"@),
                Some(student_id) => match single_value(
                    inputs.select_test_type,
                    "input select_test_type missing"@,
                    "input select_test_type without value"@,
                ) {
                    Err(hint) => Err(hint),
                    Ok(select_test_type) => Ok(
                        SubmitFormView {
                            tests: present(inputs.tests),
                            task_set_id,
                            student_id,
                            select_test_type,
                        },
                    ),
                },
            },
        },
    }
}

fn single<'a>(values: &'a Vec<Option<String>>, missing: &str, empty: &str) -> (read: Result<
    &'a String,
    ListParserError,
>)
    ensures
        match single_value(values.deep_view(), missing@, empty@) {
            Ok(value) => read matches Ok(v) && v@ == value,
            Err(hint) => read matches Err(e) && e@ == hint,
        },
{
    if values.len() == 0 {
        Err(ListParserError::ParseError(missing.to_owned()))
    } else {
        assert(values.deep_view()[0] == values@[0].deep_view());
        match &values[0] {
            None => Err(ListParserError::ParseError(empty.to_owned())),
            Some(value) => Ok(value),
        }
    }
}

fn present_values(values: &Vec<Option<String>>) -> (kept: Vec<String>)
    ensures
        kept.deep_view() == present(values.deep_view()),
{
    let ghost all = values.deep_view();
    let mut kept: Vec<String> = Vec::new();
    let mut i: usize = 0;
    assert(all.take(0) =~= Seq::empty());
    assert(kept.deep_view() =~= Seq::empty());
    while i < values.len()
        invariant
            i <= values.len(),
            all == values.deep_view(),
            kept.deep_view() == present(all.take(i as int)),
        decreases values.len() - i,
    {
        assert(all.take(i + 1).drop_last() =~= all.take(i as int));
        assert(all.take(i + 1).last() == values@[i as int].deep_view());
        match &values[i] {
            Some(value) => {
                let ghost before = kept.deep_view();
                kept.push(value.clone());
                assert(kept.deep_view() =~= before.push(value@));
            },
            None => {},
        }
        i += 1;
    }
    assert(all.take(i as int) =~= all);
    kept
}

/// Makes the form from its inputs.
pub fn form_from_inputs(inputs: &FormInputs) -> (read: Result<SubmitForm, ListParserError>)
    ensures
        agrees(read, form_of(inputs@)),
{
    let tests = present_values(&inputs.tests);
    let task_set_id = match single(
        &inputs.task_set_id,
        "input test[task_set_id] missing",
        "input test[task_set_id] without value",
    ) {
        Err(error) => {
            return Err(error);
        },
        Ok(value) => value.clone(),
    };
    let student_id = match single(
        &inputs.student_id,
        "input test[student_id] missing",
        "input test[student_id] without value",
    ) {
        Err(error) => {
            return Err(error);
        },
        Ok(value) => match parse_number(value.as_str()) {
            None => {
                return failure("student id is not a number");
            },
            Some(number) => number,
        },
    };
    let select_test_type = match single(
        &inputs.select_test_type,
        "input select_test_type missing",
        "input select_test_type without value",
    ) {
        Err(error) => {
            return Err(error);
        },
        Ok(value) => value.clone(),
    };
    Ok(SubmitForm { tests, task_set_id, student_id, select_test_type })
}

/// What the problem page `html` holds as its form.
pub open spec fn form_on_page(html: Seq<char>) -> Result<SubmitFormView, Seq<char>> {
    match form_inputs(html) {
        None => Err(selector_hint()),
        Some(inputs) => form_of(inputs),
    }
}

/// Reads the form that queues a grading run from a problem's page.
pub fn parse_submit_form(html: &str) -> (read: Result<SubmitForm, ListParserError>)
    ensures
        agrees(read, form_on_page(html@)),
{
    match read_form_inputs(html) {
        None => failure("selector rejected"),
        Some(inputs) => form_from_inputs(&inputs),
    }
}

/// Whether the page has none of the form's inputs: the problem has no
/// automated tests.
pub open spec fn form_absent(inputs: FormInputsView) -> bool {
    inputs.tests.len() == 0 && inputs.task_set_id.len() == 0 && inputs.student_id.len() == 0
        && inputs.select_test_type.len() == 0
}

/// The form, where the page has one: nothing where none of its inputs is on
/// the page, else what `form_of` makes of them.
pub open spec fn run_test_form_of(inputs: FormInputsView) -> Result<
    Option<SubmitFormView>,
    Seq<char>,
> {
    if form_absent(inputs) {
        Ok(None)
    } else {
        match form_of(inputs) {
            Ok(form) => Ok(Some(form)),
            Err(hint) => Err(hint),
        }
    }
}

/// Makes the form from its inputs, or nothing where the page has no form.
pub fn run_test_form_from_inputs(inputs: &FormInputs) -> (read: Result<
    Option<SubmitForm>,
    ListParserError,
>)
    ensures
        agrees(read, run_test_form_of(inputs@)),
{
    if inputs.tests.len() == 0 && inputs.task_set_id.len() == 0 && inputs.student_id.len() == 0
        && inputs.select_test_type.len() == 0 {
        Ok(None)
    } else {
        match form_from_inputs(inputs) {
            Ok(form) => Ok(Some(form)),
            Err(error) => Err(error),
        }
    }
}

/// What the problem page `html` holds as its form, if it has one.
pub open spec fn run_test_form_on_page(html: Seq<char>) -> Result<
    Option<SubmitFormView>,
    Seq<char>,
> {
    match form_inputs(html) {
        None => Err(selector_hint()),
        Some(inputs) => run_test_form_of(inputs),
    }
}

/// Reads the form that queues a grading run, for a problem that may have
/// none. A page without any of the form's inputs belongs to a problem
/// without automated tests, which is no error.
pub fn parse_run_test_form(html: &str) -> (read: Result<Option<SubmitForm>, ListParserError>)
    ensures
        agrees(read, run_test_form_on_page(html@)),
{
    match read_form_inputs(html) {
        None => failure("selector rejected"),
        Some(inputs) => run_test_form_from_inputs(&inputs),
    }
}

// ---------------------------------------------------------------------------
// The queue of grading runs
// ---------------------------------------------------------------------------

/// One row of the queue: the first link that is the child of a cell, and the
/// texts of all cells.
#[derive(Debug, Clone, PartialEq, Eq)]
pub struct QueueRow {
    pub link: Option<Link>,
    pub cells: Vec<String>,
}

pub ghost struct QueueRowView {
    pub link: Option<LinkView>,
    pub cells: Seq<Seq<char>>,
}

impl View for QueueRow {
    type V = QueueRowView;

    open spec fn view(&self) -> QueueRowView {
        QueueRowView { link: self.link.deep_view(), cells: self.cells.deep_view() }
    }
}

impl DeepView for QueueRow {
    type V = QueueRowView;

    open spec fn deep_view(&self) -> QueueRowView {
        self@
    }
}

/// What the reader of the queue copies from one table row.
pub open spec fn queue_row_at(
    row: scraper::ElementRef,
    anchor: scraper::Selector,
    cell: scraper::Selector,
) -> QueueRowView {
    QueueRowView {
        link: first_link_in(element_matches(row, anchor)),
        cells: texts_in(element_matches(row, cell)),
    }
}

/// The rows of the queue page `html`: one for each element that `tbody tr`
/// matches, in that order. `None` where a selector is rejected.
pub open spec fn queue_rows(html: Seq<char>) -> Option<Seq<QueueRowView>> {
    match (compiled_selector("tbody tr"@), compiled_selector("td > a"@), compiled_selector("td"@)) {
        (Some(rows), Some(anchor), Some(cell)) => {
            let found = document_matches(parsed_document(html), rows);
            Some(Seq::new(found.len(), |i: int| queue_row_at(found[i], anchor, cell)))
        },
        _ => None,
    }
}

/// Copies the rows of the queue page.
pub fn read_queue_rows(html: &str) -> (rows: Option<Vec<QueueRow>>)
    ensures
        rows.deep_view() == queue_rows(html@),
{
    match (compile_selector("tbody tr"), compile_selector("td > a"), compile_selector("td")) {
        (Some(rows_selector), Some(anchor_selector), Some(cell_selector)) => {
            let document = parse_document(html);
            let found = select_in_document(&document, &rows_selector);
            let mut rows: Vec<QueueRow> = Vec::new();
            let mut i: usize = 0;
            while i < found.len()
                invariant
                    i <= found.len(),
                    rows.len() == i,
                    forall|j: int|
                        0 <= j < i ==> (#[trigger] rows@[j])@ == queue_row_at(
                            found@[j],
                            anchor_selector,
                            cell_selector,
                        ),
                decreases found.len() - i,
            {
                let link = first_link(&select_in_element(&found[i], &anchor_selector));
                let cells = texts(&select_in_element(&found[i], &cell_selector));
                rows.push(QueueRow { link, cells });
                i += 1;
            }
            assert(rows.deep_view() =~= queue_rows(html@)->0);
            Some(rows)
        },
        _ => None,
    }
}

/// The layout in which the queue writes a date and time: day, month and
/// year with dots between them, a space, then hour, minute and second with
/// colons between them.
pub open spec fn time_layout() -> Seq<char> {
    "%d.%m.%Y %H:%M:%S"@
}

/// What the queue writes in place of the end of a run that is still in
/// progress.
pub open spec fn not_finished() -> Seq<char> {
    "Ešte neukončené!"@
}

/// The end of a run, from the text of its cell and from what that text reads
/// as in the layout of the queue. The mark of a run in progress gives no end,
/// whatever it reads as; any other text must read as a date and time.
pub open spec fn end_of(text: Seq<char>, read: Option<Timestamp>) -> Result<
    Option<Timestamp>,
    Seq<char>,
> {
    if text == not_finished() {
        Ok(None)
    } else {
        match read {
            Some(end) => Ok(Some(end)),
            None => Err("end time of a run cannot be read"@),
        }
    }
}

/// The run that a row describes, from its link, from what its third cell
/// reads as, and from the text of its fourth cell with what that reads as.
/// The id is the number that the stem of the link writes.
pub open spec fn run_of_parts(
    link: Option<LinkView>,
    start: Option<Timestamp>,
    end_text: Seq<char>,
    end: Option<Timestamp>,
) -> Result<Test, Seq<char>> {
    match link {
        None => Err("queue row without a link"@),
        Some(link) => match link.href {
            None => Err("queue link without href"@),
            Some(href) => match number(link_stem(href)) {
                None => Err("run id is not a number"@),
                Some(id) => match start {
                    None => Err("start time of a run cannot be read"@),
                    Some(start_time) => match end_of(end_text, end) {
                        Err(hint) => Err(hint),
                        Ok(end_time) => Ok(Test { id, start_time, end_time }),
                    },
                },
            },
        },
    }
}

/// The run that one row of the queue describes. The row must have four
/// cells at least: the third holds the start, the fourth the end.
pub open spec fn run_of(row: QueueRowView) -> Result<Test, Seq<char>> {
    if row.cells.len() < 4 {
        Err("queue row with fewer than four cells"@)
    } else {
        run_of_parts(
            row.link,
            timestamp_of(row.cells[2], time_layout()),
            row.cells[3],
            timestamp_of(row.cells[3], time_layout()),
        )
    }
}

/// The end of a run is absent exactly where its cell holds the mark of a run
/// in progress. Any other text gives the date and time that it reads as, and
/// a fault where it reads as none.
pub proof fn end_time_rule(text: Seq<char>, read: Option<Timestamp>)
    ensures
        text == not_finished() ==> end_of(text, read) == Ok::<Option<Timestamp>, Seq<char>>(None),
        text != not_finished() && read is Some ==> end_of(text, read) == Ok::<
            Option<Timestamp>,
            Seq<char>,
        >(read),
        text != not_finished() && read is None ==> end_of(text, read) is Err,
{
}

/// A row that is read as a run has the end that `end_of` gives for its
/// fourth cell, and a row whose fourth cell is neither the mark of a run in
/// progress nor a date and time is not read as a run.
pub proof fn run_end_follows_cell(row: QueueRowView)
    ensures
        run_of(row) matches Ok(run) ==> end_of(
            row.cells[3],
            timestamp_of(row.cells[3], time_layout()),
        ) == Ok::<Option<Timestamp>, Seq<char>>(run.end_time),
        run_of(row) matches Ok(run) ==> (run.end_time is None <==> row.cells[3] == not_finished()),
        row.cells.len() >= 4 && row.cells[3] != not_finished() && timestamp_of(
            row.cells[3],
            time_layout(),
        ) is None ==> run_of(row) is Err,
{
}

/// Makes a run from the parts of its row.
pub fn run_from_parts(
    link: &Option<Link>,
    start: Option<Timestamp>,
    end_text: &str,
    end: Option<Timestamp>,
) -> (read: Result<Test, ListParserError>)
    ensures
        agrees(read, run_of_parts(link.deep_view(), start, end_text@, end)),
{
    match link {
        None => failure("queue row without a link"),
        Some(link) => match &link.href {
            None => failure("queue link without href"),
            Some(href) => match parse_number(stem_of_link(href.as_str())) {
                None => failure("run id is not a number"),
                Some(id) => match start {
                    None => failure("start time of a run cannot be read"),
                    Some(start_time) => {
                        if same_text(end_text, "Ešte neukončené!") {
                            Ok(Test { id, start_time, end_time: None })
                        } else {
                            match end {
                                None => failure("end time of a run cannot be read"),
                                Some(end) => Ok(Test { id, start_time, end_time: Some(end) }),
                            }
                        }
                    },
                },
            },
        },
    }
}

/// Reads one run from its row.
pub fn run_from_row(row: &QueueRow) -> (read: Result<Test, ListParserError>)
    ensures
        agrees(read, run_of(row@)),
{
    if row.cells.len() < 4 {
        failure("queue row with fewer than four cells")
    } else {
        assert(row.cells.deep_view()[2] == row.cells@[2]@);
        assert(row.cells.deep_view()[3] == row.cells@[3]@);
        let start = read_timestamp(row.cells[2].as_str(), "%d.%m.%Y %H:%M:%S");
        let end = read_timestamp(row.cells[3].as_str(), "%d.%m.%Y %H:%M:%S");
        run_from_parts(&row.link, start, row.cells[3].as_str(), end)
    }
}

/// What each of `rows` describes, at the place of its row.
pub open spec fn run_results(rows: Seq<QueueRowView>) -> Seq<Result<Test, Seq<char>>> {
    Seq::new(rows.len(), |i: int| run_of(rows[i]))
}

/// The runs that `rows` describe, in the order of the rows; the first fault
/// where a row cannot be read.
pub open spec fn runs_of(rows: Seq<QueueRowView>) -> Result<Seq<Test>, Seq<char>> {
    collect(run_results(rows))
}

/// Reads the runs from the rows of the queue. Succeeds exactly where every
/// row can be read, with one run for each row, in the order of the rows.
pub fn runs_from_rows(rows: &Vec<QueueRow>) -> (read: Result<Vec<Test>, ListParserError>)
    ensures
        agrees(read, runs_of(rows.deep_view())),
        read matches Ok(runs) ==> runs.len() == rows.len(),
{
    let ghost results = run_results(rows.deep_view());
    let mut runs: Vec<Test> = Vec::new();
    let mut i: usize = 0;
    assert(results.take(0).len() == 0);
    assert(runs.deep_view() =~= Seq::empty());
    while i < rows.len()
        invariant
            i <= rows.len(),
            runs.len() == i,
            results == run_results(rows.deep_view()),
            collect(results.take(i as int)) == Ok::<Seq<Test>, Seq<char>>(runs.deep_view()),
        decreases rows.len() - i,
    {
        proof {
            lemma_collect_step(results, i as int);
        }
        match run_from_row(&rows[i]) {
            Err(error) => {
                proof {
                    lemma_collect_stops(results, i + 1);
                }
                return Err(error);
            },
            Ok(run) => {
                let ghost before = runs.deep_view();
                runs.push(run);
                assert(runs.deep_view() =~= before.push(run));
            },
        }
        i += 1;
    }
    proof {
        lemma_collect_all(results);
    }
    Ok(runs)
}

/// What the queue page `html` holds.
pub open spec fn queue_on_page(html: Seq<char>) -> Result<Seq<Test>, Seq<char>> {
    match queue_rows(html) {
        None => Err(selector_hint()),
        Some(rows) => runs_of(rows),
    }
}

/// Reads the page that lists the grading runs of one student for one
/// problem: one run for each table row, in the order of the page.
pub fn parse_test_queue(html: &str) -> (read: Result<Vec<Test>, ListParserError>)
    ensures
        agrees(read, queue_on_page(html@)),
{
    match read_queue_rows(html) {
        None => failure("selector rejected"),
        Some(rows) => runs_from_rows(&rows),
    }
}

// ---------------------------------------------------------------------------
// The result of a grading run
// ---------------------------------------------------------------------------

/// What the reader copies from the result page: the first cell of the fourth
/// and of the fifth row of the summary table, the texts of the cells of each
/// row of the evaluation table, and the texts of the output blocks.
#[derive(Debug, Clone, PartialEq, Eq)]
pub struct ResultPage {
    pub normal_points: Option<String>,
    pub bonus_points: Option<String>,
    pub rows: Vec<Vec<String>>,
    pub outputs: Vec<String>,
}

pub ghost struct ResultPageView {
    pub normal_points: Option<Seq<char>>,
    pub bonus_points: Option<Seq<char>>,
    pub rows: Seq<Seq<Seq<char>>>,
    pub outputs: Seq<Seq<char>>,
}

impl View for ResultPage {
    type V = ResultPageView;

    open spec fn view(&self) -> ResultPageView {
        ResultPageView {
            normal_points: self.normal_points.deep_view(),
            bonus_points: self.bonus_points.deep_view(),
            rows: self.rows.deep_view(),
            outputs: self.outputs.deep_view(),
        }
    }
}

impl DeepView for ResultPage {
    type V = ResultPageView;

    open spec fn deep_view(&self) -> ResultPageView {
        self@
    }
}

/// What the result page `html` holds for its reader. `None` where a selector
/// is rejected.
pub open spec fn result_page(html: Seq<char>) -> Option<ResultPageView> {
    match (
        compiled_selector("table.tests_result_sum_table > tbody > tr:nth-child(4) > td"@),
        compiled_selector("table.tests_result_sum_table > tbody > tr:nth-child(5) > td"@),
        compiled_selector("table.tests_evaluation_table > tbody > tr"@),
        compiled_selector("td"@),
        compiled_selector("fieldset pre"@),
    ) {
        (Some(normal), Some(bonus), Some(rows), Some(cell), Some(output)) => {
            let document = parsed_document(html);
            let found = document_matches(document, rows);
            Some(
                ResultPageView {
                    normal_points: first_text_in(document_matches(document, normal)),
                    bonus_points: first_text_in(document_matches(document, bonus)),
                    rows: Seq::new(
                        found.len(),
                        |i: int| texts_in(element_matches(found[i], cell)),
                    ),
                    outputs: texts_in(document_matches(document, output)),
                },
            )
        },
        _ => None,
    }
}

/// Copies what the result page holds for its reader.
pub fn read_result_page(html: &str) -> (page: Option<ResultPage>)
    ensures
        page.deep_view() == result_page(html@),
{
    match (
        compile_selector("table.tests_result_sum_table > tbody > tr:nth-child(4) > td"),
        compile_selector("table.tests_result_sum_table > tbody > tr:nth-child(5) > td"),
        compile_selector("table.tests_evaluation_table > tbody > tr"),
        compile_selector("td"),
        compile_selector("fieldset pre"),
    ) {
        (Some(normal), Some(bonus), Some(rows_selector), Some(cell), Some(output)) => {
            let document = parse_document(html);
            let normal_points = first_text(&select_in_document(&document, &normal));
            let bonus_points = first_text(&select_in_document(&document, &bonus));
            let found = select_in_document(&document, &rows_selector);
            let mut rows: Vec<Vec<String>> = Vec::new();
            let mut i: usize = 0;
            while i < found.len()
                invariant
                    i <= found.len(),
                    rows.len() == i,
                    forall|j: int|
                        0 <= j < i ==> (#[trigger] rows@[j]).deep_view() == texts_in(
                            element_matches(found@[j], cell),
                        ),
                decreases found.len() - i,
            {
                rows.push(texts(&select_in_element(&found[i], &cell)));
                i += 1;
            }
            let outputs = texts(&select_in_document(&document, &output));
            assert(rows.deep_view() =~= result_page(html@)->0.rows);
            Some(ResultPage { normal_points, bonus_points, rows, outputs })
        },
        _ => None,
    }
}

/// The grading of one part, from the cells of its row and from its output
/// block. The row must have three cells at least: the name, the percentage
/// with a percent sign behind it, and the points. All four texts are
/// trimmed; the percentage without its sign, and the points, must write
/// numbers.
pub open spec fn graded_of(cells: Seq<Seq<char>>, output: Seq<char>) -> Result<
    TestResultProblemView,
    Seq<char>,
> {
    if cells.len() < 3 {
        Err("result row with fewer than three cells"@)
    } else {
        match without_suffix(trimmed(cells[1]), '%') {
            None => Err("percentage without a percent sign"@),
            Some(percentage) => if !writes_number(percentage) {
                Err("percentage is not a number"@)
            } else if !writes_number(trimmed(cells[2])) {
                Err("points of a part are not a number"@)
            } else {
                Ok(
                    TestResultProblemView {
                        name: trimmed(cells[0]),
                        percentage,
                        points: trimmed(cells[2]),
                        output: trimmed(output),
                    },
                )
            },
        }
    }
}

/// What each row of the page describes together with the output block at the
/// same place.
pub open spec fn graded_results(page: ResultPageView) -> Seq<
    Result<TestResultProblemView, Seq<char>>,
> {
    Seq::new(page.rows.len(), |i: int| graded_of(page.rows[i], page.outputs[i]))
}

/// The result that the page describes. Both point cells must be there and
/// must, trimmed, write numbers. The rows and the output blocks must be
/// equal in number; row and block at the same place then make one part.
pub open spec fn result_of(page: ResultPageView) -> Result<TestResultView, Seq<char>> {
    match page.normal_points {
        None => Err("normal points missing"@),
        Some(normal) => if !writes_number(trimmed(normal)) {
            Err("normal points are not a number"@)
        } else {
            match page.bonus_points {
                None => Err("bonus points missing"@),
                Some(bonus) => if !writes_number(trimmed(bonus)) {
                    Err("bonus points are not a number"@)
                } else if page.rows.len() != page.outputs.len() {
                    Err("result rows and output blocks differ in number"@)
                } else {
                    match collect(graded_results(page)) {
                        Err(hint) => Err(hint),
                        Ok(problems) => Ok(
                            TestResultView {
                                normal_points: trimmed(normal),
                                bonus_points: trimmed(bonus),
                                problems,
                            },
                        ),
                    }
                },
            }
        },
    }
}

/// Every number of a result that was read is written as a number: the two
/// sums of points, and the percentage and the points of each part.
pub proof fn result_holds_numbers(page: ResultPageView)
    ensures
        result_of(page) matches Ok(result) ==> writes_number(result.normal_points)
            && writes_number(result.bonus_points) && forall|i: int|
            0 <= i < result.problems.len() ==> writes_number(
                (#[trigger] result.problems[i]).percentage,
            ) && writes_number(result.problems[i].points),
{
    collect_keeps_order(graded_results(page));
    if let Ok(result) = result_of(page) {
        assert forall|i: int| 0 <= i < result.problems.len() implies writes_number(
            (#[trigger] result.problems[i]).percentage,
        ) && writes_number(result.problems[i].points) by {
            assert(graded_results(page)[i] == Ok::<TestResultProblemView, Seq<char>>(
                result.problems[i],
            ));
        }
    }
}

/// A page whose rows and output blocks differ in number has no result, and a
/// result has one part for each row, made of the row and the block at the
/// same place.
pub proof fn result_pairs_by_place(page: ResultPageView)
    ensures
        page.rows.len() != page.outputs.len() ==> result_of(page) is Err,
        result_of(page) matches Ok(result) ==> result.problems.len() == page.rows.len()
            && page.rows.len() == page.outputs.len() && forall|i: int|
            0 <= i < page.rows.len() ==> graded_of(#[trigger] page.rows[i], page.outputs[i])
                == Ok::<TestResultProblemView, Seq<char>>(result.problems[i]),
{
    collect_keeps_order(graded_results(page));
    if let Ok(result) = result_of(page) {
        assert forall|i: int| 0 <= i < page.rows.len() implies graded_of(
            #[trigger] page.rows[i],
            page.outputs[i],
        ) == Ok::<TestResultProblemView, Seq<char>>(result.problems[i]) by {
            assert(graded_results(page)[i] == Ok::<TestResultProblemView, Seq<char>>(
                result.problems[i],
            ));
        }
    }
}

/// Makes one part from the cells of its row and from its output block.
pub fn graded_from_row(cells: &Vec<String>, output: &str) -> (read: Result<
    TestResultProblem,
    ListParserError,
>)
    ensures
        agrees(read, graded_of(cells.deep_view(), output@)),
{
    if cells.len() < 3 {
        failure("result row with fewer than three cells")
    } else {
        assert(cells.deep_view()[0] == cells@[0]@);
        assert(cells.deep_view()[1] == cells@[1]@);
        assert(cells.deep_view()[2] == cells@[2]@);
        match strip_suffix(trim(cells[1].as_str()), '%') {
            None => failure("percentage without a percent sign"),
            Some(percentage) => {
                let points = trim(cells[2].as_str());
                if !is_number_text(percentage) {
                    failure("percentage is not a number")
                } else if !is_number_text(points) {
                    failure("points of a part are not a number")
                } else {
                    Ok(
                        TestResultProblem {
                            name: trim(cells[0].as_str()).to_owned(),
                            percentage: percentage.to_owned(),
                            points: points.to_owned(),
                            output: trim(output).to_owned(),
                        },
                    )
                }
            },
        }
    }
}

/// Makes the result from what the reader copied.
pub fn result_from_page(page: &ResultPage) -> (read: Result<TestResult, ListParserError>)
    ensures
        agrees(read, result_of(page@)),
{
    let normal = match &page.normal_points {
        None => {
            return failure("normal points missing");
        },
        Some(text) => trim(text.as_str()),
    };
    if !is_number_text(normal) {
        return failure("normal points are not a number");
    }
    let normal = normal.to_owned();
    let bonus = match &page.bonus_points {
        None => {
            return failure("bonus points missing");
        },
        Some(text) => trim(text.as_str()),
    };
    if !is_number_text(bonus) {
        return failure("bonus points are not a number");
    }
    let bonus = bonus.to_owned();
    if page.rows.len() != page.outputs.len() {
        return failure("result rows and output blocks differ in number");
    }
    let ghost results = graded_results(page@);
    let mut problems: Vec<TestResultProblem> = Vec::new();
    let mut i: usize = 0;
    assert(results.take(0).len() == 0);
    assert(problems.deep_view() =~= Seq::empty());
    while i < page.rows.len()
        invariant
            i <= page.rows.len(),
            page.rows.len() == page.outputs.len(),
            page.normal_points is Some,
            page.bonus_points is Some,
            writes_number(trimmed(page@.normal_points->0)),
            writes_number(trimmed(page@.bonus_points->0)),
            results == graded_results(page@),
            collect(results.take(i as int)) == Ok::<Seq<TestResultProblemView>, Seq<char>>(
                problems.deep_view(),
            ),
        decreases page.rows.len() - i,
    {
        proof {
            lemma_collect_step(results, i as int);
            assert(page@.rows[i as int] == page.rows@[i as int].deep_view());
            assert(page@.outputs[i as int] == page.outputs@[i as int]@);
        }
        match graded_from_row(&page.rows[i], page.outputs[i].as_str()) {
            Err(error) => {
                proof {
                    lemma_collect_stops(results, i + 1);
                }
                return Err(error);
            },
            Ok(problem) => {
                let ghost before = problems.deep_view();
                problems.push(problem);
                assert(problems.deep_view() =~= before.push(problem@));
            },
        }
        i += 1;
    }
    proof {
        lemma_collect_all(results);
    }
    Ok(TestResult { normal_points: normal, bonus_points: bonus, problems })
}

/// What the result page `html` holds.
pub open spec fn result_on_page(html: Seq<char>) -> Result<TestResultView, Seq<char>> {
    match result_page(html) {
        None => Err(selector_hint()),
        Some(page) => result_of(page),
    }
}

/// Reads the page that shows the result of one grading run. Rows and output
/// blocks are paired by their place; where their numbers differ the reading
/// fails.
pub fn parse_test_result(html: &str) -> (read: Result<TestResult, ListParserError>)
    ensures
        agrees(read, result_on_page(html@)),
{
    match read_result_page(html) {
        None => failure("selector rejected"),
        Some(page) => result_from_page(&page),
    }
}

} // verus!
