//! The HTML documents that the page readers walk.
//!
//! Parsing a document and matching CSS selectors against it is the work of the
//! `scraper` crate. This module declares the three types of it that the
//! readers hold, gives a name to what each of its operations returns, and
//! wraps each operation in a function whose contract says no more than that
//! the operation returned the value so named. None of these contracts is
//! proved; everything the readers conclude rests on them.

use vstd::prelude::*;

verus! {

#[verifier::external_type_specification]
#[verifier::external_body]
pub struct ExHtml(scraper::Html);

#[verifier::external_type_specification]
#[verifier::external_body]
pub struct ExSelector(scraper::Selector);

#[verifier::external_type_specification]
#[verifier::external_body]
pub struct ExElementRef<'a>(scraper::ElementRef<'a>);

/// The document that `Html::parse_document` builds from the text `html`.
pub uninterp spec fn parsed_document(html: Seq<char>) -> scraper::Html;

/// The selector that `Selector::parse` builds from `text`; `None` where it
/// rejects the text.
pub uninterp spec fn compiled_selector(text: Seq<char>) -> Option<scraper::Selector>;

/// The elements of `document` that `selector` matches, in the order in which
/// `Html::select` yields them.
pub uninterp spec fn document_matches(
    document: scraper::Html,
    selector: scraper::Selector,
) -> Seq<scraper::ElementRef<'static>>;

/// The elements below `element` that `selector` matches, in the order in
/// which `ElementRef::select` yields them.
pub uninterp spec fn element_matches(
    element: scraper::ElementRef,
    selector: scraper::Selector,
) -> Seq<scraper::ElementRef<'static>>;

/// The text nodes below `element`, as `ElementRef::text` yields them, joined
/// without a separator.
pub uninterp spec fn element_text(element: scraper::ElementRef) -> Seq<char>;

/// The value of the attribute `name` of `element`, as `ElementRef::attr`
/// returns it; `None` where the element has no such attribute.
pub uninterp spec fn element_attr(element: scraper::ElementRef, name: Seq<char>) -> Option<
    Seq<char>,
>;

/// Calls `Html::parse_document`, which accepts every text and builds a
/// document as well as it can. The contract only names the result.
#[verifier::external_body]
pub(crate) fn parse_document(html: &str) -> (document: scraper::Html)
    ensures
        document == parsed_document(html@),
{
    scraper::Html::parse_document(html)
}

/// Calls `Selector::parse`. The contract only names the result: a selector,
/// or nothing where the text is no selector group.
#[verifier::external_body]
pub(crate) fn compile_selector(text: &str) -> (selector: Option<scraper::Selector>)
    ensures
        selector == compiled_selector(text@),
{
    match scraper::Selector::parse(text) {
        Ok(selector) => Some(selector),
        Err(_) => None,
    }
}

/// Calls `Html::select` and gathers what it yields. The contract only names
/// the result.
#[verifier::external_body]
pub(crate) fn select_in_document<'a>(
    document: &'a scraper::Html,
    selector: &scraper::Selector,
) -> (found: Vec<scraper::ElementRef<'a>>)
    ensures
        found@ == document_matches(*document, *selector),
{
    document.select(selector).collect()
}

/// Calls `ElementRef::select` and gathers what it yields. The contract only
/// names the result.
#[verifier::external_body]
pub(crate) fn select_in_element<'a>(
    element: &scraper::ElementRef<'a>,
    selector: &scraper::Selector,
) -> (found: Vec<scraper::ElementRef<'a>>)
    ensures
        found@ == element_matches(*element, *selector),
{
    element.select(selector).collect()
}

/// Calls `ElementRef::text` and joins what it yields. The contract only names
/// the result.
#[verifier::external_body]
pub(crate) fn text_of(element: &scraper::ElementRef) -> (text: String)
    ensures
        text@ == element_text(*element),
{
    element.text().collect()
}

/// Calls `ElementRef::attr` and copies what it returns. The contract only
/// names the result.
#[verifier::external_body]
pub(crate) fn attr_of(element: &scraper::ElementRef, name: &str) -> (value: Option<String>)
    ensures
        value.deep_view() == element_attr(*element, name@),
{
    match element.attr(name) {
        Some(value) => Some(value.to_owned()),
        None => None,
    }
}

} // verus!
