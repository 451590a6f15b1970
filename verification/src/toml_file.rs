//! Settings files as documents that keep their layout when they are edited.
//!
//! Reading, editing and writing such a document is the work of the
//! `toml_edit` crate. This module declares the document type of that crate,
//! gives a name to what each operation on it returns, and wraps each
//! operation in a function whose contract says no more than that the
//! operation returned the value so named. None of these contracts is proved.

use vstd::prelude::*;

verus! {

#[verifier::external_type_specification]
#[verifier::external_body]
pub struct ExDocumentMut(toml_edit::DocumentMut);

/// The document that `DocumentMut::from_str` reads from `content`; `None`
/// where it rejects the text.
pub uninterp spec fn parsed_toml(content: Seq<char>) -> Option<toml_edit::DocumentMut>;

/// The text at the key `key` of the root table of `document`, as
/// `Table::get` and `Item::as_str` give it; `None` where the table has no
/// such key or holds something else than text there.
pub uninterp spec fn toml_text(document: toml_edit::DocumentMut, key: Seq<char>) -> Option<
    Seq<char>,
>;

/// `document` after the text `value` was assigned to the key `key` of its
/// root table.
pub uninterp spec fn toml_with_text(
    document: toml_edit::DocumentMut,
    key: Seq<char>,
    value: Seq<char>,
) -> toml_edit::DocumentMut;

/// `document` after the text `value` was assigned to the key `key` of its
/// table `table`, which is made where the root table has no such key; `None`
/// where the root table holds something else than a table there.
pub uninterp spec fn toml_with_text_in(
    document: toml_edit::DocumentMut,
    table: Seq<char>,
    key: Seq<char>,
    value: Seq<char>,
) -> Option<toml_edit::DocumentMut>;

/// `document` after the number `value` was assigned to the key `key` of its
/// table `table`, which is made where the root table has no such key; `None`
/// where the root table holds something else than a table there.
pub uninterp spec fn toml_with_number_in(
    document: toml_edit::DocumentMut,
    table: Seq<char>,
    key: Seq<char>,
    value: u32,
) -> Option<toml_edit::DocumentMut>;

/// `document` after the array at the key `key` of its table `table` was
/// emptied and filled with `values`; `None` where the root table holds
/// something else than a table at `table`, or that table nothing or
/// something else than an array at `key`.
pub uninterp spec fn toml_with_list_in(
    document: toml_edit::DocumentMut,
    table: Seq<char>,
    key: Seq<char>,
    values: Seq<Seq<char>>,
) -> Option<toml_edit::DocumentMut>;

/// The text that `document` is written as.
pub uninterp spec fn toml_rendered(document: toml_edit::DocumentMut) -> Seq<char>;

/// Calls `DocumentMut::from_str`. The contract only names the result.
#[verifier::external_body]
pub(crate) fn parse_toml(content: &str) -> (document: Option<toml_edit::DocumentMut>)
    ensures
        document == parsed_toml(content@),
{
    match content.parse::<toml_edit::DocumentMut>() {
        Ok(document) => Some(document),
        Err(_) => None,
    }
}

/// Calls `Table::get` on the root table and `Item::as_str` on what it
/// finds. The contract only names the result.
#[verifier::external_body]
pub(crate) fn text_at(document: &toml_edit::DocumentMut, key: &str) -> (text: Option<String>)
    ensures
        text.deep_view() == toml_text(*document, key@),
{
    match document.get(key) {
        Some(item) => match item.as_str() {
            Some(text) => Some(text.to_owned()),
            None => None,
        },
        None => None,
    }
}

/// Assigns `toml_edit::value(value)` to the key of the root table. The
/// contract only names the result.
#[verifier::external_body]
pub(crate) fn set_text(document: toml_edit::DocumentMut, key: &str, value: &str) -> (edited:
    toml_edit::DocumentMut)
    ensures
        edited == toml_with_text(document, key@, value@),
{
    let mut document = document;
    document[key] = toml_edit::value(value);
    document
}

/// Takes the table at `table`, made by `Item::or_insert` with
/// `toml_edit::table()` where it is missing, and assigns
/// `toml_edit::value(value)` to its key. The contract only names the result.
#[verifier::external_body]
pub(crate) fn set_text_in(
    document: toml_edit::DocumentMut,
    table: &str,
    key: &str,
    value: &str,
) -> (edited: Option<toml_edit::DocumentMut>)
    ensures
        edited == toml_with_text_in(document, table@, key@, value@),
{
    let mut document = document;
    match document[table].or_insert(toml_edit::table()).as_table_mut() {
        Some(target) => target[key] = toml_edit::value(value),
        None => return None,
    }
    Some(document)
}

/// As `set_text_in`, for a number. The contract only names the result.
#[verifier::external_body]
pub(crate) fn set_number_in(
    document: toml_edit::DocumentMut,
    table: &str,
    key: &str,
    value: u32,
) -> (edited: Option<toml_edit::DocumentMut>)
    ensures
        edited == toml_with_number_in(document, table@, key@, value),
{
    let mut document = document;
    match document[table].or_insert(toml_edit::table()).as_table_mut() {
        Some(target) => target[key] = toml_edit::value(i64::from(value)),
        None => return None,
    }
    Some(document)
}

/// Takes the table at `table` as `set_text_in` does and the array at its
/// key, with `Item::or_insert` and `toml_edit::array()` before
/// `Item::as_array_mut`, then calls `Array::clear` and `Array::push` for
/// each value. The contract only names the result.
#[verifier::external_body]
pub(crate) fn set_list_in(
    document: toml_edit::DocumentMut,
    table: &str,
    key: &str,
    values: &Vec<String>,
) -> (edited: Option<toml_edit::DocumentMut>)
    ensures
        edited == toml_with_list_in(document, table@, key@, values.deep_view()),
{
    let mut document = document;
    match document[table].or_insert(toml_edit::table()).as_table_mut() {
        Some(target) => match target[key].or_insert(toml_edit::array()).as_array_mut() {
            Some(list) => {
                list.clear();
                for value in values {
                    list.push(value.as_str());
                }
            },
            None => return None,
        },
        None => return None,
    }
    Some(document)
}

/// Calls `to_string` on the document. The contract only names the result.
#[verifier::external_body]
pub(crate) fn render(document: &toml_edit::DocumentMut) -> (text: String)
    ensures
        text@ == toml_rendered(*document),
{
    document.to_string()
}

} // verus!
