//! Reading a date and time from text.
//!
//! The reading itself is done by the `chrono` crate; its result is given a
//! name and taken on trust.

use vstd::prelude::*;
use crate::list_api::models::Timestamp;

verus! {

/// The date and time that `NaiveDateTime::parse_from_str` reads from `text`
/// in the layout `format`; `None` where it rejects the text.
pub uninterp spec fn timestamp_of(text: Seq<char>, format: Seq<char>) -> Option<Timestamp>;

/// Calls `NaiveDateTime::parse_from_str` and copies the fields of what it
/// returns. The contract only names the result.
#[verifier::external_body]
pub(crate) fn read_timestamp(text: &str, format: &str) -> (stamp: Option<Timestamp>)
    ensures
        stamp == timestamp_of(text@, format@),
{
    match chrono::NaiveDateTime::parse_from_str(text, format) {
        Ok(read) => Some(
            Timestamp {
                year: chrono::Datelike::year(&read),
                month: chrono::Datelike::month(&read),
                day: chrono::Datelike::day(&read),
                hour: chrono::Timelike::hour(&read),
                minute: chrono::Timelike::minute(&read),
                second: chrono::Timelike::second(&read),
                nanosecond: chrono::Timelike::nanosecond(&read),
            },
        ),
        Err(_) => None,
    }
}

} // verus!
