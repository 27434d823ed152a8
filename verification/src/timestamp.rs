//! Reading RFC 3339 timestamps.

use vstd::prelude::*;

verus! {

/// What `chrono::DateTime::parse_from_rfc3339` makes of the text `s`: the
/// instant in milliseconds since the Unix epoch, or nothing where `s` is no
/// RFC 3339 date and time.
pub uninterp spec fn rfc3339_millis(s: Seq<char>) -> Option<i64>;

/// `chrono::DateTime::parse_from_rfc3339`, with the parsed instant read off
/// by `timestamp_millis`. The text fixes its own offset from UTC, so the
/// result depends on the text alone.
#[verifier::external_body]
pub(crate) fn parse_rfc3339_millis(s: &str) -> (r: Option<i64>)
    ensures
        r == rfc3339_millis(s@),
{
    match chrono::DateTime::parse_from_rfc3339(s) {
        Ok(instant) => Some(instant.timestamp_millis()),
        Err(_) => None,
    }
}

} // verus!
