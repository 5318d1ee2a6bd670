//! Times of the feed: read by the `chrono` crate, kept as microseconds since the epoch.

use chrono::{TimeZone, Utc};
use vstd::prelude::*;

verus! {

#[verifier::external_type_specification]
#[verifier::external_body]
pub struct ExParseError(chrono::ParseError);

/// Microseconds in a second.
pub const MICROS_PER_SECOND: u64 = 1_000_000;

/// The seconds from the epoch to the date and time of UTC that `chrono` reads in `text`
/// under the format `format`; `None` where it reads none.
pub uninterp spec fn utc_seconds(text: Seq<char>, format: Seq<char>) -> Option<int>;

/// Reads `text` with `chrono::TimeZone::datetime_from_str` for UTC and gives the seconds
/// that `chrono::DateTime::timestamp` counts for it.
#[verifier::external_body]
#[allow(deprecated)]
pub(crate) fn parse_utc_seconds(text: &str, format: &str) -> (seconds: Result<
    i64,
    chrono::ParseError,
>)
    ensures
        seconds matches Ok(count) ==> utc_seconds(text@, format@) == Some(count as int),
        seconds is Err ==> utc_seconds(text@, format@) is None,
{
    Ok(Utc.datetime_from_str(text, format)?.timestamp())
}

/// `seconds` since the epoch in microseconds, where that is a time at or after the epoch
/// that 64 bits hold.
pub open spec fn micros_of(seconds: int) -> Option<int> {
    if 0 <= seconds && seconds * MICROS_PER_SECOND <= u64::MAX {
        Some(seconds * MICROS_PER_SECOND)
    } else {
        None
    }
}

/// Converts seconds since the epoch to microseconds.
pub fn to_micros(seconds: i64) -> (micros: Option<u64>)
    ensures
        micros matches Some(count) ==> micros_of(seconds as int) == Some(count as int),
        micros is None ==> micros_of(seconds as int) is None,
{
    if seconds < 0 {
        None
    } else {
        (seconds as u64).checked_mul(MICROS_PER_SECOND)
    }
}

} // verus!
