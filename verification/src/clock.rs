//! The instant of a signature and its timestamp, written by `chrono`.

use vstd::prelude::*;

verus! {

/// The pattern that `chrono` writes timestamps by: date and time of day in
/// UTC, to the second, closed by the literal `+0000`.
pub const TIMESTAMP_FORMAT: &'static str = "%Y%m%dT%H:%M:%S+0000";

/// What `chrono` writes for the instant `seconds` after the Unix epoch, in
/// UTC and by `pattern`: nothing where the instant lies outside its calendar.
pub uninterp spec fn utc_text(seconds: int, pattern: Seq<char>) -> Option<Seq<char>>;

/// The timestamp of the instant `seconds` after the Unix epoch.
pub open spec fn timestamp_text(seconds: int) -> Option<Seq<char>> {
    utc_text(seconds, TIMESTAMP_FORMAT@)
}

/// Reads the clock with `chrono::Utc::now` and gives the instant in whole
/// seconds since the Unix epoch (`timestamp`). Which instant it is, is the
/// system's affair; the contract states that it has a timestamp. `Utc::now`
/// makes its value with `from_timestamp` and `timestamp` gives back the
/// seconds that went in, so `from_timestamp` takes them again. `Utc::now`
/// panics where the system clock stands before the epoch or beyond the
/// calendar, and no argument of this function can prevent that.
#[verifier::external_body]
pub(crate) fn utc_now_seconds() -> (now: i64)
    ensures
        timestamp_text(now as int) is Some,
{
    ::chrono::Utc::now().timestamp()
}

/// Writes the instant `seconds` by `pattern`, with
/// `chrono::DateTime::from_timestamp` and `format`. `from_timestamp` refuses
/// an instant outside the calendar; the pattern is held to the one that is
/// known to hold no specifier that `format` fails on. The contract names the
/// outcome.
#[verifier::external_body]
pub(crate) fn format_utc(seconds: i64, pattern: &str) -> (text: Option<String>)
    requires
        pattern@ == TIMESTAMP_FORMAT@,
    ensures
        text is Some <==> utc_text(seconds as int, pattern@) is Some,
        text matches Some(t) ==> utc_text(seconds as int, pattern@) == Some(t@),
{
    match ::chrono::DateTime::from_timestamp(seconds, 0) {
        Some(instant) => Some(instant.format(pattern).to_string()),
        None => None,
    }
}

/// The timestamp of the instant `seconds` after the Unix epoch, in the form
/// `YYYYMMDDTHH:MM:SS+0000`; nothing where the instant has no date.
pub fn timestamp(seconds: i64) -> (text: Option<String>)
    ensures
        text is Some <==> timestamp_text(seconds as int) is Some,
        text matches Some(t) ==> timestamp_text(seconds as int) == Some(t@),
{
    format_utc(seconds, TIMESTAMP_FORMAT)
}

} // verus!
