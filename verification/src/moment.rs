//! Moments as text.
//!
//! A moment is given by the seconds since the Unix epoch, the nanoseconds within the
//! second, and the offset of the local time from UTC in seconds.

use crate::chars;
use vstd::prelude::*;
use vstd::string::*;

verus! {

/// A year, a month and a day, such as `2026-07-18`.
pub const DATE_PATTERN: &'static str = "%Y-%m-%d";

/// A time of day with its offset from UTC, such as `16:39:57 -0800`.
pub const TIME_PATTERN: &'static str = "%H:%M:%S %z";

/// A moment in the form of RFC 3339, if there is such a moment.
pub uninterp spec fn rfc3339(seconds: i64, nanos: u32, offset: i32) -> Option<Seq<char>>;

/// A moment in UTC in the form of RFC 3339, with milliseconds, if there is such a moment.
pub uninterp spec fn rfc3339_millis(seconds: i64, nanos: u32) -> Option<Seq<char>>;

/// A moment in the form of a pattern, if there is such a moment.
pub uninterp spec fn patterned(seconds: i64, nanos: u32, offset: i32, pattern: Seq<char>) -> Option<
    Seq<char>,
>;

/// `chrono::DateTime::to_rfc3339`: the text is named [`rfc3339`]. There is none where
/// `chrono` has no such moment or no such offset.
#[verifier::external_body]
fn rfc3339_text(seconds: i64, nanos: u32, offset: i32) -> (r: Option<String>)
    ensures
        chars::opt_text(r) == rfc3339(seconds, nanos, offset),
{
    let zone = chrono::FixedOffset::east_opt(offset)?;
    let moment = chrono::DateTime::from_timestamp(seconds, nanos)?;
    Some(moment.with_timezone(&zone).to_rfc3339())
}

/// `chrono::DateTime::to_rfc3339_opts`, with milliseconds and a `Z` for UTC: the text is
/// named [`rfc3339_millis`]. There is none where `chrono` has no such moment.
#[verifier::external_body]
fn rfc3339_millis_text(seconds: i64, nanos: u32) -> (r: Option<String>)
    ensures
        chars::opt_text(r) == rfc3339_millis(seconds, nanos),
{
    let moment = chrono::DateTime::from_timestamp(seconds, nanos)?;
    Some(moment.to_rfc3339_opts(chrono::SecondsFormat::Millis, true))
}

/// `chrono::DateTime::format`: the text is named [`patterned`]. There is none where `chrono`
/// has no such moment or no such offset. A malformed pattern would panic: only two
/// patterns are known to be well formed.
#[verifier::external_body]
fn patterned_text(seconds: i64, nanos: u32, offset: i32, pattern: &str) -> (r: Option<String>)
    requires
        pattern@ == DATE_PATTERN@ || pattern@ == TIME_PATTERN@,
    ensures
        chars::opt_text(r) == patterned(seconds, nanos, offset, pattern@),
{
    let zone = chrono::FixedOffset::east_opt(offset)?;
    let moment = chrono::DateTime::from_timestamp(seconds, nanos)?;
    Some(moment.with_timezone(&zone).format(pattern).to_string())
}

/// A moment as the prompts show it.
#[derive(Debug, PartialEq, Eq)]
pub struct LocalTime {
    pub timestamp: String,
    pub date: String,
    pub time: String,
}

/// A moment as the prompts show it, if there is such a moment.
pub fn local_time(seconds: i64, nanos: u32, offset: i32) -> (r: Option<LocalTime>)
    ensures
        r is Some <==> rfc3339(seconds, nanos, offset) is Some && patterned(
            seconds,
            nanos,
            offset,
            DATE_PATTERN@,
        ) is Some && patterned(seconds, nanos, offset, TIME_PATTERN@) is Some,
        r matches Some(t) ==> {
            &&& rfc3339(seconds, nanos, offset) == Some(t.timestamp@)
            &&& patterned(seconds, nanos, offset, DATE_PATTERN@) == Some(t.date@)
            &&& patterned(seconds, nanos, offset, TIME_PATTERN@) == Some(t.time@)
        },
{
    match (
        rfc3339_text(seconds, nanos, offset),
        patterned_text(seconds, nanos, offset, DATE_PATTERN),
        patterned_text(seconds, nanos, offset, TIME_PATTERN),
    ) {
        (Some(timestamp), Some(date), Some(time)) => Some(LocalTime { timestamp, date, time }),
        _ => None,
    }
}

/// A moment as the logs show it, if there is such a moment.
pub fn log_timestamp(seconds: i64, nanos: u32) -> (r: Option<String>)
    ensures
        chars::opt_text(r) == rfc3339_millis(seconds, nanos),
{
    rfc3339_millis_text(seconds, nanos)
}

/// The date of a moment in UTC, if there is such a moment.
pub fn utc_date(seconds: i64, nanos: u32) -> (r: Option<String>)
    ensures
        chars::opt_text(r) == patterned(seconds, nanos, 0, DATE_PATTERN@),
{
    patterned_text(seconds, nanos, 0, DATE_PATTERN)
}

/// The local time tells the moment in full, its date and its time, each in its own form.
pub proof fn law_local_time_has_three_forms(
    seconds: i64,
    nanos: u32,
    offset: i32,
    r: Option<LocalTime>,
    date: Option<String>,
)
    requires
        call_ensures(local_time, (seconds, nanos, offset), r),
        call_ensures(utc_date, (seconds, nanos), date),
    ensures
        r matches Some(t) ==> {
            &&& rfc3339(seconds, nanos, offset) == Some(t.timestamp@)
            &&& patterned(seconds, nanos, offset, "%Y-%m-%d"@) == Some(t.date@)
            &&& patterned(seconds, nanos, offset, "%H:%M:%S %z"@) == Some(t.time@)
        },
        offset == 0 ==> (r matches Some(t) ==> (date matches Some(d) && d@ == t.date@)),
{
}

} // verus!
