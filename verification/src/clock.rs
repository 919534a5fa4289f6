//! The machine's clock.

use vstd::prelude::*;

verus! {

#[verifier::external_type_specification]
#[verifier::external_body]
pub struct ExSystemTime(std::time::SystemTime);

/// `std::time::SystemTime::now`: nothing is claimed of the moment.
#[verifier::external_body]
fn now() -> std::time::SystemTime {
    std::time::SystemTime::now()
}

/// The nanoseconds from the Unix epoch to a moment; below 0 for one before the epoch.
pub uninterp spec fn moment_nanos(moment: std::time::SystemTime) -> int;

/// The nanoseconds of a span of time.
pub uninterp spec fn span_nanos(span: std::time::Duration) -> nat;

/// `std::time::SystemTime::duration_since`, from the Unix epoch: how long after it the
/// moment lies, unless it lies before.
#[verifier::external_body]
fn since_epoch(moment: std::time::SystemTime) -> (r: Option<std::time::Duration>)
    ensures
        r is Some <==> moment_nanos(moment) >= 0,
        r matches Some(span) ==> span_nanos(span) == moment_nanos(moment),
{
    moment.duration_since(std::time::UNIX_EPOCH).ok()
}

/// `std::time::Duration::as_millis`: the whole milliseconds of a span.
#[verifier::external_body]
fn whole_millis(span: std::time::Duration) -> (r: u128)
    ensures
        r == span_nanos(span) / 1_000_000,
{
    span.as_millis()
}

/// `std::time::Duration::as_secs`: the whole seconds of a span.
#[verifier::external_body]
fn whole_seconds(span: std::time::Duration) -> (r: u64)
    ensures
        r == span_nanos(span) / 1_000_000_000,
{
    span.as_secs()
}

/// Whether `r` is the time stamp of a count of milliseconds since the epoch.
pub open spec fn is_millis_stamp(elapsed: Option<u128>, r: i64) -> bool {
    match elapsed {
        Some(n) => r == n as i64,
        None => r == 0,
    }
}

/// Whether `r` is the time stamp of a count of seconds since the epoch.
pub open spec fn is_seconds_stamp(elapsed: Option<u64>, r: i64) -> bool {
    match elapsed {
        Some(n) => r == n as i64,
        None => r == 0,
    }
}

/// A count of milliseconds since the epoch as a time stamp; a clock that stands before
/// the epoch gives 0.
pub fn millis_stamp(elapsed: Option<u128>) -> (r: i64)
    ensures
        is_millis_stamp(elapsed, r),
        elapsed matches Some(n) ==> n <= i64::MAX ==> r == n,
{
    match elapsed {
        Some(n) => #[verifier::truncate] (n as i64),
        None => 0,
    }
}

/// A count of seconds since the epoch as a time stamp; a clock that stands before the
/// epoch gives 0.
pub fn seconds_stamp(elapsed: Option<u64>) -> (r: i64)
    ensures
        is_seconds_stamp(elapsed, r),
        elapsed matches Some(n) ==> n <= i64::MAX ==> r == n,
{
    match elapsed {
        Some(n) => #[verifier::truncate] (n as i64),
        None => 0,
    }
}

/// Whether `r` is the time stamp, in milliseconds, of a moment.
pub open spec fn is_moment_millis(moment: std::time::SystemTime, r: i64) -> bool {
    if moment_nanos(moment) >= 0 {
        r == (moment_nanos(moment) / 1_000_000) as i64
    } else {
        r == 0
    }
}

/// Whether `r` is the time stamp, in seconds, of a moment.
pub open spec fn is_moment_seconds(moment: std::time::SystemTime, r: i64) -> bool {
    if moment_nanos(moment) >= 0 {
        r == (moment_nanos(moment) / 1_000_000_000) as i64
    } else {
        r == 0
    }
}

/// The time stamp, in milliseconds, of the moment at which the clock is read.
pub(crate) fn stamp_in_millis() -> (r: i64)
    ensures
        exists|moment: std::time::SystemTime| #[trigger] is_moment_millis(moment, r),
{
    let moment = now();
    let r = millis_stamp(
        match since_epoch(moment) {
            Some(span) => Some(whole_millis(span)),
            None => None,
        },
    );
    assert(is_moment_millis(moment, r));
    r
}

/// The time stamp, in seconds, of the moment at which the clock is read.
pub(crate) fn stamp_in_seconds() -> (r: i64)
    ensures
        exists|moment: std::time::SystemTime| #[trigger] is_moment_seconds(moment, r),
{
    let moment = now();
    let r = seconds_stamp(
        match since_epoch(moment) {
            Some(span) => Some(whole_seconds(span)),
            None => None,
        },
    );
    assert(is_moment_seconds(moment, r));
    r
}

/// A stamp counts whole units since the epoch, and is 0 before it.
pub proof fn law_stamps_count_from_the_epoch(
    millis: Option<u128>,
    seconds: Option<u64>,
    a: i64,
    b: i64,
)
    requires
        call_ensures(millis_stamp, (millis,), a),
        call_ensures(seconds_stamp, (seconds,), b),
    ensures
        millis is None ==> a == 0,
        seconds is None ==> b == 0,
        millis matches Some(n) ==> (n <= i64::MAX ==> a == n),
        seconds matches Some(n) ==> (n <= i64::MAX ==> b == n),
{
}

/// A stamp in milliseconds and one in seconds of the same moment tell the same time.
pub proof fn law_stamps_agree(moment: std::time::SystemTime, a: i64, b: i64)
    requires
        is_moment_millis(moment, a),
        is_moment_seconds(moment, b),
        moment_nanos(moment) / 1_000_000 <= i64::MAX,
    ensures
        moment_nanos(moment) >= 0 ==> a >= 0 && b == a / 1000,
        moment_nanos(moment) < 0 ==> a == 0 && b == 0,
{
    if moment_nanos(moment) >= 0 {
        let n = moment_nanos(moment);
        assert(n / 1_000_000_000 == (n / 1_000_000) / 1000);
    }
}

} // verus!
