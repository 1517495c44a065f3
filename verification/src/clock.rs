//! The current time, read from the system clock.
use vstd::prelude::*;

verus! {

/// The current UTC time: whole seconds since the Unix epoch and the
/// nanoseconds past that second.
///
/// Calls `chrono::Utc::now` and reads `DateTime::timestamp` and
/// `DateTime::timestamp_subsec_nanos` of that one reading. Nothing is
/// promised of the values: they are whatever the clock reads.
#[verifier::external_body]
pub(crate) fn now_utc() -> (t: (i64, u32)) {
    let now = chrono::Utc::now();
    (now.timestamp(), now.timestamp_subsec_nanos())
}

/// One second, in microseconds.
pub const MICROS_PER_SECOND: i64 = 1_000_000;

/// The longest span a date and time can be moved by: `i64::MAX`
/// milliseconds, in nanoseconds.
pub const MAX_SPAN_NANOS: u128 = 9_223_372_036_854_775_807_000_000;

/// The latest date and time that can be held, the last nanosecond of the
/// year 262142, in nanoseconds since the Unix epoch.
pub const MAX_TIMESTAMP_NANOS: i128 = 8_210_266_876_799_999_999_999;

/// A time to live of `secs` seconds and `nanos` nanoseconds, in
/// nanoseconds.
pub open spec fn span_nanos(secs: u64, nanos: u32) -> int {
    secs * 1_000_000_000 + nanos
}

/// Whether a time in microseconds, moved by a time to live of `secs`
/// seconds and `nanos` (under one second) nanoseconds, is still a date and
/// time that can be held.
pub open spec fn span_fits(since: i64, secs: u64, nanos: u32) -> bool {
    &&& nanos < 1_000_000_000
    &&& span_nanos(secs, nanos) <= MAX_SPAN_NANOS
    &&& since * 1000 + span_nanos(secs, nanos) <= MAX_TIMESTAMP_NANOS
}

/// Whether `since` (microseconds) moved by the time to live is still after
/// `now`, given in whole seconds and nanoseconds past them.
pub open spec fn still_before(since: i64, secs: u64, nanos: u32, now_secs: i64, now_nanos: u32) -> bool {
    since * 1000 + span_nanos(secs, nanos) > now_secs * 1_000_000_000 + now_nanos
}

/// Whether `since` moved by the time to live is still after `now`.
pub fn is_still_before(since: i64, secs: u64, nanos: u32, now_secs: i64, now_nanos: u32) -> (b: bool)
    ensures
        b == still_before(since, secs, nanos, now_secs, now_nanos),
{
    let lhs = since as i128 * 1000i128 + (secs as i128) * 1_000_000_000i128 + nanos as i128;
    let rhs = now_secs as i128 * 1_000_000_000i128 + now_nanos as i128;
    lhs > rhs
}

/// Whether `since + ttl_secs` is already before `now`.
pub open spec fn due(since: i64, ttl_secs: u64, now: i64) -> bool {
    since + ttl_secs * MICROS_PER_SECOND < now
}

/// Whether `since + ttl_secs` is before `now`.
pub fn is_due(since: i64, ttl_secs: u64, now: i64) -> (b: bool)
    ensures
        b == due(since, ttl_secs, now),
{
    let lhs = since as i128 + (ttl_secs as i128) * 1_000_000i128;
    lhs < now as i128
}

} // verus!
