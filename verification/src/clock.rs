//! Wall-clock and monotonic time, read through std and chrono.

use vstd::prelude::*;
use std::time::{Duration, Instant, SystemTime, SystemTimeError};

verus! {

/// The smallest millisecond timestamp chrono's `DateTime<Utc>` can hold
/// (the first millisecond of year -262143).
pub const MIN_CLOCK_MILLIS: i64 = -8_334_601_315_200_000;

/// The largest millisecond timestamp chrono's `DateTime<Utc>` can hold
/// (the last millisecond of year 262142).
pub const MAX_CLOCK_MILLIS: i64 = 8_210_266_876_799_999;

/// The first and last whole seconds chrono's `DateTime<Utc>` can hold.
pub const MIN_CLOCK_SECS: i64 = -8_334_601_315_200;
pub const MAX_CLOCK_SECS: i64 = 8_210_266_876_799;

/// Whether `t` is a millisecond timestamp that a `DateTime<Utc>` can hold.
pub open spec fn valid_clock_millis(t: i64) -> bool {
    MIN_CLOCK_MILLIS <= t <= MAX_CLOCK_MILLIS
}

#[verifier::external_type_specification]
#[verifier::external_body]
pub struct ExSystemTime(SystemTime);

#[verifier::external_type_specification]
#[verifier::external_body]
pub struct ExSystemTimeError(SystemTimeError);

/// Reads the system clock with `std::time::SystemTime::now`. Nothing is
/// claimed of the value.
#[verifier::external_body]
fn system_time_now() -> SystemTime {
    SystemTime::now()
}

/// `SystemTime::duration_since(UNIX_EPOCH)`: the time since the epoch, or
/// an error when `t` lies before it. Nothing is claimed of the values.
#[verifier::external_body]
fn since_unix_epoch(t: &SystemTime) -> Result<Duration, SystemTimeError> {
    t.duration_since(SystemTime::UNIX_EPOCH)
}

/// `SystemTimeError::duration`: how far before the epoch the time lay.
/// Nothing is claimed of the value.
#[verifier::external_body]
fn time_error_duration(e: &SystemTimeError) -> Duration {
    e.duration()
}

/// `Duration::as_secs`: the whole seconds of `d`. Nothing is claimed of the
/// value beyond its type.
#[verifier::external_body]
fn duration_whole_secs(d: &Duration) -> u64 {
    d.as_secs()
}

/// `Duration::subsec_nanos`: the nanoseconds beyond the whole seconds.
/// Claimed: less than one billion, as std documents.
#[verifier::external_body]
fn duration_subsec_nanos(d: &Duration) -> (n: u32)
    ensures
        n < 1_000_000_000,
{
    d.subsec_nanos()
}

/// `chrono::DateTime::from_timestamp(secs, nanos)` and, when it gives a
/// datetime, its `timestamp_millis`. Claimed, for `nanos` below one
/// billion: a datetime comes back only for seconds within chrono's range
/// (it checks the day against its date range), and its millisecond
/// timestamp is `secs * 1000 + nanos / 1_000_000` (the datetime
/// round-trips `secs` and `nanos`). `None` is not stated to be limited to
/// out-of-range seconds.
#[verifier::external_body]
fn timestamp_millis_from(secs: i64, nanos: u32) -> (res: Option<i64>)
    ensures
        nanos < 1_000_000_000 ==> (res matches Some(ms) ==> {
            &&& MIN_CLOCK_SECS <= secs <= MAX_CLOCK_SECS
            &&& ms == secs * 1000 + nanos / 1_000_000
        }),
{
    match chrono::DateTime::from_timestamp(secs, nanos) {
        Some(dt) => Some(dt.timestamp_millis()),
        None => None,
    }
}

/// The current UTC time in milliseconds since the Unix epoch, read from the
/// system clock and converted through chrono. A clock reading that chrono
/// cannot hold (beyond year 262142 or before year -262143) is reported as
/// the nearest end of chrono's range.
pub(crate) fn utc_now_millis() -> (t: i64)
    ensures
        valid_clock_millis(t),
{
    let now = system_time_now();
    match since_unix_epoch(&now) {
        Ok(d) => {
            let secs = duration_whole_secs(&d);
            let nanos = duration_subsec_nanos(&d);
            if secs > MAX_CLOCK_SECS as u64 {
                return MAX_CLOCK_MILLIS;
            }
            match timestamp_millis_from(secs as i64, nanos) {
                Some(ms) => ms,
                None => MAX_CLOCK_MILLIS,
            }
        },
        Err(e) => {
            let d = time_error_duration(&e);
            let secs = duration_whole_secs(&d);
            let nanos = duration_subsec_nanos(&d);
            // The time is `-(secs + nanos / 10^9)` seconds.
            if secs >= (-MIN_CLOCK_SECS) as u64 {
                return MIN_CLOCK_MILLIS;
            }
            let (whole, frac) = if nanos == 0 {
                (-(secs as i64), 0u32)
            } else {
                (-(secs as i64) - 1, 1_000_000_000 - nanos)
            };
            match timestamp_millis_from(whole, frac) {
                Some(ms) => ms,
                None => MIN_CLOCK_MILLIS,
            }
        },
    }
}

#[verifier::external_type_specification]
#[verifier::external_body]
pub struct ExInstant(Instant);

/// Reads the monotonic clock with `std::time::Instant::now`. Nothing is
/// claimed of the value.
#[verifier::external_body]
pub(crate) fn monotonic_now() -> Instant {
    Instant::now()
}

/// `Instant::elapsed`: the time since `start`. Nothing is claimed of it.
#[verifier::external_body]
pub(crate) fn elapsed_since(start: &Instant) -> Duration {
    start.elapsed()
}

/// `Duration::as_millis`: the whole milliseconds of `d`. Nothing is claimed
/// of the value beyond its type.
#[verifier::external_body]
pub(crate) fn duration_millis(d: &Duration) -> u128 {
    d.as_millis()
}

/// A count of milliseconds, capped at `i64::MAX`.
pub(crate) fn duration_millis_i64(ms: u128) -> (r: i64)
    ensures
        r == if ms <= i64::MAX as u128 {
            ms as int
        } else {
            i64::MAX as int
        },
{
    if ms <= i64::MAX as u128 {
        ms as i64
    } else {
        i64::MAX
    }
}

} // verus!
