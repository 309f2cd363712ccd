//! Reading the wall clock.

use std::time::{Duration, SystemTime, SystemTimeError};
use vstd::prelude::*;

verus! {

#[verifier::external_type_specification]
#[verifier::external_body]
pub struct ExSystemTime(SystemTime);

#[verifier::external_type_specification]
#[verifier::external_body]
pub struct ExSystemTimeError(SystemTimeError);

/// `SystemTime::now` reads the system clock; nothing is claimed of what it
/// returns.
pub assume_specification[ SystemTime::now ]() -> (t: SystemTime);

/// `SystemTime::duration_since` gives the time elapsed since `earlier`, or an
/// error when `earlier` is later than `self`; nothing more is claimed.
pub assume_specification[ SystemTime::duration_since ](
    t: &SystemTime,
    earlier: SystemTime,
) -> (r: Result<Duration, SystemTimeError>);

/// `Duration::as_millis` gives the whole milliseconds of a duration; nothing
/// is claimed of the number.
pub assume_specification[ Duration::as_millis ](d: &Duration) -> (ms: u128);

/// `Duration::as_nanos` gives the whole nanoseconds of a duration; nothing is
/// claimed of the number.
pub assume_specification[ Duration::as_nanos ](d: &Duration) -> (ns: u128);

/// The constant `std::time::UNIX_EPOCH`.
#[verifier::external_body]
fn unix_epoch() -> (t: SystemTime) {
    std::time::UNIX_EPOCH
}

/// Milliseconds since the Unix epoch. A clock that stands before the epoch
/// reads as zero, and one beyond what 63 bits hold as the largest value.
pub fn current_time_ms() -> (t: i64)
    ensures
        t >= 0,
{
    // The clock is read here; what becomes of the reading is decided in
    // `millis_since_epoch`.
    let now = SystemTime::now();
    let reading = match now.duration_since(unix_epoch()) {
        Ok(elapsed) => Some(elapsed.as_millis()),
        Err(_) => None,
    };
    millis_since_epoch(reading)
}

/// Nanoseconds since the Unix epoch; zero for a clock that stands before it.
///
/// Nothing is promised of the number, which is whatever the clock says. What
/// becomes of a reading is decided in `nanos_since_epoch`, and what becomes
/// of the number in the functions that take it.
pub fn current_time_nanos() -> (t: u128) {
    let now = SystemTime::now();
    let reading = match now.duration_since(unix_epoch()) {
        Ok(elapsed) => Some(elapsed.as_nanos()),
        Err(_) => None,
    };
    nanos_since_epoch(reading)
}

/// The time in milliseconds for a reading of the clock, where the reading is
/// the milliseconds elapsed since the Unix epoch, or nothing when the clock
/// stands before the epoch: nothing reads as zero, and a number beyond what
/// 63 bits hold as the largest value that they hold.
pub open spec fn spec_millis_since_epoch(reading: Option<u128>) -> i64 {
    match reading {
        Some(ms) => if ms <= i64::MAX {
            ms as i64
        } else {
            i64::MAX
        },
        None => 0,
    }
}

/// The time in milliseconds for a reading of the clock.
#[verifier::when_used_as_spec(spec_millis_since_epoch)]
pub fn millis_since_epoch(reading: Option<u128>) -> (t: i64)
    ensures
        t == spec_millis_since_epoch(reading),
        t >= 0,
{
    match reading {
        Some(ms) => if ms <= 0x7fff_ffff_ffff_ffff {
            ms as i64
        } else {
            i64::MAX
        },
        None => 0,
    }
}

/// The time in nanoseconds for a reading of the clock, where the reading is
/// the nanoseconds elapsed since the Unix epoch, or nothing when the clock
/// stands before the epoch: nothing reads as zero.
pub open spec fn spec_nanos_since_epoch(reading: Option<u128>) -> u128 {
    match reading {
        Some(ns) => ns,
        None => 0,
    }
}

/// The time in nanoseconds for a reading of the clock.
#[verifier::when_used_as_spec(spec_nanos_since_epoch)]
pub fn nanos_since_epoch(reading: Option<u128>) -> (t: u128)
    ensures
        t == spec_nanos_since_epoch(reading),
{
    match reading {
        Some(ns) => ns,
        None => 0,
    }
}

} // verus!
