//! The time of the system's clock, counted from the Unix epoch.

use vstd::prelude::*;

verus! {

/// `std::time::SystemTime`: a reading of the system's clock.
#[verifier::external_type_specification]
#[verifier::external_body]
pub struct ExSystemTime(std::time::SystemTime);

/// `std::time::SystemTimeError`: the failure of `SystemTime::duration_since`.
#[verifier::external_type_specification]
#[verifier::external_body]
pub struct ExSystemTimeError(std::time::SystemTimeError);

/// `SystemTime::now` reads the clock. Nothing is claimed of the reading.
pub assume_specification[ std::time::SystemTime::now ]() -> (now: std::time::SystemTime);

/// `SystemTime::duration_since` gives the time from `earlier` to `time`,
/// or an error where `earlier` is the later one. Nothing is claimed of either.
pub assume_specification[ std::time::SystemTime::duration_since ](
    time: &std::time::SystemTime,
    earlier: std::time::SystemTime,
) -> (elapsed: Result<core::time::Duration, std::time::SystemTimeError>);

/// `Duration::as_secs` gives the whole seconds of a duration.
pub assume_specification[ core::time::Duration::as_secs ](duration: &core::time::Duration) -> (secs: u64);

/// `Duration::as_millis` gives the whole milliseconds of a duration.
pub assume_specification[ core::time::Duration::as_millis ](duration: &core::time::Duration) -> (millis: u128);

/// The constant `std::time::UNIX_EPOCH`.
#[verifier::external_body]
fn epoch() -> std::time::SystemTime {
    std::time::UNIX_EPOCH
}

/// The whole seconds since the Unix epoch, or nothing where the clock
/// stands before the epoch.
pub fn unix_seconds() -> Option<u64> {
    match std::time::SystemTime::now().duration_since(epoch()) {
        Ok(elapsed) => Some(elapsed.as_secs()),
        Err(_) => None,
    }
}

/// The whole milliseconds since the Unix epoch; zero where the clock
/// stands before the epoch, and the greatest number where it is out of
/// range. Whatever the clock shows, the result is not negative.
pub fn unix_millis() -> (millis: i64)
    ensures
        0 <= millis,
{
    match std::time::SystemTime::now().duration_since(epoch()) {
        Ok(elapsed) => millis_to_time(elapsed.as_millis()),
        Err(_) => 0,
    }
}

/// The time that a count of milliseconds gives: the count itself, or the
/// greatest time where the count lies beyond it.
pub open spec fn time_of_millis(count: u128) -> i64 {
    if count <= i64::MAX {
        count as i64
    } else {
        i64::MAX
    }
}

/// The time that a count of milliseconds gives: the count itself, or the
/// greatest time where the count lies beyond it.
pub fn millis_to_time(count: u128) -> (time: i64)
    ensures
        time == time_of_millis(count),
        0 <= time,
{
    if count <= 0x7fff_ffff_ffff_ffff {
        count as i64
    } else {
        i64::MAX
    }
}

} // verus!
