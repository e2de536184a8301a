//! The wall clock.

use std::time::{Duration, SystemTime, SystemTimeError, UNIX_EPOCH};
use vstd::prelude::*;

verus! {

/// How many milliseconds a second has.
pub const MILLIS_PER_SEC: u128 = 1_000;

/// How many nanoseconds a millisecond has.
pub const NANOS_PER_MILLI: u32 = 1_000_000;

/// A reading of the system clock, carried as an opaque value.
#[verifier::external_type_specification]
#[verifier::external_body]
pub struct ExSystemTime(std::time::SystemTime);

/// The error of a clock reading that lies before the time it is measured from.
#[verifier::external_type_specification]
#[verifier::external_body]
pub struct ExSystemTimeError(std::time::SystemTimeError);

/// `SystemTime::now` reads the system clock. Nothing is claimed of the reading.
pub assume_specification[ std::time::SystemTime::now ]() -> (reading: SystemTime)
;

/// Calls `SystemTime::duration_since` on `reading` with the Unix epoch: the
/// time from the epoch to the reading, or an error where the reading lies
/// before the epoch. Nothing is claimed of the outcome.
#[verifier::external_body]
fn since_epoch(reading: &SystemTime) -> (elapsed: Result<Duration, SystemTimeError>)
{
    reading.duration_since(UNIX_EPOCH)
}

/// `Duration::as_secs` gives the whole seconds of a duration. Nothing is
/// claimed of the number.
pub assume_specification[ std::time::Duration::as_secs ](duration: &Duration) -> (secs: u64)
;

/// `Duration::subsec_nanos` gives what a duration holds beyond its whole
/// seconds, in nanoseconds. Nothing is claimed of the number.
pub assume_specification[ std::time::Duration::subsec_nanos ](duration: &Duration) -> (nanos: u32)
;

/// The whole milliseconds in a span of `secs` seconds and `subsec_nanos`
/// nanoseconds: what is left of a millisecond is dropped.
pub open spec fn millis_of(secs: u64, subsec_nanos: u32) -> u128 {
    (secs * MILLIS_PER_SEC + subsec_nanos / NANOS_PER_MILLI) as u128
}

/// The time in milliseconds since the Unix epoch for a clock reading.
/// `elapsed` is the time from the epoch to the reading in seconds and
/// nanoseconds beyond them, or `None` where the reading lies before the epoch.
pub open spec fn epoch_millis_of(elapsed: Option<(u64, u32)>) -> Option<u128> {
    match elapsed {
        Some((secs, subsec_nanos)) => Some(millis_of(secs, subsec_nanos)),
        None => None,
    }
}

/// The time in milliseconds since the Unix epoch for a clock reading.
///
/// `elapsed` is the time from the epoch to the reading in seconds and
/// nanoseconds beyond them, or `None` where the reading lies before the
/// epoch; then there is no such time.
pub fn epoch_millis(elapsed: Option<(u64, u32)>) -> (millis: Option<u128>)
    ensures
        millis == epoch_millis_of(elapsed),
        millis is Some <==> elapsed is Some,
{
    match elapsed {
        Some((secs, subsec_nanos)) => Some(
            secs as u128 * MILLIS_PER_SEC + (subsec_nanos / NANOS_PER_MILLI) as u128,
        ),
        None => None,
    }
}

/// The time of the system clock in milliseconds since the Unix epoch, or
/// `None` where the clock is set to a time before it.
///
/// The clock is read once. What comes back is what [`epoch_millis`] gives
/// for that reading: the whole milliseconds of its seconds and nanoseconds.
pub fn now_ms() -> (millis: Option<u128>)
    ensures
        exists|elapsed: Option<(u64, u32)>| millis == #[trigger] epoch_millis_of(elapsed),
{
    let reading = SystemTime::now();
    let elapsed = match since_epoch(&reading) {
        Ok(span) => Some((span.as_secs(), span.subsec_nanos())),
        Err(_) => None,
    };
    epoch_millis(elapsed)
}

} // verus!
