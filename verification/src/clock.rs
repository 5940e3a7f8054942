//! The system clock, read in whole seconds since the 1970 epoch.
//!
//! What the clock says is taken on trust: the items that reach it state nothing
//! of the moment they return.

use std::time::Duration;
use std::time::SystemTime;
use std::time::SystemTimeError;
use vstd::prelude::*;

verus! {

/// `std::time::SystemTime`, a reading of the system clock; nothing is known of its value.
#[verifier::external_type_specification]
#[verifier::external_body]
pub struct ExSystemTime(SystemTime);

/// `std::time::SystemTimeError`, returned when a moment lies before the one it is measured from.
#[verifier::external_type_specification]
#[verifier::external_body]
pub struct ExSystemTimeError(SystemTimeError);

/// `SystemTime::now` reads the system clock. Nothing is claimed of the reading.
pub assume_specification[ SystemTime::now ]() -> (now: SystemTime);

/// `SystemTime::duration_since` measures the time from `earlier` to `time`, or reports that
/// `earlier` is the later of the two. Nothing is claimed of which, nor of the span.
pub assume_specification[ SystemTime::duration_since ](
    time: &SystemTime,
    earlier: SystemTime,
) -> (elapsed: Result<Duration, SystemTimeError>);

/// The whole seconds that a span of time holds, as `Duration::as_secs` counts them.
pub uninterp spec fn whole_seconds(span: Duration) -> u64;

/// `Duration::as_secs` gives the whole seconds of a span: a number that depends on the
/// span alone. Nothing else is claimed of it.
pub assume_specification[ Duration::as_secs ](span: &Duration) -> (secs: u64)
    ensures
        secs == whole_seconds(*span),
;

/// `std::time::UNIX_EPOCH`, the moment from which the delimiter's seconds are counted.
#[verifier::external_body]
fn unix_epoch() -> SystemTime {
    std::time::UNIX_EPOCH
}

/// The seconds counted for a measurement from the epoch: its whole seconds, or zero where
/// the clock read a moment before the epoch.
pub fn seconds_of(elapsed: Result<Duration, SystemTimeError>) -> (secs: u64)
    ensures
        secs == match elapsed {
            Ok(span) => whole_seconds(span),
            Err(_) => 0,
        },
{
    match elapsed {
        Ok(span) => span.as_secs(),
        Err(_) => 0,
    }
}

/// Whole seconds on the system clock since the 1970 epoch: the count of one measurement
/// from the epoch, zero where it failed. Which moment the clock reads is not known.
pub fn seconds_since_epoch() -> (secs: u64)
    ensures
        exists|elapsed: Result<Duration, SystemTimeError>| secs == seconds_counted(elapsed),
{
    let now = SystemTime::now();
    let elapsed = now.duration_since(unix_epoch());
    let ghost measured = elapsed;
    let secs: u64 = seconds_of(elapsed);
    assert(secs == seconds_counted(measured));
    secs
}

/// The seconds counted for a measurement from the epoch: its whole seconds, or zero where
/// the clock read a moment before the epoch.
pub open spec fn seconds_counted(elapsed: Result<Duration, SystemTimeError>) -> u64 {
    match elapsed {
        Ok(span) => whole_seconds(span),
        Err(_) => 0,
    }
}

} // verus!
