//! The wall clock, in whole seconds since the Unix epoch.

use vstd::prelude::*;

verus! {

/// A point in time of the system clock.
#[verifier::external_type_specification]
#[verifier::external_body]
pub struct ExSystemTime(std::time::SystemTime);

/// What `SystemTime::duration_since` reports where the later time lies
/// before the earlier.
#[verifier::external_type_specification]
#[verifier::external_body]
pub struct ExSystemTimeError(std::time::SystemTimeError);

/// Calls `SystemTime::now`: the system clock's present time. Nothing is
/// claimed of it.
#[verifier::external_body]
fn system_now() -> std::time::SystemTime {
    std::time::SystemTime::now()
}

/// Calls `SystemTime::duration_since` with the Unix epoch: the time passed
/// since the epoch, or an error where the clock stands before it. Nothing is
/// claimed of either.
#[verifier::external_body]
fn since_epoch(time: &std::time::SystemTime) -> Result<
    std::time::Duration,
    std::time::SystemTimeError,
> {
    time.duration_since(std::time::UNIX_EPOCH)
}

/// Calls `Duration::as_secs`: the whole seconds of a duration. The duration
/// is not modelled, so nothing is claimed of the number.
#[verifier::external_body]
fn whole_seconds(span: &std::time::Duration) -> u64 {
    span.as_secs()
}

/// The present time in whole seconds since the Unix epoch, and 0 where the
/// system clock stands before the epoch.
pub fn current_time_secs() -> u64 {
    let now: std::time::SystemTime = system_now();
    match since_epoch(&now) {
        Ok(span) => whole_seconds(&span),
        Err(_) => 0,
    }
}

} // verus!
