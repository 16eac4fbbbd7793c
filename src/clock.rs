use vstd::prelude::*;
use core::time::Duration;

verus! {

/// Relies on `std::time::SystemTime::elapsed` called on `UNIX_EPOCH`: the time since
/// the Unix epoch as the wall clock now reads it, or nothing where the clock reads
/// earlier than the epoch. Nothing is promised of the reading.
#[verifier::external_body]
fn since_unix_epoch() -> (r: Option<Duration>) {
    std::time::UNIX_EPOCH.elapsed().ok()
}

/// Relies on `Duration::as_millis`: the whole milliseconds in a duration.
pub assume_specification[ core::time::Duration::as_millis ](d: &Duration) -> u128;

/// `ms` as an `i64`, or nothing where it does not fit.
pub fn millis_to_i64(ms: u128) -> (r: Option<i64>)
    ensures
        r == (if ms <= i64::MAX as u128 {
            Some(ms as i64)
        } else {
            None
        }),
{
    if ms <= i64::MAX as u128 {
        Some(ms as i64)
    } else {
        None
    }
}

/// The wall clock in milliseconds since the Unix epoch, or nothing where it
/// reads before the epoch or beyond what an `i64` holds.
pub fn time_gen() -> (r: Option<i64>)
    ensures
        r matches Some(t) ==> t >= 0,
{
    match since_unix_epoch() {
        Some(d) => millis_to_i64(d.as_millis()),
        None => None,
    }
}

} // verus!
