//! The wall clock, read by the MBC3 real-time clock and by "last played" labels.

use vstd::prelude::*;

verus! {

/// Whole seconds since the Unix epoch from `SystemTime::now`, or `None` when the system
/// clock is set before the epoch. Nothing is promised of the value: it depends on the
/// machine's clock.
#[verifier::external_body]
pub(crate) fn system_time_secs() -> (r: Option<u64>) {
    match std::time::SystemTime::now().duration_since(std::time::UNIX_EPOCH) {
        Ok(d) => Some(d.as_secs()),
        Err(_) => None,
    }
}

/// Seconds since the Unix epoch, 0 when the clock is set before it.
pub fn unix_time_secs() -> (r: u64) {
    match system_time_secs() {
        Some(t) => t,
        None => 0,
    }
}

} // verus!
