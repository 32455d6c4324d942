//! The wall clock, for ids and token timestamps.
use vstd::prelude::*;

verus! {

/// Relies on std::time::SystemTime::now: nanoseconds since the Unix epoch,
/// truncated to 64 bits, or 0 for a clock before the epoch.
#[verifier::external_body]
pub(crate) fn clock_nanos() -> (r: u64) {
    match std::time::SystemTime::now().duration_since(std::time::UNIX_EPOCH) {
        Ok(d) => d.as_nanos() as u64,
        Err(_) => 0,
    }
}

} // verus!
