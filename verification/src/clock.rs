//! The system clock.

use vstd::prelude::*;

verus! {

/// Milliseconds since the Unix epoch by `std::time::SystemTime::now`, 0
/// before the epoch. Nothing is promised of the value: it is the time.
#[verifier::external_body]
pub(crate) fn unix_ms() -> u64 {
    std::time::SystemTime::now().duration_since(std::time::UNIX_EPOCH).map(|d| d.as_millis() as u64).unwrap_or(0)
}

} // verus!
