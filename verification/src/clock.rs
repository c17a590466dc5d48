//! The system clock and the monotonic clock.

use vstd::prelude::*;

verus! {

/// Nanoseconds since the Unix epoch, cut to 64 bits, by `std::time::SystemTime::elapsed`
/// on the epoch; 0 where the system clock stands before it. What the clock shows is not
/// known in advance, so nothing is claimed of the result.
#[verifier::external_body]
pub(crate) fn unix_nanos() -> (now: u64) {
    std::time::UNIX_EPOCH.elapsed().unwrap_or_default().as_nanos() as u64
}

/// A reading of the monotonic clock of the standard library.
#[verifier::external_type_specification]
#[verifier::external_body]
pub struct ExInstant(std::time::Instant);

/// `std::time::Instant::now` reads the monotonic clock. Nothing is claimed of it.
pub assume_specification[ std::time::Instant::now ]() -> (now: std::time::Instant)
;

/// Nanoseconds since `start`, cut to 64 bits, by `std::time::Instant::elapsed`. It
/// depends on the clock, so nothing is claimed of the result.
#[verifier::external_body]
pub(crate) fn elapsed_nanos(start: &std::time::Instant) -> (ns: u64) {
    start.elapsed().as_nanos() as u64
}

} // verus!
