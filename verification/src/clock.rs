//! The wall clock, as far as the session needs it.

use std::time::{Duration, Instant};
use vstd::prelude::*;

verus! {

/// `std::time::Instant`: a reading of the monotonic clock, opaque here.
#[verifier::external_type_specification]
#[verifier::external_body]
pub struct ExInstant(Instant);

/// `Instant::now` reads the clock. Nothing is claimed of the reading.
pub assume_specification[ Instant::now ]() -> Instant;

/// `Instant::elapsed` gives the time gone by since the reading was taken.
/// Nothing is claimed of it.
pub assume_specification[ Instant::elapsed ](start: &Instant) -> Duration;

/// `Duration::as_millis` gives the whole milliseconds of a time span.
/// Nothing is claimed of it.
pub assume_specification[ Duration::as_millis ](span: &Duration) -> u128;

/// Milliseconds gone by since `start`.
pub fn millis_since(start: &Instant) -> u128 {
    let span = start.elapsed();
    span.as_millis()
}

} // verus!
