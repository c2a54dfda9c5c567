use vstd::prelude::*;

use std::time::Instant;

verus! {

/// A point in time of the monotonic clock.
#[verifier::external_type_specification]
#[verifier::external_body]
pub struct ExInstant(Instant);

/// Relies on `Instant::elapsed`: the whole milliseconds passed since `start`. Nothing is
/// promised of the value, which depends on the clock.
#[verifier::external_body]
pub(crate) fn elapsed_millis(start: &Instant) -> (r: u64) {
    start.elapsed().as_millis() as u64
}

} // verus!
