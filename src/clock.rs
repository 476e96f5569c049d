use vstd::prelude::*;

use std::time::{Duration, Instant};

verus! {

/// Relies on std::time::Instant, a point of the monotonic clock, held opaque:
/// nothing is known of its contents.
#[verifier::external_type_specification]
#[verifier::external_body]
pub struct ExInstant(Instant);

/// Relies on std::time::Instant::now: reads the monotonic clock. Nothing is
/// promised of the value read.
pub assume_specification[ Instant::now ]() -> Instant;

/// Relies on std::time::Instant::elapsed: the time passed since an instant.
/// Nothing is promised of the value, which depends on when it is read.
pub assume_specification[ Instant::elapsed ](i: &Instant) -> Duration;

/// Relies on std::time::Duration::as_millis: the whole milliseconds of a duration.
pub assume_specification[ Duration::as_millis ](d: &Duration) -> u128;

/// Whether at least `timeout_ms` milliseconds have passed since `time`.
pub fn is_timeout(time: &Instant, timeout_ms: u128) -> bool {
    time.elapsed().as_millis() >= timeout_ms
}

} // verus!
