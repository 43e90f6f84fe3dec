use vstd::prelude::*;

verus! {

/// A point in time of the monotonic clock, held as an opaque value.
#[verifier::external_type_specification]
#[verifier::external_body]
pub struct ExInstant(std::time::Instant);

/// Relies on `std::time::Instant::now`: reads the monotonic clock. Nothing is
/// known of the value.
pub assume_specification[ std::time::Instant::now ]() -> std::time::Instant;

/// Relies on `std::time::Instant::elapsed`: the time since the instant.
/// Nothing is known of the value.
pub assume_specification[ std::time::Instant::elapsed ](
    i: &std::time::Instant,
) -> std::time::Duration;

/// Relies on `std::time::Duration::as_millis`: whole milliseconds of the
/// duration. Nothing is known of the value.
pub assume_specification[ std::time::Duration::as_millis ](d: &std::time::Duration) -> u128;

/// Whole milliseconds since `start`, held at `u64::MAX` beyond that.
pub fn elapsed_millis(start: &std::time::Instant) -> (r: u64) {
    let ms = start.elapsed().as_millis();
    if ms > u64::MAX as u128 {
        u64::MAX
    } else {
        ms as u64
    }
}

} // verus!
