use vstd::prelude::*;
use std::time::{Instant, SystemTime, UNIX_EPOCH};

verus! {

/// The monotonic clock's instants, carried through as they are.
#[verifier::external_type_specification]
#[verifier::external_body]
pub struct ExInstant(Instant);

/// Milliseconds since the Unix epoch by the system clock, or `None` while the
/// clock reads earlier than the epoch. Calls `SystemTime::duration_since` on
/// `SystemTime::now()`; the reading depends on the machine's clock, so nothing is
/// claimed of its value.
#[verifier::external_body]
pub(crate) fn epoch_millis() -> (r: Option<u64>) {
    SystemTime::now().duration_since(UNIX_EPOCH).ok().map(|d| d.as_millis() as u64)
}

/// The current instant of the monotonic clock, by `Instant::now()`; nothing is
/// claimed of it.
#[verifier::external_body]
pub(crate) fn start_clock() -> (r: Instant) {
    Instant::now()
}

/// Whole nanoseconds elapsed on the monotonic clock since `origin`, by
/// `Instant::elapsed` and `Duration::as_nanos`; the reading depends on the
/// time of the call, so nothing is claimed of its value.
#[verifier::external_body]
pub(crate) fn elapsed_nanos(origin: &Instant) -> (r: u64) {
    origin.elapsed().as_nanos() as u64
}

} // verus!
