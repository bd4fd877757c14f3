//! A monotonic clock, read as nanoseconds since the clock was started.

use std::time::{Duration, Instant};
use vstd::prelude::*;

verus! {

/// `std::time::Instant`, one reading of the machine's monotonic clock. It is
/// carried around as it is: nothing is seen of what it holds.
#[verifier::external_type_specification]
#[verifier::external_body]
pub struct ExInstant(Instant);

/// `Instant::now` reads the machine's monotonic clock; nothing is claimed of
/// the reading.
pub assume_specification[ Instant::now ]() -> (now: Instant);

/// `Instant::saturating_duration_since` gives the time from `earlier` to
/// `later`, or zero if `earlier` is the later of the two. Both are opaque
/// readings, so nothing is claimed of the length that comes back.
pub assume_specification[ Instant::saturating_duration_since ](
    later: &Instant,
    earlier: Instant,
) -> (span: Duration);

/// `Duration::as_nanos` gives the whole span in nanoseconds. A `Duration` is
/// opaque here, so nothing is claimed of the number.
pub assume_specification[ Duration::as_nanos ](span: &Duration) -> (nanos: u128);

/// A clock that counts from the moment it was started.
#[derive(Debug)]
pub struct Clock {
    origin: Instant,
}

impl Clock {
    /// Starts a clock now. All that the clock holds is the moment of this
    /// call, which is opaque, so nothing is promised of it either.
    pub fn start() -> Clock {
        Clock { origin: Instant::now() }
    }

    /// Nanoseconds that have passed since the clock was started. What the
    /// number is depends on the moment of the call alone, so nothing is
    /// promised of it; whoever uses it is proved for every reading.
    pub fn now(&self) -> u128 {
        let reading = Instant::now();
        let span = reading.saturating_duration_since(self.origin);
        span.as_nanos()
    }
}

} // verus!
