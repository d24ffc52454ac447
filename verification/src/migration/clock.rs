//! Monotonic time source for the migration tool.
use crate::clock::{instant_now, millis_since, saturating_millis};
use vstd::prelude::*;

verus! {

/// System clock used outside of tests.
#[derive(Debug, Clone, Copy)]
pub struct SystemClock {
    start: std::time::Instant,
}

impl SystemClock {
    /// Creates a new system clock, started now.
    pub fn new() -> (c: SystemClock) {
        SystemClock { start: instant_now() }
    }

    /// Milliseconds since the clock was created (saturating).
    pub fn now_monotonic_ms(&self) -> (ms: i64)
        ensures
            ms >= 0,
    {
        saturating_millis(millis_since(&self.start))
    }
}

impl Default for SystemClock {
    fn default() -> (c: SystemClock) {
        SystemClock::new()
    }
}

} // verus!
