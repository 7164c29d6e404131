//! Points in time and spans of time, counted in nanoseconds.
use vstd::prelude::*;

verus! {

/// A span of time.
#[derive(Clone, Copy, Debug, PartialEq, Eq, Structural)]
pub struct Duration {
    pub nanos: u128,
}

/// A point in time, as the time that has passed since a fixed origin. All the instants that one
/// pool meets are counted from the same origin.
#[derive(Clone, Copy, Debug, PartialEq, Eq, Structural)]
pub struct Instant {
    pub nanos: u128,
}

impl Duration {
    pub fn from_nanos(nanos: u128) -> (duration: Duration)
        ensures
            duration.nanos == nanos,
    {
        Duration { nanos }
    }

    pub fn from_secs(secs: u64) -> (duration: Duration)
        ensures
            duration.nanos == secs * 1_000_000_000,
    {
        Duration { nanos: secs as u128 * 1_000_000_000 }
    }
}

impl Instant {
    pub fn from_nanos(nanos: u128) -> (instant: Instant)
        ensures
            instant.nanos == nanos,
    {
        Instant { nanos }
    }

    /// Whether more time than `span` has passed between `earlier` and this instant.
    pub fn is_past(&self, earlier: Instant, span: Duration) -> (past: bool)
        ensures
            past == (self.nanos > earlier.nanos + span.nanos),
    {
        self.nanos > earlier.nanos && self.nanos - earlier.nanos > span.nanos
    }
}

} // verus!
