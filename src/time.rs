//! Instants and durations in microseconds.
use vstd::prelude::*;

verus! {

/// Latest instant that the library plans from; later ones would leave no
/// room for the durations added to them.
pub const MAX_TICKS: u64 = 0x7fff_ffff_ffff_ffff;

/// A point in time, in microseconds since an arbitrary origin.
#[derive(Clone, Copy, Debug, PartialEq, Eq, Structural)]
pub struct Instant {
    pub ticks: u64,
}

/// A span of time in microseconds.
#[derive(Clone, Copy, Debug, PartialEq, Eq, Structural)]
pub struct Duration {
    pub ticks: u64,
}

impl Instant {
    pub fn from_ticks(ticks: u64) -> (r: Instant)
        ensures
            r.ticks == ticks,
    {
        Instant { ticks }
    }

    /// The instant `d` after this one.
    pub fn plus(self, d: Duration) -> (r: Instant)
        requires
            self.ticks + d.ticks <= u64::MAX,
        ensures
            r.ticks == self.ticks + d.ticks,
    {
        Instant { ticks: self.ticks + d.ticks }
    }

    /// The time elapsed since `earlier`, or `None` when `earlier` is later.
    pub fn checked_duration_since(self, earlier: Instant) -> (r: Option<Duration>)
        ensures
            self.ticks >= earlier.ticks ==> r == Some(Duration { ticks: (self.ticks - earlier.ticks) as u64 }),
            self.ticks < earlier.ticks ==> r.is_none(),
    {
        if self.ticks >= earlier.ticks {
            Some(Duration { ticks: self.ticks - earlier.ticks })
        } else {
            None
        }
    }
}

impl Duration {
    pub fn millis(ms: u64) -> (r: Duration)
        requires
            ms * 1000 <= u64::MAX,
        ensures
            r.ticks == ms * 1000,
    {
        Duration { ticks: ms * 1000 }
    }

    /// Whole milliseconds, rounded down.
    pub fn to_millis(self) -> (r: u64)
        ensures
            r == self.ticks / 1000,
    {
        self.ticks / 1000
    }
}

} // verus!
