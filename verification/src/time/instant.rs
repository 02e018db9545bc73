//! Points in time and spans of time, as plain nanosecond counts.

use vstd::prelude::*;

verus! {

/// A span of time.
#[derive(Clone, Copy, Debug, PartialEq, Eq, Structural)]
pub struct Duration {
    nanos: u128,
}

impl Duration {
    /// The span in nanoseconds.
    pub closed spec fn view(&self) -> nat {
        self.nanos as nat
    }

    /// A span of `nanos` nanoseconds.
    pub fn from_nanos(nanos: u64) -> (d: Self)
        ensures
            d@ == nanos,
    {
        Duration { nanos: nanos as u128 }
    }

    /// A span of `millis` milliseconds.
    pub fn from_millis(millis: u64) -> (d: Self)
        ensures
            d@ == millis * 1_000_000,
    {
        Duration { nanos: millis as u128 * 1_000_000 }
    }

    /// A span of `secs` seconds.
    pub fn from_secs(secs: u64) -> (d: Self)
        ensures
            d@ == secs * 1_000_000_000,
    {
        Duration { nanos: secs as u128 * 1_000_000_000 }
    }

    /// A span of `secs` seconds and `nanos` nanoseconds.
    pub fn new(secs: u64, nanos: u32) -> (d: Self)
        requires
            nanos < 1_000_000_000,
        ensures
            d@ == secs * 1_000_000_000 + nanos,
    {
        Duration { nanos: secs as u128 * 1_000_000_000 + nanos as u128 }
    }

    /// The span in nanoseconds.
    pub fn as_nanos(&self) -> (nanos: u128)
        ensures
            nanos == self@,
    {
        self.nanos
    }

    /// The span in whole milliseconds, rounded down.
    pub fn as_millis(&self) -> (millis: u128)
        ensures
            millis == self@ / 1_000_000,
    {
        self.nanos / 1_000_000
    }
}

/// A point in time, counted in nanoseconds from an origin that the caller fixes once.
#[derive(Clone, Copy, Debug, PartialEq, Eq, Structural)]
pub struct Instant {
    nanos: u128,
}

impl Instant {
    /// Nanoseconds since the origin.
    pub closed spec fn view(&self) -> nat {
        self.nanos as nat
    }

    /// The point `nanos` nanoseconds after the origin.
    pub fn from_nanos(nanos: u128) -> (i: Self)
        ensures
            i@ == nanos,
    {
        Instant { nanos }
    }

    /// The point `dur` after this one.
    pub fn after(&self, dur: Duration) -> (later: Self)
        requires
            self@ + dur@ <= u128::MAX,
        ensures
            later@ == self@ + dur@,
    {
        Instant { nanos: self.nanos + dur.nanos }
    }

    /// The point `dur` after this one, or the last one there is if that is too far.
    pub fn saturating_after(&self, dur: Duration) -> (later: Self)
        ensures
            later@ == if self@ + dur@ <= u128::MAX {
                (self@ + dur@) as int
            } else {
                u128::MAX as int
            },
    {
        if dur.nanos <= u128::MAX - self.nanos {
            Instant { nanos: self.nanos + dur.nanos }
        } else {
            Instant { nanos: u128::MAX }
        }
    }

    /// The span from `earlier` to this point, or zero if `earlier` is the later one.
    pub fn saturating_duration_since(&self, earlier: Instant) -> (d: Duration)
        ensures
            d@ == if self@ >= earlier@ {
                (self@ - earlier@) as nat
            } else {
                0
            },
    {
        if self.nanos >= earlier.nanos {
            Duration { nanos: self.nanos - earlier.nanos }
        } else {
            Duration { nanos: 0 }
        }
    }

    /// Whether this point is at or after `other`.
    pub fn reached(&self, other: Instant) -> (b: bool)
        ensures
            b == (self@ >= other@),
    {
        self.nanos >= other.nanos
    }
}

} // verus!
