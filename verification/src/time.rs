//! Plain-value time types used by the cache.
//!
//! A `Duration` and an `Instant` are counted in nanoseconds. An `Instant`
//! counts from an origin that the caller picks once (the daemon uses its own
//! start), so two instants of one process compare as the monotonic clock does.
//! A `SystemTime` is a signed count of nanoseconds from the Unix epoch; the
//! cache only ever compares two of them for equality.
use vstd::prelude::*;

verus! {

/// Nanoseconds in one second.
pub const NANOS_PER_SEC: u128 = 1_000_000_000;

/// A span of time, in nanoseconds.
#[derive(Clone, Copy, Debug, PartialEq, Eq, Structural)]
pub struct Duration {
    pub nanos: u128,
}

impl View for Duration {
    type V = nat;

    open spec fn view(&self) -> nat {
        self.nanos as nat
    }
}

/// Whole seconds in `nanos` nanoseconds, capped at `u64::MAX`.
pub open spec fn whole_secs(nanos: nat) -> nat {
    if nanos / NANOS_PER_SEC as nat <= u64::MAX {
        nanos / NANOS_PER_SEC as nat
    } else {
        u64::MAX as nat
    }
}

impl Duration {
    /// The duration of `secs` whole seconds.
    pub fn from_secs(secs: u64) -> (d: Duration)
        ensures
            d@ == secs * NANOS_PER_SEC,
    {
        assert(secs * NANOS_PER_SEC <= u64::MAX * NANOS_PER_SEC) by (nonlinear_arith);
        Duration { nanos: (secs as u128) * NANOS_PER_SEC }
    }

    /// The duration of `nanos` nanoseconds.
    pub fn from_nanos(nanos: u128) -> (d: Duration)
        ensures
            d@ == nanos,
    {
        Duration { nanos }
    }

    /// Whole seconds in this duration (the fraction is dropped), as a `u64`
    /// where it fits and `u64::MAX` where it does not.
    pub fn as_secs(&self) -> (s: u64)
        ensures
            s == whole_secs(self@),
    {
        let s = self.nanos / NANOS_PER_SEC;
        if s <= u64::MAX as u128 {
            s as u64
        } else {
            u64::MAX
        }
    }

    /// The whole duration in nanoseconds.
    pub fn as_nanos(&self) -> (n: u128)
        ensures
            n == self@,
    {
        self.nanos
    }
}

/// A point on a monotonic clock, in nanoseconds from the caller's origin.
#[derive(Clone, Copy, Debug, PartialEq, Eq, Structural)]
pub struct Instant {
    pub nanos: u128,
}

impl View for Instant {
    type V = nat;

    open spec fn view(&self) -> nat {
        self.nanos as nat
    }
}

/// How long after `earlier` the instant `later` lies; zero when `later` is
/// not after `earlier` (the clock never runs backwards, so this only guards
/// against instants taken out of order).
pub open spec fn elapsed(later: nat, earlier: nat) -> nat {
    if later >= earlier {
        (later - earlier) as nat
    } else {
        0
    }
}

impl Instant {
    /// The instant `nanos` nanoseconds after the origin.
    pub fn from_nanos(nanos: u128) -> (t: Instant)
        ensures
            t@ == nanos,
    {
        Instant { nanos }
    }

    /// The instant `d` after `self`.
    pub fn after(self, d: Duration) -> (t: Instant)
        requires
            self@ + d@ <= u128::MAX,
        ensures
            t@ == self@ + d@,
    {
        Instant { nanos: self.nanos + d.nanos }
    }

    /// The time from `earlier` to `self`, zero if `earlier` is later.
    pub fn duration_since(self, earlier: Instant) -> (d: Duration)
        ensures
            d@ == elapsed(self@, earlier@),
    {
        if self.nanos >= earlier.nanos {
            Duration { nanos: self.nanos - earlier.nanos }
        } else {
            Duration { nanos: 0 }
        }
    }
}

/// A wall-clock time, in nanoseconds from the Unix epoch (negative before it).
#[derive(Clone, Copy, Debug, PartialEq, Eq, Structural)]
pub struct SystemTime {
    pub nanos: i128,
}

impl View for SystemTime {
    type V = int;

    open spec fn view(&self) -> int {
        self.nanos as int
    }
}

impl SystemTime {
    /// The Unix epoch.
    pub fn unix_epoch() -> (t: SystemTime)
        ensures
            t@ == 0,
    {
        SystemTime { nanos: 0 }
    }

    /// The time `nanos` nanoseconds from the Unix epoch.
    pub fn from_nanos(nanos: i128) -> (t: SystemTime)
        ensures
            t@ == nanos,
    {
        SystemTime { nanos }
    }

    /// The time `d` after `self`.
    pub fn after(self, d: Duration) -> (t: SystemTime)
        requires
            d@ <= i128::MAX,
            self@ + d@ <= i128::MAX,
        ensures
            t@ == self@ + d@,
    {
        SystemTime { nanos: self.nanos + d.nanos as i128 }
    }
}

} // verus!
