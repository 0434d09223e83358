//! Points in time and spans of time, counted in milliseconds on a monotonic
//! clock that the caller chooses, and the three protocol timers.

use vstd::prelude::*;

verus! {

/// A point in time: milliseconds elapsed on the caller's monotonic clock.
#[derive(Clone, Copy, Debug, PartialEq, Eq, Structural)]
pub struct Instant {
    pub millis: u64,
}

/// A span of time in milliseconds.
#[derive(Clone, Copy, Debug, PartialEq, Eq, Structural)]
pub struct Duration {
    pub millis: u64,
}

impl Duration {
    /// A span of `millis` milliseconds.
    pub fn from_millis(millis: u64) -> (d: Duration)
        ensures
            d.millis == millis,
    {
        Duration { millis }
    }

    /// A span of `secs` seconds.
    pub fn from_secs(secs: u64) -> (d: Duration)
        requires
            secs * 1000 <= u64::MAX,
        ensures
            d.millis == secs * 1000,
    {
        Duration { millis: secs * 1000 }
    }

    /// The number of whole seconds in this span.
    pub fn as_secs(&self) -> (secs: u64)
        ensures
            secs == self.millis / 1000,
    {
        self.millis / 1000
    }
}

impl Instant {
    /// The point `millis` milliseconds after the clock's origin.
    pub fn from_millis(millis: u64) -> (t: Instant)
        ensures
            t.millis == millis,
    {
        Instant { millis }
    }

    /// Whether `d` can be added to this point without leaving the clock's range.
    pub open spec fn can_add(self, d: Duration) -> bool {
        self.millis + d.millis <= u64::MAX
    }

    /// The point `d` after this one; the caller guarantees that it is on the clock.
    pub fn add_duration(self, d: Duration) -> (t: Instant)
        requires
            self.can_add(d),
        ensures
            t.millis == self.millis + d.millis,
    {
        Instant { millis: self.millis + d.millis }
    }

    /// The point `d` after this one, or `None` where it is beyond the clock's range.
    pub fn checked_add(self, d: Duration) -> (t: Option<Instant>)
        ensures
            match t {
                Some(t) => self.can_add(d) && t.millis == self.millis + d.millis,
                None => !self.can_add(d),
            },
    {
        match self.millis.checked_add(d.millis) {
            Some(millis) => Some(Instant { millis }),
            None => None,
        }
    }
}

/// Deadline of the identification timer: the remote side must identify itself before it.
#[derive(Clone, Copy, Debug, PartialEq, Eq, Structural)]
pub struct Ti(pub Instant);

/// Deadline of the response timer: something must arrive from the remote side before it.
#[derive(Clone, Copy, Debug, PartialEq, Eq, Structural)]
pub struct Tr(pub Instant);

/// Deadline of the heartbeat timer: a heartbeat is sent when nothing else was sent before it.
#[derive(Clone, Copy, Debug, PartialEq, Eq, Structural)]
pub struct Ts(pub Instant);

} // verus!
