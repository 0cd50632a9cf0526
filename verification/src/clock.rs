//! The clock abstraction: a host-supplied source of the current time, and a
//! plain instant type carrying seconds and microseconds from the Unix epoch.

use vstd::prelude::*;

verus! {

/// A point in time: seconds since the Unix epoch (negative for instants
/// before it) plus sub-second microseconds, always counted forwards.
pub struct Instant {
    pub secs: i64,
    pub micros: u32,
}

impl Instant {
    /// The instant's signed offset from the Unix epoch in nanoseconds.
    pub open spec fn spec_nanos_from_epoch(self) -> int {
        self.secs * 1_000_000_000 + self.micros * 1000
    }

    /// Splits the instant into a direction flag (true when the instant lies
    /// at or after the epoch) and a nonnegative seconds / nanoseconds pair,
    /// ready for a system-time constructor that only takes unsigned
    /// durations on either side of the epoch.
    pub fn epoch_parts(&self) -> (r: (bool, u64, u32))
        requires
            self.micros < 1_000_000,
            self.secs > i64::MIN,
        ensures
            r.2 < 1_000_000_000,
            self.spec_nanos_from_epoch() == if r.0 {
                r.1 * 1_000_000_000 + r.2
            } else {
                -(r.1 * 1_000_000_000 + r.2)
            },
    {
        if self.secs >= 0 {
            (true, self.secs as u64, self.micros * 1000)
        } else if self.micros == 0 {
            (false, (-self.secs) as u64, 0)
        } else {
            (false, ((-self.secs) as u64) - 1, (1_000_000 - self.micros) * 1000)
        }
    }
}

/// A source of the current time. What `now` returns depends on the host's
/// clock, so nothing is promised of the value.
pub trait Clock {
    fn now(&self) -> Instant;
}

} // verus!
