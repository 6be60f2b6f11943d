use vstd::prelude::*;

verus! {

/// Nanoseconds in one second.
pub const NANOS_PER_SEC: u64 = 1_000_000_000;

/// A fixed-rate gate: says when a tick is due, at most once per period.
#[derive(Clone, Copy, Debug, PartialEq, Eq, Structural)]
pub struct FrameClock {
    /// The period, in nanoseconds.
    pub length: u64,
    /// When the last tick was let through, in nanoseconds.
    pub last: u64,
}

impl FrameClock {
    /// A gate for `limit` ticks a second, its period starting at `now`.
    pub fn new(limit: u32, now: u64) -> (c: FrameClock)
        requires
            limit > 0,
        ensures
            c.length == NANOS_PER_SEC / (limit as u64),
            c.last == now,
    {
        FrameClock { length: NANOS_PER_SEC / (limit as u64), last: now }
    }

    /// Whether a tick is due at time `now`; when it is, the period starts over.
    pub fn tick(&mut self, now: u64) -> (due: bool)
        ensures
            final(self).length == old(self).length,
            due == (now >= old(self).last && now - old(self).last >= old(self).length
                || now < old(self).last && old(self).length == 0),
            final(self).last == (if due { now } else { old(self).last }),
    {
        let passed: u64 = if now >= self.last { now - self.last } else { 0 };
        if passed >= self.length {
            self.last = now;
            true
        } else {
            false
        }
    }
}

} // verus!
