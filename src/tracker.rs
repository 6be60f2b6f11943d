use vstd::prelude::*;

verus! {

/// How many encounters a banner showing `count` markers stands for.
pub open spec fn increment_spec(count: nat) -> Option<u64> {
    if count == 1 || count == 2 {
        Some(1u64)
    } else if count == 3 || count == 4 {
        Some(3u64)
    } else if count == 5 || count == 6 {
        Some(5u64)
    } else {
        None
    }
}

/// Adds two counts, stopping at the largest `u64`.
pub open spec fn saturating_sum(a: u64, b: u64) -> u64 {
    if a + b > u64::MAX { u64::MAX } else { (a + b) as u64 }
}

/// The encounter count a banner of `count` markers stands for, if any.
pub fn increment_for(count: usize) -> (r: Option<u64>)
    ensures
        r == increment_spec(count as nat),
{
    if count == 1 || count == 2 {
        Some(1)
    } else if count == 3 || count == 4 {
        Some(3)
    } else if count == 5 || count == 6 {
        Some(5)
    } else {
        None
    }
}

/// Turns per-frame marker counts into a running encounter total.
#[derive(Clone, Copy, Debug, PartialEq, Eq, Structural)]
pub struct EncounterTracker {
    /// Encounters counted so far.
    pub total: u64,
    /// Markers seen in the last frame that was captured.
    pub previous: usize,
    /// An increment waiting for the next redraw.
    pub pending: Option<u64>,
}

/// The tracker after taking a frame with `count` markers.
pub open spec fn observed(t: EncounterTracker, count: usize) -> EncounterTracker {
    EncounterTracker {
        total: t.total,
        previous: count,
        pending: if t.previous == 0 && increment_spec(count as nat).is_some() {
            increment_spec(count as nat)
        } else {
            t.pending
        },
    }
}

impl EncounterTracker {
    /// A tracker resuming from `total`; a zero increment is pending so that
    /// the first redraw shows the total.
    pub fn new(total: u64) -> (t: EncounterTracker)
        ensures
            t.total == total,
            t.previous == 0,
            t.pending == Some(0u64),
    {
        EncounterTracker { total, previous: 0, pending: Some(0) }
    }

    /// Takes the marker count of a new frame. An increment is staged only
    /// when the previous frame had no markers and this one has some (from one
    /// to six); a count that stays non-zero stages nothing.
    pub fn observe(&mut self, count: usize)
        ensures
            *final(self) == observed(*old(self), count),
    {
        if self.previous == 0 {
            match increment_for(count) {
                Some(k) => self.pending = Some(k),
                None => {},
            }
        }
        self.previous = count;
    }

    /// Applies the pending increment, if any, and returns it.
    pub fn apply_pending(&mut self) -> (r: Option<u64>)
        ensures
            r == old(self).pending,
            final(self).total >= old(self).total,
            final(self).pending.is_none(),
            final(self).previous == old(self).previous,
            final(self).total == (match old(self).pending {
                Some(k) => saturating_sum(old(self).total, k),
                None => old(self).total,
            }),
    {
        let r = self.pending;
        match r {
            Some(k) => {
                self.total = self.total.saturating_add(k);
            },
            None => {},
        }
        self.pending = None;
        r
    }
}

/// The total never goes down.
pub proof fn lemma_total_monotonic(a: u64, k: u64)
    ensures
        saturating_sum(a, k) >= a,
{
}

} // verus!
