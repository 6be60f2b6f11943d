use vstd::prelude::*;

verus! {

/// Width of the overlay's output buffer, in pixels.
pub const OUT_WIDTH: usize = 300;

/// Height of the overlay's output buffer, in pixels.
pub const OUT_HEIGHT: usize = 100;

/// One decoded animation frame: `width * height` pixels, row-major, four bytes
/// per pixel in red, green, blue, alpha order.
#[derive(Clone, Debug)]
pub struct Sprite {
    pub width: usize,
    pub height: usize,
    pub pixels: Vec<u8>,
}

impl Sprite {
    /// The buffer holds the grid exactly, and the sprite fits the output buffer.
    pub open spec fn wf(&self) -> bool {
        &&& self.pixels@.len() == self.width * self.height * 4
        &&& self.width <= OUT_WIDTH
        &&& self.height <= OUT_HEIGHT
    }

    /// A sprite from its pixels, if they fill the grid and the grid fits the
    /// output buffer.
    pub fn new(width: usize, height: usize, pixels: Vec<u8>) -> (r: Option<Sprite>)
        ensures
            r.is_some() == (pixels@.len() == width * height * 4 && width <= OUT_WIDTH && height
                <= OUT_HEIGHT),
            r.is_some() ==> r->0.wf() && r->0.width == width && r->0.height == height
                && r->0.pixels@ == pixels@,
    {
        if width > OUT_WIDTH || height > OUT_HEIGHT {
            return None;
        }
        assert(width * height <= 30000) by (nonlinear_arith)
            requires
                width <= 300,
                height <= 100,
        ;
        if pixels.len() == width * height * 4 {
            Some(Sprite { width, height, pixels })
        } else {
            None
        }
    }
}

/// The display time of a frame whose delay is `numer / denom` milliseconds,
/// rounded down.
pub fn delay_ms(numer: u32, denom: u32) -> (r: u64)
    requires
        denom > 0,
    ensures
        r == numer / denom,
{
    (numer / denom) as u64
}

/// A looping animation: frames with display times in milliseconds, the frame
/// shown now, and the time at which it was first shown.
#[derive(Clone, Debug)]
pub struct Animator {
    pub frames: Vec<Sprite>,
    pub durations: Vec<u64>,
    pub current: usize,
    pub shown_at: u64,
}

/// Time elapsed from `from` to `now`, zero if `now` is earlier.
pub open spec fn elapsed(from: u64, now: u64) -> int {
    if now >= from { now - from } else { 0 }
}

impl Animator {
    /// As many display times as frames, at least one frame, each well formed,
    /// and the cursor on a frame.
    pub open spec fn wf(&self) -> bool {
        &&& self.frames@.len() == self.durations@.len()
        &&& self.frames@.len() > 0
        &&& self.current < self.frames@.len()
        &&& forall|i: int| 0 <= i < self.frames@.len() ==> (#[trigger] self.frames@[i]).wf()
    }

    /// An animation on its first frame, first shown at `now`; `None` when there
    /// are no frames, or not one display time per frame, or a frame is not
    /// well formed.
    pub fn new(frames: Vec<Sprite>, durations: Vec<u64>, now: u64) -> (r: Option<Animator>)
        ensures
            r.is_some() == (frames@.len() == durations@.len() && frames@.len() > 0 && forall|
                i: int,
            |
                0 <= i < frames@.len() ==> (#[trigger] frames@[i]).wf()),
            r.is_some() ==> r->0.wf() && r->0.frames@ == frames@ && r->0.durations@
                == durations@ && r->0.current == 0 && r->0.shown_at == now,
    {
        if frames.len() != durations.len() || frames.len() == 0 {
            return None;
        }
        let mut i: usize = 0;
        while i < frames.len()
            invariant
                0 <= i <= frames@.len(),
                forall|j: int| 0 <= j < i ==> (#[trigger] frames@[j]).wf(),
            decreases frames@.len() - i,
        {
            let f = &frames[i];
            if f.width > OUT_WIDTH || f.height > OUT_HEIGHT {
                return None;
            }
            assert(f.width * f.height <= 30000) by (nonlinear_arith)
                requires
                    f.width <= 300,
                    f.height <= 100,
            ;
            if f.pixels.len() != f.width * f.height * 4 {
                return None;
            }
            i = i + 1;
        }
        Some(Animator { frames, durations, current: 0, shown_at: now })
    }

    /// At time `now`, moves to the next frame (after the last, the first) once
    /// the current one has been shown for its display time; one frame at most
    /// per call.
    pub fn update(&mut self, now: u64)
        requires
            old(self).wf(),
        ensures
            final(self).wf(),
            final(self).frames@ == old(self).frames@,
            final(self).durations@ == old(self).durations@,
            elapsed(old(self).shown_at, now) >= old(self).durations@[old(self).current as int] ==> {
                &&& final(self).current == (old(self).current + 1) % (old(self).frames@.len() as int)
                &&& final(self).shown_at == now
            },
            elapsed(old(self).shown_at, now) < old(self).durations@[old(self).current as int]
                ==> final(self).current == old(self).current && final(self).shown_at == old(
                self,
            ).shown_at,
    {
        let passed: u64 = if now >= self.shown_at { now - self.shown_at } else { 0 };
        if passed >= self.durations[self.current] {
            let last: usize = self.frames.len() - 1;
            proof {
                let n = self.frames@.len();
                if self.current + 1 < n {
                    vstd::arithmetic::div_mod::lemma_small_mod((self.current + 1) as nat, n);
                } else {
                    vstd::arithmetic::div_mod::lemma_mod_self_0(n as int);
                }
            }
            self.current = if self.current >= last { 0 } else { self.current + 1 };
            self.shown_at = now;
        }
    }

    /// The frame shown now.
    pub fn frame(&self) -> (r: &Sprite)
        requires
            self.wf(),
        ensures
            *r == self.frames@[self.current as int],
            r.wf(),
    {
        &self.frames[self.current]
    }
}

} // verus!
