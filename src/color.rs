use vstd::prelude::*;

verus! {

/// Largest per-channel difference at which two colors still count as the same.
pub const TOLERANCE: u8 = 10;

/// An RGB color, alpha left out.
#[derive(Clone, Copy, Debug, PartialEq, Eq, Structural)]
pub struct Rgb {
    pub r: u8,
    pub g: u8,
    pub b: u8,
}

/// The color of the encounter banner's marker glyphs.
pub fn marker_color() -> (c: Rgb)
    ensures
        c == (Rgb { r: 131, g: 205, b: 140 }),
{
    Rgb { r: 131, g: 205, b: 140 }
}

/// Absolute difference of two channel values.
pub open spec fn channel_diff(a: u8, b: u8) -> int {
    if a >= b { a - b } else { b - a }
}

/// Two colors match when no channel differs by more than the tolerance.
pub open spec fn colors_match(c1: Rgb, c2: Rgb) -> bool {
    channel_diff(c1.r, c2.r) <= TOLERANCE as int
        && channel_diff(c1.g, c2.g) <= TOLERANCE as int
        && channel_diff(c1.b, c2.b) <= TOLERANCE as int
}

/// Whether `a` and `b` differ by at most `r`.
pub fn within(r: u8, a: u8, b: u8) -> (res: bool)
    ensures
        res == (channel_diff(a, b) <= r as int),
{
    if a > b {
        a - b <= r
    } else {
        b - a <= r
    }
}

/// Whether two colors match channel by channel within the tolerance.
pub fn similar(c1: &Rgb, c2: &Rgb) -> (res: bool)
    ensures
        res == colors_match(*c1, *c2),
{
    within(TOLERANCE, c1.r, c2.r) && within(TOLERANCE, c1.g, c2.g) && within(TOLERANCE, c1.b, c2.b)
}

/// Matching is symmetric.
pub proof fn lemma_match_symmetric(c1: Rgb, c2: Rgb)
    ensures
        colors_match(c1, c2) == colors_match(c2, c1),
{
}

/// Every channel within ten matches; any channel further than ten does not.
pub proof fn lemma_match_boundary(c1: Rgb, c2: Rgb)
    ensures
        (channel_diff(c1.r, c2.r) <= 10 && channel_diff(c1.g, c2.g) <= 10
            && channel_diff(c1.b, c2.b) <= 10) ==> colors_match(c1, c2),
        (channel_diff(c1.r, c2.r) > 10 || channel_diff(c1.g, c2.g) > 10
            || channel_diff(c1.b, c2.b) > 10) ==> !colors_match(c1, c2),
{
}

} // verus!
