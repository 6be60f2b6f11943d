use vstd::prelude::*;
use crate::color::{Rgb, colors_match, similar};

verus! {

/// Rows left unscanned after a row that registered a marker.
pub const COOLDOWN_ROWS: usize = 10;

/// A captured image: `width * height` pixels, row-major, four bytes per pixel
/// in red, green, blue, alpha order.
#[derive(Clone, Debug)]
pub struct Frame {
    pub width: usize,
    pub height: usize,
    pub pixels: Vec<u8>,
}

/// Where a marker was registered: the column that completed the run, and its row.
#[derive(Clone, Copy, Debug, PartialEq, Eq, Structural)]
pub struct Marker {
    pub x: usize,
    pub y: usize,
}

impl Frame {
    /// The pixel buffer holds exactly the pixels of the grid.
    pub open spec fn wf(&self) -> bool {
        self.pixels@.len() == self.width * self.height * 4
    }

    /// The color of the pixel at column `x`, row `y`, alpha left out.
    pub open spec fn pixel_at(&self, x: int, y: int) -> Rgb {
        let i = (y * self.width + x) * 4;
        Rgb { r: self.pixels@[i], g: self.pixels@[i + 1], b: self.pixels@[i + 2] }
    }
}

/// For each column of row `y`, whether its pixel matches `color`.
pub open spec fn row_matches(f: Frame, y: int, color: Rgb) -> Seq<bool> {
    Seq::new(f.width as nat, |x: int| colors_match(f.pixel_at(x, y), color))
}

/// The scan of one row, pixel by pixel: the length of the current run of
/// matching pixels, whether the last pixel matched, and the columns at which
/// a run reached `t` pixels (with the pixel before it matching) and so
/// registered a marker, after which the run starts over.
pub open spec fn row_scan(m: Seq<bool>, t: nat) -> (nat, bool, Seq<int>)
    decreases m.len(),
{
    if m.len() == 0 {
        (0, false, Seq::empty())
    } else {
        let (c, p, h) = row_scan(m.drop_last(), t);
        if m.last() {
            if c + 1 >= t && p {
                (0, true, h.push(m.len() - 1))
            } else {
                ((c + 1) as nat, true, h)
            }
        } else {
            (0, false, h)
        }
    }
}

/// The columns at which a row registers markers.
pub open spec fn row_hits(m: Seq<bool>, t: nat) -> Seq<int> {
    row_scan(m, t).2
}

/// Pairs each column of `hits` with row `y`.
pub open spec fn hits_on_row(hits: Seq<int>, y: int) -> Seq<(int, int)> {
    hits.map_values(|x: int| (x, y))
}

/// The scan of the first `rows` rows: how many rows are still to be skipped,
/// and the markers registered so far, in scan order. A row that registers at
/// least one marker makes the next `COOLDOWN_ROWS` rows be skipped.
pub open spec fn frame_scan(f: Frame, color: Rgb, t: nat, rows: nat) -> (nat, Seq<(int, int)>)
    decreases rows,
{
    if rows == 0 {
        (0, Seq::empty())
    } else {
        let (s, ms) = frame_scan(f, color, t, (rows - 1) as nat);
        if s > 0 {
            ((s - 1) as nat, ms)
        } else {
            let hits = row_hits(row_matches(f, rows - 1, color), t);
            (
                if hits.len() > 0 { COOLDOWN_ROWS as nat } else { 0 },
                ms + hits_on_row(hits, rows - 1),
            )
        }
    }
}

/// The markers found in rows `0 .. min(limit, height)`.
pub open spec fn markers_of(f: Frame, color: Rgb, t: nat, limit: nat) -> Seq<(int, int)> {
    frame_scan(f, color, t, if limit < f.height { limit } else { f.height as nat }).1
}

/// The markers of an executable list, as pairs of integers.
pub open spec fn marker_view(v: Seq<Marker>) -> Seq<(int, int)> {
    v.map_values(|m: Marker| (m.x as int, m.y as int))
}

proof fn lemma_pixel_index(w: int, h: int, x: int, y: int)
    requires
        0 <= x < w,
        0 <= y < h,
    ensures
        0 <= y * w,
        y * w + x < w * h,
        (y * w + x) * 4 + 3 < w * h * 4,
{
    assert(y * w + x < w * h) by (nonlinear_arith)
        requires
            0 <= x < w,
            0 <= y < h,
    ;
    assert(0 <= y * w) by (nonlinear_arith)
        requires
            0 <= x < w,
            0 <= y < h,
    ;
}

/// Reads the pixel at column `x`, row `y` of a well-formed frame.
pub fn pixel_at(f: &Frame, x: usize, y: usize) -> (c: Rgb)
    requires
        f.wf(),
        x < f.width,
        y < f.height,
    ensures
        c == f.pixel_at(x as int, y as int),
{
    proof {
        lemma_pixel_index(f.width as int, f.height as int, x as int, y as int);
    }
    let n: usize = f.pixels.len();
    let i: usize = (y * f.width + x) * 4;
    Rgb { r: f.pixels[i], g: f.pixels[i + 1], b: f.pixels[i + 2] }
}

/// Scans row `y` of `f` and appends the markers it registers to `out`;
/// returns whether it registered any.
fn scan_row(f: &Frame, color: &Rgb, t: usize, y: usize, out: &mut Vec<Marker>) -> (any: bool)
    requires
        f.wf(),
        y < f.height,
    ensures
        marker_view(final(out)@) == marker_view(old(out)@) + hits_on_row(
            row_hits(row_matches(*f, y as int, *color), t as nat),
            y as int,
        ),
        any == (row_hits(row_matches(*f, y as int, *color), t as nat).len() > 0),
{
    let ghost m = row_matches(*f, y as int, *color);
    let ghost start = out@;
    let mut count: usize = 0;
    let mut prev = false;
    let mut any = false;
    let mut x: usize = 0;
    while x < f.width
        invariant
            f.wf(),
            y < f.height,
            m == row_matches(*f, y as int, *color),
            x <= f.width,
            count <= x,
            row_scan(m.take(x as int), t as nat) == (count as nat, prev, row_scan(
                m.take(x as int),
                t as nat,
            ).2),
            marker_view(out@) == marker_view(start) + hits_on_row(
                row_scan(m.take(x as int), t as nat).2,
                y as int,
            ),
            any == (row_scan(m.take(x as int), t as nat).2.len() > 0),
        decreases f.width - x,
    {
        let ghost before = row_scan(m.take(x as int), t as nat);
        assert(m.take(x + 1).drop_last() =~= m.take(x as int));
        assert(m.take(x + 1).last() == m[x as int]);
        let c = pixel_at(f, x, y);
        if similar(&c, color) {
            count = count + 1;
            if count >= t && prev {
                let ghost old_out = out@;
                out.push(Marker { x, y });
                assert(marker_view(out@) =~= marker_view(old_out).push((x as int, y as int)));
                assert(hits_on_row(before.2.push(x as int), y as int) =~= hits_on_row(
                    before.2,
                    y as int,
                ).push((x as int, y as int)));
                count = 0;
                any = true;
            }
            prev = true;
        } else {
            count = 0;
            prev = false;
        }
        x = x + 1;
    }
    assert(m.take(f.width as int) =~= m);
    any
}

/// Counts the markers of `color` in the rows above `limit`: scanning each row
/// left to right, a run of consecutive matching pixels registers a marker at
/// the column where it reaches `threshold` pixels (the pixel before it having
/// matched too) and then starts over; after a row that registered a marker,
/// the next `COOLDOWN_ROWS` rows are skipped.
pub fn detect_markers(f: &Frame, color: &Rgb, threshold: usize, limit: usize) -> (r: Vec<Marker>)
    requires
        f.wf(),
    ensures
        marker_view(r@) == markers_of(*f, *color, threshold as nat, limit as nat),
{
    let rows: usize = if limit < f.height { limit } else { f.height };
    let mut out: Vec<Marker> = Vec::new();
    let mut skip: usize = 0;
    let mut y: usize = 0;
    while y < rows
        invariant
            f.wf(),
            rows <= f.height,
            y <= rows,
            frame_scan(*f, *color, threshold as nat, y as nat) == (skip as nat, marker_view(out@)),
        decreases rows - y,
    {
        if skip > 0 {
            skip = skip - 1;
        } else {
            let any = scan_row(f, color, threshold, y, &mut out);
            skip = if any { COOLDOWN_ROWS } else { 0 };
        }
        y = y + 1;
    }
    out
}


/// A row of `w` pixels of which exactly those in columns `a .. a + k` match.
pub open spec fn run_row(w: nat, a: int, k: int) -> Seq<bool> {
    Seq::new(w, |x: int| a <= x < a + k)
}

/// The scan state after the first `n` pixels of `run_row(w, a, k)`, for a
/// run of `t - 1` or `t` pixels.
spec fn run_state(a: int, k: int, t: nat, n: int) -> (nat, bool, Seq<int>) {
    if n <= a {
        (0, false, Seq::empty())
    } else if n <= a + k {
        if n - a == t {
            (0, true, seq![a + t - 1])
        } else {
            ((n - a) as nat, true, Seq::empty())
        }
    } else {
        (0, false, if k == t { seq![a + t - 1] } else { Seq::empty() })
    }
}

proof fn lemma_run_prefix(w: nat, a: int, k: int, t: nat, n: int)
    requires
        0 <= a,
        a + k <= w,
        t >= 2,
        k == t - 1 || k == t,
        0 <= n <= w,
    ensures
        row_scan(run_row(w, a, k).take(n), t) == run_state(a, k, t, n),
    decreases n,
{
    let m = run_row(w, a, k);
    if n == 0 {
        assert(m.take(0).len() == 0);
    } else {
        lemma_run_prefix(w, a, k, t, n - 1);
        assert(m.take(n).drop_last() =~= m.take(n - 1));
        assert(m.take(n).last() == (a <= n - 1 < a + k));
    }
}

/// A run one pixel shorter than the threshold registers no marker; a run of
/// exactly the threshold registers one, at its last column. (A threshold of
/// one never registers a lone pixel, since the pixel before must match too.)
pub proof fn lemma_run_threshold(w: nat, a: int, t: nat)
    requires
        0 <= a,
        a + t <= w,
        t >= 2,
    ensures
        row_hits(run_row(w, a, t - 1), t).len() == 0,
        row_hits(run_row(w, a, t as int), t) == seq![a + t - 1],
{
    lemma_run_prefix(w, a, t - 1, t, w as int);
    lemma_run_prefix(w, a, t as int, t, w as int);
    assert(run_row(w, a, t - 1).take(w as int) =~= run_row(w, a, t - 1));
    assert(run_row(w, a, t as int).take(w as int) =~= run_row(w, a, t as int));
}

} // verus!
