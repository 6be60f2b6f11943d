use vstd::prelude::*;
use image::Pixel;
use crate::animator::{Sprite, OUT_WIDTH, OUT_HEIGHT};

verus! {

/// Bytes in the output buffer: four per pixel.
pub const OUT_LEN: usize = 120000;

/// Column at which the text block's right edge stands.
pub const TEXT_RIGHT: usize = 180;

/// Rows between the buffer's top and the text block.
pub const TEXT_TOP: usize = 5;

/// Alpha of the translucent dark backing.
pub const BACKING_ALPHA: u8 = 60;

/// What `image` returns for `src` laid over `dst` with alpha-over compositing.
pub uninterp spec fn blend_of(dst: Seq<u8>, src: Seq<u8>) -> [u8; 4];

/// Relies on image's `Rgba::blend`: the alpha-over result depends on the two
/// pixels alone; a fully transparent `src` leaves `dst` as it is, and a fully
/// opaque one replaces it.
#[verifier::external_body]
fn blend(dst: [u8; 4], src: [u8; 4]) -> (r: [u8; 4])
    ensures
        r == blend_of(dst@, src@),
        src[3] == 0 ==> r == dst,
        src[3] == 255 ==> r == src,
{
    let mut c = image::Rgba(dst);
    c.blend(&image::Rgba(src));
    c.0
}

/// The translucent dark pixel that backs the text block.
pub open spec fn backing() -> Seq<u8> {
    seq![0u8, 0u8, 0u8, BACKING_ALPHA]
}

/// The four bytes of pixel (`x`, `y`) in an output buffer.
pub open spec fn px(buf: Seq<u8>, x: int, y: int) -> Seq<u8> {
    buf.subrange((y * OUT_WIDTH + x) * 4, (y * OUT_WIDTH + x) * 4 + 4)
}

/// A glyph's coverage bitmap, `width * height` values, placed with its top
/// left corner at (`x`, `y`) within the text block.
#[derive(Clone, Debug)]
pub struct Glyph {
    pub x: usize,
    pub y: usize,
    pub width: usize,
    pub height: usize,
    pub coverage: Vec<u8>,
}

impl Glyph {
    /// The bitmap holds exactly one coverage value per pixel.
    pub open spec fn wf(&self) -> bool {
        self.coverage@.len() == self.width * self.height
    }
}

/// Laid-out glyphs and the width of the block they form.
#[derive(Clone, Debug)]
pub struct TextBlock {
    pub glyphs: Vec<Glyph>,
    pub width: usize,
}

impl TextBlock {
    /// The block fits left of its right edge, and each glyph is well formed.
    pub open spec fn wf(&self) -> bool {
        &&& self.width <= TEXT_RIGHT
        &&& forall|i: int| 0 <= i < self.glyphs@.len() ==> (#[trigger] self.glyphs@[i]).wf()
    }
}

/// Coverage that stays visible: at least a tenth of full coverage.
pub open spec fn visible(c: u8) -> bool {
    c as int * 10 >= 255
}

/// What glyph `g`, its block's left edge at column `left`, paints at (`x`, `y`).
pub open spec fn glyph_pixel(g: Glyph, left: int, x: int, y: int) -> Option<Seq<u8>> {
    let gx = x - left - g.x;
    let gy = y - TEXT_TOP - g.y;
    if 0 <= gx < g.width && 0 <= gy < g.height && visible(g.coverage@[gy * g.width + gx]) {
        Some(
            blend_of(
                seq![0u8, 0u8, 0u8, 0u8],
                seq![255u8, 255u8, 255u8, g.coverage@[gy * g.width + gx]],
            )@,
        )
    } else {
        None
    }
}

/// What a list of glyphs paints at (`x`, `y`): the last glyph there wins.
pub open spec fn text_pixel(gs: Seq<Glyph>, left: int, x: int, y: int) -> Option<Seq<u8>>
    decreases gs.len(),
{
    if gs.len() == 0 {
        None
    } else {
        match glyph_pixel(gs.last(), left, x, y) {
            Some(p) => Some(p),
            None => text_pixel(gs.drop_last(), left, x, y),
        }
    }
}

/// What the sprite paints at (`x`, `y`): it stands against the right edge,
/// centred vertically, each pixel laid over the dark backing.
pub open spec fn sprite_pixel(s: Sprite, x: int, y: int) -> Option<Seq<u8>> {
    let sx = x - (OUT_WIDTH - s.width);
    let sy = y - (OUT_HEIGHT - s.height) / 2;
    if 0 <= sx < s.width && 0 <= sy < s.height {
        Some(
            blend_of(
                backing(),
                s.pixels@.subrange((sy * s.width + sx) * 4, (sy * s.width + sx) * 4 + 4),
            )@,
        )
    } else {
        None
    }
}

/// Pixel (`x`, `y`) after a redraw over `old`: the sprite where it stands;
/// elsewhere, with text, the glyphs over the backing; without text, the old pixel.
pub open spec fn composed_pixel(old: Seq<u8>, text: Option<TextBlock>, s: Sprite, x: int, y: int) -> Seq<u8> {
    match sprite_pixel(s, x, y) {
        Some(p) => p,
        None => match text {
            Some(t) => match text_pixel(t.glyphs@, TEXT_RIGHT - t.width, x, y) {
                Some(p) => p,
                None => backing(),
            },
            None => px(old, x, y),
        },
    }
}

/// The output buffer after a redraw over `old`, byte by byte.
pub open spec fn composed(old: Seq<u8>, text: Option<TextBlock>, s: Sprite) -> Seq<u8> {
    Seq::new(
        OUT_LEN as nat,
        |i: int| composed_pixel(old, text, s, (i / 4) % (OUT_WIDTH as int), (i / 4) / (OUT_WIDTH as int))[i % 4],
    )
}

proof fn lemma_byte_in_pixel(i: int)
    requires
        0 <= i < OUT_LEN,
    ensures
        0 <= (i / 4) % (OUT_WIDTH as int) < OUT_WIDTH,
        0 <= (i / 4) / (OUT_WIDTH as int) < OUT_HEIGHT,
        ((i / 4) / (OUT_WIDTH as int) * OUT_WIDTH + (i / 4) % (OUT_WIDTH as int)) * 4 + i % 4 == i,
        0 <= i % 4 < 4,
{
}

/// Two buffers with the same pixels are the same buffer.
proof fn lemma_pixels_determine(a: Seq<u8>, b: Seq<u8>)
    requires
        a.len() == OUT_LEN,
        b.len() == OUT_LEN,
        forall|x: int, y: int|
            0 <= x < OUT_WIDTH && 0 <= y < OUT_HEIGHT ==> #[trigger] px(a, x, y) == px(b, x, y),
    ensures
        a == b,
{
    assert forall|i: int| 0 <= i < OUT_LEN implies a[i] == b[i] by {
        lemma_byte_in_pixel(i);
        let x = (i / 4) % (OUT_WIDTH as int);
        let y = (i / 4) / (OUT_WIDTH as int);
        assert(px(a, x, y)[i % 4] == a[i]);
        assert(px(b, x, y)[i % 4] == b[i]);
    }
    assert(a =~= b);
}

/// The pixels of `composed` are those of `composed_pixel`.
proof fn lemma_composed_pixels(old: Seq<u8>, text: Option<TextBlock>, s: Sprite, buf: Seq<u8>)
    requires
        buf.len() == OUT_LEN,
        forall|x: int, y: int|
            0 <= x < OUT_WIDTH && 0 <= y < OUT_HEIGHT ==> #[trigger] px(buf, x, y)
                == composed_pixel(old, text, s, x, y),
    ensures
        buf == composed(old, text, s),
{
    let c = composed(old, text, s);
    assert forall|i: int| 0 <= i < OUT_LEN implies buf[i] == c[i] by {
        lemma_byte_in_pixel(i);
        let x = (i / 4) % (OUT_WIDTH as int);
        let y = (i / 4) / (OUT_WIDTH as int);
        assert(px(buf, x, y)[i % 4] == buf[i]);
    }
    assert(buf =~= c);
}

/// Writes pixel (`x`, `y`) of an output buffer.
fn put_pixel(buf: &mut Vec<u8>, x: usize, y: usize, p: [u8; 4])
    requires
        old(buf)@.len() == OUT_LEN,
        x < OUT_WIDTH,
        y < OUT_HEIGHT,
    ensures
        final(buf)@.len() == OUT_LEN,
        forall|cx: int, cy: int|
            0 <= cx < OUT_WIDTH && 0 <= cy < OUT_HEIGHT ==> #[trigger] px(final(buf)@, cx, cy)
                == if cx == x && cy == y {
                p@
            } else {
                px(old(buf)@, cx, cy)
            },
{
    let ghost before = buf@;
    let i: usize = (y * OUT_WIDTH + x) * 4;
    buf.set(i, p[0]);
    buf.set(i + 1, p[1]);
    buf.set(i + 2, p[2]);
    buf.set(i + 3, p[3]);
    assert forall|cx: int, cy: int| 0 <= cx < OUT_WIDTH && 0 <= cy < OUT_HEIGHT implies #[trigger] px(
        buf@,
        cx,
        cy,
    ) == if cx == x && cy == y {
        p@
    } else {
        px(before, cx, cy)
    } by {
        if cx == x && cy == y {
            assert(px(buf@, cx, cy) =~= p@);
        } else {
            assert(px(buf@, cx, cy) =~= px(before, cx, cy));
        }
    }
}


proof fn lemma_grid_index(w: int, h: int, x: int, y: int)
    requires
        0 <= x < w,
        0 <= y < h,
    ensures
        0 <= y * w,
        y * w + x < w * h,
        (y * w + x) * 4 + 4 <= w * h * 4,
{
    assert(y * w + x < w * h) by (nonlinear_arith)
        requires
            0 <= x < w,
            0 <= y < h,
    ;
    assert(0 <= y * w) by (nonlinear_arith)
        requires
            0 <= y,
            0 <= w,
    ;
}

/// Fills the whole buffer with the dark backing.
fn fill_backing(buf: &mut Vec<u8>)
    requires
        old(buf)@.len() == OUT_LEN,
    ensures
        final(buf)@.len() == OUT_LEN,
        forall|x: int, y: int|
            0 <= x < OUT_WIDTH && 0 <= y < OUT_HEIGHT ==> #[trigger] px(final(buf)@, x, y)
                == backing(),
{
    let mut i: usize = 0;
    while i < OUT_LEN
        invariant
            buf@.len() == OUT_LEN,
            i <= OUT_LEN,
            forall|j: int| 0 <= j < i ==> #[trigger] buf@[j] == if j % 4 == 3 {
                BACKING_ALPHA
            } else {
                0u8
            },
        decreases OUT_LEN - i,
    {
        let v: u8 = if i % 4 == 3 { BACKING_ALPHA } else { 0 };
        buf.set(i, v);
        i = i + 1;
    }
    assert forall|x: int, y: int| 0 <= x < OUT_WIDTH && 0 <= y < OUT_HEIGHT implies #[trigger] px(
        buf@,
        x,
        y,
    ) == backing() by {
        let b = (y * OUT_WIDTH + x) * 4;
        assert(buf@[b] == 0u8);
        assert(buf@[b + 1] == 0u8);
        assert(buf@[b + 2] == 0u8);
        assert(buf@[b + 3] == BACKING_ALPHA);
        assert(px(buf@, x, y) =~= backing());
    }
}

/// Whether (`x`, `y`) lies in a row of glyph `g` before `gy`, or in row `gy`
/// before column `gx`, counted within the glyph.
pub open spec fn glyph_done(g: Glyph, left: int, x: int, y: int, gy: int, gx: int) -> bool {
    let lx = x - left - g.x;
    let ly = y - TEXT_TOP - g.y;
    ly < gy || (ly == gy && lx < gx)
}

/// Paints one glyph, skipping faint coverage and what falls outside the buffer.
fn paint_glyph(buf: &mut Vec<u8>, g: &Glyph, left: usize)
    requires
        old(buf)@.len() == OUT_LEN,
        g.wf(),
        left <= TEXT_RIGHT,
    ensures
        final(buf)@.len() == OUT_LEN,
        forall|x: int, y: int|
            0 <= x < OUT_WIDTH && 0 <= y < OUT_HEIGHT ==> #[trigger] px(final(buf)@, x, y)
                == match glyph_pixel(*g, left as int, x, y) {
                Some(p) => p,
                None => px(old(buf)@, x, y),
            },
{
    let ghost start = buf@;
    if g.x >= OUT_WIDTH - left || g.y >= OUT_HEIGHT - TEXT_TOP {
        return;
    }
    let mut gy: usize = 0;
    while gy < g.height && TEXT_TOP + g.y + gy < OUT_HEIGHT
        invariant
            buf@.len() == OUT_LEN,
            g.wf(),
            left <= TEXT_RIGHT,
            left + g.x < OUT_WIDTH,
            TEXT_TOP + g.y < OUT_HEIGHT,
            TEXT_TOP + g.y + gy <= OUT_HEIGHT,
            gy <= g.height,
            forall|x: int, y: int|
                0 <= x < OUT_WIDTH && 0 <= y < OUT_HEIGHT ==> #[trigger] px(buf@, x, y) == if glyph_done(
                    *g,
                    left as int,
                    x,
                    y,
                    gy as int,
                    0,
                ) && glyph_pixel(*g, left as int, x, y).is_some() {
                    glyph_pixel(*g, left as int, x, y)->0
                } else {
                    px(start, x, y)
                },
        decreases g.height - gy,
    {
        let mut gx: usize = 0;
        while gx < g.width && left + g.x + gx < OUT_WIDTH
            invariant
                buf@.len() == OUT_LEN,
                g.wf(),
                left + g.x + gx <= OUT_WIDTH,
                TEXT_TOP + g.y + gy < OUT_HEIGHT,
                gy < g.height,
                gx <= g.width,
                forall|x: int, y: int|
                    0 <= x < OUT_WIDTH && 0 <= y < OUT_HEIGHT ==> #[trigger] px(buf@, x, y)
                        == if glyph_done(*g, left as int, x, y, gy as int, gx as int)
                        && glyph_pixel(*g, left as int, x, y).is_some() {
                        glyph_pixel(*g, left as int, x, y)->0
                    } else {
                        px(start, x, y)
                    },
            decreases g.width - gx,
        {
            proof {
                lemma_grid_index(g.width as int, g.height as int, gx as int, gy as int);
            }
            let n: usize = g.coverage.len();
            let c = g.coverage[gy * g.width + gx];
            let px_x: usize = left + g.x + gx;
            let px_y: usize = TEXT_TOP + g.y + gy;
            if c as u32 * 10 >= 255 {
                let p = blend([0, 0, 0, 0], [255, 255, 255, c]);
                put_pixel(buf, px_x, px_y, p);
            }
            gx = gx + 1;
        }
        gy = gy + 1;
    }
}

/// Paints the glyphs of a text block in order, the block's right edge at
/// `TEXT_RIGHT`.
fn paint_text(buf: &mut Vec<u8>, t: &TextBlock)
    requires
        old(buf)@.len() == OUT_LEN,
        t.wf(),
    ensures
        final(buf)@.len() == OUT_LEN,
        forall|x: int, y: int|
            0 <= x < OUT_WIDTH && 0 <= y < OUT_HEIGHT ==> #[trigger] px(final(buf)@, x, y)
                == match text_pixel(t.glyphs@, TEXT_RIGHT - t.width, x, y) {
                Some(p) => p,
                None => px(old(buf)@, x, y),
            },
{
    let ghost start = buf@;
    let left: usize = TEXT_RIGHT - t.width;
    let mut k: usize = 0;
    while k < t.glyphs.len()
        invariant
            buf@.len() == OUT_LEN,
            t.wf(),
            left == TEXT_RIGHT - t.width,
            k <= t.glyphs@.len(),
            forall|x: int, y: int|
                0 <= x < OUT_WIDTH && 0 <= y < OUT_HEIGHT ==> #[trigger] px(buf@, x, y)
                    == match text_pixel(t.glyphs@.take(k as int), left as int, x, y) {
                    Some(p) => p,
                    None => px(start, x, y),
                },
        decreases t.glyphs@.len() - k,
    {
        assert(t.glyphs@.take(k + 1).drop_last() =~= t.glyphs@.take(k as int));
        assert(t.glyphs@.take(k + 1).last() == t.glyphs@[k as int]);
        assert(t.glyphs@[k as int].wf());
        paint_glyph(buf, &t.glyphs[k], left);
        k = k + 1;
    }
    assert(t.glyphs@.take(k as int) =~= t.glyphs@);
}


/// Whether (`x`, `y`) lies in a row of the sprite before `sy`, or in row `sy`
/// before column `sx`, counted within the sprite.
pub open spec fn sprite_done(s: Sprite, x: int, y: int, sy: int, sx: int) -> bool {
    let lx = x - (OUT_WIDTH - s.width);
    let ly = y - (OUT_HEIGHT - s.height) / 2;
    ly < sy || (ly == sy && lx < sx)
}

/// Lays each sprite pixel over the dark backing and writes the result at the
/// sprite's place.
fn paint_sprite(buf: &mut Vec<u8>, s: &Sprite)
    requires
        old(buf)@.len() == OUT_LEN,
        s.wf(),
    ensures
        final(buf)@.len() == OUT_LEN,
        forall|x: int, y: int|
            0 <= x < OUT_WIDTH && 0 <= y < OUT_HEIGHT ==> #[trigger] px(final(buf)@, x, y)
                == match sprite_pixel(*s, x, y) {
                Some(p) => p,
                None => px(old(buf)@, x, y),
            },
{
    let ghost start = buf@;
    let ox: usize = OUT_WIDTH - s.width;
    let oy: usize = (OUT_HEIGHT - s.height) / 2;
    let mut sy: usize = 0;
    while sy < s.height
        invariant
            buf@.len() == OUT_LEN,
            s.wf(),
            ox == OUT_WIDTH - s.width,
            oy == (OUT_HEIGHT - s.height) / 2,
            sy <= s.height,
            forall|x: int, y: int|
                0 <= x < OUT_WIDTH && 0 <= y < OUT_HEIGHT ==> #[trigger] px(buf@, x, y) == if sprite_done(
                    *s,
                    x,
                    y,
                    sy as int,
                    0,
                ) && sprite_pixel(*s, x, y).is_some() {
                    sprite_pixel(*s, x, y)->0
                } else {
                    px(start, x, y)
                },
        decreases s.height - sy,
    {
        let mut sx: usize = 0;
        while sx < s.width
            invariant
                buf@.len() == OUT_LEN,
                s.wf(),
                ox == OUT_WIDTH - s.width,
                oy == (OUT_HEIGHT - s.height) / 2,
                sy < s.height,
                sx <= s.width,
                forall|x: int, y: int|
                    0 <= x < OUT_WIDTH && 0 <= y < OUT_HEIGHT ==> #[trigger] px(buf@, x, y)
                        == if sprite_done(*s, x, y, sy as int, sx as int) && sprite_pixel(
                        *s,
                        x,
                        y,
                    ).is_some() {
                        sprite_pixel(*s, x, y)->0
                    } else {
                        px(start, x, y)
                    },
            decreases s.width - sx,
        {
            proof {
                lemma_grid_index(s.width as int, s.height as int, sx as int, sy as int);
            }
            let n: usize = s.pixels.len();
            let i: usize = (sy * s.width + sx) * 4;
            let src: [u8; 4] = [s.pixels[i], s.pixels[i + 1], s.pixels[i + 2], s.pixels[i + 3]];
            assert(src@ =~= s.pixels@.subrange(i as int, i + 4));
            let p = blend([0, 0, 0, BACKING_ALPHA], src);
            assert(seq![0u8, 0u8, 0u8, BACKING_ALPHA] =~= backing());
            assert([0u8, 0u8, 0u8, BACKING_ALPHA]@ =~= backing());
            put_pixel(buf, ox + sx, oy + sy, p);
            sx = sx + 1;
        }
        sy = sy + 1;
    }
}

/// Redraws the overlay into `buf`. With a text block, the whole buffer is
/// first reset to the dark backing and the glyphs painted over it; without
/// one, the buffer keeps what it held. The sprite is then laid in its place.
/// The result depends only on the old buffer, the text and the sprite.
pub fn compose(buf: &mut Vec<u8>, text: &Option<TextBlock>, sprite: &Sprite)
    requires
        old(buf)@.len() == OUT_LEN,
        sprite.wf(),
        text.is_some() ==> text->0.wf(),
    ensures
        final(buf)@ == composed(old(buf)@, *text, *sprite),
{
    let ghost start = buf@;
    match text {
        Some(t) => {
            fill_backing(buf);
            paint_text(buf, t);
        },
        None => {},
    }
    paint_sprite(buf, sprite);
    proof {
        lemma_composed_pixels(start, *text, *sprite, buf@);
    }
}

/// Redrawing without text over a buffer that was just redrawn with the same
/// sprite changes nothing.
pub proof fn lemma_redraw_idempotent(old: Seq<u8>, text: Option<TextBlock>, s: Sprite)
    requires
        old.len() == OUT_LEN,
    ensures
        composed(composed(old, text, s), None, s) == composed(old, text, s),
{
    let once = composed(old, text, s);
    let twice = composed(once, None, s);
    assert forall|x: int, y: int|
        0 <= x < OUT_WIDTH && 0 <= y < OUT_HEIGHT implies #[trigger] px(twice, x, y) == px(
        once,
        x,
        y,
    ) by {
        assert(once.len() == OUT_LEN);
        assert(px(twice, x, y) =~= composed_pixel(once, None, s, x, y)) by {
            lemma_px_of_composed(once, None, s, x, y);
        }
        assert(px(once, x, y) =~= composed_pixel(old, text, s, x, y)) by {
            lemma_px_of_composed(old, text, s, x, y);
        }
    }
    lemma_pixels_determine(twice, once);
}

/// A redraw with text does not depend on what the buffer held before, so the
/// same text and sprite give byte-identical buffers.
pub proof fn lemma_redraw_with_text_deterministic(a: Seq<u8>, b: Seq<u8>, t: TextBlock, s: Sprite)
    ensures
        composed(a, Some(t), s) == composed(b, Some(t), s),
{
    assert(composed(a, Some(t), s) =~= composed(b, Some(t), s));
}

/// What glyphs paint is always one whole pixel.
proof fn lemma_text_pixel_len(gs: Seq<Glyph>, left: int, x: int, y: int)
    ensures
        text_pixel(gs, left, x, y) is Some ==> text_pixel(gs, left, x, y)->0.len() == 4,
    decreases gs.len(),
{
    if gs.len() > 0 {
        lemma_text_pixel_len(gs.drop_last(), left, x, y);
    }
}

/// Each pixel of `composed` is the one `composed_pixel` gives.
proof fn lemma_px_of_composed(old: Seq<u8>, text: Option<TextBlock>, s: Sprite, x: int, y: int)
    requires
        old.len() == OUT_LEN,
        0 <= x < OUT_WIDTH,
        0 <= y < OUT_HEIGHT,
    ensures
        px(composed(old, text, s), x, y) == composed_pixel(old, text, s, x, y),
{
    let c = composed(old, text, s);
    let b = (y * OUT_WIDTH + x) * 4;
    match text {
        Some(t) => lemma_text_pixel_len(t.glyphs@, TEXT_RIGHT - t.width, x, y),
        None => {},
    }
    assert(composed_pixel(old, text, s, x, y).len() == 4);
    assert forall|k: int| 0 <= k < 4 implies #[trigger] c[b + k] == composed_pixel(old, text, s, x, y)[k] by {
        assert((b + k) / 4 == y * OUT_WIDTH + x);
        assert((y * OUT_WIDTH + x) % (OUT_WIDTH as int) == x);
        assert((y * OUT_WIDTH + x) / (OUT_WIDTH as int) == y);
        assert((b + k) % 4 == k);
    }
    assert(px(c, x, y) =~= composed_pixel(old, text, s, x, y));
}

} // verus!
