//! What the drawing operations do, stated over sprite contents: the blend
//! pipeline for one pixel, and the sequences of writes that lines, glyphs,
//! text and sprite blits are made of.
use vstd::prelude::*;
use crate::pixel::{Pixel, PixelMode};
use crate::sprite::{Flip, SpriteView};

verus! {

broadcast use crate::pixel::group_pixel;

/// One write of the pipeline: a position and the colour drawn there, or
/// `None` where the colour could not be looked up (the write fails).
pub type Plot = (int, int, Option<Pixel>);

/// Full weight of a blend: alpha 255 times blend factor 255.
pub const FULL_WEIGHT: u32 = 65025;

/// One channel composited with weight `w` out of 65025: the source counts
/// `w`, the destination the rest; the result is truncated.
pub open spec fn blend_channel(src: u8, dst: u8, w: int) -> u8 {
    ((w * src + (65025 - w) * dst) / 65025) as u8
}

/// The stored alpha of a blend of weight `w`: `w / 255`, rounded half up.
pub open spec fn blend_alpha(w: int) -> u8 {
    ((2 * w + 255) / 510) as u8
}

/// `p` composited over `d` with blend factor `factor / 255`: the effective
/// alpha is `p.a / 255 * factor / 255`.
pub open spec fn blended(p: Pixel, d: Pixel, factor: u8) -> Pixel {
    let w = p.spec_a() * factor;
    Pixel::spec_rgba(
        blend_channel(p.spec_r(), d.spec_r(), w),
        blend_channel(p.spec_g(), d.spec_g(), w),
        blend_channel(p.spec_b(), d.spec_b(), w),
        blend_alpha(w),
    )
}

/// One channel of `src` composited over `dst` with weight `w` out of 65025.
fn mix(src: u8, dst: u8, w: u32) -> (c: u8)
    requires
        w <= FULL_WEIGHT,
    ensures
        c == blend_channel(src, dst, w as int),
{
    proof {
        assert(w * src + (65025 - w) * dst <= 65025 * 255) by (nonlinear_arith)
            requires
                w <= 65025,
                src <= 255,
                dst <= 255,
        ;
    }
    ((w * src as u32 + (FULL_WEIGHT - w) * dst as u32) / FULL_WEIGHT) as u8
}

/// Composites `p` over `d` with blend factor `factor / 255`.
pub fn blend_over(p: Pixel, d: Pixel, factor: u8) -> (q: Pixel)
    ensures
        q == blended(p, d, factor),
{
    proof {
        assert(p.spec_a() * factor <= 65025) by (nonlinear_arith)
            requires
                p.spec_a() <= 255,
                factor <= 255,
        ;
    }
    let w: u32 = p.a() as u32 * factor as u32;
    Pixel::rgba(mix(p.r(), d.r(), w), mix(p.g(), d.g(), w), mix(p.b(), d.b(), w), ((2 * w + 255) / 510) as u8)
}

/// The target after drawing `p` at `(x, y)` in blend mode `mode`, or `None`
/// when the access is out of bounds. A mask draw of a colour that is not
/// fully opaque leaves the target as it is and never fails.
pub open spec fn draw_effect(v: SpriteView, mode: PixelMode, factor: u8, x: int, y: int, p: Pixel) -> Option<
    SpriteView,
> {
    match mode {
        PixelMode::NORMAL => v.set(x, y, p),
        PixelMode::MASK => if p.spec_a() == 255 {
            v.set(x, y, p)
        } else {
            Some(v)
        },
        PixelMode::ALPHA => match v.get(x, y) {
            Some(d) => v.set(x, y, blended(p, d, factor)),
            None => None,
        },
    }
}

/// A draw in mask mode overwrites with a fully opaque colour and leaves the
/// target as it is with any other colour.
pub proof fn lemma_mask_draw(v: SpriteView, factor: u8, x: int, y: int, p: Pixel)
    ensures
        p.spec_a() == 255 ==> draw_effect(v, PixelMode::MASK, factor, x, y, p) == v.set(x, y, p),
        p.spec_a() < 255 ==> draw_effect(v, PixelMode::MASK, factor, x, y, p) == Some(v),
{
}

/// A draw in normal mode writes the colour, and reading it back gives it.
pub proof fn lemma_normal_draw_then_get(v: SpriteView, factor: u8, x: int, y: int, p: Pixel)
    requires
        v.wf(),
        draw_effect(v, PixelMode::NORMAL, factor, x, y, p) is Some,
    ensures
        draw_effect(v, PixelMode::NORMAL, factor, x, y, p)->Some_0.get(x, y) == Some(p),
{
    crate::sprite::lemma_set_then_get(v, x, y, p);
}

/// With blend factor 1, an alpha draw of a fully opaque colour is a normal
/// draw: nothing of the destination remains.
pub proof fn lemma_alpha_opaque_is_normal(v: SpriteView, x: int, y: int, p: Pixel)
    requires
        p.spec_a() == 255,
    ensures
        draw_effect(v, PixelMode::ALPHA, 255, x, y, p) == draw_effect(v, PixelMode::NORMAL, 255, x, y, p),
{
    if let Some(d) = v.get(x, y) {
        let w = 65025int;
        assert(p.spec_a() * 255u8 == w);
        assert(blend_channel(p.spec_r(), d.spec_r(), w) == p.spec_r());
        assert(blend_channel(p.spec_g(), d.spec_g(), w) == p.spec_g());
        assert(blend_channel(p.spec_b(), d.spec_b(), w) == p.spec_b());
        assert(blend_alpha(w) == 255);
        assert(blended(p, d, 255) == p);
    }
}

/// The target after the writes of `items` in order, and whether all of them
/// succeeded; the first failing write ends the run and changes nothing.
pub open spec fn plot(v: SpriteView, mode: PixelMode, factor: u8, items: Seq<Plot>) -> (SpriteView, bool)
    decreases items.len(),
{
    if items.len() == 0 {
        (v, true)
    } else {
        match items[0].2 {
            None => (v, false),
            Some(p) => match draw_effect(v, mode, factor, items[0].0, items[0].1, p) {
                Some(v2) => plot(v2, mode, factor, items.drop_first()),
                None => (v, false),
            },
        }
    }
}

/// Writing `a + b` is writing `a`, then `b` if `a` succeeded.
pub proof fn lemma_plot_concat(v: SpriteView, mode: PixelMode, factor: u8, a: Seq<Plot>, b: Seq<Plot>)
    ensures
        plot(v, mode, factor, a + b) == ({
            let (v1, ok) = plot(v, mode, factor, a);
            if ok {
                plot(v1, mode, factor, b)
            } else {
                (v1, false)
            }
        }),
    decreases a.len(),
{
    if a.len() == 0 {
        assert(a + b =~= b);
    } else {
        assert((a + b).drop_first() =~= a.drop_first() + b);
        assert((a + b)[0] == a[0]);
        match a[0].2 {
            None => {},
            Some(p) => match draw_effect(v, mode, factor, a[0].0, a[0].1, p) {
                Some(v2) => lemma_plot_concat(v2, mode, factor, a.drop_first(), b),
                None => {},
            },
        }
    }
}

/// Writing a single item.
pub proof fn lemma_plot_one(v: SpriteView, mode: PixelMode, factor: u8, item: Plot)
    ensures
        plot(v, mode, factor, seq![item]) == (match item.2 {
            None => (v, false),
            Some(p) => match draw_effect(v, mode, factor, item.0, item.1, p) {
                Some(v2) => (v2, true),
                None => (v, false),
            },
        }),
{
    assert(seq![item].drop_first() =~= Seq::<Plot>::empty());
    assert(seq![item][0] == item);
    if let Some(p) = item.2 {
        if let Some(v2) = draw_effect(v, mode, factor, item.0, item.1, p) {
            assert(plot(v2, mode, factor, Seq::<Plot>::empty()) == (v2, true));
        }
    }
}

// ---- Lines ----

/// The points of a straight run from `a` up to `b`, `b` excluded, along x
/// when `horizontal` (at row `fixed`), else along y (at column `fixed`).
pub open spec fn run(a: int, b: int, fixed: int, horizontal: bool) -> Seq<(int, int)>
    decreases b - a,
{
    if a >= b {
        seq![]
    } else {
        seq![if horizontal { (a, fixed) } else { (fixed, a) }] + run(a + 1, b, fixed, horizontal)
    }
}

/// The `n` points after `(x, y)` of a line whose x advances by one each step:
/// the error term `e` grows by `2 dy` and, when it was not negative, y moves
/// one step (up when `up`) and `e` loses `2 dx`.
pub open spec fn shallow_walk(x: int, y: int, e: int, n: nat, dx: int, dy: int, up: bool) -> Seq<(int, int)>
    decreases n,
{
    if n == 0 {
        seq![]
    } else {
        let (ny, ne) = if e < 0 {
            (y, e + 2 * dy)
        } else {
            (if up { y + 1 } else { y - 1 }, e + 2 * (dy - dx))
        };
        seq![(x + 1, ny)] + shallow_walk(x + 1, ny, ne, (n - 1) as nat, dx, dy, up)
    }
}

/// The `n` points after `(x, y)` of a line whose y advances by one each step:
/// the error term `e` grows by `2 dx` and, when it was positive, x moves one
/// step (right when `right`) and `e` loses `2 dy`.
pub open spec fn steep_walk(x: int, y: int, e: int, n: nat, dx: int, dy: int, right: bool) -> Seq<(int, int)>
    decreases n,
{
    if n == 0 {
        seq![]
    } else {
        let (nx, ne) = if e <= 0 {
            (x, e + 2 * dx)
        } else {
            (if right { x + 1 } else { x - 1 }, e + 2 * (dx - dy))
        };
        seq![(nx, y + 1)] + steep_walk(nx, y + 1, ne, (n - 1) as nat, dx, dy, right)
    }
}

pub open spec fn abs(a: int) -> int {
    if a < 0 {
        -a
    } else {
        a
    }
}

pub open spec fn min(a: int, b: int) -> int {
    if a <= b {
        a
    } else {
        b
    }
}

pub open spec fn max(a: int, b: int) -> int {
    if a <= b {
        b
    } else {
        a
    }
}

/// The candidate points of the line from `(x1, y1)` to `(x2, y2)`. A
/// vertical or horizontal line is the run from the smaller coordinate to the
/// larger one, the far end excluded; any other line is walked by Bresenham's
/// method from its left end (shallow lines) or its upper end (steep lines),
/// both ends included.
pub open spec fn line_points(x1: int, y1: int, x2: int, y2: int) -> Seq<(int, int)> {
    let dx = x2 - x1;
    let dy = y2 - y1;
    let dx1 = abs(dx);
    let dy1 = abs(dy);
    let same = (dx < 0 && dy < 0) || (dx > 0 && dy > 0);
    if dx == 0 {
        run(min(y1, y2), max(y1, y2), x1, false)
    } else if dy == 0 {
        run(min(x1, x2), max(x1, x2), y1, true)
    } else if dy1 <= dx1 {
        let (sx, sy) = if dx >= 0 { (x1, y1) } else { (x2, y2) };
        seq![(sx, sy)] + shallow_walk(sx, sy, 2 * dy1 - dx1, dx1 as nat, dx1, dy1, same)
    } else {
        let (sx, sy) = if dy >= 0 { (x1, y1) } else { (x2, y2) };
        seq![(sx, sy)] + steep_walk(sx, sy, 2 * dx1 - dy1, dy1 as nat, dx1, dy1, same)
    }
}

/// A 32-bit pattern rotated left by one bit.
pub open spec fn rotl1(pattern: u32) -> u32 {
    (pattern << 1u32) | (pattern >> 31u32)
}

/// The writes of colour `p` at `pts` under a stipple pattern: before each
/// point the pattern is rotated left by one bit, and the point is drawn only
/// when the new low bit is set.
pub open spec fn stippled(pts: Seq<(int, int)>, pattern: u32, p: Pixel) -> Seq<Plot>
    decreases pts.len(),
{
    if pts.len() == 0 {
        seq![]
    } else {
        let q = rotl1(pattern);
        (if q & 1u32 != 0u32 {
            seq![(pts[0].0, pts[0].1, Some(p))]
        } else {
            seq![]
        }) + stippled(pts.drop_first(), q, p)
    }
}

/// The writes of a line of colour `p` from `(x1, y1)` to `(x2, y2)`.
pub open spec fn line_plots(x1: int, y1: int, x2: int, y2: int, p: Pixel, pattern: u32) -> Seq<Plot> {
    stippled(line_points(x1, y1, x2, y2), pattern, p)
}

/// The stipple of a point followed by more points.
pub proof fn lemma_stippled_cons(pt: (int, int), rest: Seq<(int, int)>, pattern: u32, p: Pixel)
    ensures
        stippled(seq![pt] + rest, pattern, p) == (if rotl1(pattern) & 1u32 != 0u32 {
            seq![(pt.0, pt.1, Some(p))]
        } else {
            seq![]
        }) + stippled(rest, rotl1(pattern), p),
{
    assert((seq![pt] + rest).drop_first() =~= rest);
    assert((seq![pt] + rest)[0] == pt);
}

/// The writes of the outline of the rectangle with corners `(x, y)` and
/// `(x + w, y + h)`: its four sides as solid lines, top, right, bottom, left.
pub open spec fn rect_plots(x: int, y: int, w: int, h: int, p: Pixel) -> Seq<Plot> {
    line_plots(x, y, x + w, y, p, 0xFFFF_FFFFu32) + line_plots(x + w, y, x + w, y + h, p, 0xFFFF_FFFFu32)
        + line_plots(x + w, y + h, x, y + h, p, 0xFFFF_FFFFu32) + line_plots(x, y + h, x, y, p, 0xFFFF_FFFFu32)
}

// ---- Blocks, glyphs and text ----

/// The writes of colour `c` at rows `by + from .. by + n` of column `cx`.
pub open spec fn column(cx: int, by: int, from: int, n: int, c: Option<Pixel>) -> Seq<Plot>
    decreases n - from,
{
    if from >= n {
        seq![]
    } else {
        seq![(cx, by + from, c)] + column(cx, by, from + 1, n, c)
    }
}

/// The writes of colour `c` over columns `bx + from .. bx + n` of the `n` by
/// `n` block at `(bx, by)`, column after column.
pub open spec fn block(bx: int, by: int, from: int, n: int, c: Option<Pixel>) -> Seq<Plot>
    decreases n - from,
{
    if from >= n {
        seq![]
    } else {
        column(bx + from, by, 0, n, c) + block(bx, by, from + 1, n, c)
    }
}

/// The side of the block that one source pixel becomes at `scale`: a scale
/// of 0 draws like a scale of 1.
pub open spec fn block_size(scale: int) -> int {
    if scale > 1 {
        scale
    } else {
        1
    }
}

/// The writes of a glyph from cell `t` on (cells go column by column, 8 to a
/// column): the font pixel at `(gx + i, gy + j)` is looked up, and where its
/// red channel is not 0 a block of colour `c` is written at
/// `(x + i * bs, y + j * bs)`. A lookup outside the font fails.
pub open spec fn glyph_plots(font: SpriteView, gx: int, gy: int, x: int, y: int, bs: int, t: int, c: Pixel) -> Seq<
    Plot,
>
    decreases 64 - t,
{
    if t >= 64 {
        seq![]
    } else {
        let i = t / 8;
        let j = t % 8;
        (match font.get(gx + i, gy + j) {
            None => seq![(x + i * bs, y + j * bs, None)],
            Some(f) => if f.spec_r() > 0 {
                block(x + i * bs, y + j * bs, 0, bs, Some(c))
            } else {
                seq![]
            },
        }) + glyph_plots(font, gx, gy, x, y, bs, t + 1, c)
    }
}

/// The writes of `text` at `(x, y)`, the cursor at `(sx, sy)` from there: a
/// newline moves the cursor to the start of the next line, `8 * scale` lower;
/// any other character is the glyph of its code, in the font's 16 by 6 grid
/// from code 32, and moves the cursor `8 * scale` right. A character outside
/// codes 32 to 127 has no glyph: its write fails.
pub open spec fn text_plots(font: SpriteView, text: Seq<char>, x: int, y: int, sx: int, sy: int, scale: int, c: Pixel) -> Seq<
    Plot,
>
    decreases text.len(),
{
    if text.len() == 0 {
        seq![]
    } else {
        let ch = text[0];
        let rest = text.drop_first();
        if ch == '\n' {
            text_plots(font, rest, x, y, 0, sy + 8 * scale, scale, c)
        } else if (ch as u32) < 32 || (ch as u32) > 127 {
            seq![(x + sx, y + sy, None)] + text_plots(font, rest, x, y, sx + 8 * scale, sy, scale, c)
        } else {
            let k = ch as u32 - 32;
            glyph_plots(font, (k % 16) * 8, (k / 16) * 8, x + sx, y + sy, block_size(scale), 0, c)
                + text_plots(font, rest, x, y, sx + 8 * scale, sy, scale, c)
        }
    }
}

/// The blend mode text is drawn in: mask for an opaque colour, else alpha.
pub open spec fn text_mode(c: Pixel) -> PixelMode {
    if c.spec_a() == 255 {
        PixelMode::MASK
    } else {
        PixelMode::ALPHA
    }
}

/// A run of writes whose first one has no colour fails at once.
pub proof fn lemma_plot_fails_first(v: SpriteView, mode: PixelMode, factor: u8, items: Seq<Plot>)
    requires
        items.len() > 0,
        items[0].2 is None,
    ensures
        plot(v, mode, factor, items) == (v, false),
{
}

/// A block of a missing colour starts with a failing write.
pub proof fn lemma_block_first(bx: int, by: int, n: int, c: Option<Pixel>, rest: Seq<Plot>)
    requires
        n >= 1,
    ensures
        (block(bx, by, 0, n, c) + rest).len() > 0,
        (block(bx, by, 0, n, c) + rest)[0] == (bx, by, c),
{
    assert(column(bx, by, 0, n, c)[0] == (bx, by, c));
    assert(block(bx, by, 0, n, c)[0] == (bx, by, c));
}

// ---- Sprite blits ----

/// Which source offset destination offset `i` of a run of `n` reads: the
/// same one, or counted from the far end when the run is mirrored.
pub open spec fn flipped(i: int, n: int, mirrored: bool) -> int {
    if mirrored {
        n - 1 - i
    } else {
        i
    }
}

/// The writes of column `i` of a blit from row `j` on: source pixel
/// `(ox + fx, oy + fy)` becomes the block at `(x + i * bs, y + j * bs)`, with
/// `fx`, `fy` mirrored as `flip` says. A source lookup outside the sprite
/// fails.
pub open spec fn blit_column(
    src: SpriteView,
    x: int,
    y: int,
    ox: int,
    oy: int,
    w: int,
    h: int,
    bs: int,
    flip: Flip,
    i: int,
    j: int,
) -> Seq<Plot>
    decreases h - j,
{
    if j >= h {
        seq![]
    } else {
        block(
            x + i * bs,
            y + j * bs,
            0,
            bs,
            src.get(ox + flipped(i, w, flip == Flip::HORIZ), oy + flipped(j, h, flip == Flip::VERT)),
        ) + blit_column(src, x, y, ox, oy, w, h, bs, flip, i, j + 1)
    }
}

/// The writes of a `w` by `h` blit from column `i` on, column after column.
pub open spec fn blit_plots(
    src: SpriteView,
    x: int,
    y: int,
    ox: int,
    oy: int,
    w: int,
    h: int,
    bs: int,
    flip: Flip,
    i: int,
) -> Seq<Plot>
    decreases w - i,
{
    if i >= w {
        seq![]
    } else {
        blit_column(src, x, y, ox, oy, w, h, bs, flip, i, 0) + blit_plots(src, x, y, ox, oy, w, h, bs, flip, i + 1)
    }
}

} // verus!
