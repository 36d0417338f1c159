//! The render context: the draw target, the blend state, the font and the
//! mouse, and every drawing operation.
use vstd::prelude::*;
use vstd::string::*;
use crate::error::{ErrorKind, PGError, Result};
use crate::font::{font_pixel, load_font, FONT_HEIGHT, FONT_WIDTH};
use crate::keys::MouseState;
use crate::pixel::{Pixel, PixelMode};
use crate::raster::{
    blend_over,
    blit_column,
    blit_plots,
    block,
    block_size,
    column,
    draw_effect,
    glyph_plots,
    lemma_block_first,
    lemma_plot_concat,
    lemma_plot_fails_first,
    lemma_plot_one,
    lemma_stippled_cons,
    line_plots,
    plot,
    rect_plots,
    rotl1,
    run,
    shallow_walk,
    steep_walk,
    stippled,
    text_mode,
    text_plots,
    Plot,
};
use crate::sprite::{Flip, Mode, Sprite, SpriteView};

verus! {

broadcast use crate::pixel::group_pixel;

/// The state of a context as a value.
pub ghost struct ContextView {
    pub screen_width: nat,
    pub screen_height: nat,
    /// The sprite that drawing changes.
    pub target: SpriteView,
    /// The font that text is drawn with.
    pub font: SpriteView,
    pub mode: PixelMode,
    /// The blend factor, in 255ths.
    pub blend: u8,
    pub mouse: MouseState,
}

/// `new` is `old` after the writes of `items` on its target, and `ok` says
/// whether they all succeeded.
pub open spec fn plotted(old: ContextView, new: ContextView, items: Seq<Plot>, ok: bool) -> bool {
    let (t, good) = plot(old.target, old.mode, old.blend, items);
    new == (ContextView { target: t, ..old }) && ok == good
}

/// `m` steps of the minor axis in `k1` steps of the major one leave room for
/// one more when the error term was not negative.
proof fn lemma_minor_step(m: int, k1: int, dmaj: int, dmin: int)
    requires
        0 < k1 <= dmaj,
        0 <= dmin,
        0 <= m,
        2 * m * dmaj <= 2 * k1 * dmin - dmaj,
    ensures
        m + 1 <= dmin,
{
    assert(m + 1 <= dmin) by (nonlinear_arith)
        requires
            0 < k1 <= dmaj,
            0 <= dmin,
            0 <= m,
            2 * m * dmaj <= 2 * k1 * dmin - dmaj,
    ;
}

/// Provides the drawing operations on a draw target.
pub struct Context {
    screen_width: usize,
    screen_height: usize,
    current: Sprite,
    font: Sprite,
    pixel_mode: PixelMode,
    blend_factor: u8,
    mouse_state: MouseState,
}

impl View for Context {
    type V = ContextView;

    closed spec fn view(&self) -> ContextView {
        ContextView {
            screen_width: self.screen_width as nat,
            screen_height: self.screen_height as nat,
            target: self.current@,
            font: self.font@,
            mode: self.pixel_mode,
            blend: self.blend_factor,
            mouse: self.mouse_state,
        }
    }
}

impl Context {
    /// A context for a `width` by `height` screen: an opaque white target in
    /// normal mode, the built-in font, normal blending with factor 1, and a
    /// fresh mouse state.
    pub fn new(width: usize, height: usize) -> (c: Self)
        requires
            width * height * 4 <= usize::MAX,
            width * 4 <= usize::MAX,
        ensures
            c@.screen_width == width,
            c@.screen_height == height,
            c@.target.width == width,
            c@.target.height == height,
            c@.target.mode == Mode::NORMAL,
            c@.target.wf(),
            forall|k: int| 0 <= k < c@.target.pixels.len() ==> c@.target.pixels[k] == Pixel::spec_rgba(255, 255, 255, 255),
            c@.font.width == FONT_WIDTH,
            c@.font.height == FONT_HEIGHT,
            c@.font.mode == Mode::NORMAL,
            c@.font.wf(),
            forall|x: int, y: int| 0 <= x < 128 && 0 <= y < 48 ==> #[trigger] c@.font.at(x, y) == font_pixel(x, y),
            c@.mode == PixelMode::NORMAL,
            c@.blend == 255,
            c@.mouse == MouseState::new_spec(),
    {
        Self {
            screen_width: width,
            screen_height: height,
            current: Sprite::new(width, height),
            font: load_font(),
            pixel_mode: PixelMode::NORMAL,
            blend_factor: 255,
            mouse_state: MouseState::new(),
        }
    }

    /// Screen width, in pixels.
    pub fn screen_width(&self) -> (w: usize)
        ensures
            w == self@.screen_width,
    {
        self.screen_width
    }

    /// Screen height, in pixels.
    pub fn screen_height(&self) -> (h: usize)
        ensures
            h == self@.screen_height,
    {
        self.screen_height
    }

    /// The draw target.
    pub fn draw_target(&self) -> (s: &Sprite)
        ensures
            s@ == self@.target,
    {
        &self.current
    }

    /// The draw target, to change it directly.
    pub fn draw_target_mut(&mut self) -> (s: &mut Sprite)
        ensures
            s@ == old(self)@.target,
            final(self)@ == (ContextView { target: final(s)@, ..old(self)@ }),
    {
        &mut self.current
    }

    /// The blend mode.
    pub fn pixel_mode(&self) -> (m: PixelMode)
        ensures
            m == self@.mode,
    {
        self.pixel_mode
    }

    /// Sets the blend mode.
    pub fn set_pixel_mode(&mut self, mode: PixelMode)
        ensures
            final(self)@ == (ContextView { mode, ..old(self)@ }),
    {
        self.pixel_mode = mode;
    }

    /// The blend factor, in 255ths.
    pub fn pixel_blend(&self) -> (b: u8)
        ensures
            b == self@.blend,
    {
        self.blend_factor
    }

    /// Sets the blend factor to `blend / 255`, clamped to the range 0 to 1.
    pub fn set_pixel_blend(&mut self, blend: i32)
        ensures
            final(self)@ == (ContextView {
                blend: (if blend < 0 {
                    0
                } else if blend > 255 {
                    255
                } else {
                    blend
                }) as u8,
                ..old(self)@
            }),
    {
        self.blend_factor = if blend < 0 {
            0
        } else if blend > 255 {
            255
        } else {
            blend as u8
        };
    }

    /// Fills the whole target with `col`.
    pub fn clear(&mut self, col: Pixel) -> (r: Result<()>)
        ensures
            r is Ok,
            final(self)@ == (ContextView { target: final(self)@.target, ..old(self)@ }),
            final(self)@.target == (SpriteView {
                pixels: Seq::new(old(self)@.target.pixels.len(), |k: int| col),
                ..old(self)@.target
            }),
    {
        let w = self.current.width();
        let h = self.current.height();
        let ghost v0 = self.current@;
        let mut y: usize = 0;
        while y < h
            invariant
                w == v0.width,
                h == v0.height,
                v0.wf(),
                y <= h,
                self@ == (ContextView { target: self@.target, ..old(self)@ }),
                self@.target.width == v0.width,
                self@.target.height == v0.height,
                self@.target.mode == v0.mode,
                self@.target.pixels.len() == v0.pixels.len(),
                forall|k: int| 0 <= k < y * w ==> #[trigger] self@.target.pixels[k] == col,
            decreases h - y,
        {
            let mut x: usize = 0;
            while x < w
                invariant
                    w == v0.width,
                    h == v0.height,
                    v0.wf(),
                    y < h,
                    x <= w,
                    self@ == (ContextView { target: self@.target, ..old(self)@ }),
                    self@.target.width == v0.width,
                    self@.target.height == v0.height,
                    self@.target.mode == v0.mode,
                    self@.target.pixels.len() == v0.pixels.len(),
                    forall|k: int| 0 <= k < y * w + x ==> #[trigger] self@.target.pixels[k] == col,
                decreases w - x,
            {
                proof {
                    crate::sprite::lemma_cell_index(x as int, y as int, w as int, h as int);
                    vstd::arithmetic::div_mod::lemma_small_mod(x as nat, w as nat);
                    vstd::arithmetic::div_mod::lemma_small_mod(y as nat, h as nat);
                }
                let res = self.current.set_pixel(x, y, col);
                assert(res is Ok);
                x += 1;
            }
            proof {
                assert(y * w + w == (y + 1) * w) by (nonlinear_arith);
            }
            y += 1;
        }
        proof {
            assert(self@.target.pixels =~= Seq::new(v0.pixels.len(), |k: int| col));
        }
        Ok(())
    }

    /// Draws `p` at `(x, y)` of the target through the blend mode: normal
    /// mode overwrites; mask mode overwrites with a fully opaque colour and
    /// leaves the target alone otherwise; alpha mode composites `p` over the
    /// pixel there.
    pub fn draw(&mut self, x: usize, y: usize, p: Pixel) -> (r: Result<()>)
        ensures
            match draw_effect(old(self)@.target, old(self)@.mode, old(self)@.blend, x as int, y as int, p) {
                Some(t) => r is Ok && final(self)@ == (ContextView { target: t, ..old(self)@ }),
                None => r is Err && final(self)@ == old(self)@ && r->Err_0.spec_kind() == (ErrorKind::OutOfBounds {
                    x,
                    y,
                }),
            },
    {
        match self.pixel_mode {
            PixelMode::NORMAL => self.current.set_pixel(x, y, p),
            PixelMode::MASK => {
                if p.a() == 255 {
                    self.current.set_pixel(x, y, p)
                } else {
                    Ok(())
                }
            },
            PixelMode::ALPHA => {
                let d = match self.current.get_pixel(x, y) {
                    Ok(d) => d,
                    Err(e) => return Err(e),
                };
                let q = blend_over(p, d, self.blend_factor);
                self.current.set_pixel(x, y, q)
            },
        }
    }

    /// Draws the next candidate point `(x, y)` of a stippled line: the
    /// pattern is rotated left by one bit and the point is drawn when the new
    /// low bit is set. Returns the rotated pattern.
    fn stipple_point(&mut self, x: usize, y: usize, p: Pixel, pattern: u32, rest: Ghost<Seq<(int, int)>>) -> (r:
        Result<u32>)
        ensures
            final(self)@ == (ContextView { target: final(self)@.target, ..old(self)@ }),
            ({
                let whole = plot(
                    old(self)@.target,
                    old(self)@.mode,
                    old(self)@.blend,
                    stippled(seq![(x as int, y as int)] + rest@, pattern, p),
                );
                match r {
                    Ok(q) => q == rotl1(pattern) && whole == plot(
                        final(self)@.target,
                        old(self)@.mode,
                        old(self)@.blend,
                        stippled(rest@, q, p),
                    ),
                    Err(_) => whole == (final(self)@.target, false),
                }
            }),
    {
        let q: u32 = (pattern << 1u32) | (pattern >> 31u32);
        let ghost v = self@;
        let ghost item: Plot = (x as int, y as int, Some(p));
        proof {
            lemma_stippled_cons((x as int, y as int), rest@, pattern, p);
            lemma_plot_one(v.target, v.mode, v.blend, item);
            let tail = stippled(rest@, q, p);
            lemma_plot_concat(v.target, v.mode, v.blend, seq![item], tail);
            lemma_plot_concat(v.target, v.mode, v.blend, Seq::<Plot>::empty(), tail);
            assert(Seq::<Plot>::empty() + tail =~= tail);
        }
        if q & 1u32 != 0u32 {
            match self.draw(x, y, p) {
                Ok(_) => {},
                Err(e) => return Err(e),
            }
        }
        Ok(q)
    }

    /// Draws the stippled run from `a` up to `b` (excluded) at `fixed`.
    fn stipple_run(&mut self, a: usize, b: usize, fixed: usize, horizontal: bool, p: Pixel, pattern: u32) -> (r:
        Result<()>)
        ensures
            plotted(
                old(self)@,
                final(self)@,
                stippled(run(a as int, b as int, fixed as int, horizontal), pattern, p),
                r is Ok,
            ),
    {
        let ghost goal = plot(
            self@.target,
            self@.mode,
            self@.blend,
            stippled(run(a as int, b as int, fixed as int, horizontal), pattern, p),
        );
        let mut i: usize = a;
        let mut pat: u32 = pattern;
        while i < b
            invariant
                self@ == (ContextView { target: self@.target, ..old(self)@ }),
                goal == plot(
                    old(self)@.target,
                    old(self)@.mode,
                    old(self)@.blend,
                    stippled(run(a as int, b as int, fixed as int, horizontal), pattern, p),
                ),
                goal == plot(self@.target, self@.mode, self@.blend, stippled(run(i as int, b as int, fixed as int, horizontal), pat, p)),
            decreases b - i,
        {
            let ghost rest = run(i + 1, b as int, fixed as int, horizontal);
            let (x, y) = if horizontal {
                (i, fixed)
            } else {
                (fixed, i)
            };
            assert(run(i as int, b as int, fixed as int, horizontal) == seq![(x as int, y as int)] + rest);
            match self.stipple_point(x, y, p, pat, Ghost(rest)) {
                Ok(q) => pat = q,
                Err(e) => {
                    assert(plotted(old(self)@, self@, stippled(run(a as int, b as int, fixed as int, horizontal), pattern, p), false));
                    return Err(e);
                },
            }
            i += 1;
        }
        Ok(())
    }

    /// Draws the stippled points of a line whose x advances one step at a
    /// time: `(sx, sy)`, then `dx` steps of Bresenham's walk.
    fn stipple_shallow(&mut self, sx: usize, sy: usize, dx: usize, dy: usize, up: bool, p: Pixel, pattern: u32) -> (r:
        Result<()>)
        requires
            0 < dy <= dx,
            sx + dx <= usize::MAX,
            up ==> sy + dy <= usize::MAX,
            !up ==> sy >= dy,
        ensures
            plotted(
                old(self)@,
                final(self)@,
                stippled(
                    seq![(sx as int, sy as int)] + shallow_walk(sx as int, sy as int, 2 * dy - dx, dx as nat, dx as int, dy as int, up),
                    pattern,
                    p,
                ),
                r is Ok,
            ),
    {
        let ghost goal = plot(
            self@.target,
            self@.mode,
            self@.blend,
            stippled(
                seq![(sx as int, sy as int)] + shallow_walk(sx as int, sy as int, 2 * dy - dx, dx as nat, dx as int, dy as int, up),
                pattern,
                p,
            ),
        );
        let d_maj = dx as i128;
        let d_min = dy as i128;
        let mut e: i128 = 2 * d_min - d_maj;
        let mut x: usize = sx;
        let mut y: usize = sy;
        let mut k: usize = 0;
        let ghost mut m: int = 0;
        let mut pat: u32 = match self.stipple_point(
            sx,
            sy,
            p,
            pattern,
            Ghost(shallow_walk(sx as int, sy as int, 2 * dy - dx, dx as nat, dx as int, dy as int, up)),
        ) {
            Ok(q) => q,
            Err(e) => return Err(e),
        };
        proof {
            assert(e + 2 * m * dx == 2 * (k + 1) * dy - dx) by (nonlinear_arith)
                requires
                    k == 0,
                    m == 0,
                    e == 2 * dy - dx,
            ;
        }
        while k < dx
            invariant
                0 < dy <= dx,
                sx + dx <= usize::MAX,
                up ==> sy + dy <= usize::MAX,
                !up ==> sy >= dy,
                d_maj == dx,
                d_min == dy,
                k <= dx,
                x == sx + k,
                0 <= m <= dy,
                up ==> y == sy + m,
                !up ==> y == sy - m,
                2 * dy - 2 * dx <= e < 2 * dy,
                e + 2 * m * dx == 2 * (k + 1) * dy - dx,
                self@ == (ContextView { target: self@.target, ..old(self)@ }),
                goal == plot(
                    old(self)@.target,
                    old(self)@.mode,
                    old(self)@.blend,
                    stippled(
                        seq![(sx as int, sy as int)] + shallow_walk(sx as int, sy as int, 2 * dy - dx, dx as nat, dx as int, dy as int, up),
                        pattern,
                        p,
                    ),
                ),
                goal == plot(
                    self@.target,
                    self@.mode,
                    self@.blend,
                    stippled(shallow_walk(x as int, y as int, e as int, (dx - k) as nat, dx as int, dy as int, up), pat, p),
                ),
            decreases dx - k,
        {
            let ghost (px, py, pe, n) = (x as int, y as int, e as int, (dx - k) as nat);
            if e < 0 {
                e = e + 2 * d_min;
                proof {
                    assert(2 * (k + 2) * dy == 2 * (k + 1) * dy + 2 * dy) by (nonlinear_arith);
                }
            } else {
                proof {
                    lemma_minor_step(m, k + 1, dx as int, dy as int);
                    assert(2 * (k + 2) * dy == 2 * (k + 1) * dy + 2 * dy) by (nonlinear_arith);
                    assert(2 * (m + 1) * dx == 2 * m * dx + 2 * dx) by (nonlinear_arith);
                }
                if up {
                    y = y + 1;
                } else {
                    y = y - 1;
                }
                proof {
                    m = m + 1;
                }
                e = e + 2 * (d_min - d_maj);
            }
            x = x + 1;
            k = k + 1;
            let ghost rest = shallow_walk(x as int, y as int, e as int, (dx - k) as nat, dx as int, dy as int, up);
            assert(shallow_walk(px, py, pe, n, dx as int, dy as int, up) == seq![(x as int, y as int)] + rest);
            match self.stipple_point(x, y, p, pat, Ghost(rest)) {
                Ok(q) => pat = q,
                Err(e) => {
                    assert(plotted(old(self)@, self@, stippled(seq![(sx as int, sy as int)] + shallow_walk(sx as int, sy as int, 2 * dy - dx, dx as nat, dx as int, dy as int, up), pattern, p), false));
                    return Err(e);
                },
            }
        }
        Ok(())
    }

    /// Draws the stippled points of a line whose y advances one step at a
    /// time: `(sx, sy)`, then `dy` steps of Bresenham's walk.
    fn stipple_steep(&mut self, sx: usize, sy: usize, dx: usize, dy: usize, right: bool, p: Pixel, pattern: u32) -> (r:
        Result<()>)
        requires
            0 < dx < dy,
            sy + dy <= usize::MAX,
            right ==> sx + dx <= usize::MAX,
            !right ==> sx >= dx,
        ensures
            plotted(
                old(self)@,
                final(self)@,
                stippled(
                    seq![(sx as int, sy as int)] + steep_walk(sx as int, sy as int, 2 * dx - dy, dy as nat, dx as int, dy as int, right),
                    pattern,
                    p,
                ),
                r is Ok,
            ),
    {
        let ghost goal = plot(
            self@.target,
            self@.mode,
            self@.blend,
            stippled(
                seq![(sx as int, sy as int)] + steep_walk(sx as int, sy as int, 2 * dx - dy, dy as nat, dx as int, dy as int, right),
                pattern,
                p,
            ),
        );
        let d_maj = dy as i128;
        let d_min = dx as i128;
        let mut e: i128 = 2 * d_min - d_maj;
        let mut x: usize = sx;
        let mut y: usize = sy;
        let mut k: usize = 0;
        let ghost mut m: int = 0;
        let mut pat: u32 = match self.stipple_point(
            sx,
            sy,
            p,
            pattern,
            Ghost(steep_walk(sx as int, sy as int, 2 * dx - dy, dy as nat, dx as int, dy as int, right)),
        ) {
            Ok(q) => q,
            Err(e) => return Err(e),
        };
        proof {
            assert(e + 2 * m * dy == 2 * (k + 1) * dx - dy) by (nonlinear_arith)
                requires
                    k == 0,
                    m == 0,
                    e == 2 * dx - dy,
            ;
        }
        while k < dy
            invariant
                0 < dx < dy,
                sy + dy <= usize::MAX,
                right ==> sx + dx <= usize::MAX,
                !right ==> sx >= dx,
                d_maj == dy,
                d_min == dx,
                k <= dy,
                y == sy + k,
                0 <= m <= dx,
                right ==> x == sx + m,
                !right ==> x == sx - m,
                2 * dx - 2 * dy < e <= 2 * dx,
                e + 2 * m * dy == 2 * (k + 1) * dx - dy,
                self@ == (ContextView { target: self@.target, ..old(self)@ }),
                goal == plot(
                    old(self)@.target,
                    old(self)@.mode,
                    old(self)@.blend,
                    stippled(
                        seq![(sx as int, sy as int)] + steep_walk(sx as int, sy as int, 2 * dx - dy, dy as nat, dx as int, dy as int, right),
                        pattern,
                        p,
                    ),
                ),
                goal == plot(
                    self@.target,
                    self@.mode,
                    self@.blend,
                    stippled(steep_walk(x as int, y as int, e as int, (dy - k) as nat, dx as int, dy as int, right), pat, p),
                ),
            decreases dy - k,
        {
            let ghost (px, py, pe, n) = (x as int, y as int, e as int, (dy - k) as nat);
            if e <= 0 {
                e = e + 2 * d_min;
                proof {
                    assert(2 * (k + 2) * dx == 2 * (k + 1) * dx + 2 * dx) by (nonlinear_arith);
                }
            } else {
                proof {
                    lemma_minor_step(m, k + 1, dy as int, dx as int);
                    assert(2 * (k + 2) * dx == 2 * (k + 1) * dx + 2 * dx) by (nonlinear_arith);
                    assert(2 * (m + 1) * dy == 2 * m * dy + 2 * dy) by (nonlinear_arith);
                }
                if right {
                    x = x + 1;
                } else {
                    x = x - 1;
                }
                proof {
                    m = m + 1;
                }
                e = e + 2 * (d_min - d_maj);
            }
            y = y + 1;
            k = k + 1;
            let ghost rest = steep_walk(x as int, y as int, e as int, (dy - k) as nat, dx as int, dy as int, right);
            assert(steep_walk(px, py, pe, n, dx as int, dy as int, right) == seq![(x as int, y as int)] + rest);
            match self.stipple_point(x, y, p, pat, Ghost(rest)) {
                Ok(q) => pat = q,
                Err(e) => {
                    assert(plotted(old(self)@, self@, stippled(seq![(sx as int, sy as int)] + steep_walk(sx as int, sy as int, 2 * dx - dy, dy as nat, dx as int, dy as int, right), pattern, p), false));
                    return Err(e);
                },
            }
        }
        Ok(())
    }

    /// Draws colour `c` at rows `by .. by + n` of column `cx`.
    fn plot_column(&mut self, cx: usize, by: usize, n: usize, c: Pixel) -> (r: Result<()>)
        requires
            by + n <= usize::MAX,
        ensures
            plotted(old(self)@, final(self)@, column(cx as int, by as int, 0, n as int, Some(c)), r is Ok),
    {
        let ghost goal = plot(self@.target, self@.mode, self@.blend, column(cx as int, by as int, 0, n as int, Some(c)));
        let mut j: usize = 0;
        while j < n
            invariant
                by + n <= usize::MAX,
                self@ == (ContextView { target: self@.target, ..old(self)@ }),
                goal == plot(old(self)@.target, old(self)@.mode, old(self)@.blend, column(cx as int, by as int, 0, n as int, Some(c))),
                goal == plot(self@.target, self@.mode, self@.blend, column(cx as int, by as int, j as int, n as int, Some(c))),
            decreases n - j,
        {
            let ghost v = self@;
            let ghost item: Plot = (cx as int, by + j, Some(c));
            let ghost tail = column(cx as int, by as int, j + 1, n as int, Some(c));
            proof {
                assert(column(cx as int, by as int, j as int, n as int, Some(c)) == seq![item] + tail);
                lemma_plot_concat(v.target, v.mode, v.blend, seq![item], tail);
                lemma_plot_one(v.target, v.mode, v.blend, item);
            }
            match self.draw(cx, by + j, c) {
                Ok(_) => {},
                Err(e) => {
                    assert(plotted(old(self)@, self@, column(cx as int, by as int, 0, n as int, Some(c)), false));
                    return Err(e);
                },
            }
            j += 1;
        }
        Ok(())
    }

    /// Draws the `n` by `n` block of colour `c` at `(bx, by)`, column after
    /// column.
    fn plot_block(&mut self, bx: usize, by: usize, n: usize, c: Pixel) -> (r: Result<()>)
        requires
            bx + n <= usize::MAX,
            by + n <= usize::MAX,
        ensures
            plotted(old(self)@, final(self)@, block(bx as int, by as int, 0, n as int, Some(c)), r is Ok),
    {
        let ghost goal = plot(self@.target, self@.mode, self@.blend, block(bx as int, by as int, 0, n as int, Some(c)));
        let mut i: usize = 0;
        while i < n
            invariant
                bx + n <= usize::MAX,
                by + n <= usize::MAX,
                self@ == (ContextView { target: self@.target, ..old(self)@ }),
                goal == plot(old(self)@.target, old(self)@.mode, old(self)@.blend, block(bx as int, by as int, 0, n as int, Some(c))),
                goal == plot(self@.target, self@.mode, self@.blend, block(bx as int, by as int, i as int, n as int, Some(c))),
            decreases n - i,
        {
            let ghost v = self@;
            let ghost head = column(bx + i, by as int, 0, n as int, Some(c));
            let ghost tail = block(bx as int, by as int, i + 1, n as int, Some(c));
            proof {
                assert(block(bx as int, by as int, i as int, n as int, Some(c)) == head + tail);
                lemma_plot_concat(v.target, v.mode, v.blend, head, tail);
            }
            match self.plot_column(bx + i, by, n, c) {
                Ok(_) => {},
                Err(e) => {
                    assert(plotted(old(self)@, self@, block(bx as int, by as int, 0, n as int, Some(c)), false));
                    return Err(e);
                },
            }
            i += 1;
        }
        Ok(())
    }

    /// Draws the glyph whose font cell starts at `(gx, gy)` with its top left
    /// corner at `(x, y)`, each lit font pixel a `bs` by `bs` block.
    fn draw_glyph(&mut self, gx: usize, gy: usize, x: usize, y: usize, bs: usize, c: Pixel) -> (r: Result<()>)
        requires
            bs >= 1,
            x + 8 * bs <= usize::MAX,
            y + 8 * bs <= usize::MAX,
            gx + 8 <= usize::MAX,
            gy + 8 <= usize::MAX,
        ensures
            plotted(
                old(self)@,
                final(self)@,
                glyph_plots(old(self)@.font, gx as int, gy as int, x as int, y as int, bs as int, 0, c),
                r is Ok,
            ),
    {
        let ghost font = self@.font;
        let ghost goal = plot(
            self@.target,
            self@.mode,
            self@.blend,
            glyph_plots(font, gx as int, gy as int, x as int, y as int, bs as int, 0, c),
        );
        let mut t: usize = 0;
        while t < 64
            invariant
                bs >= 1,
                x + 8 * bs <= usize::MAX,
                y + 8 * bs <= usize::MAX,
                gx + 8 <= usize::MAX,
                gy + 8 <= usize::MAX,
                font == old(self)@.font,
                self@ == (ContextView { target: self@.target, ..old(self)@ }),
                goal == plot(
                    old(self)@.target,
                    old(self)@.mode,
                    old(self)@.blend,
                    glyph_plots(font, gx as int, gy as int, x as int, y as int, bs as int, 0, c),
                ),
                goal == plot(
                    self@.target,
                    self@.mode,
                    self@.blend,
                    glyph_plots(font, gx as int, gy as int, x as int, y as int, bs as int, t as int, c),
                ),
            decreases 64 - t,
        {
            let i = t / 8;
            let j = t % 8;
            proof {
                assert(i * bs + bs <= 8 * bs) by (nonlinear_arith)
                    requires
                        i < 8,
                ;
                assert(j * bs + bs <= 8 * bs) by (nonlinear_arith)
                    requires
                        j < 8,
                ;
            }
            let ghost v = self@;
            let ghost tail = glyph_plots(font, gx as int, gy as int, x as int, y as int, bs as int, t + 1, c);
            let f = match self.font.get_pixel(gx + i, gy + j) {
                Ok(f) => f,
                Err(e) => {
                    proof {
                        let items = glyph_plots(font, gx as int, gy as int, x as int, y as int, bs as int, t as int, c);
                        assert(items == seq![(x + i * bs, y + j * bs, None::<Pixel>)] + tail);
                        lemma_plot_fails_first(v.target, v.mode, v.blend, items);
                    }
                    assert(plotted(old(self)@, self@, glyph_plots(font, gx as int, gy as int, x as int, y as int, bs as int, 0, c), false));
                    return Err(e);
                },
            };
            if f.r() > 0 {
                let ghost head = block(x + i * bs, y + j * bs, 0, bs as int, Some(c));
                proof {
                    assert(glyph_plots(font, gx as int, gy as int, x as int, y as int, bs as int, t as int, c) == head + tail);
                    lemma_plot_concat(v.target, v.mode, v.blend, head, tail);
                }
                match self.plot_block(x + i * bs, y + j * bs, bs, c) {
                    Ok(_) => {},
                    Err(e) => {
                        assert(plotted(old(self)@, self@, glyph_plots(font, gx as int, gy as int, x as int, y as int, bs as int, 0, c), false));
                        return Err(e);
                    },
                }
            } else {
                assert(glyph_plots(font, gx as int, gy as int, x as int, y as int, bs as int, t as int, c) =~= tail);
            }
            t += 1;
        }
        Ok(())
    }

    /// Draws `text` with its top left corner at `(x, y)` in the current
    /// blend mode.
    fn draw_text(&mut self, x: usize, y: usize, text: &str, col: Pixel, scale: usize) -> (r: Result<()>)
        requires
            x + 8 * (scale + 1) * (text@.len() + 1) <= usize::MAX,
            y + 8 * (scale + 1) * (text@.len() + 1) <= usize::MAX,
        ensures
            plotted(
                old(self)@,
                final(self)@,
                text_plots(old(self)@.font, text@, x as int, y as int, 0, 0, scale as int, col),
                r is Ok,
            ),
    {
        let ghost font = self@.font;
        let ghost all = text_plots(font, text@, x as int, y as int, 0, 0, scale as int, col);
        let ghost goal = plot(self@.target, self@.mode, self@.blend, all);
        let n = text.unicode_len();
        let bs: usize = if scale > 1 {
            scale
        } else {
            1
        };
        let mut k: usize = 0;
        let mut sx: usize = 0;
        let mut sy: usize = 0;
        let ghost mut bound: int = 0;
        proof {
            assert(text@.skip(0) =~= text@);
        }
        while k < n
            invariant
                n == text@.len(),
                x + 8 * (scale + 1) * (text@.len() + 1) <= usize::MAX,
                y + 8 * (scale + 1) * (text@.len() + 1) <= usize::MAX,
                bs == block_size(scale as int),
                k <= n,
                bound == 8 * scale * k,
                sx <= bound,
                sy <= bound,
                font == old(self)@.font,
                all == text_plots(font, text@, x as int, y as int, 0, 0, scale as int, col),
                self@ == (ContextView { target: self@.target, ..old(self)@ }),
                goal == plot(old(self)@.target, old(self)@.mode, old(self)@.blend, all),
                goal == plot(
                    self@.target,
                    self@.mode,
                    self@.blend,
                    text_plots(font, text@.skip(k as int), x as int, y as int, sx as int, sy as int, scale as int, col),
                ),
            decreases n - k,
        {
            proof {
                assert(bound + 8 * bs <= 8 * (scale + 1) * (n + 1)) by (nonlinear_arith)
                    requires
                        bound == 8 * scale * k,
                        k < n,
                        1 <= bs <= scale + 1,
                ;
                assert(bound + 8 * scale == 8 * scale * (k + 1)) by (nonlinear_arith)
                    requires
                        bound == 8 * scale * k,
                ;
                assert(8 * scale * (k + 1) <= 8 * (scale + 1) * (n + 1)) by (nonlinear_arith)
                    requires
                        k < n,
                ;
            }
            let c = text.get_char(k);
            let ghost v = self@;
            let ghost rest = text@.skip(k + 1);
            proof {
                assert(text@.skip(k as int)[0] == c);
                assert(text@.skip(k as int).drop_first() =~= rest);
            }
            if c == '\n' {
                sx = 0;
                sy = sy + 8 * scale;
            } else {
                let code = c as u32;
                if code < 32 || code > 127 {
                    proof {
                        let items = text_plots(font, text@.skip(k as int), x as int, y as int, sx as int, sy as int, scale as int, col);
                        lemma_plot_fails_first(v.target, v.mode, v.blend, items);
                    }
                    assert(plotted(old(self)@, self@, all, false));
                    return Err(PGError::no_glyph(c));
                }
                let g = (code - 32) as usize;
                let ghost head = glyph_plots(font, (g % 16) * 8, (g / 16) * 8, x + sx, y + sy, bs as int, 0, col);
                let ghost tail = text_plots(font, rest, x as int, y as int, sx + 8 * scale, sy as int, scale as int, col);
                proof {
                    lemma_plot_concat(v.target, v.mode, v.blend, head, tail);
                }
                match self.draw_glyph((g % 16) * 8, (g / 16) * 8, x + sx, y + sy, bs, col) {
                    Ok(_) => {},
                    Err(e) => {
                        assert(plotted(old(self)@, self@, all, false));
                        return Err(e);
                    },
                }
                sx = sx + 8 * scale;
            }
            k += 1;
            proof {
                bound = bound + 8 * scale;
            }
        }
        proof {
            assert(text@.skip(k as int) =~= Seq::<char>::empty());
        }
        Ok(())
    }

    /// Draws `text` in colour `col` with its top left corner at `(x, y)`, each
    /// font pixel a `scale` by `scale` block (a scale of 0 draws blocks of 1
    /// and does not advance). A newline starts a new line `8 * scale` lower;
    /// every other character is the glyph of its code and moves the cursor
    /// `8 * scale` right. The text is drawn in mask mode when `col` is fully
    /// opaque and in alpha mode otherwise; the blend mode is restored after.
    /// A character outside codes 32 to 127 ends the drawing with an error.
    pub fn draw_string(&mut self, x: usize, y: usize, text: &str, col: Pixel, scale: usize) -> (r: Result<()>)
        requires
            x + 8 * (scale + 1) * (text@.len() + 1) <= usize::MAX,
            y + 8 * (scale + 1) * (text@.len() + 1) <= usize::MAX,
        ensures
            final(self)@.mode == old(self)@.mode,
            plotted(
                ContextView { mode: text_mode(col), ..old(self)@ },
                ContextView { mode: text_mode(col), ..final(self)@ },
                text_plots(old(self)@.font, text@, x as int, y as int, 0, 0, scale as int, col),
                r is Ok,
            ),
    {
        let m = self.pixel_mode;
        if col.a() != 255 {
            self.set_pixel_mode(PixelMode::ALPHA);
        } else {
            self.set_pixel_mode(PixelMode::MASK);
        }
        let r = self.draw_text(x, y, text, col, scale);
        self.set_pixel_mode(m);
        r
    }

    /// Draws the `w` by `h` region of `sprite` whose top left corner is
    /// `(ox, oy)` with its top left corner at `(x, y)`, through the blend mode.
    /// Each source pixel becomes a `scale` by `scale` block (a scale of 0
    /// draws like 1). A horizontal flip reads the source columns from the
    /// right, a vertical flip reads the rows from the bottom; the size drawn
    /// stays the same. A failed read or draw ends the blit with its error.
    pub fn draw_partial_sprite(
        &mut self,
        x: usize,
        y: usize,
        sprite: &Sprite,
        ox: usize,
        oy: usize,
        w: usize,
        h: usize,
        scale: usize,
        flip: Flip,
    ) -> (r: Result<()>)
        requires
            x + w * block_size(scale as int) <= usize::MAX,
            y + h * block_size(scale as int) <= usize::MAX,
            ox + w <= usize::MAX,
            oy + h <= usize::MAX,
        ensures
            plotted(
                old(self)@,
                final(self)@,
                blit_plots(sprite@, x as int, y as int, ox as int, oy as int, w as int, h as int, block_size(scale as int), flip, 0),
                r is Ok,
            ),
    {
        let bs: usize = if scale > 1 {
            scale
        } else {
            1
        };
        let ghost src = sprite@;
        let ghost all = blit_plots(src, x as int, y as int, ox as int, oy as int, w as int, h as int, bs as int, flip, 0);
        let ghost goal = plot(self@.target, self@.mode, self@.blend, all);
        let mut i: usize = 0;
        while i < w
            invariant
                bs == block_size(scale as int),
                x + w * bs <= usize::MAX,
                y + h * bs <= usize::MAX,
                ox + w <= usize::MAX,
                oy + h <= usize::MAX,
                i <= w,
                src == sprite@,
                all == blit_plots(src, x as int, y as int, ox as int, oy as int, w as int, h as int, bs as int, flip, 0),
                self@ == (ContextView { target: self@.target, ..old(self)@ }),
                goal == plot(old(self)@.target, old(self)@.mode, old(self)@.blend, all),
                goal == plot(
                    self@.target,
                    self@.mode,
                    self@.blend,
                    blit_plots(src, x as int, y as int, ox as int, oy as int, w as int, h as int, bs as int, flip, i as int),
                ),
            decreases w - i,
        {
            let ghost later = blit_plots(src, x as int, y as int, ox as int, oy as int, w as int, h as int, bs as int, flip, i + 1);
            proof {
                assert(blit_plots(src, x as int, y as int, ox as int, oy as int, w as int, h as int, bs as int, flip, i as int)
                    == blit_column(src, x as int, y as int, ox as int, oy as int, w as int, h as int, bs as int, flip, i as int, 0) + later);
                assert(i * bs + bs <= w * bs) by (nonlinear_arith)
                    requires
                        i < w,
                ;
            }
            let fx = if flip == Flip::HORIZ {
                w - 1 - i
            } else {
                i
            };
            let mut j: usize = 0;
            while j < h
                invariant
                    bs == block_size(scale as int),
                    x + w * bs <= usize::MAX,
                    y + h * bs <= usize::MAX,
                    ox + w <= usize::MAX,
                    oy + h <= usize::MAX,
                    i < w,
                    i * bs + bs <= w * bs,
                    j <= h,
                    fx == crate::raster::flipped(i as int, w as int, flip == Flip::HORIZ),
                    src == sprite@,
                    all == blit_plots(src, x as int, y as int, ox as int, oy as int, w as int, h as int, bs as int, flip, 0),
                    later == blit_plots(src, x as int, y as int, ox as int, oy as int, w as int, h as int, bs as int, flip, i + 1),
                    self@ == (ContextView { target: self@.target, ..old(self)@ }),
                    goal == plot(old(self)@.target, old(self)@.mode, old(self)@.blend, all),
                    goal == plot(
                        self@.target,
                        self@.mode,
                        self@.blend,
                        blit_column(src, x as int, y as int, ox as int, oy as int, w as int, h as int, bs as int, flip, i as int, j as int) + later,
                    ),
                decreases h - j,
            {
                proof {
                    assert(j * bs + bs <= h * bs) by (nonlinear_arith)
                        requires
                            j < h,
                    ;
                }
                let fy = if flip == Flip::VERT {
                    h - 1 - j
                } else {
                    j
                };
                let ghost v = self@;
                let ghost c = src.get(ox + fx, oy + fy);
                let ghost head = block(x + i * bs, y + j * bs, 0, bs as int, c);
                let ghost tail = blit_column(src, x as int, y as int, ox as int, oy as int, w as int, h as int, bs as int, flip, i as int, j + 1) + later;
                proof {
                    assert(blit_column(src, x as int, y as int, ox as int, oy as int, w as int, h as int, bs as int, flip, i as int, j as int) + later
                        =~= head + tail);
                }
                match sprite.get_pixel(ox + fx, oy + fy) {
                    Ok(q) => {
                        proof {
                            lemma_plot_concat(v.target, v.mode, v.blend, head, tail);
                        }
                        match self.plot_block(x + i * bs, y + j * bs, bs, q) {
                            Ok(_) => {},
                            Err(e) => {
                                assert(plotted(old(self)@, self@, all, false));
                                return Err(e);
                            },
                        }
                    },
                    Err(e) => {
                        proof {
                            lemma_block_first(x + i * bs, y + j * bs, bs as int, c, tail);
                            lemma_plot_fails_first(v.target, v.mode, v.blend, head + tail);
                        }
                        assert(plotted(old(self)@, self@, all, false));
                        return Err(e);
                    },
                }
                j += 1;
            }
            proof {
                assert(blit_column(src, x as int, y as int, ox as int, oy as int, w as int, h as int, bs as int, flip, i as int, j as int) + later =~= later);
            }
            i += 1;
        }
        Ok(())
    }

    /// Draws the line from `(x1, y1)` to `(x2, y2)` in colour `p`, stippled
    /// by the low 32 bits of `pattern`: before each candidate point the
    /// pattern is rotated left by one bit, and the point is drawn only when
    /// the new low bit is set. A vertical or horizontal line covers the
    /// coordinates from the smaller to the larger one, the far end excluded;
    /// any other line is Bresenham's, both ends included. The first failing
    /// draw ends the line with its error.
    pub fn draw_line(&mut self, x1: usize, y1: usize, x2: usize, y2: usize, p: Pixel, pattern: usize) -> (r: Result<()>)
        ensures
            plotted(
                old(self)@,
                final(self)@,
                line_plots(x1 as int, y1 as int, x2 as int, y2 as int, p, pattern as u32),
                r is Ok,
            ),
    {
        let pat = pattern as u32;
        if x1 == x2 {
            let (lo, hi) = if y1 <= y2 {
                (y1, y2)
            } else {
                (y2, y1)
            };
            return self.stipple_run(lo, hi, x1, false, p, pat);
        }
        if y1 == y2 {
            let (lo, hi) = if x1 <= x2 {
                (x1, x2)
            } else {
                (x2, x1)
            };
            return self.stipple_run(lo, hi, y1, true, p, pat);
        }
        let (dx, right) = if x2 >= x1 {
            (x2 - x1, true)
        } else {
            (x1 - x2, false)
        };
        let (dy, down) = if y2 >= y1 {
            (y2 - y1, true)
        } else {
            (y1 - y2, false)
        };
        let same = right == down;
        if dy <= dx {
            let (sx, sy) = if right {
                (x1, y1)
            } else {
                (x2, y2)
            };
            self.stipple_shallow(sx, sy, dx, dy, same, p, pat)
        } else {
            let (sx, sy) = if down {
                (x1, y1)
            } else {
                (x2, y2)
            };
            self.stipple_steep(sx, sy, dx, dy, same, p, pat)
        }
    }

    /// Draws the solid line from `(x1, y1)` to `(x2, y2)`.
    pub fn draw_line0(&mut self, x1: usize, y1: usize, x2: usize, y2: usize, p: Pixel) -> (r: Result<()>)
        ensures
            plotted(
                old(self)@,
                final(self)@,
                line_plots(x1 as int, y1 as int, x2 as int, y2 as int, p, 0xFFFF_FFFFu32),
                r is Ok,
            ),
    {
        self.draw_line(x1, y1, x2, y2, p, 0xFFFF_FFFF)
    }

    /// Draws the outline of the rectangle with corners `(x, y)` and
    /// `(x + w, y + h)`: its top, right, bottom and left sides as solid lines.
    pub fn draw_rect(&mut self, x: usize, y: usize, w: usize, h: usize, p: Pixel) -> (r: Result<()>)
        requires
            x + w <= usize::MAX,
            y + h <= usize::MAX,
        ensures
            plotted(old(self)@, final(self)@, rect_plots(x as int, y as int, w as int, h as int, p), r is Ok),
    {
        let ghost v = old(self)@;
        let ghost (xi, yi, wi, hi) = (x as int, y as int, w as int, h as int);
        let ghost s1 = line_plots(xi, yi, xi + wi, yi, p, 0xFFFF_FFFFu32);
        let ghost s2 = line_plots(xi + wi, yi, xi + wi, yi + hi, p, 0xFFFF_FFFFu32);
        let ghost s3 = line_plots(xi + wi, yi + hi, xi, yi + hi, p, 0xFFFF_FFFFu32);
        let ghost s4 = line_plots(xi, yi + hi, xi, yi, p, 0xFFFF_FFFFu32);
        proof {
            lemma_plot_concat(v.target, v.mode, v.blend, s1 + s2 + s3, s4);
            lemma_plot_concat(v.target, v.mode, v.blend, s1 + s2, s3);
            lemma_plot_concat(v.target, v.mode, v.blend, s1, s2);
        }
        let r1 = self.draw_line0(x, y, x + w, y, p);
        if r1.is_err() {
            return r1;
        }
        let r2 = self.draw_line0(x + w, y, x + w, y + h, p);
        if r2.is_err() {
            return r2;
        }
        let r3 = self.draw_line0(x + w, y + h, x, y + h, p);
        if r3.is_err() {
            return r3;
        }
        self.draw_line0(x, y + h, x, y, p)
    }

    /// The mouse state.
    pub fn mouse_state(&self) -> (m: &MouseState)
        ensures
            *m == self@.mouse,
    {
        &self.mouse_state
    }

    /// The mouse state, for the host to update.
    pub fn mouse_state_mut(&mut self) -> (m: &mut MouseState)
        ensures
            *m == old(self)@.mouse,
            final(self)@ == (ContextView { mouse: *final(m), ..old(self)@ }),
    {
        &mut self.mouse_state
    }
}

} // verus!
