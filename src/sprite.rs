//! Frame buffers: a grid of RGBA pixels stored as packed bytes, four per
//! pixel, row after row.
use vstd::prelude::*;
use crate::error::{ErrorKind, PGError, Result};
use crate::pixel::Pixel;

verus! {

broadcast use crate::pixel::group_pixel;

/// How coordinates beyond the edge of a sprite are read and written.
#[derive(Clone, Copy, Debug, PartialEq, Eq, Structural)]
pub enum Mode {
    /// Coordinates beyond the edge are an error.
    NORMAL,
    /// Coordinates wrap around, modulo the width and the height.
    PERIODIC,
}

/// Which way a sprite is mirrored when it is drawn.
#[derive(Clone, Copy, Debug, PartialEq, Eq, Structural)]
pub enum Flip {
    NONE,
    HORIZ,
    VERT,
}

/// The byte layouts that decoded images come in.
#[derive(Clone, Copy, Debug, PartialEq, Eq, Structural)]
pub enum SourceLayout {
    /// Four bytes per pixel: red, green, blue, alpha.
    RGBA8888,
    /// Four bytes per pixel: alpha, blue, green, red.
    ABGR8888,
    /// Three bytes per pixel: red, green, blue; no alpha.
    RGB24,
    /// Any other layout; it cannot be imported.
    OTHER,
}

/// Bytes per pixel of a layout that can be imported.
pub open spec fn bytes_per_pixel(layout: SourceLayout) -> int {
    match layout {
        SourceLayout::RGB24 => 3,
        _ => 4,
    }
}

/// The pixel whose bytes start at `off`, in the internal RGBA order. The
/// three-byte layout gets alpha 0.
pub open spec fn source_pixel(layout: SourceLayout, bytes: Seq<u8>, off: int) -> Pixel {
    match layout {
        SourceLayout::ABGR8888 => Pixel::spec_rgba(bytes[off + 3], bytes[off + 2], bytes[off + 1], bytes[off]),
        SourceLayout::RGB24 => Pixel::spec_rgba(bytes[off], bytes[off + 1], bytes[off + 2], 0),
        _ => Pixel::spec_rgba(bytes[off], bytes[off + 1], bytes[off + 2], bytes[off + 3]),
    }
}

/// The source pixel at column `x`, row `y` of an image with rows `pitch`
/// bytes apart.
pub open spec fn image_pixel(layout: SourceLayout, bytes: Seq<u8>, pitch: int, x: int, y: int) -> Pixel {
    source_pixel(layout, bytes, y * pitch + x * bytes_per_pixel(layout))
}

/// Whether `len` bytes hold a `width` by `height` image of the layout with
/// rows `pitch` bytes apart, and the sprite made of it fits in memory.
pub open spec fn image_fits(layout: SourceLayout, len: int, width: int, height: int, pitch: int) -> bool {
    &&& layout != SourceLayout::OTHER
    &&& width * bytes_per_pixel(layout) <= pitch
    &&& pitch * height <= len
    &&& width * height * 4 <= usize::MAX
    &&& width * 4 <= usize::MAX
}

/// A pixel of row `y` before column `x`, or of an earlier row, comes first in
/// row-major order.
pub proof fn lemma_row_major_before(xx: int, yy: int, x: int, y: int, w: int)
    requires
        0 <= xx < w,
        0 <= x,
        0 <= yy,
        yy < y || (yy == y && xx < x),
    ensures
        yy * w + xx < y * w + x,
{
    if yy < y {
        assert(yy * w + w <= y * w) by (nonlinear_arith)
            requires
                yy < y,
                0 <= w,
        ;
    }
}

/// The contents of a sprite: its size, its sample mode, and its pixels in
/// row-major order.
pub ghost struct SpriteView {
    pub width: nat,
    pub height: nat,
    pub mode: Mode,
    pub pixels: Seq<Pixel>,
}

impl SpriteView {
    /// One pixel for each cell of the grid.
    pub open spec fn wf(self) -> bool {
        self.pixels.len() == self.width * self.height
    }

    /// The cell that an access at `(x, y)` reaches, or `None` when it is out
    /// of bounds. In periodic mode the coordinates are first reduced modulo the
    /// width and the height.
    pub open spec fn locate(self, x: int, y: int) -> Option<(int, int)> {
        let (cx, cy) = if self.mode == Mode::PERIODIC && self.width > 0 && self.height > 0 {
            (x % (self.width as int), y % (self.height as int))
        } else {
            (x, y)
        };
        if 0 <= cx < self.width && 0 <= cy < self.height {
            Some((cx, cy))
        } else {
            None
        }
    }

    /// The pixel of the cell at column `x`, row `y`.
    pub open spec fn at(self, x: int, y: int) -> Pixel {
        self.pixels[y * self.width + x]
    }

    /// What reading at `(x, y)` gives.
    pub open spec fn get(self, x: int, y: int) -> Option<Pixel> {
        match self.locate(x, y) {
            Some((cx, cy)) => Some(self.at(cx, cy)),
            None => None,
        }
    }

    /// The contents after writing `p` at `(x, y)`, or `None` when that fails.
    pub open spec fn set(self, x: int, y: int, p: Pixel) -> Option<SpriteView> {
        match self.locate(x, y) {
            Some((cx, cy)) => Some(
                SpriteView { pixels: self.pixels.update(cy * self.width + cx, p), ..self },
            ),
            None => None,
        }
    }
}

/// Reading a pixel right after writing it there gives the written colour.
pub proof fn lemma_set_then_get(v: SpriteView, x: int, y: int, p: Pixel)
    requires
        v.wf(),
        v.set(x, y, p) is Some,
    ensures
        v.set(x, y, p)->Some_0.get(x, y) == Some(p),
{
    let (cx, cy) = v.locate(x, y)->Some_0;
    lemma_cell_index(cx, cy, v.width as int, v.height as int);
}

/// In normal mode an access at a column at or past the width, or a row at
/// or past the height, fails, for reading and for writing alike.
pub proof fn lemma_normal_out_of_bounds(v: SpriteView, x: int, y: int, p: Pixel)
    requires
        v.mode == Mode::NORMAL,
        0 <= x,
        0 <= y,
        x >= v.width || y >= v.height,
    ensures
        v.get(x, y) is None,
        v.set(x, y, p) is None,
{
}

/// In periodic mode every access succeeds, and reads the pixel at the
/// coordinates reduced modulo the width and the height.
pub proof fn lemma_periodic_wraps(v: SpriteView, x: int, y: int)
    requires
        v.mode == Mode::PERIODIC,
        v.width > 0,
        v.height > 0,
        0 <= x,
        0 <= y,
    ensures
        v.get(x, y) is Some,
        v.get(x, y) == v.get(x % (v.width as int), y % (v.height as int)),
{
    let w = v.width as int;
    let h = v.height as int;
    vstd::arithmetic::div_mod::lemma_mod_bound(x, w);
    vstd::arithmetic::div_mod::lemma_mod_bound(y, h);
    vstd::arithmetic::div_mod::lemma_mod_twice(x, w);
    vstd::arithmetic::div_mod::lemma_mod_twice(y, h);
}

/// A cell inside a `w` by `h` grid has a row-major index inside the grid, and
/// its four bytes lie inside the buffer.
pub proof fn lemma_cell_index(x: int, y: int, w: int, h: int)
    requires
        0 <= x < w,
        0 <= y < h,
    ensures
        0 <= y * w + x < w * h,
        (y * w + x) * 4 + 3 < w * h * 4,
        y * w + x < (y + 1) * w,
{
    assert(y * w + x < w * h) by (nonlinear_arith)
        requires
            0 <= x < w,
            0 <= y < h,
    ;
    assert(0 <= y * w) by (nonlinear_arith)
        requires
            0 <= y,
            0 <= w,
    ;
    assert((y * w + x) * 4 + 3 < w * h * 4) by (nonlinear_arith)
        requires
            y * w + x < w * h,
    ;
    assert(y * w + x < (y + 1) * w) by (nonlinear_arith)
        requires
            x < w,
    ;
}

/// The pixel stored in bytes `4k .. 4k + 4`.
pub open spec fn pixel_of(data: Seq<u8>, k: int) -> Pixel {
    Pixel::spec_rgba(data[4 * k], data[4 * k + 1], data[4 * k + 2], data[4 * k + 3])
}

/// A frame buffer of `width` by `height` RGBA pixels; the pitch is always
/// `width * 4`.
#[derive(Debug)]
pub struct Sprite {
    width: usize,
    height: usize,
    mode: Mode,
    data: Vec<u8>,
}

impl View for Sprite {
    type V = SpriteView;

    closed spec fn view(&self) -> SpriteView {
        SpriteView {
            width: self.width as nat,
            height: self.height as nat,
            mode: self.mode,
            pixels: Seq::new((self.width * self.height) as nat, |k: int| pixel_of(self.data@, k)),
        }
    }
}

impl Clone for Sprite {
    fn clone(&self) -> (s: Self)
        ensures
            s@ == self@,
    {
        proof {
            use_type_invariant(self);
        }
        let data = self.data.clone();
        assert(data@ == self.data@);
        Sprite { width: self.width, height: self.height, mode: self.mode, data }
    }
}

impl Sprite {
    #[verifier::type_invariant]
    spec fn inv(self) -> bool {
        &&& self.data@.len() == self.width * self.height * 4
        &&& self.width * self.height * 4 <= usize::MAX
        &&& self.width * 4 <= usize::MAX
    }

    /// Creates a `width` by `height` sprite in normal mode, every byte 255
    /// (opaque white). A zero width or height is accepted and gives an empty
    /// sprite, on which every access fails.
    pub fn new(width: usize, height: usize) -> (s: Self)
        requires
            width * height * 4 <= usize::MAX,
            width * 4 <= usize::MAX,
        ensures
            s@.width == width,
            s@.height == height,
            s@.mode == Mode::NORMAL,
            s@.wf(),
            forall|k: int| 0 <= k < s@.pixels.len() ==> s@.pixels[k] == Pixel::spec_rgba(255, 255, 255, 255),
    {
        let n: usize = width * height * 4;
        let mut data: Vec<u8> = Vec::with_capacity(n);
        while data.len() < n
            invariant
                data@.len() <= n,
                forall|i: int| 0 <= i < data@.len() ==> data@[i] == 255,
            decreases n - data@.len(),
        {
            data.push(255);
        }
        proof {
            assert(height * width == width * height) by (nonlinear_arith);
        }
        let s = Sprite { width, height, mode: Mode::NORMAL, data };
        assert(s@.pixels.len() == width * height);
        s
    }

    /// Imports a decoded `width` by `height` image whose rows start `pitch`
    /// bytes apart in `bytes`, converting every pixel to RGBA; the three-byte
    /// layout gets alpha 0. Fails with an unsupported-format error when the
    /// layout cannot be imported or the bytes do not hold the image.
    pub fn from_image(bytes: &[u8], layout: SourceLayout, width: usize, height: usize, pitch: usize) -> (r: Result<
        Sprite,
    >)
        ensures
            match r {
                Ok(s) => {
                    &&& image_fits(layout, bytes@.len() as int, width as int, height as int, pitch as int)
                    &&& s@.width == width
                    &&& s@.height == height
                    &&& s@.mode == Mode::NORMAL
                    &&& s@.wf()
                    &&& forall|x: int, y: int|
                        0 <= x < width && 0 <= y < height ==> #[trigger] s@.at(x, y) == image_pixel(
                            layout,
                            bytes@,
                            pitch as int,
                            x,
                            y,
                        )
                },
                Err(e) => !image_fits(layout, bytes@.len() as int, width as int, height as int, pitch as int)
                    && e.spec_kind() == ErrorKind::UnsupportedFormat,
            },
    {
        let len = bytes.len();
        let bpp: usize = match layout {
            SourceLayout::RGBA8888 => 4,
            SourceLayout::ABGR8888 => 4,
            SourceLayout::RGB24 => 3,
            SourceLayout::OTHER => return Err(PGError::unsupported_format()),
        };
        let row_bytes = match width.checked_mul(bpp) {
            Some(n) => n,
            None => return Err(PGError::unsupported_format()),
        };
        let total = match pitch.checked_mul(height) {
            Some(n) => n,
            None => return Err(PGError::unsupported_format()),
        };
        let cells = match width.checked_mul(height) {
            Some(n) => n,
            None => return Err(PGError::unsupported_format()),
        };
        let size = match cells.checked_mul(4) {
            Some(n) => n,
            None => return Err(PGError::unsupported_format()),
        };
        let stride = match width.checked_mul(4) {
            Some(n) => n,
            None => return Err(PGError::unsupported_format()),
        };
        if row_bytes > pitch || total > len {
            return Err(PGError::unsupported_format());
        }
        let mut data: Vec<u8> = Vec::with_capacity(size);
        let ghost mut pix: Seq<Pixel> = Seq::empty();
        let mut y: usize = 0;
        while y < height
            invariant
                bpp == bytes_per_pixel(layout),
                layout != SourceLayout::OTHER,
                image_fits(layout, bytes@.len() as int, width as int, height as int, pitch as int),
                len == bytes@.len(),
                y <= height,
                pix.len() == y * width,
                data@.len() == 4 * pix.len(),
                forall|k: int| 0 <= k < pix.len() ==> #[trigger] pixel_of(data@, k) == pix[k],
                forall|xx: int, yy: int|
                    0 <= xx < width && 0 <= yy < y ==> #[trigger] image_pixel(layout, bytes@, pitch as int, xx, yy)
                        == pix[yy * width + xx],
            decreases height - y,
        {
            let mut x: usize = 0;
            while x < width
                invariant
                    bpp == bytes_per_pixel(layout),
                    layout != SourceLayout::OTHER,
                    image_fits(layout, bytes@.len() as int, width as int, height as int, pitch as int),
                    len == bytes@.len(),
                    y < height,
                    x <= width,
                    pix.len() == y * width + x,
                    data@.len() == 4 * pix.len(),
                    forall|k: int| 0 <= k < pix.len() ==> #[trigger] pixel_of(data@, k) == pix[k],
                    forall|xx: int, yy: int|
                        0 <= xx < width && 0 <= yy && (yy < y || (yy == y && xx < x)) ==> #[trigger] image_pixel(
                            layout,
                            bytes@,
                            pitch as int,
                            xx,
                            yy,
                        ) == pix[yy * width + xx],
                decreases width - x,
            {
                proof {
                    assert(y * pitch + x * bpp + bpp <= pitch * height) by (nonlinear_arith)
                        requires
                            x < width,
                            y < height,
                            width * bpp <= pitch,
                    ;
                    assert(y * pitch + x * bpp + bpp <= bytes@.len());
                    assert(0 <= y * pitch && 0 <= x * bpp) by (nonlinear_arith);
                    lemma_cell_index(x as int, y as int, width as int, height as int);
                }
                let off = y * pitch + x * bpp;
                let (r, g, b, a) = match layout {
                    SourceLayout::ABGR8888 => (bytes[off + 3], bytes[off + 2], bytes[off + 1], bytes[off]),
                    SourceLayout::RGB24 => (bytes[off], bytes[off + 1], bytes[off + 2], 0u8),
                    _ => (bytes[off], bytes[off + 1], bytes[off + 2], bytes[off + 3]),
                };
                let ghost before = data@;
                data.push(r);
                data.push(g);
                data.push(b);
                data.push(a);
                let ghost old_pix = pix;
                proof {
                    pix = pix.push(Pixel::spec_rgba(r, g, b, a));
                    assert forall|k: int| 0 <= k < pix.len() implies #[trigger] pixel_of(data@, k) == pix[k] by {
                        if k < old_pix.len() {
                            assert(pixel_of(before, k) == old_pix[k]);
                        }
                    }
                    assert forall|xx: int, yy: int|
                        0 <= xx < width && 0 <= yy && (yy < y || (yy == y && xx < x + 1)) implies #[trigger] image_pixel(
                            layout,
                            bytes@,
                            pitch as int,
                            xx,
                            yy,
                        ) == pix[yy * width + xx] by {
                        if yy < y || (yy == y && xx < x) {
                            lemma_row_major_before(xx, yy, x as int, y as int, width as int);
                        }
                    }
                }
                x += 1;
            }
            proof {
                assert(y * width + width == (y + 1) * width) by (nonlinear_arith);
            }
            y += 1;
        }
        proof {
            assert(height * width == width * height) by (nonlinear_arith);
        }
        let s = Sprite { width, height, mode: Mode::NORMAL, data };
        proof {
            assert forall|x: int, y: int| 0 <= x < width && 0 <= y < height implies #[trigger] s@.at(x, y)
                == image_pixel(layout, bytes@, pitch as int, x, y) by {
                lemma_cell_index(x, y, width as int, height as int);
            }
        }
        Ok(s)
    }

    /// Sprite width, in pixels.
    pub fn width(&self) -> (w: usize)
        ensures
            w == self@.width,
            self@.wf(),
    {
        proof {
            use_type_invariant(self);
        }
        self.width
    }

    /// Sprite height, in pixels.
    pub fn height(&self) -> (h: usize)
        ensures
            h == self@.height,
            self@.wf(),
    {
        proof {
            use_type_invariant(self);
        }
        self.height
    }

    /// Bytes per row of the pixel data.
    pub fn pitch(&self) -> (p: usize)
        ensures
            p == self@.width * 4,
    {
        proof {
            use_type_invariant(self);
        }
        self.width * 4
    }

    /// The pixel data: four bytes per pixel, red, green, blue, alpha, row
    /// after row.
    pub fn data(&self) -> (d: &[u8])
        ensures
            d@.len() == self@.width * self@.height * 4,
            forall|k: int| 0 <= k < self@.pixels.len() ==> #[trigger] pixel_of(d@, k) == self@.pixels[k],
    {
        proof {
            use_type_invariant(self);
        }
        self.data.as_slice()
    }

    /// The sample mode.
    pub fn mode(&self) -> (m: Mode)
        ensures
            m == self@.mode,
    {
        self.mode
    }

    /// Sets the sample mode.
    pub fn set_sample_mode(&mut self, mode: Mode)
        ensures
            final(self)@ == (SpriteView { mode, ..old(self)@ }),
    {
        proof {
            use_type_invariant(&*self);
        }
        self.mode = mode;
    }

    /// Offset of the first byte of the cell that `(x, y)` reaches.
    fn offset(&self, x: usize, y: usize) -> (r: Option<usize>)
        ensures
            match self@.locate(x as int, y as int) {
                Some((cx, cy)) => r == Some(((cy * self@.width + cx) * 4) as usize) && (cy * self@.width
                    + cx) * 4 + 3 < self.data@.len() && 0 <= cy * self@.width + cx < self@.pixels.len(),
                None => r is None,
            },
    {
        proof {
            use_type_invariant(self);
        }
        let (cx, cy) = if self.mode == Mode::PERIODIC && self.width > 0 && self.height > 0 {
            (x % self.width, y % self.height)
        } else {
            (x, y)
        };
        if cx < self.width && cy < self.height {
            proof {
                lemma_cell_index(cx as int, cy as int, self.width as int, self.height as int);
            }
            Some((cy * self.width + cx) * 4)
        } else {
            None
        }
    }

    /// Returns the pixel at `(x, y)`.
    pub fn get_pixel(&self, x: usize, y: usize) -> (r: Result<Pixel>)
        ensures
            match r {
                Ok(p) => self@.get(x as int, y as int) == Some(p),
                Err(e) => self@.get(x as int, y as int) is None && e.spec_kind() == (ErrorKind::OutOfBounds { x, y }),
            },
    {
        proof {
            use_type_invariant(self);
        }
        match self.offset(x, y) {
            Some(i) => Ok(Pixel::rgba(self.data[i], self.data[i + 1], self.data[i + 2], self.data[i + 3])),
            None => Err(PGError::out_of_bounds(x, y)),
        }
    }

    /// Nearest-pixel sampling: the pixel at `(sx, sy)`, each coordinate
    /// clamped to the last column or row. Fails only on an empty sprite.
    pub fn sample_at(&self, sx: usize, sy: usize) -> (r: Result<Pixel>)
        ensures
            match r {
                Ok(p) => self@.width > 0 && self@.height > 0 && Some(p) == self@.get(
                    if sx < self@.width { sx as int } else { self@.width - 1 },
                    if sy < self@.height { sy as int } else { self@.height - 1 },
                ),
                Err(e) => self@.width == 0 || self@.height == 0,
            },
    {
        if self.width == 0 || self.height == 0 {
            return Err(PGError::out_of_bounds(sx, sy));
        }
        let cx = if sx < self.width {
            sx
        } else {
            self.width - 1
        };
        let cy = if sy < self.height {
            sy
        } else {
            self.height - 1
        };
        self.get_pixel(cx, cy)
    }

    /// Writes `p` at `(x, y)`.
    pub fn set_pixel(&mut self, x: usize, y: usize, p: Pixel) -> (r: Result<()>)
        ensures
            match r {
                Ok(_) => old(self)@.set(x as int, y as int, p) == Some(final(self)@),
                Err(e) => old(self)@.set(x as int, y as int, p) is None && final(self)@ == old(self)@
                    && e.spec_kind() == (ErrorKind::OutOfBounds { x, y }),
            },
    {
        proof {
            use_type_invariant(&*self);
        }
        match self.offset(x, y) {
            Some(i) => {
                let ghost before = self.data@;
                let ghost k: int = i as int / 4;
                self.data[i] = p.r();
                self.data[i + 1] = p.g();
                self.data[i + 2] = p.b();
                self.data[i + 3] = p.a();
                proof {
                    let v0 = old(self)@;
                    let v1 = self@;
                    assert(v1.pixels =~= v0.pixels.update(k, p)) by {
                        assert forall|j: int| 0 <= j < v1.pixels.len() implies v1.pixels[j] == v0.pixels.update(k, p)[j] by {
                            if j != k {
                                assert(pixel_of(self.data@, j) == pixel_of(before, j));
                            }
                        }
                    }
                }
                Ok(())
            },
            None => Err(PGError::out_of_bounds(x, y)),
        }
    }
}

} // verus!
