//! A grid of pixels in row-major order, its raw form of four bytes a pixel,
//! and its quarter turns.

use vstd::prelude::*;
use vstd::arithmetic::div_mod::{lemma_fundamental_div_mod, lemma_fundamental_div_mod_converse};
use crate::pixel::Pixel;

verus! {

/// A grid of `width` by `height` pixels, row after row.
#[derive(Clone, Debug, PartialEq, Eq)]
pub struct PixelBuffer {
    pub width: u32,
    pub height: u32,
    pub pixels: Vec<Pixel>,
}

/// The pixels that a sequence of bytes holds, four bytes each: red, green,
/// blue, alpha. Bytes beyond the last whole pixel are left out.
pub open spec fn pixels_of(raw: Seq<u8>) -> Seq<Pixel> {
    Seq::new(
        raw.len() / 4,
        |i: int| Pixel { r: raw[4 * i], g: raw[4 * i + 1], b: raw[4 * i + 2], a: raw[4 * i + 3] },
    )
}

/// One channel of a pixel: 0 for red, 1 for green, 2 for blue, else alpha.
pub open spec fn channel(p: Pixel, k: int) -> u8 {
    if k == 0 {
        p.r
    } else if k == 1 {
        p.g
    } else if k == 2 {
        p.b
    } else {
        p.a
    }
}

/// The bytes of a sequence of pixels, four for each.
pub open spec fn raw_of(px: Seq<Pixel>) -> Seq<u8> {
    Seq::new(4 * px.len(), |i: int| channel(px[i / 4], i % 4))
}

/// A grid turned a quarter clockwise. The grid is `w` wide and `h` high; the
/// result is `h` wide and `w` high, and the pixel in column `x` of row `y`
/// goes to column `h - 1 - y` of row `x`.
pub open spec fn rotated90(w: int, h: int, px: Seq<Pixel>) -> Seq<Pixel> {
    Seq::new((w * h) as nat, |i: int| px[(h - 1 - i % h) * w + i / h])
}

/// A grid turned three quarters clockwise. The grid is `w` wide and `h`
/// high; the result is `h` wide and `w` high, and the pixel in column `x` of
/// row `y` goes to column `y` of row `w - 1 - x`.
pub open spec fn rotated270(w: int, h: int, px: Seq<Pixel>) -> Seq<Pixel> {
    Seq::new((w * h) as nat, |i: int| px[(i % h) * w + (w - 1 - i / h)])
}

/// Reading the bytes of pixels back gives the pixels.
pub proof fn pixels_of_raw_of(px: Seq<Pixel>)
    ensures
        pixels_of(raw_of(px)) == px,
{
    assert(pixels_of(raw_of(px)) =~= px);
}

/// Writing out the pixels read from whole groups of four bytes gives the
/// bytes.
pub proof fn raw_of_pixels_of(raw: Seq<u8>)
    requires
        raw.len() % 4 == 0,
    ensures
        raw_of(pixels_of(raw)) == raw,
{
    assert(raw_of(pixels_of(raw)) =~= raw);
}

/// The column and the row of a cell, from its place in row-major order.
proof fn cell_of_index(w: int, h: int, i: int)
    requires
        0 <= i < w * h,
        0 <= w,
        0 <= h,
    ensures
        0 < w,
        0 <= i % w < w,
        0 <= i / w < h,
        i == (i / w) * w + i % w,
{
    assert(0 < w) by (nonlinear_arith)
        requires
            0 <= i < w * h,
            0 <= w,
    ;
    lemma_fundamental_div_mod(i, w);
    assert(w * (i / w) == (i / w) * w) by (nonlinear_arith);
    assert(0 <= i / w < h) by (nonlinear_arith)
        requires
            0 <= i < w * h,
            0 < w,
            i == (i / w) * w + i % w,
            0 <= i % w < w,
    ;
}

/// The place in row-major order of a cell, and back.
proof fn index_of_cell(w: int, h: int, x: int, y: int)
    requires
        0 <= x < w,
        0 <= y < h,
    ensures
        0 <= y * w + x < w * h,
        (y * w + x) / w == y,
        (y * w + x) % w == x,
{
    assert(0 <= y * w + x < w * h) by (nonlinear_arith)
        requires
            0 <= x < w,
            0 <= y < h,
    ;
    lemma_fundamental_div_mod_converse(y * w + x, w, y, x);
}

/// A quarter turn clockwise followed by three quarter turns gives the grid
/// back, for every width and height.
pub proof fn rotate90_then_270(w: int, h: int, px: Seq<Pixel>)
    requires
        0 <= w,
        0 <= h,
        px.len() == w * h,
    ensures
        rotated90(w, h, px).len() == px.len(),
        rotated270(h, w, rotated90(w, h, px)) == px,
{
    let mid = rotated90(w, h, px);
    let back = rotated270(h, w, mid);
    assert(h * w == w * h) by (nonlinear_arith);
    assert forall|i: int| 0 <= i < px.len() implies back[i] == px[i] by {
        cell_of_index(w, h, i);
        let x = i % w;
        let y = i / w;
        index_of_cell(h, w, h - 1 - y, x);
        let m = x * h + (h - 1 - y);
        assert(back[i] == mid[m]);
        assert(mid[m] == px[(h - 1 - m % h) * w + m / h]);
    }
    assert(back =~= px);
}

/// Three quarter turns clockwise followed by one gives the grid back, for
/// every width and height.
pub proof fn rotate270_then_90(w: int, h: int, px: Seq<Pixel>)
    requires
        0 <= w,
        0 <= h,
        px.len() == w * h,
    ensures
        rotated270(w, h, px).len() == px.len(),
        rotated90(h, w, rotated270(w, h, px)) == px,
{
    let mid = rotated270(w, h, px);
    let back = rotated90(h, w, mid);
    assert(h * w == w * h) by (nonlinear_arith);
    assert forall|i: int| 0 <= i < px.len() implies back[i] == px[i] by {
        cell_of_index(w, h, i);
        let x = i % w;
        let y = i / w;
        index_of_cell(h, w, y, w - 1 - x);
        let m = (w - 1 - x) * h + y;
        assert(back[i] == mid[m]);
        assert(mid[m] == px[(m % h) * w + (w - 1 - m / h)]);
    }
    assert(back =~= px);
}

/// A grid with no column or no row has no pixels, and neither has it when
/// turned.
pub proof fn empty_grid_turned(w: int, h: int, px: Seq<Pixel>)
    requires
        w == 0 || h == 0,
        px.len() == w * h,
    ensures
        w * h == 0,
        h * w == 0,
        px == Seq::<Pixel>::empty(),
        rotated90(w, h, px) == Seq::<Pixel>::empty(),
        rotated270(w, h, px) == Seq::<Pixel>::empty(),
{
    assert(w * h == 0 && h * w == 0) by (nonlinear_arith)
        requires
            w == 0 || h == 0,
    ;
    assert(px =~= Seq::<Pixel>::empty());
    assert(rotated90(w, h, px) =~= Seq::<Pixel>::empty());
    assert(rotated270(w, h, px) =~= Seq::<Pixel>::empty());
}

/// Turns raw pixels a quarter clockwise with `image::imageops::rotate90`,
/// the bytes held in an `image::ImageBuffer` made by `from_raw` and taken out
/// by `into_raw`. Claimed of it: the result holds the bytes of the turned
/// grid, `height` wide and `width` high.
/// A grid without pixels is left out: the crate multiplies four by one side
/// before the other, which can overflow where the other side is zero.
#[verifier::external_body]
fn rotate90_raw(width: u32, height: u32, data: Vec<u8>) -> (out: Vec<u8>)
    requires
        width > 0,
        height > 0,
        data@.len() == 4 * (width * height),
    ensures
        out@ == raw_of(rotated90(width as int, height as int, pixels_of(data@))),
{
    let img: image::RgbaImage = image::ImageBuffer::from_raw(width, height, data).unwrap();
    image::imageops::rotate90(&img).into_raw()
}

/// Turns raw pixels three quarters clockwise with
/// `image::imageops::rotate270`, the bytes held in an `image::ImageBuffer`
/// made by `from_raw` and taken out by `into_raw`. Claimed of it: the result
/// holds the bytes of the turned grid, `height` wide and `width` high.
/// A grid without pixels is left out: the crate multiplies four by one side
/// before the other, which can overflow where the other side is zero.
#[verifier::external_body]
fn rotate270_raw(width: u32, height: u32, data: Vec<u8>) -> (out: Vec<u8>)
    requires
        width > 0,
        height > 0,
        data@.len() == 4 * (width * height),
    ensures
        out@ == raw_of(rotated270(width as int, height as int, pixels_of(data@))),
{
    let img: image::RgbaImage = image::ImageBuffer::from_raw(width, height, data).unwrap();
    image::imageops::rotate270(&img).into_raw()
}

impl PixelBuffer {
    /// Whether the grid holds as many pixels as its width and height say,
    /// and its raw form fits in memory.
    pub open spec fn wf(&self) -> bool {
        &&& self.pixels@.len() == self.width * self.height
        &&& 4 * self.pixels@.len() <= usize::MAX
    }

    /// Makes a grid from its pixels: there is one exactly where there are as
    /// many pixels as the width and height say and their raw form fits in
    /// memory.
    pub fn new(width: u32, height: u32, pixels: Vec<Pixel>) -> (out: Option<PixelBuffer>)
        ensures
            out.is_some() <==> pixels@.len() == width * height && 4 * pixels@.len() <= usize::MAX,
            out matches Some(buf) ==> buf.wf() && buf.width == width && buf.height == height
                && buf.pixels@ == pixels@,
    {
        assert(width * height <= 0xFFFF_FFFF * 0xFFFF_FFFF) by (nonlinear_arith)
            requires
                0 <= width <= 0xFFFF_FFFF,
                0 <= height <= 0xFFFF_FFFF,
        ;
        let cells: u64 = (width as u64) * (height as u64);
        let len: usize = pixels.len();
        if len as u64 != cells || len > usize::MAX / 4 {
            return None;
        }
        Some(PixelBuffer { width, height, pixels })
    }

    /// Makes a grid from raw bytes: there is one exactly where the bytes are
    /// four for each pixel of the grid.
    pub fn from_raw(width: u32, height: u32, data: Vec<u8>) -> (out: Option<PixelBuffer>)
        ensures
            out.is_some() <==> data@.len() == 4 * (width * height),
            out matches Some(buf) ==> buf.wf() && buf.width == width && buf.height == height
                && buf.pixels@ == pixels_of(data@),
    {
        assert(width * height <= 0xFFFF_FFFF * 0xFFFF_FFFF) by (nonlinear_arith)
            requires
                0 <= width <= 0xFFFF_FFFF,
                0 <= height <= 0xFFFF_FFFF,
        ;
        let cells: u64 = (width as u64) * (height as u64);
        let len: usize = data.len();
        if len % 4 != 0 || (len / 4) as u64 != cells {
            return None;
        }
        let n: usize = len / 4;
        let mut pixels: Vec<Pixel> = Vec::with_capacity(n);
        let mut i: usize = 0;
        while i < n
            invariant
                i <= n,
                len == data@.len(),
                len == 4 * n,
                pixels@.len() == i,
                forall|j: int| 0 <= j < i ==> pixels@[j] == pixels_of(data@)[j],
            decreases n - i,
        {
            let p = Pixel {
                r: data[4 * i],
                g: data[4 * i + 1],
                b: data[4 * i + 2],
                a: data[4 * i + 3],
            };
            pixels.push(p);
            i = i + 1;
        }
        assert(pixels@ =~= pixels_of(data@));
        Some(PixelBuffer { width, height, pixels })
    }

    /// The raw bytes of the grid, four for each pixel.
    pub fn into_raw(&self) -> (out: Vec<u8>)
        requires
            self.wf(),
        ensures
            out@ == raw_of(self.pixels@),
    {
        let n: usize = self.pixels.len();
        let mut out: Vec<u8> = Vec::with_capacity(4 * n);
        let mut i: usize = 0;
        while i < n
            invariant
                i <= n,
                n == self.pixels@.len(),
                4 * n <= usize::MAX,
                out@.len() == 4 * i,
                forall|j: int| 0 <= j < 4 * i ==> out@[j] == raw_of(self.pixels@)[j],
            decreases n - i,
        {
            let p: Pixel = self.pixels[i];
            out.push(p.r);
            out.push(p.g);
            out.push(p.b);
            out.push(p.a);
            i = i + 1;
        }
        assert(out@ =~= raw_of(self.pixels@));
        out
    }

    /// The grid turned a quarter clockwise.
    pub fn rotate90(&self) -> (out: PixelBuffer)
        requires
            self.wf(),
        ensures
            out.wf(),
            out.width == self.height,
            out.height == self.width,
            out.pixels@ == rotated90(self.width as int, self.height as int, self.pixels@),
    {
        if self.width == 0 || self.height == 0 {
            proof {
                empty_grid_turned(self.width as int, self.height as int, self.pixels@);
            }
            return PixelBuffer { width: self.height, height: self.width, pixels: Vec::new() };
        }
        let raw: Vec<u8> = self.into_raw();
        let turned: Vec<u8> = rotate90_raw(self.width, self.height, raw);
        proof {
            pixels_of_raw_of(self.pixels@);
            pixels_of_raw_of(rotated90(self.width as int, self.height as int, self.pixels@));
            assert(self.height * self.width == self.width * self.height) by (nonlinear_arith);
        }
        PixelBuffer::from_raw(self.height, self.width, turned).unwrap()
    }

    /// The grid turned three quarters clockwise.
    pub fn rotate270(&self) -> (out: PixelBuffer)
        requires
            self.wf(),
        ensures
            out.wf(),
            out.width == self.height,
            out.height == self.width,
            out.pixels@ == rotated270(self.width as int, self.height as int, self.pixels@),
    {
        if self.width == 0 || self.height == 0 {
            proof {
                empty_grid_turned(self.width as int, self.height as int, self.pixels@);
            }
            return PixelBuffer { width: self.height, height: self.width, pixels: Vec::new() };
        }
        let raw: Vec<u8> = self.into_raw();
        let turned: Vec<u8> = rotate270_raw(self.width, self.height, raw);
        proof {
            pixels_of_raw_of(self.pixels@);
            pixels_of_raw_of(rotated270(self.width as int, self.height as int, self.pixels@));
            assert(self.height * self.width == self.width * self.height) by (nonlinear_arith);
        }
        PixelBuffer::from_raw(self.height, self.width, turned).unwrap()
    }
}

} // verus!
