//! Rasters and the masked-image compositor: a color raster drawn through a
//! one-bit mask at an offset, clipped by the target view.

use vstd::prelude::*;
use crate::color::Color;
use crate::error::Error;
use crate::frame::{FrameBuf, lemma_index_in_grid, lemma_other_row};
use crate::geometry::{Point, Size};

verus! {

/// Whether bit `k` (`0` is the most significant) of `byte` is set.
pub open spec fn bit_on(byte: u8, k: int) -> bool {
    (byte >> ((7 - k) as u8)) & 1u8 == 1u8
}

/// Pixel `i` of big-endian 16-bit color data.
pub open spec fn be_color(data: Seq<u8>, i: int) -> Color {
    Color { raw: (data[2 * i] as int * 256 + data[2 * i + 1] as int) as u16 }
}

/// Pixel `(x, y)` of one-bit mask data whose rows of `width` pixels are
/// padded to whole bytes, most significant bit first.
pub open spec fn mask_bit(data: Seq<u8>, width: int, x: int, y: int) -> bool {
    bit_on(data[y * ((width + 7) / 8) + x / 8], x % 8)
}

/// A row-major raster of colors.
pub struct ColorImage {
    size: Size,
    pixels: Vec<Color>,
}

/// A row-major raster of on/off mask pixels.
pub struct MaskImage {
    size: Size,
    bits: Vec<bool>,
}

impl ColorImage {
    #[verifier::type_invariant]
    spec fn inv(self) -> bool {
        self.pixels@.len() == self.size.width * self.size.height
    }
}

impl MaskImage {
    #[verifier::type_invariant]
    spec fn inv(self) -> bool {
        self.bits@.len() == self.size.width * self.size.height
    }
}

impl View for ColorImage {
    type V = Seq<Color>;

    closed spec fn view(&self) -> Seq<Color> {
        self.pixels@
    }
}

impl View for MaskImage {
    type V = Seq<bool>;

    closed spec fn view(&self) -> Seq<bool> {
        self.bits@
    }
}

/// Rows of `len` bytes hold at most `len / row_bytes` whole rows.
proof fn lemma_whole_rows(len: int, row_bytes: int)
    requires
        len >= 0,
        row_bytes > 0,
    ensures
        (len / row_bytes) * row_bytes <= len,
        len / row_bytes <= len,
{
    vstd::arithmetic::div_mod::lemma_fundamental_div_mod(len, row_bytes);
    vstd::arithmetic::div_mod::lemma_mod_pos_bound(len, row_bytes);
    vstd::arithmetic::mul::lemma_mul_is_commutative(len / row_bytes, row_bytes);
    vstd::arithmetic::div_mod::lemma_div_is_ordered_by_denominator(len, 1, row_bytes);
}

impl ColorImage {
    pub closed spec fn spec_size(&self) -> Size {
        self.size
    }

    /// A raster of `size` from its pixels in row-major order; fails unless
    /// there are exactly `width * height` of them.
    pub fn new(size: Size, pixels: Vec<Color>) -> (r: Result<ColorImage, Error>)
        ensures
            r is Ok <==> pixels@.len() == size.width * size.height,
            r matches Ok(img) ==> img.spec_size() == size && img@ == pixels@,
            r matches Err(e) ==> e == Error::DimensionMismatch,
    {
        let w = size.width as u64;
        let h = size.height as u64;
        assert(w * h <= u32::MAX * u32::MAX) by (nonlinear_arith)
            requires w <= u32::MAX, h <= u32::MAX;
        if pixels.len() as u64 == w * h {
            Ok(ColorImage { size, pixels })
        } else {
            Err(Error::DimensionMismatch)
        }
    }

    /// Reads 16-bit colors stored big-endian, two bytes per pixel, rows of
    /// `width` pixels; a trailing partial row is ignored, and a zero width
    /// gives an empty raster.
    pub fn from_raw(data: &[u8], width: u32) -> (r: ColorImage)
        requires
            data@.len() <= u32::MAX,
        ensures
            r.spec_size().width == width,
            width == 0 ==> r.spec_size().height == 0,
            width > 0 ==> r.spec_size().height == data@.len() as int / (2 * width as int),
            r@.len() == r.spec_size().width * r.spec_size().height,
            forall|i: int|
                0 <= i < r@.len() ==> #[trigger] r@[i] == be_color(data@, i),
    {
        if width == 0 {
            return ColorImage { size: Size { width: 0, height: 0 }, pixels: Vec::new() };
        }
        let row_bytes = width as u64 * 2;
        let height = (data.len() as u64 / row_bytes) as u32;
        proof {
            lemma_whole_rows(data@.len() as int, row_bytes as int);
            assert(height * row_bytes == 2 * (width * height)) by (nonlinear_arith)
                requires row_bytes == width * 2;
        }
        let n: usize = (width as usize) * (height as usize);
        let mut pixels: Vec<Color> = Vec::new();
        let mut i: usize = 0;
        while i < n
            invariant
                i <= n,
                2 * n <= data@.len(),
                data@.len() <= u32::MAX,
                pixels@.len() == i,
                forall|j: int| 0 <= j < i ==> #[trigger] pixels@[j] == be_color(data@, j),
            decreases n - i,
        {
            let hi = data[2 * i] as u16;
            let lo = data[2 * i + 1] as u16;
            pixels.push(Color { raw: hi * 256 + lo });
            i = i + 1;
        }
        ColorImage { size: Size { width, height }, pixels }
    }

    pub fn size(&self) -> (s: Size)
        ensures
            s == self.spec_size(),
            self@.len() == s.width * s.height,
    {
        proof {
            use_type_invariant(self);
        }
        self.size
    }

    /// The color at column `x` of row `y`.
    pub fn pixel(&self, x: u32, y: u32) -> (c: Color)
        requires
            x < self.spec_size().width,
            y < self.spec_size().height,
        ensures
            c == self@[y * self.spec_size().width + x],
    {
        proof {
            use_type_invariant(self);
            lemma_index_in_grid(x as int, y as int, self.size.width as int, self.size.height as int);
        }
        let len = self.pixels.len();
        assert((y as usize) * (self.size.width as usize) + (x as usize) < len);
        self.pixels[(y as usize) * (self.size.width as usize) + (x as usize)]
    }
}

impl MaskImage {
    pub closed spec fn spec_size(&self) -> Size {
        self.size
    }

    /// A mask of `size` from its pixels in row-major order; fails unless
    /// there are exactly `width * height` of them.
    pub fn new(size: Size, bits: Vec<bool>) -> (r: Result<MaskImage, Error>)
        ensures
            r is Ok <==> bits@.len() == size.width * size.height,
            r matches Ok(img) ==> img.spec_size() == size && img@ == bits@,
            r matches Err(e) ==> e == Error::DimensionMismatch,
    {
        let w = size.width as u64;
        let h = size.height as u64;
        assert(w * h <= u32::MAX * u32::MAX) by (nonlinear_arith)
            requires w <= u32::MAX, h <= u32::MAX;
        if bits.len() as u64 == w * h {
            Ok(MaskImage { size, bits })
        } else {
            Err(Error::DimensionMismatch)
        }
    }

    /// Reads one bit per pixel, most significant bit first, each row of
    /// `width` pixels padded to whole bytes; a trailing partial row is
    /// ignored, and a zero width gives an empty mask.
    pub fn from_raw(data: &[u8], width: u32) -> (r: MaskImage)
        requires
            data@.len() <= u32::MAX,
        ensures
            r.spec_size().width == width,
            width == 0 ==> r.spec_size().height == 0,
            width > 0 ==> r.spec_size().height == data@.len() as int / ((width as int + 7) / 8),
            r@.len() == r.spec_size().width * r.spec_size().height,
            forall|x: int, y: int|
                0 <= x < width && 0 <= y < r.spec_size().height ==> #[trigger] r@[y * width + x]
                    == mask_bit(data@, width as int, x, y),
    {
        if width == 0 {
            let bits: Vec<bool> = Vec::new();
            assert(bits@.len() == 0 * 0);
            return MaskImage { size: Size { width: 0, height: 0 }, bits };
        }
        let row_bytes = (width as u64 + 7) / 8;
        let height = (data.len() as u64 / row_bytes) as u32;
        proof {
            lemma_whole_rows(data@.len() as int, row_bytes as int);
        }
        let w = width as usize;
        let h = height as usize;
        let rb = row_bytes as usize;
        let mut bits: Vec<bool> = Vec::new();
        let mut y: usize = 0;
        while y < h
            invariant
                y <= h,
                w == width,
                data@.len() <= u32::MAX,
                h * rb <= data@.len(),
                rb == (width as int + 7) / 8,
                bits@.len() == y * w,
                forall|x2: int, y2: int|
                    0 <= x2 < w && 0 <= y2 < y ==> #[trigger] bits@[y2 * w + x2] == bit_on(
                        data@[y2 * rb + x2 / 8],
                        x2 % 8,
                    ),
            decreases h - y,
        {
            proof {
                assert((y + 1) * rb <= h * rb) by (nonlinear_arith)
                    requires y < h;
                assert((y + 1) * rb == y * rb + rb) by (nonlinear_arith);
                assert(y * w + w == (y + 1) * w) by (nonlinear_arith);
            }
            let mut x: usize = 0;
            while x < w
                invariant
                    x <= w,
                    w == width,
                    y < h,
                    y * rb + rb <= data@.len(),
                    data@.len() <= u32::MAX,
                    rb == (width as int + 7) / 8,
                    bits@.len() == y * w + x,
                    forall|x2: int, y2: int|
                        0 <= x2 < w && 0 <= y2 < y ==> #[trigger] bits@[y2 * w + x2] == bit_on(
                            data@[y2 * rb + x2 / 8],
                            x2 % 8,
                        ),
                    forall|x2: int|
                        0 <= x2 < x ==> #[trigger] bits@[y * w + x2] == bit_on(
                            data@[y * rb + x2 / 8],
                            x2 % 8,
                        ),
                decreases w - x,
            {
                assert(x / 8 < rb);
                let byte = data[y * rb + x / 8];
                let shift = (7 - x % 8) as u8;
                let ghost prev = bits@;
                bits.push((byte >> shift) & 1u8 == 1u8);
                proof {
                    assert forall|x2: int, y2: int|
                        0 <= x2 < w && 0 <= y2 < y implies #[trigger] bits@[y2 * w + x2]
                        == bit_on(data@[y2 * rb + x2 / 8], x2 % 8) by {
                        assert(y2 * w + x2 < y * w) by (nonlinear_arith)
                            requires y2 < y, 0 <= x2 < w;
                        assert(bits@[y2 * w + x2] == prev[y2 * w + x2]);
                    }
                    assert forall|x2: int| 0 <= x2 < x + 1 implies #[trigger] bits@[y * w + x2]
                        == bit_on(data@[y * rb + x2 / 8], x2 % 8) by {
                        if x2 < x {
                            assert(bits@[y * w + x2] == prev[y * w + x2]);
                        }
                    }
                }
                x = x + 1;
            }
            proof {
                assert forall|x2: int, y2: int|
                    0 <= x2 < w && 0 <= y2 < y + 1 implies #[trigger] bits@[y2 * w + x2]
                    == bit_on(data@[y2 * rb + x2 / 8], x2 % 8) by {
                    if y2 == y {
                        assert(bits@[y * w + x2] == bit_on(data@[y * rb + x2 / 8], x2 % 8));
                    }
                }
            }
            y = y + 1;
        }
        assert(h * w == width * height) by (nonlinear_arith)
            requires h == height, w == width;
        MaskImage { size: Size { width, height }, bits }
    }

    pub fn size(&self) -> (s: Size)
        ensures
            s == self.spec_size(),
            self@.len() == s.width * s.height,
    {
        proof {
            use_type_invariant(self);
        }
        self.size
    }

    /// Whether the mask is on at column `x` of row `y`.
    pub fn is_on(&self, x: u32, y: u32) -> (b: bool)
        requires
            x < self.spec_size().width,
            y < self.spec_size().height,
        ensures
            b == self@[y * self.spec_size().width + x],
    {
        proof {
            use_type_invariant(self);
            lemma_index_in_grid(x as int, y as int, self.size.width as int, self.size.height as int);
        }
        let len = self.bits.len();
        assert((y as usize) * (self.size.width as usize) + (x as usize) < len);
        self.bits[(y as usize) * (self.size.width as usize) + (x as usize)]
    }
}

/// A color raster drawn through a mask of the same size, placed with its
/// top-left corner at `pos`.
pub struct MaskedImage {
    color: ColorImage,
    mask: MaskImage,
    pos: Point,
}

/// Whether pixels `a` and `b` of a `w`-wide grid are the same slot only when
/// they are the same pixel.
pub proof fn lemma_grid_distinct(x1: int, y1: int, x2: int, y2: int, w: int)
    requires
        0 <= x1 < w,
        0 <= x2 < w,
        x1 != x2 || y1 != y2,
    ensures
        y1 * w + x1 != y2 * w + x2,
{
    if y1 != y2 {
        lemma_other_row(y1, y2, x1, w);
    }
}

/// The color at `(tx, ty)` of a target that held `c` there, after the
/// source pixels with row-major index below `k` of a `cw` by `ch` image
/// placed at `pos` were drawn where the mask is on.
pub open spec fn overlay_upto(
    c: Color,
    color: Seq<Color>,
    mask: Seq<bool>,
    cw: int,
    ch: int,
    pos: Point,
    tx: int,
    ty: int,
    k: int,
) -> Color {
    let sx = tx - pos.x;
    let sy = ty - pos.y;
    if 0 <= sx < cw && 0 <= sy < ch && sy * cw + sx < k && mask[sy * cw + sx] {
        color[sy * cw + sx]
    } else {
        c
    }
}

impl MaskedImage {
    #[verifier::type_invariant]
    spec fn inv(self) -> bool {
        self.color.spec_size() == self.mask.spec_size()
    }

    pub closed spec fn spec_color(&self) -> ColorImage {
        self.color
    }

    pub closed spec fn spec_mask(&self) -> MaskImage {
        self.mask
    }

    pub closed spec fn spec_pos(&self) -> Point {
        self.pos
    }

    /// The color at target pixel `(tx, ty)` after drawing this image over a
    /// target that held `c` there.
    pub open spec fn drawn_at(&self, c: Color, tx: int, ty: int) -> Color {
        let size = self.spec_color().spec_size();
        overlay_upto(
            c,
            self.spec_color()@,
            self.spec_mask()@,
            size.width as int,
            size.height as int,
            self.spec_pos(),
            tx,
            ty,
            size.width * size.height,
        )
    }

    /// Pairs `color_image` with `mask_image` at `pos`; fails with
    /// `DimensionMismatch` unless both have the same size.
    pub fn new(color_image: ColorImage, mask_image: MaskImage, pos: Point) -> (r: Result<
        MaskedImage,
        Error,
    >)
        ensures
            r is Ok <==> color_image.spec_size() == mask_image.spec_size(),
            r matches Ok(img) ==> img.spec_color() == color_image && img.spec_mask() == mask_image
                && img.spec_pos() == pos,
            r matches Err(e) ==> e == Error::DimensionMismatch,
    {
        let cs = color_image.size();
        let ms = mask_image.size();
        if cs.width == ms.width && cs.height == ms.height {
            Ok(MaskedImage { color: color_image, mask: mask_image, pos })
        } else {
            Err(Error::DimensionMismatch)
        }
    }

    /// Places the image with its top-left corner at `pos`.
    pub fn set_pos(&mut self, pos: Point)
        ensures
            final(self).spec_color() == old(self).spec_color(),
            final(self).spec_mask() == old(self).spec_mask(),
            final(self).spec_pos() == pos,
    {
        proof {
            use_type_invariant(&*self);
        }
        self.pos = pos;
    }

    /// The size of the image (and of its mask).
    pub fn size(&self) -> (s: Size)
        ensures
            s == self.spec_color().spec_size(),
            s == self.spec_mask().spec_size(),
    {
        proof {
            use_type_invariant(self);
        }
        self.color.size()
    }

    /// Draws every pixel whose mask is on, in row-major order, at its
    /// position plus `pos`; pixels that land outside the target are dropped
    /// and pixels whose mask is off leave the target as it was.
    pub fn draw(&self, target: &mut FrameBuf<Color>)
        ensures
            final(target).spec_width() == old(target).spec_width(),
            final(target).spec_height() == old(target).spec_height(),
            final(target)@.len() == old(target)@.len(),
            forall|tx: int, ty: int|
                0 <= tx < old(target).spec_width() && 0 <= ty < old(target).spec_height()
                    ==> #[trigger] final(target)@[ty * old(target).spec_width() + tx]
                    == self.drawn_at(old(target)@[ty * old(target).spec_width() + tx], tx, ty),
    {
        proof {
            use_type_invariant(self);
        }
        let size = self.color.size();
        let tw = target.width();
        let th = target.height();
        let n = target.data().nr_elements();
        let ghost t0 = target@;
        let ghost cs = self.color@;
        let ghost ms = self.mask@;
        let ghost cw = size.width as int;
        let ghost ch = size.height as int;
        let mut sy: u32 = 0;
        while sy < size.height
            invariant
                sy <= size.height,
                size == self.color.spec_size() && size == self.mask.spec_size(),
                cs == self.color@ && ms == self.mask@,
                cw == size.width && ch == size.height,
                tw == target.spec_width() && th == target.spec_height(),
                tw == old(target).spec_width() && th == old(target).spec_height(),
                t0 == old(target)@,
                target@.len() == t0.len() == tw * th,
                n == tw * th,
                forall|tx: int, ty: int|
                    0 <= tx < tw && 0 <= ty < th ==> #[trigger] target@[ty * tw + tx]
                        == overlay_upto(t0[ty * tw + tx], cs, ms, cw, ch, self.pos, tx, ty, sy * cw),
            decreases size.height - sy,
        {
            let mut sx: u32 = 0;
            while sx < size.width
                invariant
                    sx <= size.width,
                    sy < size.height,
                    size == self.color.spec_size() && size == self.mask.spec_size(),
                    cs == self.color@ && ms == self.mask@,
                    cw == size.width && ch == size.height,
                    tw == target.spec_width() && th == target.spec_height(),
                    tw == old(target).spec_width() && th == old(target).spec_height(),
                    t0 == old(target)@,
                    target@.len() == t0.len() == tw * th,
                    n == tw * th,
                    forall|tx: int, ty: int|
                        0 <= tx < tw && 0 <= ty < th ==> #[trigger] target@[ty * tw + tx]
                            == overlay_upto(
                            t0[ty * tw + tx],
                            cs,
                            ms,
                            cw,
                            ch,
                            self.pos,
                            tx,
                            ty,
                            sy * cw + sx,
                        ),
                decreases size.width - sx,
            {
                let ghost prev = target@;
                let ghost k = sy * cw + sx;
                let on = self.mask.is_on(sx, sy);
                let tx = self.pos.x as i64 + sx as i64;
                let ty = self.pos.y as i64 + sy as i64;
                let inside = on && 0 <= tx && (tx as u64) < (tw as u64) && 0 <= ty && (ty as u64) < (
                th as u64);
                if inside {
                    let c = self.color.pixel(sx, sy);
                    proof {
                        lemma_index_in_grid(tx as int, ty as int, tw as int, th as int);
                    }
                    target.set((ty as usize) * tw + (tx as usize), c);
                }
                proof {
                    assert forall|x: int, y: int|
                        0 <= x < tw && 0 <= y < th implies #[trigger] target@[y * tw + x]
                        == overlay_upto(t0[y * tw + x], cs, ms, cw, ch, self.pos, x, y, k + 1) by {
                        lemma_index_in_grid(x, y, tw as int, th as int);
                        assert(prev[y * tw + x] == overlay_upto(
                            t0[y * tw + x],
                            cs,
                            ms,
                            cw,
                            ch,
                            self.pos,
                            x,
                            y,
                            k,
                        ));
                        let x2 = x - self.pos.x;
                        let y2 = y - self.pos.y;
                        if x2 == sx && y2 == sy {
                            assert(x == tx && y == ty);
                            assert(ms[k] == on);
                            if inside {
                                assert(target@[y * tw + x] == cs[k]);
                            } else {
                                assert(!on);
                                assert(target@[y * tw + x] == prev[y * tw + x]);
                            }
                        } else {
                            if 0 <= x2 < cw && 0 <= y2 < ch {
                                lemma_grid_distinct(x2, y2, sx as int, sy as int, cw);
                            }
                            if inside {
                                lemma_grid_distinct(x, y, tx as int, ty as int, tw as int);
                            }
                        }
                    }
                }
                sx = sx + 1;
            }
            sy = sy + 1;
            assert((sy - 1) * cw + cw == sy * cw) by (nonlinear_arith);
        }
        proof {
            assert forall|tx: int, ty: int|
                0 <= tx < tw && 0 <= ty < th implies #[trigger] target@[ty * tw + tx]
                == self.drawn_at(t0[ty * tw + tx], tx, ty) by {
                let x2 = tx - self.pos.x;
                let y2 = ty - self.pos.y;
                if 0 <= x2 < cw && 0 <= y2 < ch {
                    lemma_index_in_grid(x2, y2, cw, ch);
                }
                assert(ch * cw == cw * ch) by (nonlinear_arith);
            }
        }
    }
}

} // verus!
