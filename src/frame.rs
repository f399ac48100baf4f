//! A two-dimensional view over a pixel buffer, with clipping.

use vstd::prelude::*;
use crate::buffer::PixelBuffer;
use crate::error::Error;
use crate::geometry::Point;

verus! {

/// Whether `p` lies inside a `w` by `h` view.
pub open spec fn in_view(p: Point, w: int, h: int) -> bool {
    0 <= p.x < w && 0 <= p.y < h
}

/// The pixels `s` of a `w`-wide view after drawing `px` in order: a pixel
/// inside the view sets slot `y * w + x`, one outside is dropped.
pub open spec fn drawn<C>(s: Seq<C>, w: int, h: int, px: Seq<(Point, C)>) -> Seq<C>
    decreases px.len(),
{
    if px.len() == 0 {
        s
    } else {
        let prev = drawn(s, w, h, px.drop_last());
        let (p, c) = px.last();
        if in_view(p, w, h) {
            prev.update(p.y * w + p.x, c)
        } else {
            prev
        }
    }
}

/// The slot of column `x` in row `y` of a `w`-wide, `h`-high grid is in range.
pub proof fn lemma_index_in_grid(x: int, y: int, w: int, h: int)
    requires
        0 <= x < w,
        0 <= y < h,
    ensures
        0 <= y * w + x < w * h,
{
    assert(y * w + x < w * h) by (nonlinear_arith)
        requires 0 <= x < w, 0 <= y < h;
    assert(0 <= y * w) by (nonlinear_arith)
        requires 0 <= x < w, 0 <= y;
}

/// Slot `x` of row `l` lies outside row `line` unless `l == line`.
pub proof fn lemma_other_row(l: int, line: int, x: int, w: int)
    requires
        0 <= x < w,
        l != line,
    ensures
        l * w + x < line * w || l * w + x >= line * w + w,
{
    if l < line {
        assert(l * w + w <= line * w) by (nonlinear_arith)
            requires l < line, 0 < w;
    } else {
        assert(line * w + w <= l * w) by (nonlinear_arith)
            requires l > line, 0 < w;
    }
}

/// `drawn` keeps the length of the pixel sequence.
pub proof fn lemma_drawn_len<C>(s: Seq<C>, w: int, h: int, px: Seq<(Point, C)>)
    requires
        s.len() == w * h,
    ensures
        drawn(s, w, h, px).len() == s.len(),
    decreases px.len(),
{
    if px.len() > 0 {
        lemma_drawn_len(s, w, h, px.drop_last());
        let (p, c) = px.last();
        if in_view(p, w, h) {
            lemma_index_in_grid(p.x as int, p.y as int, w, h);
        }
    }
}

/// A `width` by `height` view that owns its pixel buffer.
pub struct FrameBuf<C> {
    data: PixelBuffer<C>,
    width: usize,
    height: usize,
}

impl<C> FrameBuf<C> {
    #[verifier::type_invariant]
    spec fn inv(self) -> bool {
        self.data@.len() == self.width * self.height
    }
}

impl<C> View for FrameBuf<C> {
    type V = Seq<C>;

    closed spec fn view(&self) -> Seq<C> {
        self.data@
    }
}

impl<C: Copy> FrameBuf<C> {
    pub closed spec fn spec_width(&self) -> nat {
        self.width as nat
    }

    pub closed spec fn spec_height(&self) -> nat {
        self.height as nat
    }

    /// The buffer that the view wraps.
    pub closed spec fn spec_data(&self) -> PixelBuffer<C> {
        self.data
    }

    /// Wraps `data` as a `width` by `height` view; fails unless the buffer
    /// holds exactly `width * height` pixels.
    pub fn new(data: PixelBuffer<C>, width: usize, height: usize) -> (r: Result<Self, Error>)
        ensures
            r is Ok <==> data@.len() == width * height,
            r matches Ok(fb) ==> fb.spec_data() == data && fb.spec_width() == width
                && fb.spec_height() == height && fb@ == data@,
            r matches Err(e) ==> e == Error::DimensionMismatch,
    {
        let n = data.nr_elements();
        match width.checked_mul(height) {
            Some(m) => {
                if m == n {
                    Ok(FrameBuf { data, width, height })
                } else {
                    Err(Error::DimensionMismatch)
                }
            },
            None => Err(Error::DimensionMismatch),
        }
    }

    pub fn width(&self) -> (w: usize)
        ensures
            w == self.spec_width(),
            self@.len() == self.spec_width() * self.spec_height(),
    {
        proof {
            use_type_invariant(self);
        }
        self.width
    }

    pub fn height(&self) -> (h: usize)
        ensures
            h == self.spec_height(),
            self@.len() == self.spec_width() * self.spec_height(),
    {
        proof {
            use_type_invariant(self);
        }
        self.height
    }

    /// The wrapped buffer.
    pub fn data(&self) -> (d: &PixelBuffer<C>)
        ensures
            *d == self.spec_data(),
            d@ == self@,
    {
        &self.data
    }

    /// Gives the wrapped buffer back.
    pub fn into_data(self) -> (d: PixelBuffer<C>)
        ensures
            d == self.spec_data(),
            d@ == self@,
    {
        self.data
    }

    /// The color at linear `index`.
    pub fn get(&self, index: usize) -> (c: C)
        requires
            index < self@.len(),
        ensures
            c == self@[index as int],
    {
        self.data.get(index)
    }

    /// Stores `color` at linear `index`.
    pub fn set(&mut self, index: usize, color: C)
        requires
            index < old(self)@.len(),
        ensures
            final(self)@ == old(self)@.update(index as int, color),
            final(self).spec_width() == old(self).spec_width(),
            final(self).spec_height() == old(self).spec_height(),
    {
        proof {
            use_type_invariant(&*self);
        }
        self.data.set(index, color);
    }

    /// Sets every pixel to `color`.
    pub fn clear(&mut self, color: C)
        ensures
            final(self)@ == Seq::new(old(self)@.len(), |i: int| color),
            final(self).spec_width() == old(self).spec_width(),
            final(self).spec_height() == old(self).spec_height(),
    {
        proof {
            use_type_invariant(&*self);
        }
        let n = self.data.nr_elements();
        let mut i: usize = 0;
        while i < n
            invariant
                i <= n,
                n == self@.len(),
                n == old(self)@.len(),
                self.spec_width() == old(self).spec_width(),
                self.spec_height() == old(self).spec_height(),
                forall|j: int| 0 <= j < i ==> self@[j] == color,
            decreases n - i,
        {
            self.set(i, color);
            i = i + 1;
        }
        assert(self@ == Seq::new(old(self)@.len(), |i: int| color));
    }

    /// Draws each `(point, color)` of `pixels` in order; points outside the
    /// view are dropped.
    pub fn draw_pixels(&mut self, pixels: &Vec<(Point, C)>)
        ensures
            final(self)@ == drawn(
                old(self)@,
                old(self).spec_width() as int,
                old(self).spec_height() as int,
                pixels@,
            ),
            final(self).spec_width() == old(self).spec_width(),
            final(self).spec_height() == old(self).spec_height(),
    {
        let w = self.width();
        let h = self.height();
        let n = self.data.nr_elements();
        let mut i: usize = 0;
        while i < pixels.len()
            invariant
                i <= pixels@.len(),
                n == w * h,
                w == self.spec_width() && w == old(self).spec_width(),
                h == self.spec_height() && h == old(self).spec_height(),
                self@.len() == w * h,
                self@ == drawn(old(self)@, w as int, h as int, pixels@.subrange(0, i as int)),
            decreases pixels@.len() - i,
        {
            let (p, c) = pixels[i];
            assert(pixels@.subrange(0, i as int + 1).drop_last() == pixels@.subrange(0, i as int));
            if p.x >= 0 && p.y >= 0 && (p.x as usize) < w && (p.y as usize) < h {
                let x = p.x as usize;
                let y = p.y as usize;
                proof {
                    lemma_index_in_grid(x as int, y as int, w as int, h as int);
                }
                self.set(y * w + x, c);
            }
            i = i + 1;
        }
        assert(pixels@.subrange(0, pixels@.len() as int) == pixels@);
    }
}

} // verus!
