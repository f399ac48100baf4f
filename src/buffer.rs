//! A fixed-size, row-major store of pixel values.

use vstd::prelude::*;
use crate::geometry::Size;

verus! {

/// Owns `width * height` pixels, addressed by linear index `y * width + x`.
/// The buffer never changes size.
pub struct PixelBuffer<C> {
    pixels: Vec<C>,
    size: Size,
}

impl<C> View for PixelBuffer<C> {
    type V = Seq<C>;

    closed spec fn view(&self) -> Seq<C> {
        self.pixels@
    }
}

impl<C> PixelBuffer<C> {
    #[verifier::type_invariant]
    spec fn inv(self) -> bool {
        self.pixels@.len() == self.size.width * self.size.height
    }
}

impl<C: Copy> PixelBuffer<C> {
    /// The size the buffer was made with.
    pub closed spec fn spec_size(&self) -> Size {
        self.size
    }

    /// A buffer of `size` with every slot holding `fill_color`.
    pub fn new(size: Size, fill_color: C) -> (r: Self)
        requires
            size.width * size.height <= usize::MAX,
        ensures
            r.spec_size() == size,
            r@.len() == size.width * size.height,
            forall|i: int| 0 <= i < r@.len() ==> r@[i] == fill_color,
    {
        let n: usize = (size.width as usize) * (size.height as usize);
        let mut pixels: Vec<C> = Vec::new();
        while pixels.len() < n
            invariant
                pixels@.len() <= n,
                forall|i: int| 0 <= i < pixels@.len() ==> pixels@[i] == fill_color,
            decreases n - pixels@.len(),
        {
            pixels.push(fill_color);
        }
        PixelBuffer { pixels, size }
    }

    /// The size the buffer was made with.
    pub fn size(&self) -> (s: Size)
        ensures
            s == self.spec_size(),
            self@.len() == s.width * s.height,
    {
        proof {
            use_type_invariant(self);
        }
        self.size
    }

    /// Stores `color` at `index`.
    pub fn set(&mut self, index: usize, color: C)
        requires
            index < old(self)@.len(),
        ensures
            final(self)@ == old(self)@.update(index as int, color),
            final(self).spec_size() == old(self).spec_size(),
        no_unwind
    {
        proof {
            use_type_invariant(&*self);
        }
        self.pixels[index] = color;
    }

    /// The color at `index`.
    pub fn get(&self, index: usize) -> (c: C)
        requires
            index < self@.len(),
        ensures
            c == self@[index as int],
    {
        self.pixels[index]
    }

    /// Number of slots: `width * height`.
    pub fn nr_elements(&self) -> (n: usize)
        ensures
            n == self@.len(),
            n == self.spec_size().width * self.spec_size().height,
    {
        proof {
            use_type_invariant(self);
        }
        self.pixels.len()
    }

    /// All pixels in index order.
    pub fn pixels(&self) -> (s: &[C])
        ensures
            s@ == self@,
    {
        self.pixels.as_slice()
    }
}

/// Setting slot `index` of a buffer to `color` makes that slot read back
/// as `color` and leaves every other slot as it was.
pub proof fn lemma_set_then_get<C>(before: Seq<C>, after: Seq<C>, index: int, color: C)
    requires
        0 <= index < before.len(),
        after == before.update(index, color),
    ensures
        after.len() == before.len(),
        after[index] == color,
        forall|j: int| 0 <= j < before.len() && j != index ==> after[j] == before[j],
{
}

} // verus!
