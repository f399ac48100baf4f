//! The row-glitch engine: per scanline, a run of pixels may be moved
//! sideways within its own row, as a corrupted video signal would.

use vstd::prelude::*;
use rand::rngs::StdRng;
use crate::frame::FrameBuf;
use crate::rng::next_u32;

verus! {

/// `v` clamped into `0..=w`.
pub open spec fn clamp(v: int, w: int) -> int {
    if v < 0 {
        0
    } else if v > w {
        w
    } else {
        v
    }
}

pub open spec fn min(a: int, b: int) -> int {
    if a <= b {
        a
    } else {
        b
    }
}

pub open spec fn max(a: int, b: int) -> int {
    if a >= b {
        a
    } else {
        b
    }
}

/// `s` after the `n` slots from `src` were moved to `dst`, as a move between
/// possibly overlapping regions does: the target reads the old source.
pub open spec fn moved<C>(s: Seq<C>, src: int, dst: int, n: int) -> Seq<C> {
    Seq::new(s.len(), |i: int| if dst <= i < dst + n { s[i - dst + src] } else { s[i] })
}

/// A column in a row of `row_width` pixels (clamped to the row's end).
#[derive(Clone, Copy, Debug)]
pub struct RowOffset {
    offset: usize,
    row_width: usize,
}

/// A half-open run `start..end` of columns in a row of `row_width` pixels.
#[derive(Clone, Copy, Debug)]
pub struct RowRange {
    start: usize,
    end: usize,
    row_width: usize,
}

impl RowOffset {
    #[verifier::type_invariant]
    spec fn inv(self) -> bool {
        0 < self.row_width && self.offset <= self.row_width
    }

    pub closed spec fn spec_offset(self) -> nat {
        self.offset as nat
    }

    pub closed spec fn spec_row_width(self) -> nat {
        self.row_width as nat
    }

    /// Column `offset` of a row of `fb`, clamped to the row width.
    pub fn new<C: Copy>(offset: usize, fb: &FrameBuf<C>) -> (r: RowOffset)
        requires
            fb.spec_width() > 0,
        ensures
            r.spec_row_width() == fb.spec_width(),
            r.spec_offset() == min(offset as int, fb.spec_width() as int),
    {
        let row_width = fb.width();
        let offset = if offset < row_width {
            offset
        } else {
            row_width
        };
        RowOffset { offset, row_width }
    }

    /// The run between this column and column `other`, in either order,
    /// clamped to the row.
    pub fn range_to(self, other: usize) -> (r: RowRange)
        ensures
            r.spec_row_width() == self.spec_row_width(),
            r.spec_start() == min(
                min(self.spec_offset() as int, other as int),
                self.spec_row_width() as int,
            ),
            r.spec_end() == min(
                max(self.spec_offset() as int, other as int),
                self.spec_row_width() as int,
            ),
    {
        proof {
            use_type_invariant(&self);
        }
        let lo = if self.offset <= other {
            self.offset
        } else {
            other
        };
        let hi = if self.offset >= other {
            self.offset
        } else {
            other
        };
        RowRange {
            start: if lo <= self.row_width {
                lo
            } else {
                self.row_width
            },
            end: if hi <= self.row_width {
                hi
            } else {
                self.row_width
            },
            row_width: self.row_width,
        }
    }
}

/// `v + rhs` clamped into `0..=w`, computed without overflow.
fn shift_clamped(v: usize, rhs: isize, w: usize) -> (r: usize)
    requires
        v <= w,
    ensures
        r == clamp(v + rhs, w as int),
{
    if rhs >= 0 {
        let d = rhs as usize;
        if d >= w - v {
            w
        } else {
            v + d
        }
    } else {
        let d = ((-(rhs + 1)) as usize) + 1;
        if d >= v {
            0
        } else {
            v - d
        }
    }
}

impl RowRange {
    #[verifier::type_invariant]
    spec fn inv(self) -> bool {
        self.start <= self.end <= self.row_width
    }

    pub closed spec fn spec_start(self) -> nat {
        self.start as nat
    }

    pub closed spec fn spec_end(self) -> nat {
        self.end as nat
    }

    pub closed spec fn spec_row_width(self) -> nat {
        self.row_width as nat
    }

    /// The run moved by `rhs` columns, each end clamped to the row; the run
    /// may shrink at an edge of the row.
    pub fn offset(self, rhs: isize) -> (r: RowRange)
        ensures
            r.spec_row_width() == self.spec_row_width(),
            r.spec_start() == clamp(self.spec_start() + rhs, self.spec_row_width() as int),
            r.spec_end() == clamp(self.spec_end() + rhs, self.spec_row_width() as int),
    {
        proof {
            use_type_invariant(&self);
        }
        let start = shift_clamped(self.start, rhs, self.row_width);
        let end = shift_clamped(self.end, rhs, self.row_width);
        RowRange { start, end, row_width: self.row_width }
    }

    /// The run as a `Range` of column indices.
    pub fn to_range(&self) -> (r: std::ops::Range<usize>)
        ensures
            r.start == self.spec_start(),
            r.end == self.spec_end(),
            r.start <= r.end <= self.spec_row_width(),
    {
        proof {
            use_type_invariant(self);
        }
        self.start..self.end
    }
}

/// The signed horizontal shift picked by `draw` for a row of width `w`:
/// a column index, reduced modulo `max_offset`, centred on zero.
pub open spec fn shift_of(draw: u32, w: int, max_offset: int) -> int {
    (draw as int % w) % max_offset - max_offset / 2
}

/// The pixels `s` of a `w`-wide view after the glitch of row `line` made from
/// the draws `shift`, `a`, `b`: the run between columns `a % w` and `b % w`
/// moves by `shift_of(shift)`, clamped to the row, within that row.
pub open spec fn glitched_row<C>(
    s: Seq<C>,
    w: int,
    line: int,
    max_offset: int,
    shift: u32,
    a: u32,
    b: u32,
) -> Seq<C> {
    let start = min(a as int % w, b as int % w);
    let end = max(a as int % w, b as int % w);
    let d = shift_of(shift, w, max_offset);
    let ds = clamp(start + d, w);
    let de = clamp(end + d, w);
    moved(s, line * w + start, line * w + ds, min(end - start, de - ds))
}

/// Whether the draw `decide` selects a row for corruption (one in four).
pub open spec fn row_selected(decide: u32) -> bool {
    decide as int % 128 < 32
}

/// Whether the draw `decide` selects a row: `decide % 128 < 32`.
pub fn should_glitch(decide: u32) -> (r: bool)
    ensures
        r == row_selected(decide),
{
    decide % 128 < 32
}

/// Moves the run between columns `a % w` and `b % w` of row `line` by the
/// shift that `shift` picks, copying in the direction that keeps every
/// source pixel unread-over until it is copied.
pub fn glitch_row<C: Copy>(
    fb: &mut FrameBuf<C>,
    line: usize,
    max_offset: usize,
    shift: u32,
    a: u32,
    b: u32,
)
    requires
        old(fb).spec_width() > 0,
        line < old(fb).spec_height(),
        max_offset > 0,
    ensures
        final(fb).spec_width() == old(fb).spec_width(),
        final(fb).spec_height() == old(fb).spec_height(),
        final(fb)@ == glitched_row(
            old(fb)@,
            old(fb).spec_width() as int,
            line as int,
            max_offset as int,
            shift,
            a,
            b,
        ),
{
    let w = fb.width();
    let h = fb.height();
    let len = fb.data().nr_elements();
    let m = (shift as usize % w) % max_offset;
    let half = max_offset / 2;
    let d: isize = if m >= half {
        (m - half) as isize
    } else {
        -((half - m) as isize)
    };
    let src = RowOffset::new(a as usize % w, fb).range_to(b as usize % w);
    let dst = src.offset(d);
    let ghost old_s = fb@;
    let src_r = src.to_range();
    let dst_r = dst.to_range();
    proof {
        assert(line * w + w <= h * w) by (nonlinear_arith)
            requires line < h;
        assert(0 <= line * w) by (nonlinear_arith)
            requires 0 <= line;
        assert(h * w == w * h) by (nonlinear_arith);
    }
    let start = src_r.start;
    let ds = dst_r.start;
    let n = if src_r.end - start <= dst_r.end - ds {
        src_r.end - start
    } else {
        dst_r.end - ds
    };
    let row = line * w;
    if d < 0 {
        let mut k: usize = 0;
        while k < n
            invariant
                k <= n,
                ds <= start,
                start + n <= w,
                ds + n <= w,
                row + w <= len,
                len == old_s.len(),
                fb.spec_width() == w && fb.spec_height() == h,
                fb@ == moved(old_s, row + start, row + ds, k as int),
            decreases n - k,
        {
            let c = fb.get(row + start + k);
            fb.set(row + ds + k, c);
            k = k + 1;
            assert(fb@ == moved(old_s, row + start, row + ds, k as int));
        }
    } else {
        let mut k: usize = n;
        while k > 0
            invariant
                k <= n,
                start <= ds,
                start + n <= w,
                ds + n <= w,
                row + w <= len,
                len == old_s.len(),
                fb.spec_width() == w && fb.spec_height() == h,
                fb@ == Seq::new(
                    old_s.len(),
                    |i: int|
                        if row + ds + k <= i < row + ds + n {
                            old_s[i - (row + ds) + (row + start)]
                        } else {
                            old_s[i]
                        },
                ),
            decreases k,
        {
            let c = fb.get(row + start + k - 1);
            fb.set(row + ds + k - 1, c);
            k = k - 1;
        }
    }
    assert(fb@ == moved(old_s, row + start, row + ds, n as int));
}

/// The four draws of one row: the decision, the shift, and the two ends of
/// the run.
pub type RowDraw = (u32, u32, u32, u32);

/// The pixels `s` of a `w`-wide view after rows `0..draws.len()` were, in
/// order, glitched or left alone as their draws decide.
pub open spec fn glitched_rows<C>(s: Seq<C>, w: int, max_offset: int, draws: Seq<RowDraw>) -> Seq<
    C,
>
    decreases draws.len(),
{
    if draws.len() == 0 {
        s
    } else {
        let prev = glitched_rows(s, w, max_offset, draws.drop_last());
        let d = draws.last();
        if row_selected(d.0) {
            glitched_row(prev, w, draws.len() - 1, max_offset, d.1, d.2, d.3)
        } else {
            prev
        }
    }
}

/// Row by row, corrupts about one row in four: a selected row has a run of
/// pixels moved sideways by up to `max_offset / 2` columns. Nothing happens
/// when `max_offset` is zero, and every pixel written comes from its own row.
pub fn glitch<C: Copy>(fb: &mut FrameBuf<C>, rng: &mut StdRng, max_offset: usize)
    ensures
        final(fb).spec_width() == old(fb).spec_width(),
        final(fb).spec_height() == old(fb).spec_height(),
        max_offset == 0 ==> final(fb)@ == old(fb)@,
        max_offset > 0 && old(fb).spec_width() > 0 ==> exists|draws: Seq<RowDraw>|
            draws.len() == old(fb).spec_height() && final(fb)@ == glitched_rows(
                old(fb)@,
                old(fb).spec_width() as int,
                max_offset as int,
                draws,
            ),
        rows_kept(old(fb)@, final(fb)@, old(fb).spec_width() as int, old(fb).spec_height() as int),
{
    let w = fb.width();
    let h = fb.height();
    let ghost old_s = fb@;
    if max_offset == 0 || w == 0 {
        return;
    }
    let ghost mut draws: Seq<RowDraw> = Seq::empty();
    let mut line: usize = 0;
    while line < h
        invariant
            line <= h,
            max_offset > 0,
            w > 0,
            draws.len() == line,
            fb@ == glitched_rows(old_s, w as int, max_offset as int, draws),
            fb.spec_width() == w && fb.spec_height() == h,
            old_s.len() == w * h,
            fb@.len() == old_s.len(),
            forall|l: int, x: int|
                #![trigger fb@[l * w + x]]
                line <= l < h && 0 <= x < w ==> fb@[l * w + x] == old_s[l * w + x],
            forall|l: int, x: int|
                0 <= l < line && 0 <= x < w ==> from_row(old_s, #[trigger] fb@[l * w + x], l, w as int),
        decreases h - line,
    {
        let decide = next_u32(rng);
        if should_glitch(decide) {
            let shift = next_u32(rng);
            let a = next_u32(rng);
            let b = next_u32(rng);
            let ghost before = fb@;
            glitch_row(fb, line, max_offset, shift, a, b);
            proof {
                assert(draws.push((decide, shift, a, b)).drop_last() == draws);
                draws = draws.push((decide, shift, a, b));
                lemma_glitched_row_kept(
                    before,
                    old_s,
                    w as int,
                    h as int,
                    line as int,
                    max_offset as int,
                    shift,
                    a,
                    b,
                );
            }
        } else {
            proof {
                assert(draws.push((decide, 0, 0, 0)).drop_last() == draws);
                draws = draws.push((decide, 0, 0, 0));
            }
            assert forall|x: int| 0 <= x < w implies from_row(
                old_s,
                #[trigger] fb@[line * w + x],
                line as int,
                w as int,
            ) by {
                assert(fb@[line * w + x] == old_s[line * w + x]);
            }
        }
        line = line + 1;
    }
}

/// One glitched row keeps the row-provenance invariant of `glitch`.
proof fn lemma_glitched_row_kept<C>(
    before: Seq<C>,
    old_s: Seq<C>,
    w: int,
    h: int,
    line: int,
    max_offset: int,
    shift: u32,
    a: u32,
    b: u32,
)
    requires
        0 < w,
        0 <= line < h,
        max_offset > 0,
        before.len() == old_s.len() == w * h,
        forall|l: int, x: int|
            #![trigger before[l * w + x]]
            line <= l < h && 0 <= x < w ==> before[l * w + x] == old_s[l * w + x],
        forall|l: int, x: int|
            0 <= l < line && 0 <= x < w ==> from_row(old_s, #[trigger] before[l * w + x], l, w),
    ensures
        ({
            let after = glitched_row(before, w, line, max_offset, shift, a, b);
            &&& after.len() == before.len()
            &&& forall|l: int, x: int|
                #![trigger after[l * w + x]]
                line < l < h && 0 <= x < w ==> after[l * w + x] == old_s[l * w + x]
            &&& forall|l: int, x: int|
                0 <= l <= line && 0 <= x < w ==> from_row(old_s, #[trigger] after[l * w + x], l, w)
        }),
{
    let after = glitched_row(before, w, line, max_offset, shift, a, b);
    let start = min(a as int % w, b as int % w);
    let end = max(a as int % w, b as int % w);
    let d = shift_of(shift, w, max_offset);
    let ds = clamp(start + d, w);
    let de = clamp(end + d, w);
    let n = min(end - start, de - ds);
    assert(0 <= start <= end < w);
    assert(0 <= ds <= de <= w);
    assert forall|l: int, x: int|
        #![trigger after[l * w + x]]
        line < l < h && 0 <= x < w implies after[l * w + x] == old_s[l * w + x] by {
        crate::frame::lemma_other_row(l, line, x, w);
        crate::frame::lemma_index_in_grid(x, l, w, h);
    }
    assert forall|l: int, x: int|
        0 <= l <= line && 0 <= x < w implies from_row(old_s, #[trigger] after[l * w + x], l, w) by {
        crate::frame::lemma_index_in_grid(x, l, w, h);
        if l == line {
            if ds <= x < ds + n {
                let x2 = x - ds + start;
                crate::frame::lemma_index_in_grid(x2, l, w, h);
                assert(after[l * w + x] == before[l * w + x2]);
                assert(old_s[l * w + x2] == after[l * w + x]);
            } else {
                assert(old_s[l * w + x] == after[l * w + x]);
            }
        } else {
            crate::frame::lemma_other_row(l, line, x, w);
            assert(after[l * w + x] == before[l * w + x]);
        }
    }
}

/// The value `c` occurs in row `l` of the `w`-wide grid `s`.
pub open spec fn from_row<C>(s: Seq<C>, c: C, l: int, w: int) -> bool {
    exists|x: int| 0 <= x < w && #[trigger] s[l * w + x] == c
}

/// Every pixel of `after` holds a value from the same row of `before`.
pub open spec fn rows_kept<C>(before: Seq<C>, after: Seq<C>, w: int, h: int) -> bool {
    &&& after.len() == before.len()
    &&& forall|l: int, x: int|
        0 <= l < h && 0 <= x < w ==> from_row(before, #[trigger] after[l * w + x], l, w)
}

} // verus!
