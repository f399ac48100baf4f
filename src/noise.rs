//! Full-screen static: each pixel is replaced by a random color with a
//! probability given as a chance out of 128.

use vstd::prelude::*;
use rand::rngs::StdRng;
use crate::color::{Color, pack};
use crate::frame::FrameBuf;
use crate::rng::next_u32;

verus! {

/// The largest intensity: a pixel is always replaced.
pub const MAX_INTENSITY: usize = 128;

/// A chance out of 128, clamped into `0..=128`.
#[derive(Clone, Copy, Debug)]
pub struct Intensity(usize);

impl Intensity {
    #[verifier::type_invariant]
    spec fn inv(self) -> bool {
        self.0 <= MAX_INTENSITY
    }

    /// The chance, out of 128.
    pub closed spec fn spec_value(self) -> nat {
        self.0 as nat
    }

    /// The full intensity: every pixel is replaced.
    pub fn full() -> (r: Intensity)
        ensures
            r.spec_value() == MAX_INTENSITY,
    {
        Intensity(MAX_INTENSITY)
    }

    /// The chance, out of 128.
    pub fn value(&self) -> (v: usize)
        ensures
            v == self.spec_value(),
            v <= MAX_INTENSITY,
    {
        proof {
            use_type_invariant(self);
        }
        self.0
    }
}

impl From<usize> for Intensity {
    fn from(value: usize) -> (r: Intensity)
        ensures
            r.spec_value() == if value <= MAX_INTENSITY {
                value as nat
            } else {
                MAX_INTENSITY as nat
            },
    {
        if value <= MAX_INTENSITY {
            Intensity(value)
        } else {
            Intensity(MAX_INTENSITY)
        }
    }
}

impl vstd::std_specs::convert::FromSpecImpl<usize> for Intensity {
    open spec fn obeys_from_spec() -> bool {
        true
    }

    closed spec fn from_spec(v: usize) -> Intensity {
        Intensity(
            if v <= MAX_INTENSITY {
                v
            } else {
                MAX_INTENSITY
            },
        )
    }
}

/// Whether the draw `decide` replaces a pixel at `intensity` out of 128.
pub open spec fn noise_applies(decide: u32, intensity: int) -> bool {
    (decide as int % 128) < intensity
}

/// The color made from three draws: each reduced to its channel's width.
pub open spec fn noise_color_of(r: u32, g: u32, b: u32) -> Color {
    Color { raw: pack(r as int % 32, g as int % 64, b as int % 32) as u16 }
}

/// The four draws of one pixel: the decision, then red, green and blue.
pub type NoiseDraw = (u32, u32, u32, u32);

/// The pixels `s` after noise with the per-pixel draws `draws`.
pub open spec fn noised(s: Seq<Color>, draws: Seq<NoiseDraw>, intensity: int) -> Seq<Color> {
    Seq::new(
        s.len(),
        |i: int|
            if noise_applies(draws[i].0, intensity) {
                noise_color_of(draws[i].1, draws[i].2, draws[i].3)
            } else {
                s[i]
            },
    )
}

/// Whether the draw `decide` replaces a pixel at `intensity`.
pub fn should_apply_noise(decide: u32, intensity: &Intensity) -> (r: bool)
    ensures
        r == noise_applies(decide, intensity.spec_value() as int),
{
    let d: usize = (decide % 128) as usize;
    d < intensity.value()
}

/// A random color from three draws, each reduced to its channel's width.
pub fn noise_color(r: u32, g: u32, b: u32) -> (c: Color)
    ensures
        c == noise_color_of(r, g, b),
        c.red() == r % 32 && c.green() == g % 64 && c.blue() == b % 32,
{
    Color::new((r % 32) as u8, (g % 64) as u8, (b % 32) as u8)
}

/// For every pixel, draws a decision and, where it falls below `intensity`
/// out of 128, three more draws that make the pixel's new color.
pub fn add_noise(fb: &mut FrameBuf<Color>, rng: &mut StdRng, intensity: Intensity)
    ensures
        final(fb).spec_width() == old(fb).spec_width(),
        final(fb).spec_height() == old(fb).spec_height(),
        exists|draws: Seq<NoiseDraw>|
            draws.len() == old(fb)@.len() && final(fb)@ == noised(
                old(fb)@,
                draws,
                intensity.spec_value() as int,
            ),
{
    let ghost old_s = fb@;
    let ghost mut draws: Seq<NoiseDraw> = Seq::empty();
    let n = fb.data().nr_elements();
    let mut index: usize = 0;
    while index < n
        invariant
            index <= n,
            n == old_s.len(),
            fb@.len() == n,
            fb.spec_width() == old(fb).spec_width(),
            fb.spec_height() == old(fb).spec_height(),
            draws.len() == index,
            forall|i: int| index <= i < n ==> fb@[i] == old_s[i],
            forall|i: int|
                0 <= i < index ==> fb@[i] == (if noise_applies(
                    draws[i].0,
                    intensity.spec_value() as int,
                ) {
                    noise_color_of(draws[i].1, draws[i].2, draws[i].3)
                } else {
                    old_s[i]
                }),
        decreases n - index,
    {
        let decide = next_u32(rng);
        if should_apply_noise(decide, &intensity) {
            let r = next_u32(rng);
            let g = next_u32(rng);
            let b = next_u32(rng);
            fb.set(index, noise_color(r, g, b));
            proof {
                draws = draws.push((decide, r, g, b));
            }
        } else {
            proof {
                draws = draws.push((decide, 0, 0, 0));
            }
        }
        index = index + 1;
    }
    assert(fb@ == noised(old_s, draws, intensity.spec_value() as int));
}

/// At intensity zero noise changes nothing; at full intensity every pixel
/// is replaced by the color of its draws, whatever it held before.
pub proof fn lemma_noise_extremes(s: Seq<Color>, draws: Seq<NoiseDraw>)
    requires
        draws.len() == s.len(),
    ensures
        noised(s, draws, 0) == s,
        noised(s, draws, MAX_INTENSITY as int) == Seq::new(
            s.len(),
            |i: int| noise_color_of(draws[i].1, draws[i].2, draws[i].3),
        ),
{
    assert(noised(s, draws, 0) == s);
    assert(noised(s, draws, MAX_INTENSITY as int) == Seq::new(
        s.len(),
        |i: int| noise_color_of(draws[i].1, draws[i].2, draws[i].3),
    ));
}

} // verus!
