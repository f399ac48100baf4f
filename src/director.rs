//! The frame director: which background, text, overlay, glitch and noise
//! each frame gets. The surrounding loop (timing, text rendering, LEDs and
//! presenting frames) performs what it decides, one frame at a time:
//! `plan`, then `begin_frame`, then `end_frame`.

use vstd::prelude::*;
use rand::rngs::StdRng;
use crate::color::{Color, pack};
use crate::duration::{duration_text, format_duration};
use crate::frame::FrameBuf;
use crate::geometry::{Point, Size, center_of, center_offset};
use crate::glitch::{glitch, rows_kept};
use crate::image::MaskedImage;
use crate::noise::{Intensity, MAX_INTENSITY, NoiseDraw, add_noise, noised};
use crate::rng::gen_range_i32;

verus! {

/// Number of background shades in one pass.
pub const SHADES: usize = 32;

/// Frames that each shade is held for; also the length of a noise burst.
pub const FRAMES_PER_SHADE: usize = 16;

/// Frames of one pass: every shade for `FRAMES_PER_SHADE` frames.
pub const TOTAL_FRAMES: usize = 512;

/// Frames at the start of a pass that show the real elapsed time.
pub const UNEXAGGERATED_TIME_FRAMES: usize = 128;

/// Largest text jitter amplitude, reached by the last shades.
pub const MAX_JITTER: usize = 3;

/// The red shade `idx`: red channel `idx`, no green or blue.
pub open spec fn shade_of(idx: int) -> Color {
    Color { raw: pack(idx, 0, 0) as u16 }
}

/// Shade `idx` of the background ramp.
pub fn shade_color(idx: usize) -> (c: Color)
    requires
        idx < SHADES,
    ensures
        c == shade_of(idx as int),
        c.red() == idx && c.green() == 0 && c.blue() == 0,
{
    Color::new(idx as u8, 0, 0)
}

/// The text jitter amplitude of shade `idx`: `idx / (SHADES / MAX_JITTER)`.
pub open spec fn amplitude_of(idx: int) -> int {
    idx / (SHADES as int / MAX_JITTER as int)
}

/// The text jitter amplitude of shade `idx`, in `0..=MAX_JITTER`.
pub fn jitter_amplitude(idx: usize) -> (a: i32)
    requires
        idx < SHADES,
    ensures
        a == amplitude_of(idx as int),
        0 <= a <= MAX_JITTER,
{
    let a = idx / (SHADES / MAX_JITTER);
    assert(a <= 3) by (nonlinear_arith)
        requires a == idx / 10, idx < 32;
    a as i32
}

/// The exponent of the time exaggeration at frame `curr_frame` of a pass:
/// none before `UNEXAGGERATED_TIME_FRAMES`, the frames past it after.
pub open spec fn exponent_of(curr_frame: int) -> Option<int> {
    if curr_frame < UNEXAGGERATED_TIME_FRAMES {
        None
    } else {
        Some(curr_frame - UNEXAGGERATED_TIME_FRAMES)
    }
}

/// The frames past the unexaggerated stretch at `curr_frame`, if any.
pub fn exaggeration_exponent(curr_frame: usize) -> (r: Option<usize>)
    ensures
        r is None <==> curr_frame < UNEXAGGERATED_TIME_FRAMES,
        r matches Some(v) ==> v == curr_frame - UNEXAGGERATED_TIME_FRAMES,
{
    if curr_frame < UNEXAGGERATED_TIME_FRAMES {
        None
    } else {
        Some(curr_frame - UNEXAGGERATED_TIME_FRAMES)
    }
}

/// The exaggeration exponent never decreases from one frame to a later one.
pub proof fn lemma_exponent_monotone(f1: int, f2: int)
    requires
        0 <= f1 <= f2,
        f1 >= UNEXAGGERATED_TIME_FRAMES,
    ensures
        exponent_of(f1) matches Some(a) && exponent_of(f2) matches Some(b) && a <= b,
{
}

/// The text shown once the exaggerated time has run away: 28 nines.
pub open spec fn runaway_text_spec() -> Seq<char> {
    Seq::new(28, |i: int| '9')
}

/// The runaway text.
pub fn runaway_text() -> (s: String)
    ensures
        s@ == runaway_text_spec(),
{
    proof {
        reveal_strlit("9999999999999999999999999999");
    }
    let s = String::from_str("9999999999999999999999999999");
    assert(s@ == runaway_text_spec());
    s
}

/// What the clock says for the current frame: real elapsed time plus the
/// exaggeration, in whole seconds, or that the exaggeration ran away.
#[derive(Clone, Copy, Debug, PartialEq, Eq, Structural)]
pub enum TimeReading {
    Elapsed(u64),
    Runaway,
}

/// The text for a reading.
pub open spec fn reading_text(r: TimeReading) -> Seq<char> {
    match r {
        TimeReading::Elapsed(s) => duration_text(s as nat),
        TimeReading::Runaway => runaway_text_spec(),
    }
}

/// The text for a reading: the formatted duration, or the runaway text.
pub fn time_text(reading: TimeReading) -> (s: String)
    ensures
        s@ == reading_text(reading),
{
    match reading {
        TimeReading::Elapsed(secs) => format_duration(secs),
        TimeReading::Runaway => runaway_text(),
    }
}

/// Whether frame `frame` of a shade shows the overlay image at glitchiness
/// `g`: only once glitchy, four frames on and four off.
pub open spec fn overlay_due(g: int, frame: int) -> bool {
    g > 0 && (frame / 4) % 2 == 0
}

/// `point` moved by a random amount in `-amplitude..amplitude` on each axis;
/// unchanged when `amplitude` is zero.
pub fn intensify(rng: &mut StdRng, point: Point, amplitude: i32) -> (r: Point)
    requires
        amplitude >= 0,
        point.x - amplitude >= i32::MIN && point.x + amplitude <= i32::MAX,
        point.y - amplitude >= i32::MIN && point.y + amplitude <= i32::MAX,
    ensures
        amplitude == 0 ==> r == point,
        amplitude > 0 ==> point.x - amplitude <= r.x < point.x + amplitude && point.y - amplitude
            <= r.y < point.y + amplitude,
{
    if amplitude == 0 {
        point
    } else {
        let dx = gen_range_i32(rng, -amplitude, amplitude);
        let dy = gen_range_i32(rng, -amplitude, amplitude);
        Point { x: point.x + dx, y: point.y + dy }
    }
}

/// Where an image of `image` size goes so that its center meets the center
/// of a display of `display` size.
pub open spec fn centered_spec(display: Size, image: Size) -> Point {
    Point {
        x: (center_offset(display.width as int, display.height as int).0 - center_offset(
            image.width as int,
            image.height as int,
        ).0) as i32,
        y: (center_offset(display.width as int, display.height as int).1 - center_offset(
            image.width as int,
            image.height as int,
        ).1) as i32,
    }
}

/// The top-left position that centers an image of size `image` on a
/// display of size `display`.
pub fn centered(display: Size, image: Size) -> (p: Point)
    ensures
        p == centered_spec(display, image),
{
    let d = center_of(display);
    let i = center_of(image);
    Point { x: d.x - i.x, y: d.y - i.y }
}

/// What the loop needs to know about the coming frame.
#[derive(Clone, Copy, Debug)]
pub struct FramePlan {
    /// A noise-burst frame (everything else then is of the last shade).
    pub noise: bool,
    /// The shade index, `0..SHADES`.
    pub shade: usize,
    /// The frame within the shade (or within the noise burst).
    pub frame: usize,
    /// The frame within the pass, `0..TOTAL_FRAMES`.
    pub curr_frame: usize,
    /// The first frame of a pass: the moment its clock starts.
    pub new_pass: bool,
    /// The first frame of a shade: the moment the elapsed time is read.
    pub new_shade: bool,
    /// Frames past the unexaggerated stretch, if any.
    pub exponent: Option<usize>,
    /// The background color.
    pub background: Color,
}

/// The director's state: position in the pass, whether a noise burst runs,
/// whether the current frame was begun, and the glitchiness of the pass.
pub struct Director {
    shade: usize,
    frame: usize,
    noise: bool,
    begun: bool,
    glitchiness: usize,
}

impl Director {
    #[verifier::type_invariant]
    spec fn inv(self) -> bool {
        &&& self.shade < SHADES
        &&& self.frame < FRAMES_PER_SHADE
        &&& self.noise ==> self.shade == SHADES - 1 && self.glitchiness <= TOTAL_FRAMES
        &&& !self.noise ==> self.glitchiness <= self.shade * FRAMES_PER_SHADE + self.frame + (
        if self.begun {
            1int
        } else {
            0int
        })
    }

    pub closed spec fn spec_shade(&self) -> nat {
        self.shade as nat
    }

    pub closed spec fn spec_frame(&self) -> nat {
        self.frame as nat
    }

    pub closed spec fn spec_noise(&self) -> bool {
        self.noise
    }

    pub closed spec fn spec_begun(&self) -> bool {
        self.begun
    }

    pub closed spec fn spec_glitchiness(&self) -> nat {
        self.glitchiness as nat
    }

    /// The frame within the pass.
    pub open spec fn spec_curr_frame(&self) -> int {
        self.spec_shade() * FRAMES_PER_SHADE + self.spec_frame()
    }

    /// The start of a pass: first shade, first frame, no glitchiness.
    pub fn new() -> (d: Director)
        ensures
            d.spec_shade() == 0 && d.spec_frame() == 0,
            !d.spec_noise() && !d.spec_begun(),
            d.spec_glitchiness() == 0,
    {
        Director { shade: 0, frame: 0, noise: false, begun: false, glitchiness: 0 }
    }

    /// The glitchiness of the pass so far.
    pub fn glitchiness(&self) -> (g: usize)
        ensures
            g == self.spec_glitchiness(),
            g <= TOTAL_FRAMES,
    {
        proof {
            use_type_invariant(self);
        }
        self.glitchiness
    }

    /// Where the director goes after the current frame: the next frame of
    /// the shade, the next shade, the noise burst after the last shade, and
    /// after the burst a new pass.
    pub open spec fn next_position(shade: nat, frame: nat, noise: bool) -> (nat, nat, bool) {
        if frame + 1 < FRAMES_PER_SHADE {
            (shade, frame + 1, noise)
        } else if noise {
            (0, 0, false)
        } else if shade + 1 < SHADES {
            (shade + 1, 0, false)
        } else {
            (shade, 0, true)
        }
    }

    /// Moves to the next frame; a new pass starts with no glitchiness.
    fn advance(&mut self)
        ensures
            (final(self).spec_shade(), final(self).spec_frame(), final(self).spec_noise())
                == Self::next_position(
                old(self).spec_shade(),
                old(self).spec_frame(),
                old(self).spec_noise(),
            ),
            !final(self).spec_begun(),
            final(self).spec_glitchiness() == if old(self).spec_noise() && old(self).spec_frame()
                + 1 == FRAMES_PER_SHADE {
                0
            } else {
                old(self).spec_glitchiness()
            },
    {
        proof {
            use_type_invariant(&*self);
        }
        let (shade, frame, noise) = if self.frame + 1 < FRAMES_PER_SHADE {
            (self.shade, self.frame + 1, self.noise)
        } else if self.noise {
            (0, 0, false)
        } else if self.shade + 1 < SHADES {
            (self.shade + 1, 0, false)
        } else {
            (self.shade, 0, true)
        };
        let glitchiness = if self.noise && self.frame + 1 == FRAMES_PER_SHADE {
            0
        } else {
            self.glitchiness
        };
        *self = Director { shade, frame, noise, begun: false, glitchiness };
    }

    /// Starts the current frame. In a noise burst the whole buffer becomes
    /// static and there is nothing to write. Otherwise the buffer is cleared
    /// to the shade, a runaway reading raises the glitchiness by one (once
    /// per frame), and the text to write comes back with its jittered
    /// anchor around `center`.
    pub fn begin_frame(
        &mut self,
        fb: &mut FrameBuf<Color>,
        reading: TimeReading,
        center: Point,
        rng: &mut StdRng,
    ) -> (r: Option<(String, Point)>)
        requires
            center.x - MAX_JITTER >= i32::MIN && center.x + MAX_JITTER <= i32::MAX,
            center.y - MAX_JITTER >= i32::MIN && center.y + MAX_JITTER <= i32::MAX,
        ensures
            final(fb).spec_width() == old(fb).spec_width(),
            final(fb).spec_height() == old(fb).spec_height(),
            final(self).spec_shade() == old(self).spec_shade(),
            final(self).spec_frame() == old(self).spec_frame(),
            final(self).spec_noise() == old(self).spec_noise(),
            old(self).spec_noise() ==> ({
                &&& r is None
                &&& final(self).spec_begun() == old(self).spec_begun()
                &&& final(self).spec_glitchiness() == old(self).spec_glitchiness()
                &&& exists|draws: Seq<NoiseDraw>|
                    draws.len() == old(fb)@.len() && final(fb)@ == noised(
                        old(fb)@,
                        draws,
                        MAX_INTENSITY as int,
                    )
            }),
            !old(self).spec_noise() ==> ({
                &&& r matches Some((text, pos))
                &&& text@ == reading_text(reading)
                &&& final(fb)@ == Seq::new(
                    old(fb)@.len(),
                    |i: int| shade_of(old(self).spec_shade() as int),
                )
                &&& final(self).spec_begun()
                &&& final(self).spec_glitchiness() == if reading is Runaway
                    && !old(self).spec_begun() {
                    old(self).spec_glitchiness() + 1
                } else {
                    old(self).spec_glitchiness() + 0
                }
                &&& jittered(center, pos, amplitude_of(old(self).spec_shade() as int))
            }),
    {
        proof {
            use_type_invariant(&*self);
        }
        if self.noise {
            add_noise(fb, rng, Intensity::full());
            return None;
        }
        fb.clear(shade_color(self.shade));
        if !self.begun {
            let glitchiness = match reading {
                TimeReading::Runaway => self.glitchiness + 1,
                TimeReading::Elapsed(_) => self.glitchiness,
            };
            *self = Director {
                shade: self.shade,
                frame: self.frame,
                noise: false,
                begun: true,
                glitchiness,
            };
        }
        let text = time_text(reading);
        let pos = intensify(rng, center, jitter_amplitude(self.shade));
        Some((text, pos))
    }

    /// Ends the current frame and moves to the next. Outside a noise burst,
    /// a glitchy pass shows the overlay image centred on a `display`-sized
    /// screen on alternating runs of four frames, then rows are glitched
    /// with the glitchiness as the largest offset: a pass that is not
    /// glitchy leaves the buffer as it is.
    pub fn end_frame(
        &mut self,
        fb: &mut FrameBuf<Color>,
        image: &mut MaskedImage,
        display: Size,
        rng: &mut StdRng,
    )
        ensures
            final(fb).spec_width() == old(fb).spec_width(),
            final(fb).spec_height() == old(fb).spec_height(),
            final(image).spec_color() == old(image).spec_color(),
            final(image).spec_mask() == old(image).spec_mask(),
            (final(self).spec_shade(), final(self).spec_frame(), final(self).spec_noise())
                == Self::next_position(
                old(self).spec_shade(),
                old(self).spec_frame(),
                old(self).spec_noise(),
            ),
            !final(self).spec_begun(),
            final(self).spec_glitchiness() == if old(self).spec_noise() && old(self).spec_frame()
                + 1 == FRAMES_PER_SHADE {
                0
            } else {
                old(self).spec_glitchiness()
            },
            old(self).spec_noise() || old(self).spec_glitchiness() == 0 ==> final(fb)@ == old(
                fb,
            )@,
            !old(self).spec_noise() && !overlay_due(
                old(self).spec_glitchiness() as int,
                old(self).spec_frame() as int,
            ) ==> rows_kept(
                old(fb)@,
                final(fb)@,
                old(fb).spec_width() as int,
                old(fb).spec_height() as int,
            ),
            !old(self).spec_noise() && overlay_due(
                old(self).spec_glitchiness() as int,
                old(self).spec_frame() as int,
            ) ==> final(image).spec_pos() == centered_spec(display, old(image).spec_color().spec_size())
                && overlaid_then_kept(old(fb)@, final(fb)@, *final(image), old(fb).spec_width() as int, old(fb).spec_height() as int),
    {
        proof {
            use_type_invariant(&*self);
        }
        if !self.noise {
            let g = self.glitchiness;
            if g > 0 && (self.frame / 4) % 2 == 0 {
                let size = image.size();
                image.set_pos(centered(display, size));
                let ghost before = fb@;
                image.draw(fb);
                let ghost mid = fb@;
                glitch(fb, rng, g);
                assert(overlaid(before, mid, *image, fb.spec_width() as int, fb.spec_height() as int));
            } else {
                glitch(fb, rng, g);
            }
        }
        self.advance();
    }

    /// The coming frame.
    pub fn plan(&self) -> (p: FramePlan)
        ensures
            p.noise == self.spec_noise(),
            p.shade == self.spec_shade() && p.shade < SHADES,
            p.frame == self.spec_frame() && p.frame < FRAMES_PER_SHADE,
            p.curr_frame == self.spec_curr_frame() && p.curr_frame < TOTAL_FRAMES,
            p.new_pass == (!self.spec_noise() && self.spec_shade() == 0 && self.spec_frame() == 0),
            p.new_shade == (!self.spec_noise() && self.spec_frame() == 0),
            p.exponent matches Some(v) ==> exponent_of(p.curr_frame as int) == Some(v as int),
            p.exponent is None ==> exponent_of(p.curr_frame as int) is None,
            p.background == shade_of(self.spec_shade() as int),
    {
        proof {
            use_type_invariant(self);
        }
        let curr_frame = self.shade * FRAMES_PER_SHADE + self.frame;
        FramePlan {
            noise: self.noise,
            shade: self.shade,
            frame: self.frame,
            curr_frame,
            new_pass: !self.noise && self.shade == 0 && self.frame == 0,
            new_shade: !self.noise && self.frame == 0,
            exponent: exaggeration_exponent(curr_frame),
            background: shade_color(self.shade),
        }
    }
}

/// `pos` lies within `amplitude` of `center` on each axis (half-open
/// `-amplitude..amplitude`), and equals it when `amplitude` is zero.
pub open spec fn jittered(center: Point, pos: Point, amplitude: int) -> bool {
    if amplitude == 0 {
        pos == center
    } else {
        center.x - amplitude <= pos.x < center.x + amplitude && center.y - amplitude <= pos.y
            < center.y + amplitude
    }
}

/// `after` is `before` with `image` drawn over it, on a `w` by `h` view.
pub open spec fn overlaid(before: Seq<Color>, after: Seq<Color>, image: MaskedImage, w: int, h: int) -> bool {
    &&& after.len() == before.len()
    &&& forall|tx: int, ty: int|
        0 <= tx < w && 0 <= ty < h ==> #[trigger] after[ty * w + tx] == image.drawn_at(
            before[ty * w + tx],
            tx,
            ty,
        )
}

/// `after` keeps, row by row, the pixels of `before` with `image` drawn over it.
pub open spec fn overlaid_then_kept(
    before: Seq<Color>,
    after: Seq<Color>,
    image: MaskedImage,
    w: int,
    h: int,
) -> bool {
    exists|mid: Seq<Color>| overlaid(before, mid, image, w, h) && #[trigger] rows_kept(mid, after, w, h)
}

/// Without glitchiness no frame shows the overlay.
pub proof fn lemma_no_overlay_when_calm(frame: int)
    ensures
        !overlay_due(0, frame),
{
}

/// A cycle runs the frames of a pass in order, `curr_frame` rising by one
/// from `0` to `TOTAL_FRAMES - 1`; then a noise burst of `FRAMES_PER_SHADE`
/// frames follows, after which a new pass starts at its first frame.
pub proof fn lemma_cycle_order(shade: nat, frame: nat, noise: bool)
    requires
        shade < SHADES,
        frame < FRAMES_PER_SHADE,
        noise ==> shade == SHADES - 1,
    ensures
        ({
            let (s2, f2, n2) = Director::next_position(shade, frame, noise);
            &&& s2 < SHADES && f2 < FRAMES_PER_SHADE
            &&& !noise && shade * FRAMES_PER_SHADE + frame + 1 < TOTAL_FRAMES ==> !n2 && s2
                * FRAMES_PER_SHADE + f2 == shade * FRAMES_PER_SHADE + frame + 1
            &&& !noise && shade * FRAMES_PER_SHADE + frame + 1 == TOTAL_FRAMES ==> n2 && f2 == 0
            &&& noise && frame + 1 < FRAMES_PER_SHADE ==> n2 && f2 == frame + 1
            &&& noise && frame + 1 == FRAMES_PER_SHADE ==> !n2 && s2 == 0 && f2 == 0
        }),
{
}

} // verus!
