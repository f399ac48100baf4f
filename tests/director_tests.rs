use evil_android::buffer::PixelBuffer;
use evil_android::color::Color;
use evil_android::director::{
    centered, exaggeration_exponent, intensify, jitter_amplitude, runaway_text, shade_color,
    time_text, Director, TimeReading, FRAMES_PER_SHADE, SHADES, TOTAL_FRAMES,
    UNEXAGGERATED_TIME_FRAMES,
};
use evil_android::duration::format_duration;
use evil_android::frame::FrameBuf;
use evil_android::geometry::{center_of, Point, Size};
use evil_android::image::{ColorImage, MaskImage, MaskedImage};
use rand::rngs::StdRng;
use rand::SeedableRng;

const W: usize = 160;
const H: usize = 128;

fn display() -> Size {
    Size::new(W as u32, H as u32)
}

fn screen() -> FrameBuf<Color> {
    FrameBuf::new(PixelBuffer::new(display(), Color::black()), W, H).unwrap()
}

fn sprite() -> MaskedImage {
    let size = Size::new(4, 4);
    let color = ColorImage::new(size, vec![Color::white(); 16]).unwrap();
    let mask = MaskImage::new(size, vec![true; 16]).unwrap();
    MaskedImage::new(color, mask, Point::new(0, 0)).unwrap()
}

#[test]
fn shades_ramp_up_in_red() {
    for idx in 0..SHADES {
        let c = shade_color(idx);
        assert_eq!((c.r() as usize, c.g(), c.b()), (idx, 0, 0));
    }
    let amplitudes: Vec<i32> = (0..SHADES).map(jitter_amplitude).collect();
    assert_eq!(amplitudes[0], 0);
    assert_eq!(amplitudes[9], 0);
    assert_eq!(amplitudes[10], 1);
    assert_eq!(amplitudes[29], 2);
    assert_eq!(amplitudes[31], 3);
}

#[test]
fn no_exaggeration_before_threshold() {
    assert_eq!(UNEXAGGERATED_TIME_FRAMES, 8 * FRAMES_PER_SHADE);
    for f in 0..UNEXAGGERATED_TIME_FRAMES {
        assert_eq!(exaggeration_exponent(f), None);
    }
    assert_eq!(exaggeration_exponent(128), Some(0));
    assert_eq!(exaggeration_exponent(511), Some(383));
    let mut last = 0;
    for f in UNEXAGGERATED_TIME_FRAMES..TOTAL_FRAMES {
        let v = exaggeration_exponent(f).unwrap();
        assert!(v >= last);
        last = v;
    }
}

#[test]
fn runaway_text_is_twenty_eight_nines() {
    let s = runaway_text();
    assert_eq!(s.len(), 28);
    assert!(s.chars().all(|c| c == '9'));
    assert_eq!(time_text(TimeReading::Runaway), s);
    assert_eq!(time_text(TimeReading::Elapsed(61)), "01:01");
}

#[test]
fn intensify_without_amplitude_keeps_point() {
    let mut rng = StdRng::seed_from_u64(1);
    let p = Point::new(80, 64);
    assert_eq!(intensify(&mut rng, p, 0), p);
    for _ in 0..200 {
        let q = intensify(&mut rng, p, 3);
        assert!((77..83).contains(&q.x) && (61..67).contains(&q.y));
    }
}

#[test]
fn centering_matches_rectangle_centers() {
    assert_eq!(center_of(display()), Point::new(79, 63));
    assert_eq!(center_of(Size::new(5, 7)), Point::new(2, 3));
    assert_eq!(center_of(Size::new(0, 0)), Point::new(0, 0));
    assert_eq!(centered(display(), Size::new(4, 4)), Point::new(78, 62));
    assert_eq!(centered(display(), Size::new(200, 10)), Point::new(-20, 59));
}

#[test]
fn calm_pass_draws_only_background_then_noise_then_restarts() {
    let mut d = Director::new();
    let mut fb = screen();
    let mut image = sprite();
    let mut rng = StdRng::seed_from_u64(5);
    let center = center_of(display());
    for i in 0..TOTAL_FRAMES {
        let plan = d.plan();
        assert!(!plan.noise);
        assert_eq!(plan.curr_frame, i);
        assert_eq!(plan.shade, i / FRAMES_PER_SHADE);
        assert_eq!(plan.frame, i % FRAMES_PER_SHADE);
        assert_eq!(plan.new_pass, i == 0);
        assert_eq!(plan.new_shade, i % FRAMES_PER_SHADE == 0);
        assert_eq!(plan.background, shade_color(plan.shade));
        let (text, pos) = d
            .begin_frame(&mut fb, TimeReading::Elapsed(i as u64), center, &mut rng)
            .unwrap();
        assert_eq!(text, format_duration(i as u64));
        if jitter_amplitude(plan.shade) == 0 {
            assert_eq!(pos, center);
        }
        d.end_frame(&mut fb, &mut image, display(), &mut rng);
        assert_eq!(d.glitchiness(), 0);
        assert!(fb.data().pixels().iter().all(|p| *p == plan.background));
    }
    for k in 0..FRAMES_PER_SHADE {
        let plan = d.plan();
        assert!(plan.noise);
        assert_eq!(plan.frame, k);
        let out = d.begin_frame(&mut fb, TimeReading::Elapsed(0), center, &mut rng);
        assert!(out.is_none());
        d.end_frame(&mut fb, &mut image, display(), &mut rng);
    }
    let plan = d.plan();
    assert!(!plan.noise && plan.new_pass && plan.curr_frame == 0);
}

#[test]
fn runaway_counts_once_per_frame_and_shows_overlay() {
    let mut d = Director::new();
    let mut fb = screen();
    let mut image = sprite();
    let mut rng = StdRng::seed_from_u64(3);
    let center = center_of(display());
    let (text, _) = d.begin_frame(&mut fb, TimeReading::Runaway, center, &mut rng).unwrap();
    assert_eq!(text, runaway_text());
    assert_eq!(d.glitchiness(), 1);
    d.begin_frame(&mut fb, TimeReading::Runaway, center, &mut rng).unwrap();
    assert_eq!(d.glitchiness(), 1);
    d.end_frame(&mut fb, &mut image, display(), &mut rng);
    let px = fb.data().pixels();
    let bg = shade_color(0);
    for y in 0..H {
        for x in 0..W {
            let inside = (78..82).contains(&x) && (62..66).contains(&y);
            let want = if inside { Color::white() } else { bg };
            assert_eq!(px[y * W + x], want, "pixel ({x}, {y})");
        }
    }
    d.begin_frame(&mut fb, TimeReading::Elapsed(3), center, &mut rng).unwrap();
    assert_eq!(d.glitchiness(), 1);
}

#[test]
fn overlay_alternates_every_four_frames() {
    let mut d = Director::new();
    let mut fb = screen();
    let mut image = sprite();
    let mut rng = StdRng::seed_from_u64(11);
    let center = center_of(display());
    for frame in 0..FRAMES_PER_SHADE {
        d.begin_frame(&mut fb, TimeReading::Runaway, center, &mut rng).unwrap();
        d.end_frame(&mut fb, &mut image, display(), &mut rng);
        let whites = fb.data().pixels().iter().filter(|p| **p == Color::white()).count();
        if (frame / 4) % 2 == 0 {
            assert!(whites > 0, "frame {frame}");
        } else {
            assert_eq!(whites, 0, "frame {frame}");
        }
    }
    assert_eq!(d.glitchiness(), FRAMES_PER_SHADE);
}
