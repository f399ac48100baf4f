use evil_android::buffer::PixelBuffer;
use evil_android::color::Color;
use evil_android::frame::FrameBuf;
use evil_android::geometry::Size;
use evil_android::noise::{add_noise, noise_color, should_apply_noise, Intensity};
use rand::rngs::StdRng;
use rand::{RngCore, SeedableRng};

fn frame(w: usize, h: usize, c: Color) -> FrameBuf<Color> {
    FrameBuf::new(PixelBuffer::new(Size::new(w as u32, h as u32), c), w, h).unwrap()
}

#[test]
fn zero_intensity_noise_is_identity() {
    let c = Color::new(1, 2, 3);
    let mut fb = frame(16, 8, c);
    let mut rng = StdRng::seed_from_u64(9);
    add_noise(&mut fb, &mut rng, Intensity::from(0));
    assert!(fb.data().pixels().iter().all(|p| *p == c));
}

#[test]
fn full_intensity_noise_replaces_every_pixel() {
    let mut fb = frame(16, 8, Color::new(1, 2, 3));
    let mut rng = StdRng::seed_from_u64(42);
    add_noise(&mut fb, &mut rng, Intensity::full());
    let mut twin = StdRng::seed_from_u64(42);
    for p in fb.data().pixels() {
        let _decide = twin.next_u32();
        let r = twin.next_u32();
        let g = twin.next_u32();
        let b = twin.next_u32();
        assert_eq!(*p, noise_color(r, g, b));
    }
}

#[test]
fn partial_noise_follows_its_draws() {
    let c = Color::new(4, 5, 6);
    let mut fb = frame(32, 4, c);
    let intensity = Intensity::from(40);
    let mut rng = StdRng::seed_from_u64(7);
    add_noise(&mut fb, &mut rng, intensity);
    let mut twin = StdRng::seed_from_u64(7);
    let mut kept = 0;
    for p in fb.data().pixels() {
        let decide = twin.next_u32();
        if (decide % 128) < 40 {
            let (r, g, b) = (twin.next_u32(), twin.next_u32(), twin.next_u32());
            assert_eq!(*p, noise_color(r, g, b));
        } else {
            assert_eq!(*p, c);
            kept += 1;
        }
    }
    assert!(kept > 0 && kept < 128);
}

#[test]
fn intensity_is_clamped() {
    assert_eq!(Intensity::from(0).value(), 0);
    assert_eq!(Intensity::from(77).value(), 77);
    assert_eq!(Intensity::from(128).value(), 128);
    assert_eq!(Intensity::from(5000).value(), 128);
    assert_eq!(Intensity::full().value(), 128);
}

#[test]
fn noise_decision_is_a_chance_out_of_128() {
    let zero = Intensity::from(0);
    let full = Intensity::full();
    let some = Intensity::from(10);
    for d in [0u32, 9, 10, 127, 128, 137, 138, u32::MAX] {
        assert!(!should_apply_noise(d, &zero));
        assert!(should_apply_noise(d, &full));
        assert_eq!(should_apply_noise(d, &some), d % 128 < 10);
    }
}

#[test]
fn noise_color_reduces_each_channel() {
    let c = noise_color(33, 64 + 7, 31);
    assert_eq!((c.r(), c.g(), c.b()), (1, 7, 31));
    let c = noise_color(u32::MAX, u32::MAX, u32::MAX);
    assert_eq!((c.r(), c.g(), c.b()), (31, 63, 31));
}

#[test]
fn noise_on_empty_buffer_is_harmless() {
    let mut fb = FrameBuf::new(PixelBuffer::new(Size::new(0, 0), Color::black()), 0, 0).unwrap();
    let mut rng = StdRng::seed_from_u64(0);
    add_noise(&mut fb, &mut rng, Intensity::full());
    assert_eq!(fb.data().nr_elements(), 0);
}
