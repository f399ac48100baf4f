use evil_android::buffer::PixelBuffer;
use evil_android::frame::FrameBuf;
use evil_android::geometry::Size;
use evil_android::glitch::{glitch, glitch_row, should_glitch, RowOffset};
use rand::rngs::StdRng;
use rand::SeedableRng;

fn grid(w: usize, h: usize) -> FrameBuf<u32> {
    let mut b = PixelBuffer::new(Size::new(w as u32, h as u32), 0u32);
    for y in 0..h {
        for x in 0..w {
            b.set(y * w + x, (y * 1000 + x) as u32);
        }
    }
    FrameBuf::new(b, w, h).unwrap()
}

fn row(values: &[u32]) -> FrameBuf<u32> {
    let mut b = PixelBuffer::new(Size::new(values.len() as u32, 1), 0u32);
    for (i, v) in values.iter().enumerate() {
        b.set(i, *v);
    }
    FrameBuf::new(b, values.len(), 1).unwrap()
}

#[test]
fn glitch_with_zero_offset_is_identity() {
    for seed in 0..20u64 {
        let mut fb = grid(13, 9);
        let before = fb.data().pixels().to_vec();
        let mut rng = StdRng::seed_from_u64(seed);
        glitch(&mut fb, &mut rng, 0);
        assert_eq!(fb.data().pixels(), &before[..]);
    }
}

#[test]
fn glitch_keeps_pixels_within_their_row() {
    let mut changed = 0;
    for seed in 0..200u64 {
        let w = 1 + (seed as usize * 7) % 23;
        let h = 1 + (seed as usize * 3) % 9;
        let max_offset = 1 + (seed as usize) % 40;
        let mut fb = grid(w, h);
        let before = fb.data().pixels().to_vec();
        let mut rng = StdRng::seed_from_u64(seed);
        glitch(&mut fb, &mut rng, max_offset);
        assert_eq!((fb.width(), fb.height()), (w, h));
        let px = fb.data().pixels();
        assert_eq!(px.len(), w * h);
        for y in 0..h {
            for x in 0..w {
                let v = px[y * w + x] as usize;
                assert_eq!(v / 1000, y, "seed {seed}: pixel ({x}, {y}) came from another row");
                assert!(v % 1000 < w);
            }
        }
        if px != &before[..] {
            changed += 1;
        }
    }
    assert!(changed > 0);
}

#[test]
fn glitch_row_moves_right_without_smearing() {
    let mut fb = row(&[0, 1, 2, 3, 4, 5, 6, 7]);
    glitch_row(&mut fb, 0, 8, 6, 1, 4);
    assert_eq!(fb.data().pixels(), &[0, 1, 2, 1, 2, 3, 6, 7]);
}

#[test]
fn glitch_row_moves_left_without_smearing() {
    let mut fb = row(&[0, 1, 2, 3, 4, 5, 6, 7]);
    glitch_row(&mut fb, 0, 8, 2, 6, 3);
    assert_eq!(fb.data().pixels(), &[0, 3, 4, 5, 4, 5, 6, 7]);
}

#[test]
fn glitch_row_clamps_at_row_end() {
    let mut fb = row(&[0, 1, 2, 3, 4, 5, 6, 7]);
    glitch_row(&mut fb, 0, 8, 6, 5, 7);
    assert_eq!(fb.data().pixels(), &[0, 1, 2, 3, 4, 5, 6, 5]);
    let mut fb = row(&[0, 1, 2, 3, 4, 5, 6, 7]);
    glitch_row(&mut fb, 0, 8, 0, 3, 6);
    assert_eq!(fb.data().pixels(), &[3, 4, 2, 3, 4, 5, 6, 7]);
    let mut fb = row(&[0, 1, 2, 3, 4, 5, 6, 7]);
    glitch_row(&mut fb, 0, 8, 0, 1, 3);
    assert_eq!(fb.data().pixels(), &[0, 1, 2, 3, 4, 5, 6, 7]);
}

#[test]
fn glitch_row_touches_only_its_row() {
    let mut fb = grid(8, 3);
    glitch_row(&mut fb, 1, 8, 6, 1, 4);
    let px = fb.data().pixels();
    assert_eq!(&px[0..8], &[0, 1, 2, 3, 4, 5, 6, 7]);
    assert_eq!(&px[8..16], &[1000, 1001, 1002, 1001, 1002, 1003, 1006, 1007]);
    assert_eq!(&px[16..24], &[2000, 2001, 2002, 2003, 2004, 2005, 2006, 2007]);
}

#[test]
fn one_row_in_four_is_selected() {
    assert!(should_glitch(0));
    assert!(should_glitch(31));
    assert!(!should_glitch(32));
    assert!(!should_glitch(127));
    assert!(should_glitch(128 + 5));
}

#[test]
fn row_ranges_order_and_clamp() {
    let fb = row(&[0; 10]);
    let r = RowOffset::new(7, &fb).range_to(2).to_range();
    assert_eq!(r, 2..7);
    let r = RowOffset::new(15, &fb).range_to(20).to_range();
    assert_eq!(r, 10..10);
    let base = RowOffset::new(3, &fb).range_to(6);
    assert_eq!(base.offset(2).to_range(), 5..8);
    assert_eq!(base.offset(6).to_range(), 9..10);
    assert_eq!(base.offset(-4).to_range(), 0..2);
    assert_eq!(base.offset(-10).to_range(), 0..0);
    assert_eq!(base.offset(isize::MAX).to_range(), 10..10);
    assert_eq!(base.offset(isize::MIN).to_range(), 0..0);
}

#[test]
fn glitch_on_empty_rows_changes_nothing() {
    let b = PixelBuffer::new(Size::new(0, 5), 0u32);
    let mut fb = FrameBuf::new(b, 0, 5).unwrap();
    let mut rng = StdRng::seed_from_u64(2);
    glitch(&mut fb, &mut rng, 7);
    assert_eq!(fb.data().nr_elements(), 0);
    let mut fb = grid(1, 4);
    glitch(&mut fb, &mut rng, 9);
    assert_eq!(fb.data().pixels(), &[0, 1000, 2000, 3000]);
}
