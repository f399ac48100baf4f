use evil_android::buffer::PixelBuffer;
use evil_android::color::Color;
use evil_android::error::Error;
use evil_android::frame::FrameBuf;
use evil_android::geometry::{Point, Size};
use evil_android::image::{ColorImage, MaskImage, MaskedImage};

fn solid(size: Size, c: Color) -> ColorImage {
    ColorImage::new(size, vec![c; (size.width * size.height) as usize]).unwrap()
}

fn mask(size: Size, bits: &[bool]) -> MaskImage {
    MaskImage::new(size, bits.to_vec()).unwrap()
}

fn target(w: usize, h: usize, c: Color) -> FrameBuf<Color> {
    FrameBuf::new(PixelBuffer::new(Size::new(w as u32, h as u32), c), w, h).unwrap()
}

#[test]
fn masked_image_accepts_equal_sizes() {
    for (w, h) in [(1u32, 1u32), (2, 2), (5, 3), (0, 0)] {
        let size = Size::new(w, h);
        let bits = vec![true; (w * h) as usize];
        let r = MaskedImage::new(solid(size, Color::white()), mask(size, &bits), Point::new(0, 0));
        assert!(r.is_ok());
        assert_eq!(r.unwrap().size(), size);
    }
}

#[test]
fn masked_image_rejects_unequal_sizes() {
    let pairs = [((2u32, 2u32), (2u32, 3u32)), ((3, 1), (1, 3)), ((4, 4), (0, 0))];
    for ((cw, ch), (mw, mh)) in pairs {
        let c = solid(Size::new(cw, ch), Color::white());
        let m = mask(Size::new(mw, mh), &vec![false; (mw * mh) as usize]);
        let r = MaskedImage::new(c, m, Point::new(0, 0));
        assert!(matches!(r, Err(Error::DimensionMismatch)));
    }
}

#[test]
fn raster_rejects_wrong_pixel_count() {
    assert!(matches!(
        ColorImage::new(Size::new(2, 2), vec![Color::black(); 3]),
        Err(Error::DimensionMismatch)
    ));
    assert!(matches!(MaskImage::new(Size::new(2, 2), vec![true; 5]), Err(Error::DimensionMismatch)));
}

#[test]
fn masked_draw_sets_only_masked_pixels() {
    let size = Size::new(2, 2);
    let c = Color::new(10, 20, 30);
    let img = MaskedImage::new(solid(size, c), mask(size, &[true, false, false, true]), Point::new(0, 0))
        .unwrap();
    let bg = Color::black();
    let mut fb = target(2, 2, bg);
    img.draw(&mut fb);
    assert_eq!(fb.data().pixels(), &[c, bg, bg, c]);
}

#[test]
fn masked_draw_uses_each_pixel_color_and_offset() {
    let size = Size::new(2, 2);
    let colors: Vec<Color> = (0..4).map(|i| Color::new(i, 0, 0)).collect();
    let img = MaskedImage::new(
        ColorImage::new(size, colors.clone()).unwrap(),
        mask(size, &[true, true, false, true]),
        Point::new(2, 1),
    )
    .unwrap();
    let bg = Color::new(0, 63, 0);
    let mut fb = target(4, 3, bg);
    img.draw(&mut fb);
    let px = fb.data().pixels();
    for y in 0..3 {
        for x in 0..4 {
            let want = match (x, y) {
                (2, 1) => colors[0],
                (3, 1) => colors[1],
                (3, 2) => colors[3],
                _ => bg,
            };
            assert_eq!(px[y * 4 + x], want, "pixel ({x}, {y})");
        }
    }
}

#[test]
fn masked_draw_clips_at_edges() {
    let size = Size::new(3, 3);
    let c = Color::white();
    let mut img = MaskedImage::new(solid(size, c), mask(size, &[true; 9]), Point::new(-2, -2)).unwrap();
    let bg = Color::black();
    let mut fb = target(2, 2, bg);
    img.draw(&mut fb);
    assert_eq!(fb.data().pixels(), &[c, bg, bg, bg]);
    img.set_pos(Point::new(1, 1));
    let mut fb = target(2, 2, bg);
    img.draw(&mut fb);
    assert_eq!(fb.data().pixels(), &[bg, bg, bg, c]);
}

#[test]
fn color_raster_reads_big_endian_pixels() {
    let data = [0x12u8, 0x34, 0xAB, 0xCD, 0xFF];
    let img = ColorImage::from_raw(&data, 1);
    assert_eq!(img.size(), Size::new(1, 2));
    assert_eq!(img.pixel(0, 0).raw, 0x1234);
    assert_eq!(img.pixel(0, 1).raw, 0xABCD);
    let empty = ColorImage::from_raw(&data, 0);
    assert_eq!(empty.size(), Size::new(0, 0));
    let short = ColorImage::from_raw(&data, 3);
    assert_eq!(short.size(), Size::new(3, 0));
}

#[test]
fn mask_raster_reads_padded_rows_msb_first() {
    let data = [0b1010_0000u8, 0b0110_0000, 0b1000_0000];
    let m = MaskImage::from_raw(&data, 3);
    assert_eq!(m.size(), Size::new(3, 3));
    let rows: Vec<Vec<bool>> = (0..3).map(|y| (0..3).map(|x| m.is_on(x, y)).collect()).collect();
    assert_eq!(rows[0], vec![true, false, true]);
    assert_eq!(rows[1], vec![false, true, true]);
    assert_eq!(rows[2], vec![true, false, false]);
    let wide = MaskImage::from_raw(&[0xFF, 0x80, 0x00, 0x00], 9);
    assert_eq!(wide.size(), Size::new(9, 2));
    assert!((0..9).all(|x| wide.is_on(x, 0)));
    assert!((0..9).all(|x| !wide.is_on(x, 1)));
}
