use floatdo::pet_avatar::{
    content_bounds, crop_to_content, cutout_background, max_alpha_near, multiply_alpha, posterize, posterize_channel, with_alpha, PetStyle, RgbaBuffer,
};
use image::{Rgba, RgbaImage};

fn buffer(img: &RgbaImage) -> RgbaBuffer {
    RgbaBuffer { width: img.width(), height: img.height(), data: img.as_raw().clone() }
}

fn image_of(b: RgbaBuffer) -> RgbaImage {
    RgbaImage::from_raw(b.width, b.height, b.data).unwrap()
}

/// The cut-out picture: the background mask feathered by a one-pixel blur.
fn cut(img: &RgbaImage, tolerance: i32) -> Result<RgbaImage, String> {
    let src = buffer(img);
    let mask = cutout_background(&src, tolerance)?;
    let gray = image::GrayImage::from_raw(
        img.width(),
        img.height(),
        mask.iter().map(|bg| if *bg { 0u8 } else { 255u8 }).collect(),
    )
    .unwrap();
    let soft = image::imageops::blur(&gray, 1.0f32);
    Ok(image_of(with_alpha(&src, &soft.into_raw())))
}

/// A side×side soft mask (0..1) scaled to the picture and multiplied into alpha.
fn apply_mask(img: &RgbaImage, mask: &[f32], side: u32) -> RgbaImage {
    let mut mg = image::GrayImage::new(side, side);
    for j in 0..side {
        for i in 0..side {
            let v = mask[(j * side + i) as usize];
            mg.put_pixel(i, j, image::Luma([(v * 255.0).round() as u8]));
        }
    }
    let resized = image::imageops::resize(&mg, img.width(), img.height(), image::imageops::FilterType::Triangle);
    image_of(multiply_alpha(&buffer(img), &resized.into_raw()))
}

fn fixture_photo() -> RgbaImage {
    let mut img = RgbaImage::new(24, 24);
    for j in 0..24 {
        for i in 0..24 {
            let n = ((i + j) % 3) as u8;
            img.put_pixel(i, j, Rgba([240 + n, 240, 238 + n, 255]));
        }
    }
    for j in 8..16 {
        for i in 8..16 {
            img.put_pixel(i, j, Rgba([30, 120, 220, 255]));
        }
    }
    img
}

#[test]
fn cutout_keeps_subject_and_drops_flat_background() {
    let cut = cut(&fixture_photo(), 20).expect("抠图应成功");
    assert_eq!(cut.get_pixel(0, 0).0[3], 0);
    assert_eq!(cut.get_pixel(23, 23).0[3], 0);
    assert_eq!(cut.get_pixel(12, 12).0[3], 255);
    assert_eq!(cut.get_pixel(12, 12).0, [30, 120, 220, 255]);
}

#[test]
fn cutout_rejects_when_no_subject_found() {
    let mut img = RgbaImage::new(24, 24);
    for j in 0..24 {
        for i in 0..24 {
            img.put_pixel(i, j, Rgba([230, 235, 240, 255]));
        }
    }
    let err = cut(&img, 20).unwrap_err();
    assert!(err.contains("主体"));
}

#[test]
fn cutout_treats_transparent_pixels_as_background() {
    let mut img = RgbaImage::new(24, 24);
    for j in 8..16 {
        for i in 8..16 {
            img.put_pixel(i, j, Rgba([30, 120, 220, 255]));
        }
    }
    let cut = cut(&img, 20).expect("透明底的图应处理成功");
    assert_eq!(cut.get_pixel(0, 0).0[3], 0);
    assert_eq!(cut.get_pixel(12, 12).0, [30, 120, 220, 255]);
}

#[test]
fn style_roundtrip_through_db_strings() {
    for s in [PetStyle::Original, PetStyle::Chibi, PetStyle::Anime, PetStyle::Pixel, PetStyle::Sketch] {
        assert_eq!(PetStyle::from_db(s.as_str()).unwrap(), s);
    }
    assert!(PetStyle::from_db("3d").is_err());
}

#[test]
fn crop_to_content_trims_transparent_margins() {
    let mut img = RgbaImage::new(32, 32);
    for j in 12..20 {
        for i in 12..20 {
            img.put_pixel(i, j, Rgba([10, 20, 30, 255]));
        }
    }
    let out = image_of(crop_to_content(&buffer(&img)));
    assert_eq!(out.dimensions(), (12, 12));
    assert_eq!(out.get_pixel(4, 4).0, [10, 20, 30, 255]);
    assert_eq!(out.get_pixel(0, 0).0[3], 0);
}

#[test]
fn crop_keeps_a_transparent_picture_and_stops_at_the_edges() {
    let img = RgbaImage::new(5, 4);
    assert_eq!(content_bounds(&buffer(&img)), None);
    let same = crop_to_content(&buffer(&img));
    assert_eq!((same.width, same.height), (5, 4));
    let mut img = RgbaImage::new(6, 6);
    img.put_pixel(0, 5, Rgba([1, 2, 3, 200]));
    img.put_pixel(1, 4, Rgba([1, 2, 3, 10]));
    assert_eq!(content_bounds(&buffer(&img)), Some((0, 0, 5, 5)));
    let out = crop_to_content(&buffer(&img));
    assert_eq!((out.width, out.height), (3, 3));
}

#[test]
fn the_largest_piece_wins_and_ties_go_to_the_later_one() {
    // Two equal squares on a flat background: the later one (lower in the picture) is kept.
    let mut img = RgbaImage::from_pixel(30, 30, Rgba([250, 250, 250, 255]));
    for j in 3..9 {
        for i in 3..9 {
            img.put_pixel(i, j, Rgba([200, 0, 0, 255]));
        }
    }
    for j in 15..21 {
        for i in 15..21 {
            img.put_pixel(i, j, Rgba([0, 0, 200, 255]));
        }
    }
    let mask = cutout_background(&buffer(&img), 10).unwrap();
    assert!(mask[5 * 30 + 5]);
    assert!(!mask[17 * 30 + 17]);
    // A larger first square wins.
    for j in 2..10 {
        img.put_pixel(2, j, Rgba([200, 0, 0, 255]));
    }
    let mask = cutout_background(&buffer(&img), 10).unwrap();
    assert!(!mask[5 * 30 + 5]);
    assert!(mask[17 * 30 + 17]);
}

#[test]
fn posterize_quantises_colour_channels_only() {
    assert_eq!(posterize_channel(200, 1), 200);
    assert_eq!(posterize_channel(0, 5), 0);
    assert_eq!(posterize_channel(255, 5), 255);
    assert_eq!(posterize_channel(100, 5), 127);
    let img = RgbaBuffer { width: 1, height: 1, data: vec![100, 200, 30, 77] };
    let out = posterize(&img, 5);
    assert_eq!(out.data, vec![127, 191, 0, 77]);
}

#[test]
fn with_alpha_clears_fully_transparent_pixels() {
    let img = RgbaBuffer { width: 2, height: 1, data: vec![1, 2, 3, 255, 4, 5, 6, 255] };
    let out = with_alpha(&img, &vec![0, 128]);
    assert_eq!(out.data, vec![0, 0, 0, 0, 4, 5, 6, 128]);
}

#[test]
fn apply_mask_multiplies_alpha() {
    let img = RgbaImage::from_pixel(8, 8, Rgba([10, 20, 30, 255]));
    let mut mask = Vec::new();
    for _ in 0..4 {
        mask.extend([1.0f32, 1.0, 0.0, 0.0]);
    }
    let out = apply_mask(&img, &mask, 4);
    assert_eq!(out.get_pixel(1, 4).0[3], 255);
    assert_eq!(out.get_pixel(6, 4).0[3], 0);
    assert_eq!(out.get_pixel(1, 4).0, [10, 20, 30, 255]);
}

#[test]
fn multiply_alpha_scales_and_keeps_colour() {
    let img = RgbaBuffer { width: 2, height: 1, data: vec![1, 2, 3, 200, 4, 5, 6, 255] };
    let out = multiply_alpha(&img, &vec![128, 0]);
    assert_eq!(out.data, vec![1, 2, 3, 100, 4, 5, 6, 0]);
}

#[test]
fn outline_reach_is_the_strongest_alpha_nearby() {
    // 5×1 strip: one opaque pixel in the middle, a faint one at the left end.
    let mut data = vec![0u8; 20];
    data[3] = 40;
    data[2 * 4 + 3] = 255;
    let img = RgbaBuffer { width: 5, height: 1, data };
    assert_eq!(max_alpha_near(&img, 1), vec![40, 255, 255, 255, 0]);
    assert_eq!(max_alpha_near(&img, 0), vec![40, 0, 255, 0, 0]);
    assert_eq!(max_alpha_near(&img, 2), vec![255, 255, 255, 255, 255]);
}

#[test]
fn cutout_of_an_empty_picture_is_empty() {
    let empty = RgbaBuffer { width: 0, height: 0, data: vec![] };
    assert_eq!(cutout_background(&empty, 30).unwrap(), Vec::<bool>::new());
}
