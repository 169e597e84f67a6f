use foto_acte::portrait::{CropRect, RenderPlan};
use foto_acte::{
    apply_levels, finish_portrait, mix_channel, render_portrait, replace_background, GrayImage, RgbImage,
    PHOTO_HEIGHT, PHOTO_WIDTH,
};

/// The level table of brightness `brightness` and no contrast change: each level
/// moved by `brightness` and held to 0..=255.
fn brightness_levels(brightness: i32) -> [u8; 256] {
    let mut levels = [0u8; 256];
    for c in 0..256i32 {
        levels[c as usize] = (c + brightness).clamp(0, 255) as u8;
    }
    levels
}

fn identity_levels() -> [u8; 256] {
    brightness_levels(0)
}

/// The whole frame of a photo, as zoom 1 with centred offsets frames a photo
/// whose aspect ratio is the target's.
fn whole(width: u32, height: u32) -> CropRect {
    CropRect { x: 0, y: 0, width, height }
}

#[test]
fn portrait_has_exact_print_dimensions() {
    let source = RgbImage::new(1200, 800);
    // Zoom 1 and centred offsets on a 1200 x 800 photo frame the centred 600 x 800 part.
    let plan = RenderPlan {
        crop: CropRect { x: 300, y: 0, width: 600, height: 800 },
        levels: identity_levels(),
        background: None,
    };
    let portrait = render_portrait(&source, None, &plan, PHOTO_WIDTH, PHOTO_HEIGHT);

    assert_eq!(portrait.dimensions(), (PHOTO_WIDTH, PHOTO_HEIGHT));
}

#[test]
fn mask_replaces_only_the_background() {
    let source = RgbImage::from_pixel(3, 4, [200, 20, 10]);
    let mut mask = GrayImage::from_pixel(3, 4, 0);
    mask.put_pixel(1, 1, 255);
    let plan = RenderPlan { crop: whole(3, 4), levels: identity_levels(), background: Some([255, 255, 255]) };
    let portrait = render_portrait(&source, Some(&mask), &plan, 3, 4);

    assert_eq!(portrait.get_pixel(0, 0), [255, 255, 255]);
    assert_eq!(portrait.get_pixel(1, 1), [200, 20, 10]);
}

#[test]
fn brightness_is_applied_before_compositing() {
    let source = RgbImage::from_pixel(3, 4, [100, 100, 100]);
    let mask = GrayImage::from_pixel(3, 4, 0);
    let plan = RenderPlan { crop: whole(3, 4), levels: brightness_levels(50), background: Some([10, 20, 30]) };
    let portrait = render_portrait(&source, Some(&mask), &plan, 3, 4);

    assert_eq!(portrait.get_pixel(1, 1), [10, 20, 30]);
}

#[test]
fn brightness_shows_where_the_mask_is_opaque() {
    let source = RgbImage::from_pixel(3, 4, [100, 100, 100]);
    let mask = GrayImage::from_pixel(3, 4, 255);
    let plan = RenderPlan { crop: whole(3, 4), levels: brightness_levels(50), background: Some([10, 20, 30]) };
    let portrait = render_portrait(&source, Some(&mask), &plan, 3, 4);

    assert_eq!(portrait.get_pixel(2, 3), [150, 150, 150]);
}

#[test]
fn original_background_ignores_the_mask() {
    let source = RgbImage::from_pixel(3, 4, [7, 8, 9]);
    let mask = GrayImage::from_pixel(3, 4, 0);
    let plan = RenderPlan { crop: whole(3, 4), levels: identity_levels(), background: None };
    let portrait = render_portrait(&source, Some(&mask), &plan, 3, 4);

    assert_eq!(portrait.get_pixel(0, 0), [7, 8, 9]);
}

#[test]
fn portrait_keeps_the_framed_part() {
    // Left half red, right half blue; framing the right half alone gives blue.
    let mut source = RgbImage::from_pixel(4, 2, [255, 0, 0]);
    let right = RgbImage::from_pixel(2, 2, [0, 0, 255]);
    source.replace(&right, 2, 0);
    let plan = RenderPlan { crop: CropRect { x: 2, y: 0, width: 2, height: 2 }, levels: identity_levels(), background: None };
    let portrait = render_portrait(&source, None, &plan, 2, 2);

    assert_eq!(portrait.get_pixel(0, 0), [0, 0, 255]);
    assert_eq!(portrait.get_pixel(1, 1), [0, 0, 255]);
}

#[test]
fn resampled_portrait_has_target_size_and_mask_is_resampled_too() {
    let source = RgbImage::from_pixel(30, 40, [50, 60, 70]);
    let mask = GrayImage::from_pixel(30, 40, 0);
    let plan = RenderPlan { crop: whole(30, 40), levels: identity_levels(), background: Some([1, 2, 3]) };
    let portrait = render_portrait(&source, Some(&mask), &plan, 9, 12);

    assert_eq!(portrait.dimensions(), (9, 12));
    assert_eq!(portrait.get_pixel(4, 6), [1, 2, 3]);
}

#[test]
fn mix_rounds_to_nearest_level() {
    assert_eq!(mix_channel(200, 255, 0), 200);
    assert_eq!(mix_channel(200, 0, 17), 17);
    assert_eq!(mix_channel(255, 128, 0), 128);
    assert_eq!(mix_channel(0, 128, 255), 127);
    assert_eq!(mix_channel(90, 51, 90), 90);
}

#[test]
fn levels_map_every_byte() {
    let mut image = RgbImage::from_pixel(2, 1, [0, 128, 250]);
    apply_levels(&mut image, &brightness_levels(10));
    assert_eq!(image.get_pixel(1, 0), [10, 138, 255]);
    apply_levels(&mut image, &brightness_levels(-20));
    assert_eq!(image.get_pixel(0, 0), [0, 118, 235]);
}

#[test]
fn background_replacement_follows_the_mask() {
    let mut image = RgbImage::from_pixel(2, 1, [100, 100, 100]);
    let mut alpha = GrayImage::from_pixel(2, 1, 0);
    alpha.put_pixel(1, 0, 255);
    replace_background(&mut image, &alpha, [0, 50, 200]);
    assert_eq!(image.get_pixel(0, 0), [0, 50, 200]);
    assert_eq!(image.get_pixel(1, 0), [100, 100, 100]);
}

#[test]
fn shorter_mask_leaves_the_rest() {
    let mut image = RgbImage::from_pixel(2, 1, [100, 100, 100]);
    let alpha = GrayImage::from_pixel(1, 1, 0);
    replace_background(&mut image, &alpha, [0, 0, 0]);
    assert_eq!(image.get_pixel(0, 0), [0, 0, 0]);
    assert_eq!(image.get_pixel(1, 0), [100, 100, 100]);
}

#[test]
fn portrait_matches_the_image_crate_pipeline() {
    let bytes: Vec<u8> = (0..6 * 8 * 3).map(|i| (i * 37 % 251) as u8).collect();
    let mask_bytes: Vec<u8> = (0..6 * 8).map(|i| (i * 91 % 256) as u8).collect();
    let background = [12u8, 200, 99];
    let levels = brightness_levels(-15);

    let source = RgbImage::from_raw(6, 8, bytes.clone()).unwrap();
    let mask = GrayImage::from_raw(6, 8, mask_bytes.clone()).unwrap();
    let plan = RenderPlan { crop: CropRect { x: 1, y: 2, width: 4, height: 5 }, levels, background: Some(background) };
    let ours = render_portrait(&source, Some(&mask), &plan, 3, 4);

    let dynamic = image::DynamicImage::ImageRgb8(image::RgbImage::from_raw(6, 8, bytes).unwrap());
    let mut theirs = dynamic
        .crop_imm(1, 2, 4, 5)
        .resize_exact(3, 4, image::imageops::FilterType::Lanczos3)
        .to_rgb8();
    for channel in theirs.iter_mut() {
        *channel = levels[*channel as usize];
    }
    let gray = image::GrayImage::from_raw(6, 8, mask_bytes).unwrap();
    let cropped_mask = image::imageops::crop_imm(&gray, 1, 2, 4, 5).to_image();
    let resized_mask = image::imageops::resize(&cropped_mask, 3, 4, image::imageops::FilterType::Triangle);
    for (pixel, alpha) in theirs.pixels_mut().zip(resized_mask.pixels()) {
        let foreground = alpha[0] as u16;
        let backdrop = 255 - foreground;
        for channel in 0..3 {
            pixel[channel] =
                ((pixel[channel] as u16 * foreground + background[channel] as u16 * backdrop + 127) / 255) as u8;
        }
    }
    assert_eq!(ours.as_raw(), theirs.as_raw());
}

#[test]
fn finished_portrait_resamples_the_mask_linearly() {
    let bytes: Vec<u8> = (0..3 * 4 * 3).map(|i| (i * 53 % 249) as u8).collect();
    let mask_bytes: Vec<u8> = (0..6 * 8).map(|i| (i * 77 % 256) as u8).collect();
    let background = [240u8, 5, 60];
    let levels = brightness_levels(12);

    let photo = RgbImage::from_raw(3, 4, bytes.clone()).unwrap();
    let mask = GrayImage::from_raw(6, 8, mask_bytes.clone()).unwrap();
    let plan = RenderPlan { crop: whole(3, 4), levels, background: Some(background) };
    let ours = finish_portrait(photo, Some(&mask), &plan);

    let mut theirs = image::RgbImage::from_raw(3, 4, bytes).unwrap();
    for channel in theirs.iter_mut() {
        *channel = levels[*channel as usize];
    }
    let gray = image::GrayImage::from_raw(6, 8, mask_bytes).unwrap();
    let alpha = image::imageops::resize(&gray, 3, 4, image::imageops::FilterType::Triangle);
    for (pixel, a) in theirs.pixels_mut().zip(alpha.pixels()) {
        for channel in 0..3 {
            pixel[channel] = mix_channel(pixel[channel], a[0], background[channel]);
        }
    }
    assert_eq!(ours.dimensions(), (3, 4));
    assert_eq!(ours.as_raw(), theirs.as_raw());
}

#[test]
fn finished_portrait_without_background_only_applies_levels() {
    let photo = RgbImage::from_pixel(2, 2, [10, 20, 30]);
    let mask = GrayImage::from_pixel(2, 2, 0);
    let plan = RenderPlan { crop: whole(2, 2), levels: brightness_levels(5), background: None };
    let ours = finish_portrait(photo, Some(&mask), &plan);
    assert_eq!(ours.get_pixel(1, 1), [15, 25, 35]);
}

#[test]
fn composited_bytes_lie_between_photo_and_background() {
    let bytes: Vec<u8> = (0..5 * 6 * 3).map(|i| (i * 29 % 256) as u8).collect();
    let mask_bytes: Vec<u8> = (0..5 * 6).map(|i| (i * 41 % 256) as u8).collect();
    let background = [0u8, 128, 255];
    let mask = GrayImage::from_raw(5, 6, mask_bytes).unwrap();
    let plain_plan = RenderPlan { crop: whole(5, 6), levels: identity_levels(), background: None };
    let plan = RenderPlan { crop: whole(5, 6), levels: identity_levels(), background: Some(background) };
    let plain = finish_portrait(RgbImage::from_raw(5, 6, bytes.clone()).unwrap(), Some(&mask), &plain_plan);
    let out = finish_portrait(RgbImage::from_raw(5, 6, bytes).unwrap(), Some(&mask), &plan);
    for (j, (&p, &o)) in plain.as_raw().iter().zip(out.as_raw().iter()).enumerate() {
        let b = background[j % 3];
        assert!(p.min(b) <= o && o <= p.max(b));
        assert_eq!(o, mix_channel(p, mask.as_raw()[j / 3], b));
    }
}

#[test]
fn transparent_mask_of_any_size_gives_the_background() {
    let bytes: Vec<u8> = (0..8 * 6 * 3).map(|i| (i * 19 % 256) as u8).collect();
    let source = RgbImage::from_raw(8, 6, bytes).unwrap();
    let mask = GrayImage::from_pixel(8, 6, 0);
    let plan = RenderPlan {
        crop: CropRect { x: 1, y: 1, width: 6, height: 4 },
        levels: brightness_levels(40),
        background: Some([70, 80, 90]),
    };
    let portrait = render_portrait(&source, Some(&mask), &plan, 9, 5);
    for y in 0..5 {
        for x in 0..9 {
            assert_eq!(portrait.get_pixel(x, y), [70, 80, 90]);
        }
    }
}
