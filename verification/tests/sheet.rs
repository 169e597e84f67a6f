use foto_acte::portrait::{CropRect, RenderPlan};
use foto_acte::{
    compose_sheet, default_file_name, encode_print_jpeg, print_file, render_portrait, RgbImage, PHOTO_HEIGHT, PHOTO_WIDTH, SHEET_HEIGHT,
    SHEET_WIDTH,
};

#[test]
fn sheet_has_exact_dimensions_and_six_copies() {
    let red = [200, 10, 10];
    let portrait = RgbImage::from_pixel(PHOTO_WIDTH, PHOTO_HEIGHT, red);
    let sheet = compose_sheet(&portrait, SHEET_WIDTH, SHEET_HEIGHT);
    let horizontal_gap = (SHEET_WIDTH - 3 * PHOTO_WIDTH) / 4;
    let vertical_gap = (SHEET_HEIGHT - 2 * PHOTO_HEIGHT) / 3;

    assert_eq!(sheet.dimensions(), (SHEET_WIDTH, SHEET_HEIGHT));
    for row in 0..2 {
        for column in 0..3 {
            let x = horizontal_gap + column * (PHOTO_WIDTH + horizontal_gap);
            let y = vertical_gap + row * (PHOTO_HEIGHT + vertical_gap);
            assert_eq!(sheet.get_pixel(x, y), red);
            assert_eq!(sheet.get_pixel(x + PHOTO_WIDTH - 1, y + PHOTO_HEIGHT - 1), red);
        }
    }
    assert_eq!(sheet.get_pixel(0, 0), [255, 255, 255]);
}

#[test]
fn sheet_gaps_are_white() {
    let portrait = RgbImage::from_pixel(2, 3, [1, 2, 3]);
    // Width 10: gap (10 - 6) / 4 = 1; height 9: gap (9 - 6) / 3 = 1.
    let sheet = compose_sheet(&portrait, 10, 9);
    assert_eq!(sheet.get_pixel(1, 1), [1, 2, 3]);
    assert_eq!(sheet.get_pixel(3, 1), [255, 255, 255]);
    assert_eq!(sheet.get_pixel(4, 1), [1, 2, 3]);
    assert_eq!(sheet.get_pixel(7, 3), [1, 2, 3]);
    assert_eq!(sheet.get_pixel(9, 8), [255, 255, 255]);
    assert_eq!(sheet.get_pixel(8, 5), [1, 2, 3]);
    assert_eq!(sheet.get_pixel(8, 4), [255, 255, 255]);
}

#[test]
fn sheet_copies_keep_the_portrait_pixels() {
    let mut portrait = RgbImage::from_pixel(2, 2, [0, 0, 0]);
    let dot = RgbImage::from_pixel(1, 1, [9, 9, 9]);
    portrait.replace(&dot, 1, 1);
    let sheet = compose_sheet(&portrait, 8, 6);
    // gaps: (8 - 6) / 4 = 0 and (6 - 4) / 3 = 0, so the copies touch.
    assert_eq!(sheet.get_pixel(1, 1), [9, 9, 9]);
    assert_eq!(sheet.get_pixel(5, 3), [9, 9, 9]);
    assert_eq!(sheet.get_pixel(4, 2), [0, 0, 0]);
    assert_eq!(sheet.get_pixel(7, 5), [255, 255, 255]);
}

#[test]
fn print_file_is_a_jpeg() {
    let sheet = RgbImage::from_pixel(16, 8, [120, 130, 140]);
    let bytes = encode_print_jpeg(&sheet).ok().expect("a non-empty sheet encodes");
    assert_eq!(&bytes[0..2], &[0xFF, 0xD8]);
    assert_eq!(&bytes[bytes.len() - 2..], &[0xFF, 0xD9]);
}

#[test]
fn empty_sheet_is_not_encoded() {
    let sheet = RgbImage::new(0, 5);
    assert!(encode_print_jpeg(&sheet).is_err());
}

#[test]
fn print_sizes_at_300_dpi() {
    let nearest = |pixels: u32, centimetres: i64| (pixels as i64 * 254 - centimetres * 100 * foto_acte::DPI as i64).abs() <= 127;
    assert!(nearest(PHOTO_WIDTH, 3));
    assert!(nearest(PHOTO_HEIGHT, 4));
    assert!(nearest(SHEET_WIDTH, 15));
    assert!(nearest(SHEET_HEIGHT, 10));
    assert_eq!((PHOTO_WIDTH, PHOTO_HEIGHT, SHEET_WIDTH, SHEET_HEIGHT), (354, 472, 1772, 1181));
}

#[test]
fn print_file_is_the_encoded_sheet_of_the_portrait() {
    let source = RgbImage::from_pixel(PHOTO_WIDTH, PHOTO_HEIGHT, [90, 140, 200]);
    let mut levels = [0u8; 256];
    for (c, level) in levels.iter_mut().enumerate() {
        *level = c as u8;
    }
    let plan = RenderPlan {
        crop: CropRect { x: 0, y: 0, width: PHOTO_WIDTH, height: PHOTO_HEIGHT },
        levels,
        background: None,
    };
    let bytes = print_file(&source, None, &plan).unwrap();
    let portrait = render_portrait(&source, None, &plan, PHOTO_WIDTH, PHOTO_HEIGHT);
    let sheet = compose_sheet(&portrait, SHEET_WIDTH, SHEET_HEIGHT);
    assert_eq!(bytes, encode_print_jpeg(&sheet).unwrap());
    assert_eq!(&bytes[..2], &[0xff, 0xd8]);
    let decoded = image::load_from_memory(&bytes).unwrap();
    assert_eq!((decoded.width(), decoded.height()), (SHEET_WIDTH, SHEET_HEIGHT));
}

#[test]
fn print_file_name_follows_the_photo_name() {
    assert_eq!(String::from_utf8(default_file_name(Some("vacanta"))).unwrap(), "vacanta_6_poze_3x4.jpg");
    assert_eq!(String::from_utf8(default_file_name(Some("poză"))).unwrap(), "poză_6_poze_3x4.jpg");
    assert_eq!(String::from_utf8(default_file_name(None)).unwrap(), "6_poze_3x4.jpg");
}

#[test]
fn print_file_of_a_frame_at_print_size_holds_that_frame() {
    // The frame is already 354 x 472, so the portrait is the frame itself.
    let mut source = RgbImage::from_pixel(PHOTO_WIDTH + 10, PHOTO_HEIGHT, [0, 0, 0]);
    let frame = RgbImage::from_pixel(PHOTO_WIDTH, PHOTO_HEIGHT, [30, 60, 90]);
    source.replace(&frame, 10, 0);
    let mut levels = [0u8; 256];
    for (c, level) in levels.iter_mut().enumerate() {
        *level = c as u8;
    }
    let plan = RenderPlan {
        crop: CropRect { x: 10, y: 0, width: PHOTO_WIDTH, height: PHOTO_HEIGHT },
        levels,
        background: None,
    };
    let bytes = print_file(&source, None, &plan).unwrap();
    let sheet = compose_sheet(&frame, SHEET_WIDTH, SHEET_HEIGHT);
    assert_eq!(bytes, encode_print_jpeg(&sheet).unwrap());
}
