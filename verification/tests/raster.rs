use foto_acte::{GrayImage, Orientation, ResampleFilter, RgbImage};
use image::metadata::Orientation as Exif;

#[test]
fn new_images_are_black_and_sized() {
    let image = RgbImage::new(3, 2);
    assert_eq!(image.dimensions(), (3, 2));
    assert_eq!(image.get_pixel(2, 1), [0, 0, 0]);
    assert_eq!(image.as_raw().len(), 18);
    let mask = GrayImage::new(4, 5);
    assert_eq!(mask.dimensions(), (4, 5));
    assert_eq!(mask.get_pixel(3, 4), 0);
}

#[test]
fn from_raw_checks_the_length() {
    assert!(RgbImage::from_raw(2, 2, vec![0; 11]).is_none());
    let image = RgbImage::from_raw(2, 1, vec![1, 2, 3, 4, 5, 6]).unwrap();
    assert_eq!(image.get_pixel(1, 0), [4, 5, 6]);
    assert!(GrayImage::from_raw(2, 2, vec![0; 5]).is_none());
    assert_eq!(GrayImage::from_raw(2, 1, vec![7, 8]).unwrap().get_pixel(1, 0), 8);
}

#[test]
fn crop_takes_the_rectangle() {
    let image = RgbImage::from_raw(3, 2, (0u8..18).collect()).unwrap();
    let part = image.crop(1, 1, 2, 1);
    assert_eq!(part.dimensions(), (2, 1));
    assert_eq!(part.get_pixel(0, 0), [12, 13, 14]);
    assert_eq!(part.get_pixel(1, 0), [15, 16, 17]);
}

#[test]
fn crop_is_trimmed_to_the_image() {
    let image = RgbImage::from_pixel(3, 2, [1, 1, 1]);
    assert_eq!(image.crop(2, 1, 10, 10).dimensions(), (1, 1));
    assert_eq!(image.crop(5, 5, 2, 2).dimensions(), (0, 0));
    let mask = GrayImage::from_raw(2, 2, vec![1, 2, 3, 4]).unwrap();
    let part = mask.crop(1, 0, 5, 5);
    assert_eq!(part.dimensions(), (1, 2));
    assert_eq!(part.get_pixel(0, 1), 4);
}

#[test]
fn replace_clips_at_every_edge() {
    let mut bottom = RgbImage::from_pixel(3, 3, [0, 0, 0]);
    let top = RgbImage::from_pixel(2, 2, [5, 5, 5]);
    bottom.replace(&top, -1, -1);
    assert_eq!(bottom.get_pixel(0, 0), [5, 5, 5]);
    assert_eq!(bottom.get_pixel(1, 0), [0, 0, 0]);
    bottom.replace(&top, 2, 2);
    assert_eq!(bottom.get_pixel(2, 2), [5, 5, 5]);
    assert_eq!(bottom.get_pixel(1, 2), [0, 0, 0]);
    bottom.replace(&top, i64::MIN, i64::MAX);
    assert_eq!(bottom.get_pixel(1, 1), [0, 0, 0]);
}

#[test]
fn put_pixel_changes_one_pixel() {
    let mut mask = GrayImage::new(2, 2);
    mask.put_pixel(0, 1, 9);
    assert_eq!(mask.as_raw(), &vec![0, 0, 9, 0]);
}

#[test]
fn resize_reaches_the_new_size() {
    let image = RgbImage::from_pixel(10, 6, [40, 80, 120]);
    let smaller = image.resize_exact(5, 3, ResampleFilter::Lanczos3);
    assert_eq!(smaller.dimensions(), (5, 3));
    assert_eq!(smaller.get_pixel(2, 1), [40, 80, 120]);
    let mask = GrayImage::from_pixel(4, 4, 200);
    let larger = mask.resize(8, 2, ResampleFilter::Triangle);
    assert_eq!(larger.dimensions(), (8, 2));
    assert_eq!(larger.get_pixel(7, 1), 200);
}

#[test]
fn resize_to_the_same_size_copies() {
    let image = RgbImage::from_raw(2, 1, vec![1, 2, 3, 4, 5, 6]).unwrap();
    assert_eq!(image.resize_exact(2, 1, ResampleFilter::Lanczos3).as_raw(), &vec![1, 2, 3, 4, 5, 6]);
}

#[test]
fn linear_resize_matches_the_image_crate() {
    let bytes: Vec<u8> = (0..7 * 5 * 3).map(|i| (i * 61 % 256) as u8).collect();
    let ours = RgbImage::from_raw(7, 5, bytes.clone()).unwrap().resize_exact(4, 9, ResampleFilter::Triangle);
    let theirs = image::DynamicImage::ImageRgb8(image::RgbImage::from_raw(7, 5, bytes).unwrap())
        .resize_exact(4, 9, image::imageops::FilterType::Triangle)
        .into_rgb8();
    assert_eq!(ours.dimensions(), (4, 9));
    assert_eq!(ours.as_raw(), theirs.as_raw());
}

fn row(values: &[u8]) -> RgbImage {
    let mut bytes = Vec::new();
    for v in values {
        bytes.extend_from_slice(&[*v, *v, *v]);
    }
    RgbImage::from_raw(values.len() as u32, 1, bytes).unwrap()
}

#[test]
fn quarter_turns_stand_a_row_up() {
    // A 3 x 1 row [1, 2, 3] turned a quarter clockwise reads 1, 2, 3 from top to bottom.
    let mut image = row(&[1, 2, 3]);
    image.apply_orientation(Orientation::Rotate90);
    assert_eq!(image.dimensions(), (1, 3));
    assert_eq!(image.get_pixel(0, 0), [1, 1, 1]);
    assert_eq!(image.get_pixel(0, 2), [3, 3, 3]);
    let mut other = row(&[1, 2, 3]);
    other.apply_orientation(Orientation::Rotate270);
    assert_eq!(other.get_pixel(0, 0), [3, 3, 3]);
}

#[test]
fn mirror_and_half_turn() {
    let mut image = row(&[1, 2, 3]);
    image.apply_orientation(Orientation::FlipHorizontal);
    assert_eq!(image.get_pixel(0, 0), [3, 3, 3]);
    image.apply_orientation(Orientation::Rotate180);
    assert_eq!(image.get_pixel(0, 0), [1, 1, 1]);
    image.apply_orientation(Orientation::FlipVertical);
    assert_eq!(image.get_pixel(2, 0), [3, 3, 3]);
}

#[test]
fn transposes() {
    let mut image = RgbImage::from_raw(2, 1, vec![1, 1, 1, 2, 2, 2]).unwrap();
    image.apply_orientation(Orientation::Rotate90FlipH);
    assert_eq!(image.dimensions(), (1, 2));
    assert_eq!(image.get_pixel(0, 1), [2, 2, 2]);
    let mut other = RgbImage::from_raw(2, 1, vec![1, 1, 1, 2, 2, 2]).unwrap();
    other.apply_orientation(Orientation::Rotate270FlipH);
    assert_eq!(other.get_pixel(0, 0), [2, 2, 2]);
    let mut same = RgbImage::from_raw(2, 1, vec![1, 1, 1, 2, 2, 2]).unwrap();
    same.apply_orientation(Orientation::NoTransforms);
    assert_eq!(same.get_pixel(1, 0), [2, 2, 2]);
}

#[test]
fn turns_match_the_image_crate() {
    let pairs = [
        (Exif::NoTransforms, Orientation::NoTransforms),
        (Exif::Rotate90, Orientation::Rotate90),
        (Exif::Rotate180, Orientation::Rotate180),
        (Exif::Rotate270, Orientation::Rotate270),
        (Exif::FlipHorizontal, Orientation::FlipHorizontal),
        (Exif::FlipVertical, Orientation::FlipVertical),
        (Exif::Rotate90FlipH, Orientation::Rotate90FlipH),
        (Exif::Rotate270FlipH, Orientation::Rotate270FlipH),
    ];
    let bytes: Vec<u8> = (0u8..18).collect();
    for (exif, turn) in pairs {
        let mut theirs =
            image::DynamicImage::ImageRgb8(image::RgbImage::from_raw(3, 2, bytes.clone()).unwrap());
        theirs.apply_orientation(exif);
        let theirs = theirs.into_rgb8();
        let mut ours = RgbImage::from_raw(3, 2, bytes.clone()).unwrap();
        ours.apply_orientation(turn);
        assert_eq!(ours.dimensions(), theirs.dimensions());
        assert_eq!(ours.as_raw(), theirs.as_raw());
    }
}

#[test]
fn crop_and_replace_match_the_image_crate() {
    let bytes: Vec<u8> = (0u8..60).collect();
    let theirs = image::RgbImage::from_raw(5, 4, bytes.clone()).unwrap();
    let ours = RgbImage::from_raw(5, 4, bytes).unwrap();
    for (x, y, w, h) in [(1, 1, 2, 2), (3, 2, 9, 9), (7, 0, 1, 1), (0, 0, 5, 4)] {
        let a = image::imageops::crop_imm(&theirs, x, y, w, h).to_image();
        let b = ours.crop(x, y, w, h);
        assert_eq!(b.dimensions(), a.dimensions());
        assert_eq!(b.as_raw(), a.as_raw());
    }
    let top_bytes: Vec<u8> = (100u8..112).collect();
    let top_theirs = image::RgbImage::from_raw(2, 2, top_bytes.clone()).unwrap();
    let top_ours = RgbImage::from_raw(2, 2, top_bytes).unwrap();
    for (x, y) in [(-1i64, -1i64), (4, 3), (2, 1), (5, 0), (-2, 0)] {
        let mut a = theirs.clone();
        image::imageops::replace(&mut a, &top_theirs, x, y);
        let mut b = RgbImage::from_raw(5, 4, theirs.as_raw().clone()).unwrap();
        b.replace(&top_ours, x, y);
        assert_eq!(b.as_raw(), a.as_raw());
    }
}

#[test]
fn resizing_an_all_zero_mask_keeps_it_zero() {
    let mask = GrayImage::from_pixel(13, 7, 0);
    for filter in [ResampleFilter::Triangle, ResampleFilter::Lanczos3] {
        let smaller = mask.resize(4, 3, filter);
        assert!(smaller.as_raw().iter().all(|&v| v == 0));
        let larger = mask.resize(30, 20, filter);
        assert!(larger.as_raw().iter().all(|&v| v == 0));
    }
}
