use foto_acte::{open_upright, upright_from_decoded, Orientation, RgbImage};
use image::codecs::png::PngEncoder;
use image::{ExtendedColorType, ImageEncoder};

/// A PNG file of the given RGB pixels, with an EXIF orientation code when one is given.
fn png_file(width: u32, height: u32, pixels: &[u8], exif_code: Option<u8>) -> Vec<u8> {
    let mut file = Vec::new();
    let mut encoder = PngEncoder::new(&mut file);
    if let Some(code) = exif_code {
        // A little-endian TIFF header and one IFD entry: tag 0x0112 (orientation), SHORT, one value.
        let exif = vec![0x49, 0x49, 42, 0, 8, 0, 0, 0, 1, 0, 0x12, 0x01, 3, 0, 1, 0, 0, 0, code, 0, 0, 0];
        encoder.set_exif_metadata(exif).unwrap();
    }
    encoder.write_image(pixels, width, height, ExtendedColorType::Rgb8).unwrap();
    file
}

#[test]
fn opens_a_png_as_it_is() {
    let pixels: Vec<u8> = (0..3 * 2 * 3).map(|i| (i * 13) as u8).collect();
    let photo = open_upright(&png_file(3, 2, &pixels, None), "png").unwrap();
    assert_eq!(photo.dimensions(), (3, 2));
    assert_eq!(photo.as_raw(), &pixels);
}

#[test]
fn opens_a_png_upright_by_its_metadata() {
    let pixels: Vec<u8> = (0..3 * 2 * 3).map(|i| (i * 11 + 1) as u8).collect();
    let photo = open_upright(&png_file(3, 2, &pixels, Some(6)), "PNG").unwrap();
    let mut expected = image::DynamicImage::ImageRgb8(image::RgbImage::from_raw(3, 2, pixels).unwrap());
    expected.apply_orientation(image::metadata::Orientation::Rotate90);
    assert_eq!(photo.dimensions(), (2, 3));
    assert_eq!(photo.as_raw(), expected.to_rgb8().as_raw());
}

#[test]
fn refuses_what_cannot_be_decoded() {
    assert!(open_upright(&vec![1, 2, 3, 4], "png").is_err());
    let pixels = vec![0u8; 3];
    assert!(open_upright(&png_file(1, 1, &pixels, None), "xyz").is_err());
}

#[test]
fn decoded_pixels_are_turned_by_the_exif_code() {
    let pixels: Vec<u8> = vec![1, 2, 3, 4, 5, 6];
    let photo = upright_from_decoded(2, 1, pixels.clone(), 6).unwrap();
    assert_eq!(photo.dimensions(), (1, 2));
    assert_eq!(photo.as_raw(), &vec![1, 2, 3, 4, 5, 6]);
    let mirrored = upright_from_decoded(2, 1, pixels.clone(), 2).unwrap();
    assert_eq!(mirrored.as_raw(), &vec![4, 5, 6, 1, 2, 3]);
    let same = upright_from_decoded(2, 1, pixels.clone(), 1).unwrap();
    assert_eq!(same.as_raw(), RgbImage::from_raw(2, 1, pixels).unwrap().as_raw());
}

#[test]
fn decoded_pixels_need_a_known_code_and_a_full_buffer() {
    assert!(upright_from_decoded(2, 1, vec![0; 6], 0).is_none());
    assert!(upright_from_decoded(2, 1, vec![0; 6], 9).is_none());
    assert!(upright_from_decoded(2, 1, vec![0; 5], 1).is_none());
}

#[test]
fn exif_codes_name_the_eight_orientations() {
    assert_eq!(Orientation::from_exif(1), Some(Orientation::NoTransforms));
    assert_eq!(Orientation::from_exif(2), Some(Orientation::FlipHorizontal));
    assert_eq!(Orientation::from_exif(3), Some(Orientation::Rotate180));
    assert_eq!(Orientation::from_exif(4), Some(Orientation::FlipVertical));
    assert_eq!(Orientation::from_exif(5), Some(Orientation::Rotate90FlipH));
    assert_eq!(Orientation::from_exif(6), Some(Orientation::Rotate90));
    assert_eq!(Orientation::from_exif(7), Some(Orientation::Rotate270FlipH));
    assert_eq!(Orientation::from_exif(8), Some(Orientation::Rotate270));
    assert_eq!(Orientation::from_exif(0), None);
    assert_eq!(Orientation::from_exif(9), None);
}

#[test]
fn decoder_errors_come_back_unchanged() {
    let garbage = vec![0x89, b'P', b'N', b'G', 1, 2, 3];
    let theirs = image::ImageReader::with_format(std::io::Cursor::new(garbage.as_slice()), image::ImageFormat::Png)
        .decode()
        .unwrap_err()
        .to_string();
    assert_eq!(open_upright(&garbage, "png").err(), Some(theirs));
}

#[test]
fn the_same_file_opens_the_same_way_twice() {
    let pixels: Vec<u8> = (0..4 * 3 * 3).map(|i| (i * 7) as u8).collect();
    let file = png_file(4, 3, &pixels, Some(8));
    let first = open_upright(&file, "png").unwrap();
    let second = open_upright(&file, "png").unwrap();
    assert_eq!(first.dimensions(), (3, 4));
    assert_eq!(first.as_raw(), second.as_raw());
}
