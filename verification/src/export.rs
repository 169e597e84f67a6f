use vstd::prelude::*;
use vstd::string::{StrSliceExecFns, StringSliceAdditionalSpecFns};
use crate::buffers::{GrayImage, RgbImage};
use crate::portrait::{RenderPlan, finish_view, framed_mask, option_view, render_portrait};
use crate::raster::RasterView;
use crate::sheet::{compose_sheet, sheet_view, DPI, PHOTO_HEIGHT, PHOTO_WIDTH, SHEET_HEIGHT, SHEET_WIDTH};

verus! {

/// JPEG quality of the saved sheet.
pub const JPEG_QUALITY: u8 = 95;

#[verifier::external_type_specification]
#[verifier::external_body]
pub struct ExEncodingError(jpeg_encoder::EncodingError);

/// The JPEG file that `jpeg_encoder::Encoder` writes for RGB pixels of the given
/// size, at the given quality, with the given dots-per-inch density.
pub uninterp spec fn jpeg_encoded(pixels: Seq<u8>, width: u16, height: u16, quality: u8, dpi: u16) -> Seq<u8>;

/// Why a sheet could not be encoded, in the encoder's words.
#[derive(Debug)]
pub struct JpegError {
    pub message: String,
}

/// Encodes RGB pixels with `jpeg_encoder::Encoder::encode` into memory, with the
/// density set by `Encoder::set_density(Density::Inch { x: dpi, y: dpi })`.
/// Trusted: on success the bytes are the named `jpeg_encoded` of the arguments;
/// the encoder's source returns an error exactly when the pixels are fewer than
/// the size needs or a side is zero: its other errors come from writing, which
/// cannot fail into a `Vec`, or from application segments and colour profiles,
/// which are not added here. The `requires` keeps the encoder's own product
/// `width * height * 3`, taken in `usize`, from overflowing.
#[verifier::external_body]
fn encode_rgb_jpeg(
    pixels: &Vec<u8>,
    width: u16,
    height: u16,
    quality: u8,
    dpi: u16,
) -> (out: Result<Vec<u8>, jpeg_encoder::EncodingError>)
    requires
        width * height * 3 <= usize::MAX,
    ensures
        out matches Ok(bytes) ==> bytes@ == jpeg_encoded(pixels@, width, height, quality, dpi),
        out is Err <==> (pixels.len() < width * height * 3 || width == 0 || height == 0),
{
    let mut bytes: Vec<u8> = Vec::new();
    let mut encoder = jpeg_encoder::Encoder::new(&mut bytes, quality);
    encoder.set_density(jpeg_encoder::Density::Inch { x: dpi, y: dpi });
    match encoder.encode(pixels.as_slice(), width, height, jpeg_encoder::ColorType::Rgb) {
        Ok(()) => Ok(bytes),
        Err(error) => Err(error),
    }
}

/// The text of a `jpeg_encoder::EncodingError`, from its `Display` impl.
/// Trusted only to return some text.
#[verifier::external_body]
fn encoding_error_text(error: &jpeg_encoder::EncodingError) -> String {
    error.to_string()
}

/// Encodes the sheet as the print file: JPEG at quality 95 and 300 DPI. The
/// size goes to the encoder as 16-bit values, as the file format holds it.
pub fn encode_print_jpeg(sheet: &RgbImage) -> (out: Result<Vec<u8>, JpegError>)
    ensures
        out matches Ok(bytes) ==> bytes@ == jpeg_encoded(
            sheet@.bytes,
            sheet@.width as u16,
            sheet@.height as u16,
            JPEG_QUALITY,
            DPI,
        ),
        out is Ok <==> (sheet@.width as u16 != 0 && sheet@.height as u16 != 0),
{
    let (width, height) = sheet.dimensions();
    let pixels = sheet.as_raw();
    // The buffer's length is a `usize`, which bounds the pixel count.
    let _ = pixels.len();
    let w: u16 = width as u16;
    let h: u16 = height as u16;
    proof {
        assert(w <= width) by (bit_vector)
            requires
                w == width as u16,
        ;
        assert(h <= height) by (bit_vector)
            requires
                h == height as u16,
        ;
        assert(w * h * 3 <= width * height * 3) by (nonlinear_arith)
            requires
                0 <= w <= width,
                0 <= h <= height,
        ;
    }
    match encode_rgb_jpeg(pixels, w, h, JPEG_QUALITY, DPI) {
        Ok(bytes) => Ok(bytes),
        Err(error) => Err(JpegError { message: encoding_error_text(&error) }),
    }
}

/// The print file of a photo: the portrait rendered at the print size, laid
/// six times on the sheet, and encoded as `encode_print_jpeg` does. The sheet's
/// sides are not zero, so the encoding always succeeds. The portrait is
/// finished from the framed part of the photo resampled to the print size,
/// which is that framed part itself when it already has the print size.
pub fn print_file(source: &RgbImage, mask: Option<&GrayImage>, plan: &RenderPlan) -> (out: Result<Vec<u8>, JpegError>)
    requires
        source@.width * PHOTO_HEIGHT * 4 <= usize::MAX,
        mask matches Some(m) ==> m@.width * PHOTO_HEIGHT * 4 <= usize::MAX,
    ensures
        out is Ok,
        out matches Ok(bytes) ==> exists|photo: RasterView|
            {
                &&& photo.wf()
                &&& photo.channels == 3
                &&& photo.width == PHOTO_WIDTH
                &&& photo.height == PHOTO_HEIGHT
                &&& ({
                    let framed = source@.crop(
                        plan.crop.x as int,
                        plan.crop.y as int,
                        plan.crop.width as int,
                        plan.crop.height as int,
                    );
                    framed.width == PHOTO_WIDTH && framed.height == PHOTO_HEIGHT ==> photo == framed
                })
                &&& bytes@ == jpeg_encoded(
                    #[trigger] sheet_view(
                        finish_view(photo, framed_mask(option_view(mask), plan.crop), *plan),
                        SHEET_WIDTH as nat,
                        SHEET_HEIGHT as nat,
                    ).bytes,
                    SHEET_WIDTH as u16,
                    SHEET_HEIGHT as u16,
                    JPEG_QUALITY,
                    DPI,
                )
            },
{
    let portrait = render_portrait(source, mask, plan, PHOTO_WIDTH, PHOTO_HEIGHT);
    let ghost photo = choose|photo: RasterView|
        {
            &&& photo.wf()
            &&& photo.channels == 3
            &&& photo.width == PHOTO_WIDTH
            &&& photo.height == PHOTO_HEIGHT
            &&& ({
                let framed = source@.crop(
                    plan.crop.x as int,
                    plan.crop.y as int,
                    plan.crop.width as int,
                    plan.crop.height as int,
                );
                framed.width == PHOTO_WIDTH && framed.height == PHOTO_HEIGHT ==> photo == framed
            })
            &&& portrait@ == #[trigger] finish_view(photo, framed_mask(option_view(mask), plan.crop), *plan)
        };
    let sheet = compose_sheet(&portrait, SHEET_WIDTH, SHEET_HEIGHT);
    let out = encode_print_jpeg(&sheet);
    proof {
        assert(sheet@.bytes == sheet_view(
            finish_view(photo, framed_mask(option_view(mask), plan.crop), *plan),
            SHEET_WIDTH as nat,
            SHEET_HEIGHT as nat,
        ).bytes);
    }
    out
}

/// The name offered for the print file, as UTF-8 bytes: the photo's file stem
/// followed by `_6_poze_3x4.jpg`, or `6_poze_3x4.jpg` when there is no stem.
pub fn default_file_name(stem: Option<&str>) -> (name: Vec<u8>)
    ensures
        name@ == match stem {
            Some(s) => s.spec_bytes() + "_6_poze_3x4.jpg".spec_bytes(),
            None => "6_poze_3x4.jpg".spec_bytes(),
        },
{
    match stem {
        Some(s) => {
            let mut name = s.as_bytes_vec();
            let mut suffix = "_6_poze_3x4.jpg".as_bytes_vec();
            name.append(&mut suffix);
            name
        },
        None => "6_poze_3x4.jpg".as_bytes_vec(),
    }
}

} // verus!
