use vstd::prelude::*;
use crate::buffers::RgbImage;
use crate::orientation::{Orientation, exif_orientation, orient};
use crate::raster::RasterView;

verus! {

/// What the `image` crate's decoding of a file's bytes comes to, with the
/// format taken from the file name's extension: the width, the height, the
/// row-major 8-bit RGB bytes and the EXIF orientation code of the decoded
/// image, or the text of the error that stops it. These depend on the bytes
/// and the extension alone: the decoders compute in integers, and the JPEG
/// decoder's processor-specific (SIMD) stages give the same values as its
/// scalar code (its `idct/avx2.rs` says so; its colour conversion and
/// upsampling use the same integer constants and cannot fail).
pub uninterp spec fn decoded_outcome(bytes: Seq<u8>, extension: Seq<char>) -> Result<(u32, u32, Seq<u8>, u8), Seq<char>>;

/// Decodes an image file held in memory with the `image` crate, as
/// `ImageReader` does for a file: the format comes from the file name's
/// extension (`ImageFormat::from_extension`), the decoder reports the EXIF
/// orientation (`ImageDecoder::orientation`), and the pixels are converted to
/// 8-bit RGB (`DynamicImage::from_decoder`, then `into_rgb8`). Returns the
/// width, the height, the row-major RGB bytes and the orientation's EXIF code
/// (`Orientation::to_exif`), or the decoder's error text. Trusted: the outcome
/// is the named `decoded_outcome` of the arguments; on success the bytes fill
/// the size, three per pixel (`into_rgb8` builds an `ImageBuffer` of that
/// size), and the code is one of the eight that `to_exif` returns.
#[verifier::external_body]
fn decode_rgb8(bytes: &Vec<u8>, extension: &str) -> (out: Result<(u32, u32, Vec<u8>, u8), String>)
    ensures
        out matches Ok((width, height, pixels, code)) ==> {
            &&& decoded_outcome(bytes@, extension@) matches Ok(decoded) && decoded == (width, height, pixels@, code)
            &&& pixels.len() == width * height * 3
            &&& 1 <= code <= 8
        },
        out matches Err(message) ==> decoded_outcome(bytes@, extension@) matches Err(text) && text == message@,
{
    let mut reader = image::ImageReader::new(std::io::Cursor::new(bytes.as_slice()));
    if let Some(format) = image::ImageFormat::from_extension(extension) {
        reader.set_format(format);
    }
    let mut decoder = reader.into_decoder().map_err(|error| error.to_string())?;
    let orientation = image::ImageDecoder::orientation(&mut decoder).map_err(|error| error.to_string())?;
    let rgb = image::DynamicImage::from_decoder(decoder).map_err(|error| error.to_string())?.into_rgb8();
    Ok((rgb.width(), rgb.height(), rgb.into_raw(), orientation.to_exif()))
}

/// The decoded photo turned upright: the raster of `width` by `height` RGB
/// pixels turned as the EXIF orientation code says. There is none when the
/// bytes do not fill the size or the code is not one of the eight.
pub fn upright_from_decoded(width: u32, height: u32, pixels: Vec<u8>, exif_code: u8) -> (out: Option<RgbImage>)
    ensures
        out is Some <==> pixels.len() == width * height * 3 && exif_orientation(exif_code) is Some,
        out matches Some(img) ==> img@ == orient(
            RasterView { width: width as nat, height: height as nat, channels: 3, bytes: pixels@ },
            exif_orientation(exif_code)->0,
        ),
{
    let orientation = match Orientation::from_exif(exif_code) {
        Some(o) => o,
        None => return None,
    };
    match RgbImage::from_raw(width, height, pixels) {
        Some(mut photo) => {
            photo.apply_orientation(orientation);
            Some(photo)
        },
        None => None,
    }
}

/// Opens a photo from the bytes of its file and the file name's extension:
/// decodes it to 8-bit RGB and turns it upright as its metadata says. It
/// succeeds exactly when the decoding does; on failure the text is the
/// decoder's, unchanged.
pub fn open_upright(bytes: &Vec<u8>, extension: &str) -> (out: Result<RgbImage, String>)
    ensures
        out is Ok <==> decoded_outcome(bytes@, extension@) is Ok,
        out matches Err(message) ==> decoded_outcome(bytes@, extension@) matches Err(text) && text == message@,
        out matches Ok(img) ==> decoded_outcome(bytes@, extension@) matches Ok((width, height, pixels, code)) && {
            &&& pixels.len() == width * height * 3
            &&& 1 <= code <= 8
            &&& img@ == orient(
                RasterView { width: width as nat, height: height as nat, channels: 3, bytes: pixels },
                exif_orientation(code)->0,
            )
        },
{
    match decode_rgb8(bytes, extension) {
        Ok((width, height, pixels, code)) => {
            let ghost px = pixels@;
            match upright_from_decoded(width, height, pixels, code) {
                Some(photo) => {
                    proof {
                        assert(photo@ == orient(
                            RasterView { width: width as nat, height: height as nat, channels: 3, bytes: px },
                            exif_orientation(code)->0,
                        ));
                    }
                    Ok(photo)
                },
                None => {
                    // The decoder's contract gives a full buffer and a known code.
                    proof {
                        assert(false);
                    }
                    Err("date de imagine incomplete".to_owned())
                },
            }
        },
        Err(message) => Err(message),
    }
}

} // verus!
