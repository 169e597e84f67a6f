use vstd::prelude::*;
use crate::raster::all_zero;

verus! {

/// The resampling filter used when an image or a mask changes size.
#[derive(Clone, Copy, Debug, PartialEq, Eq, Structural)]
pub enum ResampleFilter {
    /// Linear interpolation (the `image` crate's `FilterType::Triangle`).
    Triangle,
    /// Lanczos with a window of three (the `image` crate's `FilterType::Lanczos3`).
    Lanczos3,
}

/// The RGB bytes that the `image` crate's `DynamicImage::resize_exact` produces
/// with `FilterType::Triangle` for an RGB8 image of the given size and bytes,
/// resized to the new size. That filter computes only with additions,
/// multiplications, divisions, `floor`, `ceil` and `abs` of `f32` values, so
/// the same arguments give the same bytes.
pub uninterp spec fn rgb_resized(
    bytes: Seq<u8>,
    width: u32,
    height: u32,
    new_width: u32,
    new_height: u32,
) -> Seq<u8>;

/// The bytes that the `image` crate's `imageops::resize` produces with
/// `FilterType::Triangle` for an 8-bit gray image of the given size and bytes,
/// resized to the new size.
pub uninterp spec fn gray_resized(
    bytes: Seq<u8>,
    width: u32,
    height: u32,
    new_width: u32,
    new_height: u32,
) -> Seq<u8>;

/// Calls `image::DynamicImage::resize_exact` on the RGB8 image with the given
/// size and bytes and returns the bytes of the result. Trusted: with the
/// triangle filter the result is the named `rgb_resized` of the arguments; with
/// any filter it has the new size (the crate builds it with
/// `ImageBuffer::new(new_width, new_height)`), and when the size does not
/// change it is a copy of the input (the crate's early return). Nothing is said
/// of the Lanczos3 pixels: that kernel calls `f32::sin`, whose precision std
/// leaves to the platform, so the same input need not give the same bytes. The
/// `requires` keeps the crate's buffer-length computations, including its
/// four-channel float buffer of `width` by `new_height`, inside `usize`, where
/// the crate would otherwise panic.
#[verifier::external_body]
pub(crate) fn resize_exact_rgb8(
    bytes: &Vec<u8>,
    width: u32,
    height: u32,
    new_width: u32,
    new_height: u32,
    filter: ResampleFilter,
) -> (out: Vec<u8>)
    requires
        bytes.len() == width * height * 3,
        new_width * new_height * 3 <= usize::MAX,
        width * new_height * 4 <= usize::MAX,
    ensures
        filter == ResampleFilter::Triangle ==> out@ == rgb_resized(
            bytes@,
            width,
            height,
            new_width,
            new_height,
        ),
        out.len() == new_width * new_height * 3,
        new_width == width && new_height == height ==> out@ == bytes@,
{
    let filter = match filter {
        ResampleFilter::Triangle => image::imageops::FilterType::Triangle,
        ResampleFilter::Lanczos3 => image::imageops::FilterType::Lanczos3,
    };
    let source = image::RgbImage::from_raw(width, height, bytes.clone()).unwrap();
    image::DynamicImage::ImageRgb8(source).resize_exact(new_width, new_height, filter).into_rgb8().into_raw()
}

/// Calls `image::imageops::resize` on the 8-bit gray image with the given size
/// and bytes and returns the bytes of the result. Trusted: with the triangle
/// filter the result is the named `gray_resized` of the arguments; with any
/// filter it has the new size, and when the size does not change it is a copy
/// of the input (the crate's early return), and an all-zero mask gives an
/// all-zero mask: the crate either returns a zeroed buffer (for an empty
/// input) or sums products of the input values with finite weights, and every
/// such product and sum is zero. Nothing is said of the Lanczos3 pixels, for
/// the reason given at `resize_exact_rgb8`, nor that an all-255 mask stays all
/// 255: the crate normalises its weights and sums them in `f32`, and over the
/// many taps of a large reduction the rounding is not bounded in its source.
/// The `requires` keeps the crate's buffer-length computations inside `usize`.
#[verifier::external_body]
pub(crate) fn resize_luma8(
    bytes: &Vec<u8>,
    width: u32,
    height: u32,
    new_width: u32,
    new_height: u32,
    filter: ResampleFilter,
) -> (out: Vec<u8>)
    requires
        bytes.len() == width * height,
        new_width * new_height <= usize::MAX,
        width * new_height * 4 <= usize::MAX,
    ensures
        filter == ResampleFilter::Triangle ==> out@ == gray_resized(
            bytes@,
            width,
            height,
            new_width,
            new_height,
        ),
        out.len() == new_width * new_height,
        new_width == width && new_height == height ==> out@ == bytes@,
        all_zero(bytes@) ==> all_zero(out@),
{
    let filter = match filter {
        ResampleFilter::Triangle => image::imageops::FilterType::Triangle,
        ResampleFilter::Lanczos3 => image::imageops::FilterType::Lanczos3,
    };
    let source = image::GrayImage::from_raw(width, height, bytes.clone()).unwrap();
    image::imageops::resize(&source, new_width, new_height, filter).into_raw()
}

} // verus!
