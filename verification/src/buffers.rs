use vstd::prelude::*;
use vstd::arithmetic::div_mod::lemma_fundamental_div_mod_converse;
use crate::grid::{pixel_index, lemma_pixel_index_bounds};
use crate::raster::{RasterView, all_zero, crop_bytes, replace_bytes};
use crate::resample::{ResampleFilter, rgb_resized, gray_resized, resize_exact_rgb8, resize_luma8};

verus! {

/// `bytes` repeats `pixel` for `n` pixels.
pub open spec fn repeated(pixel: Seq<u8>, n: int) -> Seq<u8> {
    Seq::new((n * pixel.len()) as nat, |j: int| pixel[j % pixel.len() as int])
}

/// A raster whose bytes repeat one pixel value is filled with that value.
proof fn lemma_repeated_filled(v: RasterView, pixel: Seq<u8>)
    requires
        pixel.len() == v.channels,
        v.channels >= 1,
        v.bytes == repeated(pixel, (v.width * v.height) as int),
    ensures
        v.is_filled_with(pixel),
        v.wf(),
{
    assert forall|x: int, y: int, k: int| v.contains(x, y) && 0 <= k < v.channels implies #[trigger] v.sample(x, y, k) == pixel[k] by {
        lemma_pixel_index_bounds(v.width as int, v.height as int, v.channels as int, x, y, k);
        let p = y * v.width + x;
        lemma_fundamental_div_mod_converse(
            pixel_index(v.width as int, v.channels as int, x, y, k),
            v.channels as int,
            p,
            k,
        );
    }
}

/// Bytes that repeat `pixel` for `n` pixels.
fn fill_bytes(pixel: &[u8], n: usize) -> (out: Vec<u8>)
    requires
        1 <= pixel@.len() <= 4,
        n * pixel@.len() <= usize::MAX,
    ensures
        out@ == repeated(pixel@, n as int),
{
    let c = pixel.len();
    let total: usize = n * c;
    let mut out: Vec<u8> = Vec::new();
    let mut i: usize = 0;
    while i < total
        invariant
            c == pixel@.len(),
            1 <= c <= 4,
            total == n * c,
            i <= total,
            out@ =~= Seq::new(i as nat, |j: int| pixel@[j % c as int]),
        decreases total - i,
    {
        out.push(pixel[i % c]);
        i = i + 1;
    }
    out
}

/// An 8-bit RGB raster, stored row by row, three bytes per pixel.
pub struct RgbImage {
    width: u32,
    height: u32,
    data: Vec<u8>,
}

/// An 8-bit single-channel raster (an alpha mask), stored row by row.
pub struct GrayImage {
    width: u32,
    height: u32,
    data: Vec<u8>,
}

impl RgbImage {
    #[verifier::type_invariant]
    spec fn well_formed(self) -> bool {
        self.data.len() == self.width * self.height * 3
    }

    /// The image with every pixel set to `pixel`.
    pub fn from_pixel(width: u32, height: u32, pixel: [u8; 3]) -> (img: RgbImage)
        requires
            width * height * 3 <= usize::MAX,
        ensures
            img@.width == width,
            img@.height == height,
            img@.channels == 3,
            img@.wf(),
            img@.is_filled_with(pixel@),
    {
        proof {
            assert(0 <= width * height) by (nonlinear_arith);
        }
        let n: usize = width as usize * height as usize;
        let data = fill_bytes(pixel.as_slice(), n);
        let img = RgbImage { width, height, data };
        proof {
            lemma_repeated_filled(img@, pixel@);
        }
        img
    }

    /// The image with the given size and bytes, for bytes already known to fit the size.
    pub(crate) fn from_parts(width: u32, height: u32, data: Vec<u8>) -> (img: RgbImage)
        requires
            data.len() == width * height * 3,
        ensures
            img@ == (RasterView { width: width as nat, height: height as nat, channels: 3, bytes: data@ }),
    {
        RgbImage { width, height, data }
    }

    /// A black image.
    pub fn new(width: u32, height: u32) -> (img: RgbImage)
        requires
            width * height * 3 <= usize::MAX,
        ensures
            img@.width == width,
            img@.height == height,
            img@.channels == 3,
            img@.wf(),
            img@.is_filled_with(seq![0u8, 0u8, 0u8]),
    {
        let img = RgbImage::from_pixel(width, height, [0, 0, 0]);
        assert(img@.is_filled_with(seq![0u8, 0u8, 0u8])) by {
            assert([0u8, 0u8, 0u8]@ =~= seq![0u8, 0u8, 0u8]);
        }
        img
    }

    /// The image with the given size and row-major RGB bytes, if the length fits the size.
    pub fn from_raw(width: u32, height: u32, data: Vec<u8>) -> (img: Option<RgbImage>)
        ensures
            img is Some <==> data.len() == width * height * 3,
            img matches Some(i) ==> i@ == (RasterView { width: width as nat, height: height as nat, channels: 3, bytes: data@ }),
    {
        proof {
            assert(width * height <= 0xffff_ffff * 0xffff_ffff) by (nonlinear_arith)
                requires
                    width <= 0xffff_ffff,
                    height <= 0xffff_ffff,
            ;
        }
        if width as u64 * height as u64 <= u64::MAX / 3 && data.len() as u64 == width as u64 * height as u64 * 3 {
            Some(RgbImage { width, height, data })
        } else {
            proof {
                if data.len() == width * height * 3 {
                    assert(width * height * 3 <= u64::MAX);
                }
            }
            None
        }
    }

    pub fn width(&self) -> (w: u32)
        ensures
            w == self@.width,
            self@.wf(),
            self@.channels == 3,
    {
        proof {
            use_type_invariant(self);
        }
        self.width
    }

    pub fn height(&self) -> (h: u32)
        ensures
            h == self@.height,
            self@.wf(),
            self@.channels == 3,
    {
        proof {
            use_type_invariant(self);
        }
        self.height
    }

    /// `(width, height)`.
    pub fn dimensions(&self) -> (d: (u32, u32))
        ensures
            d.0 == self@.width,
            d.1 == self@.height,
            self@.wf(),
            self@.channels == 3,
    {
        proof {
            use_type_invariant(self);
        }
        (self.width, self.height)
    }

    /// The row-major RGB bytes.
    pub fn as_raw(&self) -> (bytes: &Vec<u8>)
        ensures
            bytes@ == self@.bytes,
            self@.wf(),
            self@.channels == 3,
    {
        proof {
            use_type_invariant(self);
        }
        &self.data
    }

    /// Gives up the image for its row-major RGB bytes.
    pub fn into_raw(self) -> (bytes: Vec<u8>)
        ensures
            bytes@ == self@.bytes,
            bytes.len() == self@.width * self@.height * 3,
    {
        proof {
            use_type_invariant(&self);
        }
        self.data
    }

    /// The colour of pixel `(x, y)`.
    pub fn get_pixel(&self, x: u32, y: u32) -> (p: [u8; 3])
        requires
            self@.contains(x as int, y as int),
        ensures
            forall|k: int| 0 <= k < 3 ==> p@[k] == #[trigger] self@.sample(x as int, y as int, k),
    {
        proof {
            use_type_invariant(self);
            lemma_pixel_index_bounds(self.width as int, self.height as int, 3, x as int, y as int, 2);
        }
        let base: usize = (y as usize * self.width as usize + x as usize) * 3;
        [self.data[base], self.data[base + 1], self.data[base + 2]]
    }

    /// The cut-out at `(x, y)` of size `width` by `height`, trimmed to the image.
    pub fn crop(&self, x: u32, y: u32, width: u32, height: u32) -> (out: RgbImage)
        ensures
            out@ == self@.crop(x as int, y as int, width as int, height as int),
            out@.wf(),
            out@.channels == 3,
    {
        proof {
            use_type_invariant(self);
        }
        let x0 = if x < self.width { x } else { self.width };
        let y0 = if y < self.height { y } else { self.height };
        let cw = if width < self.width - x0 { width } else { self.width - x0 };
        let ch = if height < self.height - y0 { height } else { self.height - y0 };
        let data = crop_bytes(&self.data, self.width, self.height, 3, x0, y0, cw, ch);
        let out = RgbImage { width: cw, height: ch, data };
        proof {
            assert(out@.bytes =~= self@.crop(x as int, y as int, width as int, height as int).bytes);
        }
        out
    }

    /// This image resampled to `new_width` by `new_height` with `filter`. The
    /// pixels are those of the `image` crate's resampling; with the triangle
    /// filter they are the named `rgb_resized` of this image.
    pub fn resize_exact(&self, new_width: u32, new_height: u32, filter: ResampleFilter) -> (out: RgbImage)
        requires
            new_width * new_height * 3 <= usize::MAX,
            self@.width * new_height * 4 <= usize::MAX,
        ensures
            out@.width == new_width,
            out@.height == new_height,
            out@.channels == 3,
            filter == ResampleFilter::Triangle ==> out@.bytes == rgb_resized(
                self@.bytes,
                self@.width as u32,
                self@.height as u32,
                new_width,
                new_height,
            ),
            out@.wf(),
            new_width == self@.width && new_height == self@.height ==> out@ == self@,
    {
        proof {
            use_type_invariant(self);
        }
        let data = resize_exact_rgb8(&self.data, self.width, self.height, new_width, new_height, filter);
        RgbImage { width: new_width, height: new_height, data }
    }

    /// Writes `top` over this image with its top-left corner at `(x, y)`.
    pub fn replace(&mut self, top: &RgbImage, x: i64, y: i64)
        ensures
            final(self)@ == old(self)@.replace(top@, x as int, y as int),
            final(self)@.wf(),
            final(self)@.channels == 3,
    {
        proof {
            use_type_invariant(&*self);
            use_type_invariant(top);
        }
        let data = replace_bytes(&self.data, self.width, self.height, &top.data, top.width, top.height, 3, x, y);
        self.data = data;
        proof {
            assert(self@.bytes =~= old(self)@.replace(top@, x as int, y as int).bytes);
        }
    }
}

impl View for RgbImage {
    type V = RasterView;

    closed spec fn view(&self) -> RasterView {
        RasterView { width: self.width as nat, height: self.height as nat, channels: 3, bytes: self.data@ }
    }
}

impl GrayImage {
    #[verifier::type_invariant]
    spec fn well_formed(self) -> bool {
        self.data.len() == self.width * self.height
    }

    /// The mask with every pixel set to `luma`.
    pub fn from_pixel(width: u32, height: u32, luma: u8) -> (img: GrayImage)
        requires
            width * height <= usize::MAX,
        ensures
            img@.width == width,
            img@.height == height,
            img@.channels == 1,
            img@.wf(),
            img@.is_filled_with(seq![luma]),
    {
        proof {
            assert(0 <= width * height) by (nonlinear_arith);
        }
        let n: usize = width as usize * height as usize;
        let pixel: [u8; 1] = [luma];
        let data = fill_bytes(pixel.as_slice(), n);
        assert(data.len() == n * 1);
        let img = GrayImage { width, height, data };
        proof {
            assert(pixel@ =~= seq![luma]);
            lemma_repeated_filled(img@, pixel@);
        }
        img
    }

    /// An all-zero (fully transparent) mask.
    pub fn new(width: u32, height: u32) -> (img: GrayImage)
        requires
            width * height <= usize::MAX,
        ensures
            img@.width == width,
            img@.height == height,
            img@.channels == 1,
            img@.wf(),
            img@.is_filled_with(seq![0u8]),
    {
        GrayImage::from_pixel(width, height, 0)
    }

    /// The mask with the given size and row-major bytes, if the length fits the size.
    pub fn from_raw(width: u32, height: u32, data: Vec<u8>) -> (img: Option<GrayImage>)
        ensures
            img is Some <==> data.len() == width * height,
            img matches Some(i) ==> i@ == (RasterView { width: width as nat, height: height as nat, channels: 1, bytes: data@ }),
    {
        proof {
            assert(width * height <= 0xffff_ffff * 0xffff_ffff) by (nonlinear_arith)
                requires
                    width <= 0xffff_ffff,
                    height <= 0xffff_ffff,
            ;
        }
        if data.len() as u64 == width as u64 * height as u64 {
            Some(GrayImage { width, height, data })
        } else {
            None
        }
    }

    pub fn width(&self) -> (w: u32)
        ensures
            w == self@.width,
            self@.wf(),
            self@.channels == 1,
    {
        proof {
            use_type_invariant(self);
        }
        self.width
    }

    pub fn height(&self) -> (h: u32)
        ensures
            h == self@.height,
            self@.wf(),
            self@.channels == 1,
    {
        proof {
            use_type_invariant(self);
        }
        self.height
    }

    /// `(width, height)`.
    pub fn dimensions(&self) -> (d: (u32, u32))
        ensures
            d.0 == self@.width,
            d.1 == self@.height,
            self@.wf(),
            self@.channels == 1,
    {
        proof {
            use_type_invariant(self);
        }
        (self.width, self.height)
    }

    /// The row-major bytes.
    pub fn as_raw(&self) -> (bytes: &Vec<u8>)
        ensures
            bytes@ == self@.bytes,
            self@.wf(),
            self@.channels == 1,
    {
        proof {
            use_type_invariant(self);
        }
        &self.data
    }

    /// Gives up the mask for its row-major bytes.
    pub fn into_raw(self) -> (bytes: Vec<u8>)
        ensures
            bytes@ == self@.bytes,
            bytes.len() == self@.width * self@.height,
    {
        proof {
            use_type_invariant(&self);
        }
        self.data
    }

    /// The value of pixel `(x, y)`.
    pub fn get_pixel(&self, x: u32, y: u32) -> (v: u8)
        requires
            self@.contains(x as int, y as int),
        ensures
            v == self@.sample(x as int, y as int, 0),
    {
        proof {
            use_type_invariant(self);
            lemma_pixel_index_bounds(self.width as int, self.height as int, 1, x as int, y as int, 0);
        }
        self.data[(y as usize * self.width as usize + x as usize)]
    }

    /// Sets pixel `(x, y)` to `v`, leaving every other pixel as it was.
    pub fn put_pixel(&mut self, x: u32, y: u32, v: u8)
        requires
            old(self)@.contains(x as int, y as int),
        ensures
            final(self)@.width == old(self)@.width,
            final(self)@.height == old(self)@.height,
            final(self)@.channels == 1,
            final(self)@.wf(),
            final(self)@.bytes == old(self)@.bytes.update(pixel_index(old(self)@.width as int, 1, x as int, y as int, 0), v),
    {
        proof {
            use_type_invariant(&*self);
            lemma_pixel_index_bounds(self.width as int, self.height as int, 1, x as int, y as int, 0);
        }
        let i: usize = y as usize * self.width as usize + x as usize;
        let mut data = self.data.clone();
        proof {
            assert forall|j: int| 0 <= j < data.len() implies data@[j] == self.data@[j] by {
                assert(cloned::<u8>(self.data@[j], data@[j]));
            }
            assert(data@ =~= self.data@);
        }
        data.set(i, v);
        self.data = data;
    }

    /// This mask resampled to `new_width` by `new_height` with `filter`. With the
    /// triangle filter the values are the named `gray_resized` of this mask; an
    /// all-zero mask stays all zero.
    pub fn resize(&self, new_width: u32, new_height: u32, filter: ResampleFilter) -> (out: GrayImage)
        requires
            new_width * new_height <= usize::MAX,
            self@.width * new_height * 4 <= usize::MAX,
        ensures
            out@.width == new_width,
            out@.height == new_height,
            out@.channels == 1,
            filter == ResampleFilter::Triangle ==> out@.bytes == gray_resized(
                self@.bytes,
                self@.width as u32,
                self@.height as u32,
                new_width,
                new_height,
            ),
            all_zero(self@.bytes) ==> all_zero(out@.bytes),
            out@.wf(),
            new_width == self@.width && new_height == self@.height ==> out@ == self@,
    {
        proof {
            use_type_invariant(self);
        }
        let data = resize_luma8(&self.data, self.width, self.height, new_width, new_height, filter);
        GrayImage { width: new_width, height: new_height, data }
    }

    /// The cut-out at `(x, y)` of size `width` by `height`, trimmed to the mask.
    pub fn crop(&self, x: u32, y: u32, width: u32, height: u32) -> (out: GrayImage)
        ensures
            out@ == self@.crop(x as int, y as int, width as int, height as int),
            out@.wf(),
            out@.channels == 1,
    {
        proof {
            use_type_invariant(self);
        }
        let x0 = if x < self.width { x } else { self.width };
        let y0 = if y < self.height { y } else { self.height };
        let cw = if width < self.width - x0 { width } else { self.width - x0 };
        let ch = if height < self.height - y0 { height } else { self.height - y0 };
        let data = crop_bytes(&self.data, self.width, self.height, 1, x0, y0, cw, ch);
        let out = GrayImage { width: cw, height: ch, data };
        proof {
            assert(out@.bytes =~= self@.crop(x as int, y as int, width as int, height as int).bytes);
        }
        out
    }
}

impl View for GrayImage {
    type V = RasterView;

    closed spec fn view(&self) -> RasterView {
        RasterView { width: self.width as nat, height: self.height as nat, channels: 1, bytes: self.data@ }
    }
}

} // verus!
