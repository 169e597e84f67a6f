use vstd::prelude::*;
use vstd::arithmetic::div_mod::lemma_fundamental_div_mod_converse;
use crate::buffers::{GrayImage, RgbImage};
use crate::grid::{pixel_index, lemma_pixel_index_bounds, lemma_prefix_complete, prefix_follows, raster_from_fn};
use crate::raster::{RasterView, all_zero, lemma_crop_of_zeros};
use crate::resample::{ResampleFilter, gray_resized};

verus! {

/// A rectangle of a source photo, in pixels.
#[derive(Clone, Copy, Debug, PartialEq, Eq, Structural)]
pub struct CropRect {
    pub x: u32,
    pub y: u32,
    pub width: u32,
    pub height: u32,
}

/// What a portrait is made of, besides the photo and its mask: the framing, the
/// brightness/contrast curve (the output level of each input level), and the
/// background colour, if the background is replaced.
pub struct RenderPlan {
    pub crop: CropRect,
    pub levels: [u8; 256],
    pub background: Option<[u8; 3]>,
}

/// One channel of a pixel over a background: the mask value `alpha` (0 to 255)
/// weighs the photo against the background, rounded to the nearest level.
pub open spec fn mix(fg: u8, alpha: u8, bg: u8) -> u8 {
    ((fg * alpha + bg * (255 - alpha) + 127) / 255) as u8
}

/// A raster with every byte passed through the level table.
pub open spec fn tone(v: RasterView, levels: Seq<u8>) -> RasterView {
    RasterView {
        bytes: Seq::new(v.bytes.len(), |j: int| levels[v.bytes[j] as int]),
        ..v
    }
}

/// An RGB raster composited over `bg` through the alpha of `alpha`, pixel by
/// pixel in buffer order; pixels past the end of the mask keep their colour.
pub open spec fn composite(v: RasterView, alpha: RasterView, bg: Seq<u8>) -> RasterView {
    RasterView {
        bytes: Seq::new(
            v.bytes.len(),
            |j: int|
                if j / 3 < alpha.bytes.len() {
                    mix(v.bytes[j], alpha.bytes[j / 3], bg[j % 3])
                } else {
                    v.bytes[j]
                },
        ),
        ..v
    }
}

pub open spec fn option_view(mask: Option<&GrayImage>) -> Option<RasterView> {
    match mask {
        Some(m) => Some(m@),
        None => None,
    }
}

/// The mask `m` cut to the plan's frame, as `render_portrait` hands it on.
pub open spec fn framed_mask(mask: Option<RasterView>, crop: CropRect) -> Option<RasterView> {
    match mask {
        Some(m) => Some(m.crop(crop.x as int, crop.y as int, crop.width as int, crop.height as int)),
        None => None,
    }
}

/// The alpha that a mask gives a photo of `width` by `height`: the mask
/// resampled to that size with the linear filter.
pub open spec fn resampled_alpha(mask: RasterView, width: nat, height: nat) -> RasterView {
    RasterView {
        width,
        height,
        channels: 1,
        bytes: gray_resized(mask.bytes, mask.width as u32, mask.height as u32, width as u32, height as u32),
    }
}

/// The portrait made from a photo already framed and at its final size: the
/// photo passed through the level table, then, when a background colour and a
/// mask are both given, composited over that colour through the mask resampled
/// to the photo's size.
pub open spec fn finish_view(photo: RasterView, mask: Option<RasterView>, plan: RenderPlan) -> RasterView {
    let toned = tone(photo, plan.levels@);
    match (plan.background, mask) {
        (Some(bg), Some(m)) => composite(toned, resampled_alpha(m, photo.width, photo.height), bg@),
        _ => toned,
    }
}

/// One channel of a pixel over a background colour.
pub fn mix_channel(fg: u8, alpha: u8, bg: u8) -> (out: u8)
    ensures
        out == mix(fg, alpha, bg),
{
    let a: u16 = alpha as u16;
    let back: u16 = 255 - a;
    proof {
        assert(fg * a <= 255 * a && bg * back <= 255 * back) by (nonlinear_arith)
            requires
                fg <= 255,
                bg <= 255,
                0 <= a,
                0 <= back,
        ;
    }
    let total: u16 = fg as u16 * a + bg as u16 * back + 127;
    (total / 255) as u8
}

/// A fully opaque mask value keeps the photo, a fully transparent one gives the
/// background, and a photo pixel already of the background colour stays so.
pub proof fn lemma_mix_extremes(fg: u8, alpha: u8, bg: u8)
    ensures
        alpha == 255 ==> mix(fg, alpha, bg) == fg,
        alpha == 0 ==> mix(fg, alpha, bg) == bg,
        fg == bg ==> mix(fg, alpha, bg) == fg,
{
    if alpha == 255 {
        lemma_fundamental_div_mod_converse(fg * 255 + 127, 255, fg as int, 127);
    }
    if alpha == 0 {
        lemma_fundamental_div_mod_converse(bg * 255 + 127, 255, bg as int, 127);
    }
    if fg == bg {
        assert(fg * alpha + bg * (255 - alpha) == fg * 255) by (nonlinear_arith)
            requires
                fg == bg,
        ;
        lemma_fundamental_div_mod_converse(fg * 255 + 127, 255, fg as int, 127);
    }
}

/// The result of a mix lies between the photo value and the background value.
pub proof fn lemma_mix_between(fg: u8, alpha: u8, bg: u8)
    ensures
        fg <= bg ==> fg <= mix(fg, alpha, bg) <= bg,
        bg <= fg ==> bg <= mix(fg, alpha, bg) <= fg,
{
    let t = fg * alpha + bg * (255 - alpha);
    assert(fg <= bg ==> fg * 255 <= t <= bg * 255) by (nonlinear_arith)
        requires
            t == fg * alpha + bg * (255 - alpha),
            0 <= alpha <= 255,
    ;
    assert(bg <= fg ==> bg * 255 <= t <= fg * 255) by (nonlinear_arith)
        requires
            t == fg * alpha + bg * (255 - alpha),
            0 <= alpha <= 255,
    ;
    vstd::arithmetic::div_mod::lemma_fundamental_div_mod(t + 127, 255);
    vstd::arithmetic::div_mod::lemma_mod_pos_bound(t + 127, 255);
}

/// Passes every byte of the image through the level table, in place.
pub fn apply_levels(image: &mut RgbImage, levels: &[u8; 256])
    ensures
        final(image)@ == tone(old(image)@, levels@),
        final(image)@.wf(),
{
    let (width, height) = image.dimensions();
    let src = image.as_raw();
    let n = src.len();
    let mut out: Vec<u8> = Vec::new();
    let mut j: usize = 0;
    while j < n
        invariant
            n == src.len(),
            j <= n,
            out@ =~= Seq::new(j as nat, |i: int| levels@[src@[i] as int]),
        decreases n - j,
    {
        out.push(levels[src[j] as usize]);
        j = j + 1;
    }
    *image = RgbImage::from_parts(width, height, out);
}

/// The identity level table leaves a raster as it is.
pub proof fn lemma_identity_levels(v: RasterView, levels: Seq<u8>)
    requires
        levels.len() == 256,
        forall|i: int| 0 <= i < 256 ==> #[trigger] levels[i] == i,
    ensures
        tone(v, levels) == v,
{
    assert(tone(v, levels).bytes =~= v.bytes);
}

/// Composites the image over `background` through `alpha`, pixel by pixel, in place.
pub fn replace_background(image: &mut RgbImage, alpha: &GrayImage, background: [u8; 3])
    ensures
        final(image)@ == composite(old(image)@, alpha@, background@),
        final(image)@.wf(),
{
    let (width, height) = image.dimensions();
    let src = image.as_raw();
    let a = alpha.as_raw();
    let n = src.len();
    let m = a.len();
    let mut out: Vec<u8> = Vec::new();
    let mut j: usize = 0;
    while j < n
        invariant
            n == src.len(),
            m == a.len(),
            j <= n,
            out@ =~= Seq::new(
                j as nat,
                |i: int|
                    if i / 3 < m {
                        mix(src@[i], a@[i / 3], background@[i % 3])
                    } else {
                        src@[i]
                    },
            ),
        decreases n - j,
    {
        let p: usize = j / 3;
        let v: u8 = if p < m { mix_channel(src[j], a[p], background[j % 3]) } else { src[j] };
        out.push(v);
        j = j + 1;
    }
    *image = RgbImage::from_parts(width, height, out);
}

/// A pixel of a composite over a mask of the same size: the photo pixel mixed
/// with the background by the mask value at the same position.
pub proof fn lemma_composite_sample(v: RasterView, alpha: RasterView, bg: Seq<u8>, x: int, y: int, k: int)
    requires
        v.wf(),
        alpha.wf(),
        v.channels == 3,
        alpha.channels == 1,
        alpha.width == v.width,
        alpha.height == v.height,
        v.contains(x, y),
        0 <= k < 3,
    ensures
        composite(v, alpha, bg).sample(x, y, k) == mix(v.sample(x, y, k), alpha.sample(x, y, 0), bg[k]),
{
    let w = v.width as int;
    let h = v.height as int;
    lemma_pixel_index_bounds(w, h, 3, x, y, k);
    lemma_pixel_index_bounds(w, h, 1, x, y, 0);
    let j = pixel_index(w, 3, x, y, k);
    lemma_fundamental_div_mod_converse(j, 3, y * w + x, k);
}

/// Where the mask is fully opaque a composite keeps the photo; where it is fully
/// transparent it shows the background.
pub proof fn lemma_composite_mask_extremes(v: RasterView, alpha: RasterView, bg: Seq<u8>, x: int, y: int, k: int)
    requires
        v.wf(),
        alpha.wf(),
        v.channels == 3,
        alpha.channels == 1,
        alpha.width == v.width,
        alpha.height == v.height,
        v.contains(x, y),
        0 <= k < 3,
    ensures
        alpha.sample(x, y, 0) == 255 ==> composite(v, alpha, bg).sample(x, y, k) == v.sample(x, y, k),
        alpha.sample(x, y, 0) == 0 ==> composite(v, alpha, bg).sample(x, y, k) == bg[k],
{
    lemma_composite_sample(v, alpha, bg, x, y, k);
    lemma_mix_extremes(v.sample(x, y, k), alpha.sample(x, y, 0), bg[k]);
}

/// The crop of a whole raster is the raster itself.
pub proof fn lemma_crop_whole(v: RasterView, w: int, h: int)
    requires
        v.wf(),
        v.width <= w,
        v.height <= h,
    ensures
        v.crop(0, 0, w, h) == v,
{
    let f = |px: int, py: int, k: int| v.sample(0 + px, 0 + py, k);
    let vw = v.width as int;
    let vh = v.height as int;
    let c = v.channels as int;
    assert(prefix_follows(v.bytes, vw, vh, c, f));
    lemma_prefix_complete(v.bytes, vw, vh, c, f);
    assert(v.crop_width(0, w) == vw);
    assert(v.crop_height(0, h) == vh);
    assert(v.crop(0, 0, w, h).bytes == raster_from_fn(vw, vh, c, f));
}

/// The plan frames the whole photo and keeps its size: no pixel is resampled.
pub open spec fn frames_whole_photo(crop: CropRect, source: RasterView, target_width: u32, target_height: u32) -> bool {
    &&& crop.x == 0
    &&& crop.y == 0
    &&& crop.width >= source.width
    &&& crop.height >= source.height
    &&& target_width == source.width
    &&& target_height == source.height
}

/// Compositing through a mask of the photo's size whose values are all zero
/// gives the background colour everywhere.
pub proof fn lemma_transparent_gives_background(v: RasterView, alpha: RasterView, bg: Seq<u8>)
    requires
        v.wf(),
        alpha.wf(),
        v.channels == 3,
        alpha.channels == 1,
        alpha.width == v.width,
        alpha.height == v.height,
        all_zero(alpha.bytes),
    ensures
        composite(v, alpha, bg).is_filled_with(bg),
{
    assert forall|x: int, y: int, k: int| composite(v, alpha, bg).contains(x, y) && 0 <= k < 3 implies #[trigger] composite(
        v,
        alpha,
        bg,
    ).sample(x, y, k) == bg[k] by {
        lemma_composite_sample(v, alpha, bg, x, y, k);
        lemma_pixel_index_bounds(alpha.width as int, alpha.height as int, 1, x, y, 0);
        lemma_mix_extremes(v.sample(x, y, k), alpha.sample(x, y, 0), bg[k]);
    }
}

/// Finishes a portrait from a photo already framed and at its final size:
/// applies the level table and, when a background colour and a mask are both
/// given, resamples the mask to the photo's size with the linear filter and
/// replaces the background through it.
pub fn finish_portrait(photo: RgbImage, mask: Option<&GrayImage>, plan: &RenderPlan) -> (portrait: RgbImage)
    requires
        mask matches Some(m) ==> m@.width * photo@.height * 4 <= usize::MAX,
    ensures
        portrait@ == finish_view(photo@, option_view(mask), *plan),
        portrait@.wf(),
        portrait@.width == photo@.width,
        portrait@.height == photo@.height,
        portrait@.channels == 3,
        match (plan.background, option_view(mask)) {
            (Some(bg), Some(m)) => {
                &&& m.width == photo@.width && m.height == photo@.height ==> portrait@ == composite(
                    tone(photo@, plan.levels@),
                    m,
                    bg@,
                )
                &&& all_zero(m.bytes) ==> portrait@.is_filled_with(bg@)
            },
            _ => true,
        },
{
    let (width, height) = photo.dimensions();
    // The buffer's length is a `usize`, which bounds the pixel count.
    let _ = photo.as_raw().len();
    let ghost original = photo@;
    let mut portrait = photo;
    apply_levels(&mut portrait, &plan.levels);
    match (plan.background, mask) {
        (Some(bg), Some(m)) => {
            proof {
                assert(width * height <= width * height * 3) by (nonlinear_arith);
            }
            let alpha = m.resize(width, height, ResampleFilter::Triangle);
            replace_background(&mut portrait, &alpha, bg);
            proof {
                assert(alpha@ == resampled_alpha(m@, original.width, original.height));
                if all_zero(m@.bytes) {
                    lemma_transparent_gives_background(tone(original, plan.levels@), alpha@, bg@);
                }
            }
        },
        _ => {},
    }
    portrait
}

/// Where a background colour is set, every byte of the finished portrait lies
/// between the byte that the same plan gives without a mask and the background
/// colour's byte: it is their mix by the resampled mask value, or the former
/// where the mask has no value.
pub proof fn lemma_background_between(photo: RasterView, mask: RasterView, plan: RenderPlan, j: int)
    requires
        plan.background is Some,
        0 <= j < photo.bytes.len(),
    ensures
        ({
            let plain = finish_view(photo, None, plan).bytes[j];
            let out = finish_view(photo, Some(mask), plan).bytes[j];
            let alpha = resampled_alpha(mask, photo.width, photo.height).bytes;
            let back = plan.background->0@[j % 3];
            &&& out == (if j / 3 < alpha.len() { mix(plain, alpha[j / 3], back) } else { plain })
            &&& plain <= back ==> plain <= out <= back
            &&& back <= plain ==> back <= out <= plain
        }),
{
    let plain = finish_view(photo, None, plan).bytes[j];
    let alpha = resampled_alpha(mask, photo.width, photo.height).bytes;
    let back = plan.background->0@[j % 3];
    if j / 3 < alpha.len() {
        lemma_mix_between(plain, alpha[j / 3], back);
    }
}

/// Cuts the planned frame out of the photo, resamples it to the target size
/// with Lanczos3, and finishes it as `finish_portrait` does with the mask cut
/// to the same frame.
pub fn render_portrait(
    source: &RgbImage,
    mask: Option<&GrayImage>,
    plan: &RenderPlan,
    target_width: u32,
    target_height: u32,
) -> (portrait: RgbImage)
    requires
        target_width * target_height * 3 <= usize::MAX,
        source@.width * target_height * 4 <= usize::MAX,
        mask matches Some(m) ==> m@.width * target_height * 4 <= usize::MAX,
    ensures
        exists|photo: RasterView|
            {
                &&& photo.wf()
                &&& photo.channels == 3
                &&& photo.width == target_width
                &&& photo.height == target_height
                &&& ({
                    let framed = source@.crop(
                        plan.crop.x as int,
                        plan.crop.y as int,
                        plan.crop.width as int,
                        plan.crop.height as int,
                    );
                    framed.width == target_width && framed.height == target_height ==> photo == framed
                })
                &&& portrait@ == #[trigger] finish_view(photo, framed_mask(option_view(mask), plan.crop), *plan)
            },
        portrait@.width == target_width,
        portrait@.height == target_height,
        portrait@.channels == 3,
        portrait@.wf(),
        frames_whole_photo(plan.crop, source@, target_width, target_height) ==> match (
            plan.background,
            option_view(mask),
        ) {
            (Some(bg), Some(m)) => m.width == source@.width && m.height == source@.height ==> portrait@
                == composite(tone(source@, plan.levels@), m, bg@),
            _ => portrait@ == tone(source@, plan.levels@),
        },
        match (plan.background, option_view(mask)) {
            (Some(bg), Some(m)) => all_zero(m.bytes) ==> portrait@.is_filled_with(bg@),
            _ => true,
        },
{
    // The size accessor also brings the photo's well-formedness into the proof.
    let _ = source.dimensions();
    let r = plan.crop;
    let cropped = source.crop(r.x, r.y, r.width, r.height);
    let ghost src = source@;
    proof {
        let cw = src.crop_width(r.x as int, r.width as int);
        assert(cw <= src.width);
        assert(cw * target_height * 4 <= src.width * target_height * 4) by (nonlinear_arith)
            requires
                0 <= cw <= src.width,
        ;
    }
    let photo = cropped.resize_exact(target_width, target_height, ResampleFilter::Lanczos3);
    let ghost resized = photo@;
    proof {
        if r.x == 0 && r.y == 0 && r.width >= src.width && r.height >= src.height {
            lemma_crop_whole(src, r.width as int, r.height as int);
        }
    }
    let portrait = match mask {
        Some(m) => {
            let _ = m.dimensions();
            let m_cropped = m.crop(r.x, r.y, r.width, r.height);
            proof {
                let mv = m@;
                let cw = mv.crop_width(r.x as int, r.width as int);
                assert(cw * target_height * 4 <= mv.width * target_height * 4) by (nonlinear_arith)
                    requires
                        0 <= cw <= mv.width,
                ;
                if r.x == 0 && r.y == 0 && r.width >= src.width && r.height >= src.height
                    && mv.width == src.width && mv.height == src.height {
                    lemma_crop_whole(mv, r.width as int, r.height as int);
                }
                if all_zero(mv.bytes) {
                    lemma_crop_of_zeros(mv, r.x as int, r.y as int, r.width as int, r.height as int);
                }
            }
            let out = finish_portrait(photo, Some(&m_cropped), plan);
            proof {
                assert(option_view(Some(&m_cropped)) == framed_mask(option_view(mask), r));
            }
            out
        },
        None => finish_portrait(photo, None, plan),
    };
    proof {
        assert(portrait@ == finish_view(resized, framed_mask(option_view(mask), r), *plan));
    }
    portrait
}

} // verus!
