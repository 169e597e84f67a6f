use vstd::prelude::*;
use crate::buffers::RgbImage;
use crate::grid::{
    pixel_index, prefix_follows, raster_from_fn, lemma_next_channel, lemma_pixel_index_bounds,
    lemma_prefix_complete, lemma_prefix_push,
};
use crate::raster::{RasterView, lemma_from_fn_ext, lemma_from_fn_sample, lemma_from_own_samples};

verus! {

/// How a photo must be turned to stand upright, as its metadata records it
/// (the eight EXIF orientations).
#[derive(Clone, Copy, Debug, PartialEq, Eq, Structural)]
pub enum Orientation {
    NoTransforms,
    /// A quarter turn clockwise.
    Rotate90,
    Rotate180,
    /// Three quarter turns clockwise.
    Rotate270,
    /// A mirror image left to right.
    FlipHorizontal,
    /// A mirror image top to bottom.
    FlipVertical,
    /// A quarter turn clockwise, then a mirror image left to right.
    Rotate90FlipH,
    /// Three quarter turns clockwise, then a mirror image left to right.
    Rotate270FlipH,
}

/// The orientation that an EXIF orientation code stands for; codes outside one
/// to eight stand for none.
pub open spec fn exif_orientation(code: u8) -> Option<Orientation> {
    match code {
        1 => Some(Orientation::NoTransforms),
        2 => Some(Orientation::FlipHorizontal),
        3 => Some(Orientation::Rotate180),
        4 => Some(Orientation::FlipVertical),
        5 => Some(Orientation::Rotate90FlipH),
        6 => Some(Orientation::Rotate90),
        7 => Some(Orientation::Rotate270FlipH),
        8 => Some(Orientation::Rotate270),
        _ => None,
    }
}

impl Orientation {
    /// The orientation of an EXIF orientation code, if the code is one of the eight.
    pub fn from_exif(code: u8) -> (o: Option<Orientation>)
        ensures
            o == exif_orientation(code),
    {
        match code {
            1 => Some(Orientation::NoTransforms),
            2 => Some(Orientation::FlipHorizontal),
            3 => Some(Orientation::Rotate180),
            4 => Some(Orientation::FlipVertical),
            5 => Some(Orientation::Rotate90FlipH),
            6 => Some(Orientation::Rotate90),
            7 => Some(Orientation::Rotate270FlipH),
            8 => Some(Orientation::Rotate270),
            _ => None,
        }
    }
}

/// The orientation turns the photo on its side, swapping width and height.
pub open spec fn swaps_sides(o: Orientation) -> bool {
    match o {
        Orientation::Rotate90 | Orientation::Rotate270 | Orientation::Rotate90FlipH | Orientation::Rotate270FlipH => true,
        _ => false,
    }
}

/// The pixel of a `w` by `h` photo that lands at `(x, y)` once it is turned.
pub open spec fn source_of(o: Orientation, w: int, h: int, x: int, y: int) -> (int, int) {
    match o {
        Orientation::NoTransforms => (x, y),
        Orientation::Rotate90 => (y, h - 1 - x),
        Orientation::Rotate180 => (w - 1 - x, h - 1 - y),
        Orientation::Rotate270 => (w - 1 - y, x),
        Orientation::FlipHorizontal => (w - 1 - x, y),
        Orientation::FlipVertical => (x, h - 1 - y),
        Orientation::Rotate90FlipH => (y, x),
        Orientation::Rotate270FlipH => (w - 1 - y, h - 1 - x),
    }
}

/// The channel values of a photo seen after it is turned.
pub open spec fn turned_bytes(src: Seq<u8>, w: int, h: int, c: int, o: Orientation) -> spec_fn(int, int, int) -> u8 {
    |x: int, y: int, k: int| src[pixel_index(w, c, source_of(o, w, h, x, y).0, source_of(o, w, h, x, y).1, k)]
}

/// The raster turned upright.
pub open spec fn orient(v: RasterView, o: Orientation) -> RasterView {
    let width = if swaps_sides(o) { v.height } else { v.width };
    let height = if swaps_sides(o) { v.width } else { v.height };
    RasterView::from_fn(
        width,
        height,
        v.channels,
        |x: int, y: int, k: int| v.sample(source_of(o, v.width as int, v.height as int, x, y).0, source_of(o, v.width as int, v.height as int, x, y).1, k),
    )
}

/// Every pixel of the turned photo comes from a pixel of the photo.
pub proof fn lemma_source_in_bounds(o: Orientation, w: int, h: int, x: int, y: int)
    requires
        0 <= x < (if swaps_sides(o) { h } else { w }),
        0 <= y < (if swaps_sides(o) { w } else { h }),
    ensures
        0 <= source_of(o, w, h, x, y).0 < w,
        0 <= source_of(o, w, h, x, y).1 < h,
{
}

/// The source pixel of `(x, y)`, computed.
fn source_pixel(o: Orientation, w: u32, h: u32, x: u32, y: u32) -> (p: (u32, u32))
    requires
        x < (if swaps_sides(o) { h } else { w }),
        y < (if swaps_sides(o) { w } else { h }),
    ensures
        p.0 == source_of(o, w as int, h as int, x as int, y as int).0,
        p.1 == source_of(o, w as int, h as int, x as int, y as int).1,
{
    match o {
        Orientation::NoTransforms => (x, y),
        Orientation::Rotate90 => (y, h - 1 - x),
        Orientation::Rotate180 => (w - 1 - x, h - 1 - y),
        Orientation::Rotate270 => (w - 1 - y, x),
        Orientation::FlipHorizontal => (w - 1 - x, y),
        Orientation::FlipVertical => (x, h - 1 - y),
        Orientation::Rotate90FlipH => (y, x),
        Orientation::Rotate270FlipH => (w - 1 - y, h - 1 - x),
    }
}

/// Builds the bytes of a raster turned by `o`.
fn turn_bytes(src: &Vec<u8>, width: u32, height: u32, channels: u32, o: Orientation) -> (out: Vec<u8>)
    requires
        1 <= channels <= 4,
        src.len() == width * height * channels,
    ensures
        out@ == raster_from_fn(
            (if swaps_sides(o) { height } else { width }) as int,
            (if swaps_sides(o) { width } else { height }) as int,
            channels as int,
            turned_bytes(src@, width as int, height as int, channels as int, o),
        ),
{
    let ow: u32 = if swaps_sides_exec(o) { height } else { width };
    let oh: u32 = if swaps_sides_exec(o) { width } else { height };
    let mut out: Vec<u8> = Vec::new();
    let mut y: u32 = 0;
    proof {
        lemma_next_channel(ow as int, channels as int, 0, 0, 0);
    }
    while y < oh
        invariant
            1 <= channels <= 4,
            src.len() == width * height * channels,
            ow == (if swaps_sides(o) { height } else { width }),
            oh == (if swaps_sides(o) { width } else { height }),
            y <= oh,
            out.len() == pixel_index(ow as int, channels as int, 0, y as int, 0),
            prefix_follows(out@, ow as int, oh as int, channels as int, turned_bytes(src@, width as int, height as int, channels as int, o)),
        decreases oh - y,
    {
        let mut x: u32 = 0;
        while x < ow
            invariant
                1 <= channels <= 4,
                src.len() == width * height * channels,
                ow == (if swaps_sides(o) { height } else { width }),
                oh == (if swaps_sides(o) { width } else { height }),
                y < oh,
                x <= ow,
                out.len() == pixel_index(ow as int, channels as int, x as int, y as int, 0),
                prefix_follows(out@, ow as int, oh as int, channels as int, turned_bytes(src@, width as int, height as int, channels as int, o)),
            decreases ow - x,
        {
            let (sx, sy) = source_pixel(o, width, height, x, y);
            proof {
                lemma_source_in_bounds(o, width as int, height as int, x as int, y as int);
                lemma_pixel_index_bounds(width as int, height as int, channels as int, sx as int, sy as int, 0);
            }
            let base: usize = (sy as usize * width as usize + sx as usize) * channels as usize;
            let mut k: u32 = 0;
            while k < channels
                invariant
                    1 <= channels <= 4,
                    src.len() == width * height * channels,
                    ow == (if swaps_sides(o) { height } else { width }),
                    oh == (if swaps_sides(o) { width } else { height }),
                    y < oh,
                    x < ow,
                    k <= channels,
                    sx == source_of(o, width as int, height as int, x as int, y as int).0,
                    sy == source_of(o, width as int, height as int, x as int, y as int).1,
                    sx < width,
                    sy < height,
                    base == pixel_index(width as int, channels as int, sx as int, sy as int, 0),
                    out.len() == pixel_index(ow as int, channels as int, x as int, y as int, k as int),
                    prefix_follows(out@, ow as int, oh as int, channels as int, turned_bytes(src@, width as int, height as int, channels as int, o)),
                decreases channels - k,
            {
                proof {
                    lemma_pixel_index_bounds(width as int, height as int, channels as int, sx as int, sy as int, k as int);
                    lemma_prefix_push(out@, ow as int, oh as int, channels as int, turned_bytes(src@, width as int, height as int, channels as int, o), x as int, y as int, k as int);
                    lemma_next_channel(ow as int, channels as int, x as int, y as int, k as int);
                }
                out.push(src[base + k as usize]);
                k = k + 1;
            }
            proof {
                lemma_next_channel(ow as int, channels as int, x as int, y as int, channels as int);
            }
            x = x + 1;
        }
        proof {
            lemma_next_channel(ow as int, channels as int, ow as int, y as int, 0);
            lemma_next_channel(ow as int, channels as int, 0, (y + 1) as int, 0);
        }
        y = y + 1;
    }
    proof {
        lemma_next_channel(ow as int, channels as int, 0, oh as int, 0);
        assert(oh * ow * channels == ow * oh * channels) by (nonlinear_arith);
        assert(ow * oh * channels == width * height * channels) by (nonlinear_arith)
            requires
                (ow == width && oh == height) || (ow == height && oh == width),
        ;
        lemma_prefix_complete(out@, ow as int, oh as int, channels as int, turned_bytes(src@, width as int, height as int, channels as int, o));
    }
    out
}

fn swaps_sides_exec(o: Orientation) -> (b: bool)
    ensures
        b == swaps_sides(o),
{
    match o {
        Orientation::Rotate90 | Orientation::Rotate270 | Orientation::Rotate90FlipH | Orientation::Rotate270FlipH => true,
        _ => false,
    }
}

impl RgbImage {
    /// Turns the photo upright as `orientation` says, in place.
    pub fn apply_orientation(&mut self, orientation: Orientation)
        ensures
            final(self)@ == orient(old(self)@, orientation),
            final(self)@.wf(),
            final(self)@.channels == 3,
    {
        let (width, height) = self.dimensions();
        let data = turn_bytes(self.as_raw(), width, height, 3, orientation);
        let w: u32 = if swaps_sides_exec(orientation) { height } else { width };
        let h: u32 = if swaps_sides_exec(orientation) { width } else { height };
        proof {
            assert(w * h * 3 == width * height * 3) by (nonlinear_arith)
                requires
                    (w == width && h == height) || (w == height && h == width),
            ;
        }
        let turned = RgbImage::from_parts(w, h, data);
        proof {
            assert(turned@.bytes =~= orient(old(self)@, orientation).bytes);
        }
        *self = turned;
    }
}

/// A quarter turn one way and then the other gives back the photo; so do two
/// half turns and two mirror images of the same kind.
pub proof fn lemma_turns_undo(v: RasterView)
    requires
        v.wf(),
    ensures
        orient(orient(v, Orientation::Rotate90), Orientation::Rotate270) == v,
        orient(orient(v, Orientation::Rotate270), Orientation::Rotate90) == v,
        orient(orient(v, Orientation::Rotate180), Orientation::Rotate180) == v,
        orient(orient(v, Orientation::FlipHorizontal), Orientation::FlipHorizontal) == v,
        orient(orient(v, Orientation::FlipVertical), Orientation::FlipVertical) == v,
        orient(orient(v, Orientation::Rotate90FlipH), Orientation::Rotate90FlipH) == v,
        orient(orient(v, Orientation::Rotate270FlipH), Orientation::Rotate270FlipH) == v,
{
    lemma_undo(v, Orientation::Rotate90, Orientation::Rotate270);
    lemma_undo(v, Orientation::Rotate270, Orientation::Rotate90);
    lemma_undo(v, Orientation::Rotate180, Orientation::Rotate180);
    lemma_undo(v, Orientation::FlipHorizontal, Orientation::FlipHorizontal);
    lemma_undo(v, Orientation::FlipVertical, Orientation::FlipVertical);
    lemma_undo(v, Orientation::Rotate90FlipH, Orientation::Rotate90FlipH);
    lemma_undo(v, Orientation::Rotate270FlipH, Orientation::Rotate270FlipH);
}

/// A photo whose metadata asks for no transformation is shown as it is stored.
pub proof fn lemma_no_transforms_keeps_photo(v: RasterView)
    requires
        v.wf(),
    ensures
        orient(v, Orientation::NoTransforms) == v,
{
    let f = |x: int, y: int, k: int|
        v.sample(
            source_of(Orientation::NoTransforms, v.width as int, v.height as int, x, y).0,
            source_of(Orientation::NoTransforms, v.width as int, v.height as int, x, y).1,
            k,
        );
    let g = |x: int, y: int, k: int| v.sample(x, y, k);
    assert forall|x: int, y: int, k: int| 0 <= x < v.width && 0 <= y < v.height && 0 <= k < v.channels implies #[trigger] f(
        x,
        y,
        k,
    ) == g(x, y, k) by {}
    lemma_from_fn_ext(v.width, v.height, v.channels, f, g);
    lemma_from_own_samples(v);
}

/// Which stored corners each EXIF orientation shows at the top-left and at the
/// top-right of the upright photo, and the upright photo's size. Two adjacent
/// corners fix which of the eight turns and mirror images it is: a quarter
/// turn clockwise (EXIF 6) brings the bottom-left corner to the top-left and
/// the top-left corner to the top-right; a quarter turn counter-clockwise
/// (EXIF 8) brings the top-right corner to the top-left and the bottom-right
/// corner to the top-right; no transformation (EXIF 1) keeps both in place.
pub proof fn lemma_orientation_corners(v: RasterView, o: Orientation, k: int)
    requires
        v.wf(),
        v.width >= 1,
        v.height >= 1,
        0 <= k < v.channels,
    ensures
        ({
            let u = orient(v, o);
            let w = v.width as int;
            let h = v.height as int;
            let top_left = u.sample(0, 0, k);
            let top_right = u.sample(u.width - 1, 0, k);
            &&& u.wf()
            &&& u.channels == v.channels
            &&& swaps_sides(o) ==> u.width == v.height && u.height == v.width
            &&& !swaps_sides(o) ==> u.width == v.width && u.height == v.height
            &&& match o {
                Orientation::NoTransforms => top_left == v.sample(0, 0, k) && top_right == v.sample(w - 1, 0, k),
                Orientation::Rotate90 => top_left == v.sample(0, h - 1, k) && top_right == v.sample(0, 0, k),
                Orientation::Rotate180 => top_left == v.sample(w - 1, h - 1, k) && top_right == v.sample(0, h - 1, k),
                Orientation::Rotate270 => top_left == v.sample(w - 1, 0, k) && top_right == v.sample(w - 1, h - 1, k),
                Orientation::FlipHorizontal => top_left == v.sample(w - 1, 0, k) && top_right == v.sample(0, 0, k),
                Orientation::FlipVertical => top_left == v.sample(0, h - 1, k) && top_right == v.sample(w - 1, h - 1, k),
                Orientation::Rotate90FlipH => top_left == v.sample(0, 0, k) && top_right == v.sample(0, h - 1, k),
                Orientation::Rotate270FlipH => top_left == v.sample(w - 1, h - 1, k) && top_right == v.sample(w - 1, 0, k),
            }
        }),
{
    let w = v.width as int;
    let h = v.height as int;
    let uw: nat = if swaps_sides(o) { v.height } else { v.width };
    let uh: nat = if swaps_sides(o) { v.width } else { v.height };
    let f = |x: int, y: int, kk: int| v.sample(source_of(o, w, h, x, y).0, source_of(o, w, h, x, y).1, kk);
    lemma_from_fn_sample(uw, uh, v.channels, f, 0, 0, k);
    lemma_from_fn_sample(uw, uh, v.channels, f, uw - 1, 0, k);
}

/// The corners that each EXIF orientation code shows at the top-left and the
/// top-right of the upright photo, as the EXIF standard numbers them.
pub proof fn lemma_exif_code_corners(v: RasterView, code: u8, k: int)
    requires
        v.wf(),
        v.width >= 1,
        v.height >= 1,
        0 <= k < v.channels,
        1 <= code <= 8,
    ensures
        exif_orientation(code) is Some,
        ({
            let u = orient(v, exif_orientation(code)->0);
            let w = v.width as int;
            let h = v.height as int;
            let top_left = u.sample(0, 0, k);
            let top_right = u.sample(u.width - 1, 0, k);
            &&& code == 1 ==> top_left == v.sample(0, 0, k) && top_right == v.sample(w - 1, 0, k)
            &&& code == 2 ==> top_left == v.sample(w - 1, 0, k) && top_right == v.sample(0, 0, k)
            &&& code == 3 ==> top_left == v.sample(w - 1, h - 1, k) && top_right == v.sample(0, h - 1, k)
            &&& code == 4 ==> top_left == v.sample(0, h - 1, k) && top_right == v.sample(w - 1, h - 1, k)
            &&& code == 5 ==> top_left == v.sample(0, 0, k) && top_right == v.sample(0, h - 1, k)
            &&& code == 6 ==> top_left == v.sample(0, h - 1, k) && top_right == v.sample(0, 0, k)
            &&& code == 7 ==> top_left == v.sample(w - 1, h - 1, k) && top_right == v.sample(w - 1, 0, k)
            &&& code == 8 ==> top_left == v.sample(w - 1, 0, k) && top_right == v.sample(w - 1, h - 1, k)
        }),
{
    lemma_orientation_corners(v, exif_orientation(code)->0, k);
}

/// Turns and mirror images compose as their names say: two quarter turns
/// clockwise make a half turn, three make a quarter turn counter-clockwise,
/// two mirror images across make a half turn, and the two mirrored quarter
/// turns are a quarter turn followed by a mirror image left to right.
pub proof fn lemma_turns_compose(v: RasterView)
    requires
        v.wf(),
    ensures
        orient(orient(v, Orientation::Rotate90), Orientation::Rotate90) == orient(v, Orientation::Rotate180),
        orient(orient(v, Orientation::Rotate180), Orientation::Rotate90) == orient(v, Orientation::Rotate270),
        orient(orient(v, Orientation::FlipHorizontal), Orientation::FlipVertical) == orient(
            v,
            Orientation::Rotate180,
        ),
        orient(orient(v, Orientation::Rotate90), Orientation::FlipHorizontal) == orient(
            v,
            Orientation::Rotate90FlipH,
        ),
        orient(orient(v, Orientation::Rotate270), Orientation::FlipHorizontal) == orient(
            v,
            Orientation::Rotate270FlipH,
        ),
{
    lemma_compose(v, Orientation::Rotate90, Orientation::Rotate90, Orientation::Rotate180);
    lemma_compose(v, Orientation::Rotate180, Orientation::Rotate90, Orientation::Rotate270);
    lemma_compose(v, Orientation::FlipHorizontal, Orientation::FlipVertical, Orientation::Rotate180);
    lemma_compose(v, Orientation::Rotate90, Orientation::FlipHorizontal, Orientation::Rotate90FlipH);
    lemma_compose(v, Orientation::Rotate270, Orientation::FlipHorizontal, Orientation::Rotate270FlipH);
}

/// Turning by `a` and then by `b` is turning by `c` whenever the sources agree.
proof fn lemma_compose(v: RasterView, a: Orientation, b: Orientation, c: Orientation)
    requires
        v.wf(),
        (swaps_sides(a) != swaps_sides(b)) == swaps_sides(c),
        forall|x: int, y: int|
            #![trigger source_of(b, orient(v, a).width as int, orient(v, a).height as int, x, y)]
            0 <= x < orient(v, c).width && 0 <= y < orient(v, c).height ==> source_of(
                a,
                v.width as int,
                v.height as int,
                source_of(b, orient(v, a).width as int, orient(v, a).height as int, x, y).0,
                source_of(b, orient(v, a).width as int, orient(v, a).height as int, x, y).1,
            ) == source_of(c, v.width as int, v.height as int, x, y),
    ensures
        orient(orient(v, a), b) == orient(v, c),
{
    let once = orient(v, a);
    let w = v.width as int;
    let h = v.height as int;
    let target = orient(v, c);
    let f = |x: int, y: int, k: int| once.sample(source_of(b, once.width as int, once.height as int, x, y).0, source_of(b, once.width as int, once.height as int, x, y).1, k);
    let g = |x: int, y: int, k: int| v.sample(source_of(c, w, h, x, y).0, source_of(c, w, h, x, y).1, k);
    assert forall|x: int, y: int, k: int| 0 <= x < target.width && 0 <= y < target.height && 0 <= k < v.channels implies #[trigger] f(x, y, k) == g(x, y, k) by {
        let p = source_of(b, once.width as int, once.height as int, x, y);
        lemma_source_in_bounds(b, once.width as int, once.height as int, x, y);
        lemma_from_fn_sample(
            once.width,
            once.height,
            v.channels,
            |xx: int, yy: int, kk: int| v.sample(source_of(a, w, h, xx, yy).0, source_of(a, w, h, xx, yy).1, kk),
            p.0,
            p.1,
            k,
        );
    }
    lemma_from_fn_ext(target.width, target.height, v.channels, f, g);
}

/// `b` undoes `a` whenever the source of a source is the pixel itself.
proof fn lemma_undo(v: RasterView, a: Orientation, b: Orientation)
    requires
        v.wf(),
        swaps_sides(a) == swaps_sides(b),
        forall|x: int, y: int|
            #![trigger source_of(b, orient(v, a).width as int, orient(v, a).height as int, x, y)]
            0 <= x < v.width && 0 <= y < v.height ==> source_of(
                a,
                v.width as int,
                v.height as int,
                source_of(b, orient(v, a).width as int, orient(v, a).height as int, x, y).0,
                source_of(b, orient(v, a).width as int, orient(v, a).height as int, x, y).1,
            ) == (x, y),
    ensures
        orient(orient(v, a), b) == v,
{
    let once = orient(v, a);
    let twice = orient(once, b);
    let w = v.width as int;
    let h = v.height as int;
    let f = |x: int, y: int, k: int| once.sample(source_of(b, once.width as int, once.height as int, x, y).0, source_of(b, once.width as int, once.height as int, x, y).1, k);
    let g = |x: int, y: int, k: int| v.sample(x, y, k);
    assert forall|x: int, y: int, k: int| 0 <= x < v.width && 0 <= y < v.height && 0 <= k < v.channels implies #[trigger] f(x, y, k) == g(x, y, k) by {
        let p = source_of(b, once.width as int, once.height as int, x, y);
        lemma_source_in_bounds(b, once.width as int, once.height as int, x, y);
        lemma_from_fn_sample(
            once.width,
            once.height,
            v.channels,
            |xx: int, yy: int, kk: int| v.sample(source_of(a, w, h, xx, yy).0, source_of(a, w, h, xx, yy).1, kk),
            p.0,
            p.1,
            k,
        );
    }
    lemma_from_fn_ext(v.width, v.height, v.channels, f, g);
    lemma_from_own_samples(v);
}

} // verus!
