use vstd::prelude::*;
use crate::grid::{
    lemma_raster_from_fn_ext,
    pixel_index, prefix_follows, raster_from_fn, lemma_next_channel, lemma_pixel_index_bounds,
    lemma_prefix_complete, lemma_prefix_push, lemma_raster_from_fn_sample,
};

verus! {

/// The mathematical picture of a raster: its size, its number of bytes per
/// pixel, and its row-major bytes.
pub struct RasterView {
    pub width: nat,
    pub height: nat,
    pub channels: nat,
    pub bytes: Seq<u8>,
}

pub open spec fn min_int(a: int, b: int) -> int {
    if a <= b { a } else { b }
}

impl RasterView {
    /// The byte buffer holds exactly one value per pixel channel.
    pub open spec fn wf(self) -> bool {
        self.bytes.len() == self.width * self.height * self.channels
    }

    /// `(x, y)` is a pixel of this raster.
    pub open spec fn contains(self, x: int, y: int) -> bool {
        0 <= x < self.width && 0 <= y < self.height
    }

    /// Channel `k` of pixel `(x, y)`.
    pub open spec fn sample(self, x: int, y: int, k: int) -> u8 {
        self.bytes[pixel_index(self.width as int, self.channels as int, x, y, k)]
    }

    /// The raster of the given size whose every pixel is `f` of its coordinates.
    pub open spec fn from_fn(
        width: nat,
        height: nat,
        channels: nat,
        f: spec_fn(int, int, int) -> u8,
    ) -> RasterView {
        RasterView {
            width,
            height,
            channels,
            bytes: raster_from_fn(width as int, height as int, channels as int, f),
        }
    }

    /// Left edge of the cut-out that a crop at `x` keeps: `x` pulled back inside the raster.
    pub open spec fn crop_left(self, x: int) -> int {
        min_int(x, self.width as int)
    }

    pub open spec fn crop_top(self, y: int) -> int {
        min_int(y, self.height as int)
    }

    /// Width of the cut-out: the requested width, trimmed at the right edge.
    pub open spec fn crop_width(self, x: int, w: int) -> int {
        min_int(w, self.width - self.crop_left(x))
    }

    pub open spec fn crop_height(self, y: int, h: int) -> int {
        min_int(h, self.height - self.crop_top(y))
    }

    /// The cut-out of the rectangle at `(x, y)` of size `w` by `h`, trimmed to the raster.
    pub open spec fn crop(self, x: int, y: int, w: int, h: int) -> RasterView {
        let x0 = self.crop_left(x);
        let y0 = self.crop_top(y);
        RasterView::from_fn(
            self.crop_width(x, w) as nat,
            self.crop_height(y, h) as nat,
            self.channels,
            |px: int, py: int, k: int| self.sample(x0 + px, y0 + py, k),
        )
    }

    /// This raster with `top` written over it, the top-left corner of `top` at `(x, y)`;
    /// the parts of `top` that fall outside are dropped.
    pub open spec fn replace(self, top: RasterView, x: int, y: int) -> RasterView {
        RasterView::from_fn(
            self.width,
            self.height,
            self.channels,
            |bx: int, by: int, k: int|
                if top.contains(bx - x, by - y) {
                    top.sample(bx - x, by - y, k)
                } else {
                    self.sample(bx, by, k)
                },
        )
    }

    /// Every pixel of this raster has the channel values of `pixel`.
    pub open spec fn is_filled_with(self, pixel: Seq<u8>) -> bool {
        forall|x: int, y: int, k: int|
            self.contains(x, y) && 0 <= k < self.channels ==> #[trigger] self.sample(x, y, k) == pixel[k]
    }
}

/// Reading a pixel of a raster built from a function.
pub proof fn lemma_from_fn_sample(
    width: nat,
    height: nat,
    channels: nat,
    f: spec_fn(int, int, int) -> u8,
    x: int,
    y: int,
    k: int,
)
    requires
        0 <= x < width,
        0 <= y < height,
        0 <= k < channels,
    ensures
        RasterView::from_fn(width, height, channels, f).sample(x, y, k) == f(x, y, k),
        RasterView::from_fn(width, height, channels, f).wf(),
{
    lemma_raster_from_fn_sample(width as int, height as int, channels as int, f, x, y, k);
}

/// A well-formed raster is the raster built from its own pixels.
pub proof fn lemma_from_own_samples(v: RasterView)
    requires
        v.wf(),
    ensures
        v == RasterView::from_fn(v.width, v.height, v.channels, |x: int, y: int, k: int| v.sample(x, y, k)),
{
    let f = |x: int, y: int, k: int| v.sample(x, y, k);
    assert(prefix_follows(v.bytes, v.width as int, v.height as int, v.channels as int, f));
    lemma_prefix_complete(v.bytes, v.width as int, v.height as int, v.channels as int, f);
}

/// Rasters built from functions that agree on every pixel are equal.
pub proof fn lemma_from_fn_ext(
    width: nat,
    height: nat,
    channels: nat,
    f: spec_fn(int, int, int) -> u8,
    g: spec_fn(int, int, int) -> u8,
)
    requires
        forall|x: int, y: int, k: int|
            0 <= x < width && 0 <= y < height && 0 <= k < channels ==> #[trigger] f(x, y, k) == g(x, y, k),
    ensures
        RasterView::from_fn(width, height, channels, f) == RasterView::from_fn(width, height, channels, g),
{
    lemma_raster_from_fn_ext(width as int, height as int, channels as int, f, g);
}

/// A pixel of a crop is the pixel of the source at the shifted position.
pub proof fn lemma_crop_sample(v: RasterView, x: int, y: int, w: int, h: int, px: int, py: int, k: int)
    requires
        0 <= x,
        0 <= y,
        0 <= w,
        0 <= h,
        v.crop(x, y, w, h).contains(px, py),
        0 <= k < v.channels,
    ensures
        v.crop(x, y, w, h).sample(px, py, k) == v.sample(v.crop_left(x) + px, v.crop_top(y) + py, k),
        v.contains(v.crop_left(x) + px, v.crop_top(y) + py),
{
    let x0 = v.crop_left(x);
    let y0 = v.crop_top(y);
    lemma_from_fn_sample(
        v.crop_width(x, w) as nat,
        v.crop_height(y, h) as nat,
        v.channels,
        |qx: int, qy: int, kk: int| v.sample(x0 + qx, y0 + qy, kk),
        px,
        py,
        k,
    );
}

/// Every byte is zero.
pub open spec fn all_zero(bytes: Seq<u8>) -> bool {
    forall|j: int| 0 <= j < bytes.len() ==> #[trigger] bytes[j] == 0
}

/// A crop of a raster whose bytes are all zero has only zero bytes too.
pub proof fn lemma_crop_of_zeros(v: RasterView, x: int, y: int, w: int, h: int)
    requires
        v.wf(),
        v.channels >= 1,
        all_zero(v.bytes),
        0 <= x,
        0 <= y,
        0 <= w,
        0 <= h,
    ensures
        all_zero(v.crop(x, y, w, h).bytes),
{
    let cr = v.crop(x, y, w, h);
    let cw = cr.width as int;
    let ch = cr.height as int;
    let c = v.channels as int;
    assert forall|j: int| 0 <= j < cr.bytes.len() implies #[trigger] cr.bytes[j] == 0 by {
        let q = j / c;
        let k = j % c;
        let px = q % cw;
        let py = q / cw;
        vstd::arithmetic::div_mod::lemma_fundamental_div_mod(j, c);
        vstd::arithmetic::div_mod::lemma_mod_pos_bound(j, c);
        assert(0 <= q < cw * ch) by (nonlinear_arith)
            requires
                j == c * q + k,
                0 <= k < c,
                0 <= j < cw * ch * c,
        ;
        assert(cw > 0) by (nonlinear_arith)
            requires
                0 <= q < cw * ch,
                0 <= ch,
        ;
        vstd::arithmetic::div_mod::lemma_fundamental_div_mod(q, cw);
        vstd::arithmetic::div_mod::lemma_mod_pos_bound(q, cw);
        assert(0 <= py < ch) by (nonlinear_arith)
            requires
                q == cw * py + px,
                0 <= px < cw,
                0 <= q < cw * ch,
        ;
        lemma_crop_sample(v, x, y, w, h, px, py, k);
        lemma_pixel_index_bounds(
            v.width as int,
            v.height as int,
            c,
            v.crop_left(x) + px,
            v.crop_top(y) + py,
            k,
        );
    }
}

/// The channel values of a raster seen from the offset `(x0, y0)`.
pub open spec fn shifted_bytes(src: Seq<u8>, w: int, c: int, x0: int, y0: int) -> spec_fn(int, int, int) -> u8 {
    |px: int, py: int, k: int| src[pixel_index(w, c, x0 + px, y0 + py, k)]
}

/// Builds the bytes of the cut-out `[x0, x0 + cw) x [y0, y0 + ch)` of a raster.
pub(crate) fn crop_bytes(
    src: &Vec<u8>,
    width: u32,
    height: u32,
    channels: u32,
    x0: u32,
    y0: u32,
    cw: u32,
    ch: u32,
) -> (out: Vec<u8>)
    requires
        1 <= channels <= 4,
        src.len() == width * height * channels,
        x0 + cw <= width,
        y0 + ch <= height,
    ensures
        out@ == raster_from_fn(
            cw as int,
            ch as int,
            channels as int,
            shifted_bytes(src@, width as int, channels as int, x0 as int, y0 as int),
        ),
{
    let mut out: Vec<u8> = Vec::new();
    let mut y: u32 = 0;
    proof {
        lemma_next_channel(cw as int, channels as int, 0, 0, 0);
    }
    while y < ch
        invariant
            1 <= channels <= 4,
            src.len() == width * height * channels,
            x0 + cw <= width,
            y0 + ch <= height,
            y <= ch,
            out.len() == pixel_index(cw as int, channels as int, 0, y as int, 0),
            prefix_follows(out@, cw as int, ch as int, channels as int, shifted_bytes(src@, width as int, channels as int, x0 as int, y0 as int)),
        decreases ch - y,
    {
        let mut x: u32 = 0;
        while x < cw
            invariant
                1 <= channels <= 4,
                src.len() == width * height * channels,
                x0 + cw <= width,
                y0 + ch <= height,
                y < ch,
                x <= cw,
                out.len() == pixel_index(cw as int, channels as int, x as int, y as int, 0),
                prefix_follows(out@, cw as int, ch as int, channels as int, shifted_bytes(src@, width as int, channels as int, x0 as int, y0 as int)),
            decreases cw - x,
        {
            proof {
                lemma_pixel_index_bounds(width as int, height as int, channels as int, (x0 + x) as int, (y0 + y) as int, 0);
            }
            let row: usize = (y0 + y) as usize * width as usize;
            let base: usize = (row + (x0 + x) as usize) * channels as usize;
            let mut k: u32 = 0;
            while k < channels
                invariant
                    1 <= channels <= 4,
                    src.len() == width * height * channels,
                    x0 + cw <= width,
                    y0 + ch <= height,
                    y < ch,
                    x < cw,
                    k <= channels,
                    base == pixel_index(width as int, channels as int, (x0 + x) as int, (y0 + y) as int, 0),
                    out.len() == pixel_index(cw as int, channels as int, x as int, y as int, k as int),
                    prefix_follows(out@, cw as int, ch as int, channels as int, shifted_bytes(src@, width as int, channels as int, x0 as int, y0 as int)),
                decreases channels - k,
            {
                proof {
                    lemma_pixel_index_bounds(width as int, height as int, channels as int, (x0 + x) as int, (y0 + y) as int, k as int);
                    lemma_prefix_push(out@, cw as int, ch as int, channels as int, shifted_bytes(src@, width as int, channels as int, x0 as int, y0 as int), x as int, y as int, k as int);
                    lemma_next_channel(cw as int, channels as int, x as int, y as int, k as int);
                }
                out.push(src[base + k as usize]);
                k = k + 1;
            }
            proof {
                lemma_next_channel(cw as int, channels as int, x as int, y as int, channels as int);
            }
            x = x + 1;
        }
        proof {
            lemma_next_channel(cw as int, channels as int, cw as int, y as int, 0);
            lemma_next_channel(cw as int, channels as int, 0, (y + 1) as int, 0);
        }
        y = y + 1;
    }
    proof {
        lemma_next_channel(cw as int, channels as int, 0, ch as int, 0);
        assert(ch * cw * channels == cw * ch * channels) by (nonlinear_arith);
        lemma_prefix_complete(out@, cw as int, ch as int, channels as int, shifted_bytes(src@, width as int, channels as int, x0 as int, y0 as int));
    }
    out
}

/// The channel values of `bottom` with `top` written over it at `(x, y)`.
pub open spec fn overlaid_bytes(
    bottom: Seq<u8>,
    bw: int,
    top: Seq<u8>,
    tw: int,
    th: int,
    c: int,
    x: int,
    y: int,
) -> spec_fn(int, int, int) -> u8 {
    |bx: int, by: int, k: int|
        if 0 <= bx - x < tw && 0 <= by - y < th {
            top[pixel_index(tw, c, bx - x, by - y, k)]
        } else {
            bottom[pixel_index(bw, c, bx, by, k)]
        }
}

/// Builds the bytes of `bottom` with `top` written over it at `(x, y)`.
pub(crate) fn replace_bytes(
    bottom: &Vec<u8>,
    bw: u32,
    bh: u32,
    top: &Vec<u8>,
    tw: u32,
    th: u32,
    channels: u32,
    x: i64,
    y: i64,
) -> (out: Vec<u8>)
    requires
        1 <= channels <= 4,
        bottom.len() == bw * bh * channels,
        top.len() == tw * th * channels,
    ensures
        out@ == raster_from_fn(
            bw as int,
            bh as int,
            channels as int,
            overlaid_bytes(bottom@, bw as int, top@, tw as int, th as int, channels as int, x as int, y as int),
        ),
{
    let mut out: Vec<u8> = Vec::new();
    let mut by: u32 = 0;
    proof {
        lemma_next_channel(bw as int, channels as int, 0, 0, 0);
    }
    while by < bh
        invariant
            1 <= channels <= 4,
            bottom.len() == bw * bh * channels,
            top.len() == tw * th * channels,
            by <= bh,
            out.len() == pixel_index(bw as int, channels as int, 0, by as int, 0),
            prefix_follows(out@, bw as int, bh as int, channels as int, overlaid_bytes(bottom@, bw as int, top@, tw as int, th as int, channels as int, x as int, y as int)),
        decreases bh - by,
    {
        let mut bx: u32 = 0;
        while bx < bw
            invariant
                1 <= channels <= 4,
                bottom.len() == bw * bh * channels,
                top.len() == tw * th * channels,
                by < bh,
                bx <= bw,
                out.len() == pixel_index(bw as int, channels as int, bx as int, by as int, 0),
                prefix_follows(out@, bw as int, bh as int, channels as int, overlaid_bytes(bottom@, bw as int, top@, tw as int, th as int, channels as int, x as int, y as int)),
            decreases bw - bx,
        {
            proof {
                lemma_pixel_index_bounds(bw as int, bh as int, channels as int, bx as int, by as int, 0);
            }
            let base: usize = (by as usize * bw as usize + bx as usize) * channels as usize;
            let tx: i128 = bx as i128 - x as i128;
            let ty: i128 = by as i128 - y as i128;
            let inside: bool = 0 <= tx && tx < tw as i128 && 0 <= ty && ty < th as i128;
            let mut top_base: usize = 0;
            if inside {
                proof {
                    lemma_pixel_index_bounds(tw as int, th as int, channels as int, tx as int, ty as int, 0);
                }
                top_base = (ty as usize * tw as usize + tx as usize) * channels as usize;
            }
            let mut k: u32 = 0;
            while k < channels
                invariant
                    1 <= channels <= 4,
                    bottom.len() == bw * bh * channels,
                    top.len() == tw * th * channels,
                    by < bh,
                    bx < bw,
                    k <= channels,
                    tx == bx - x,
                    ty == by - y,
                    inside == (0 <= tx < tw && 0 <= ty < th),
                    base == pixel_index(bw as int, channels as int, bx as int, by as int, 0),
                    inside ==> top_base == pixel_index(tw as int, channels as int, tx as int, ty as int, 0),
                    out.len() == pixel_index(bw as int, channels as int, bx as int, by as int, k as int),
                    prefix_follows(out@, bw as int, bh as int, channels as int, overlaid_bytes(bottom@, bw as int, top@, tw as int, th as int, channels as int, x as int, y as int)),
                decreases channels - k,
            {
                proof {
                    lemma_pixel_index_bounds(bw as int, bh as int, channels as int, bx as int, by as int, k as int);
                    if inside {
                        lemma_pixel_index_bounds(tw as int, th as int, channels as int, tx as int, ty as int, k as int);
                    }
                    lemma_prefix_push(out@, bw as int, bh as int, channels as int, overlaid_bytes(bottom@, bw as int, top@, tw as int, th as int, channels as int, x as int, y as int), bx as int, by as int, k as int);
                    lemma_next_channel(bw as int, channels as int, bx as int, by as int, k as int);
                }
                let v: u8 = if inside { top[top_base + k as usize] } else { bottom[base + k as usize] };
                out.push(v);
                k = k + 1;
            }
            proof {
                lemma_next_channel(bw as int, channels as int, bx as int, by as int, channels as int);
            }
            bx = bx + 1;
        }
        proof {
            lemma_next_channel(bw as int, channels as int, bw as int, by as int, 0);
            lemma_next_channel(bw as int, channels as int, 0, (by + 1) as int, 0);
        }
        by = by + 1;
    }
    proof {
        lemma_next_channel(bw as int, channels as int, 0, bh as int, 0);
        assert(bh * bw * channels == bw * bh * channels) by (nonlinear_arith);
        lemma_prefix_complete(out@, bw as int, bh as int, channels as int, overlaid_bytes(bottom@, bw as int, top@, tw as int, th as int, channels as int, x as int, y as int));
    }
    out
}

} // verus!
