use vstd::prelude::*;
use vstd::arithmetic::div_mod::{
    lemma_fundamental_div_mod,
    lemma_fundamental_div_mod_converse,
    lemma_mod_pos_bound,
    lemma_div_pos_is_pos,
    lemma_multiply_divide_lt,
};

verus! {

/// Position of channel `k` of pixel `(x, y)` in a row-major buffer of a raster
/// that is `width` pixels wide and has `channels` bytes per pixel.
pub open spec fn pixel_index(width: int, channels: int, x: int, y: int, k: int) -> int {
    (y * width + x) * channels + k
}

/// Every in-range pixel position lands inside the buffer, after the start of its row.
pub proof fn lemma_pixel_index_bounds(w: int, h: int, c: int, x: int, y: int, k: int)
    requires
        0 <= x < w,
        0 <= y < h,
        0 <= k < c,
    ensures
        0 <= y * w + x < w * h,
        0 <= pixel_index(w, c, x, y, k) < w * h * c,
        0 <= pixel_index(w, c, x, y, 0),
        pixel_index(w, c, x, y, k) == pixel_index(w, c, x, y, 0) + k,
        y * w <= y * w + x,
        c >= 1 ==> y * w + x <= pixel_index(w, c, x, y, 0),
        c >= 1 ==> w * h <= w * h * c,
{
    assert(0 <= y * w + x < w * h) by (nonlinear_arith)
        requires
            0 <= x < w,
            0 <= y < h,
    ;
    let p = y * w + x;
    assert(0 <= p * c + k < w * h * c) by (nonlinear_arith)
        requires
            0 <= p < w * h,
            0 <= k < c,
    ;
    assert(0 <= p * c) by (nonlinear_arith)
        requires
            0 <= p,
            0 <= c,
    ;
    assert(c >= 1 ==> p <= p * c) by (nonlinear_arith)
        requires
            0 <= p,
    ;
    assert(c >= 1 ==> w * h <= w * h * c) by (nonlinear_arith)
        requires
            0 <= p < w * h,
    ;
}

/// Distinct pixel positions never share a buffer slot.
pub proof fn lemma_pixel_index_injective(
    w: int,
    c: int,
    x1: int,
    y1: int,
    k1: int,
    x2: int,
    y2: int,
    k2: int,
)
    requires
        0 <= x1 < w,
        0 <= x2 < w,
        0 <= k1 < c,
        0 <= k2 < c,
        pixel_index(w, c, x1, y1, k1) == pixel_index(w, c, x2, y2, k2),
    ensures
        x1 == x2,
        y1 == y2,
        k1 == k2,
{
    let v = pixel_index(w, c, x1, y1, k1);
    lemma_fundamental_div_mod_converse(v, c, y1 * w + x1, k1);
    lemma_fundamental_div_mod_converse(v, c, y2 * w + x2, k2);
    let p = y1 * w + x1;
    lemma_fundamental_div_mod_converse(p, w, y1, x1);
    lemma_fundamental_div_mod_converse(p, w, y2, x2);
}

/// `out` holds, at the position of every in-range pixel channel it has already
/// reached, the value `f` prescribes for that channel.
pub open spec fn prefix_follows(
    out: Seq<u8>,
    w: int,
    h: int,
    c: int,
    f: spec_fn(int, int, int) -> u8,
) -> bool {
    forall|x: int, y: int, k: int|
        0 <= x < w && 0 <= y < h && 0 <= k < c && pixel_index(w, c, x, y, k) < out.len() ==> out[#[trigger] pixel_index(w, c, x, y, k)]
            == f(x, y, k)
}

/// Appending the prescribed value of the next channel keeps `prefix_follows`.
pub proof fn lemma_prefix_push(
    out: Seq<u8>,
    w: int,
    h: int,
    c: int,
    f: spec_fn(int, int, int) -> u8,
    x: int,
    y: int,
    k: int,
)
    requires
        prefix_follows(out, w, h, c, f),
        0 <= x < w,
        0 <= y < h,
        0 <= k < c,
        out.len() == pixel_index(w, c, x, y, k),
    ensures
        prefix_follows(out.push(f(x, y, k)), w, h, c, f),
{
    let next = out.push(f(x, y, k));
    assert forall|xx: int, yy: int, kk: int|
        0 <= xx < w && 0 <= yy < h && 0 <= kk < c && pixel_index(w, c, xx, yy, kk) < next.len()
            implies next[#[trigger] pixel_index(w, c, xx, yy, kk)] == f(xx, yy, kk) by {
        if pixel_index(w, c, xx, yy, kk) == out.len() {
            lemma_pixel_index_injective(w, c, xx, yy, kk, x, y, k);
        }
    }
}

/// The position of the channel after `(x, y, k)` in raster order.
pub proof fn lemma_next_channel(w: int, c: int, x: int, y: int, k: int)
    ensures
        pixel_index(w, c, x, y, k) + 1 == pixel_index(w, c, x, y, k + 1),
        pixel_index(w, c, x, y, c) == pixel_index(w, c, x + 1, y, 0),
        pixel_index(w, c, w, y, 0) == pixel_index(w, c, 0, y + 1, 0),
        pixel_index(w, c, 0, y, 0) == y * w * c,
{
    assert(((y * w + x) * c + k) + 1 == (y * w + x) * c + (k + 1));
    assert((y * w + x) * c + c == (y * w + x + 1) * c) by (nonlinear_arith);
    assert((y * w + w) * c + 0 == ((y + 1) * w + 0) * c + 0) by (nonlinear_arith);
    assert((y * w + 0) * c + 0 == y * w * c) by (nonlinear_arith);
}

/// The row-major buffer of a `w` by `h` raster with `c` channels whose channel
/// `k` of pixel `(x, y)` is `f(x, y, k)`.
pub open spec fn raster_from_fn(w: int, h: int, c: int, f: spec_fn(int, int, int) -> u8) -> Seq<u8> {
    Seq::new((w * h * c) as nat, |i: int| f((i / c) % w, (i / c) / w, i % c))
}

/// Reading a pixel channel back from `raster_from_fn` gives what `f` prescribed.
pub proof fn lemma_raster_from_fn_sample(
    w: int,
    h: int,
    c: int,
    f: spec_fn(int, int, int) -> u8,
    x: int,
    y: int,
    k: int,
)
    requires
        0 <= x < w,
        0 <= y < h,
        0 <= k < c,
    ensures
        raster_from_fn(w, h, c, f)[pixel_index(w, c, x, y, k)] == f(x, y, k),
        raster_from_fn(w, h, c, f).len() == w * h * c,
{
    lemma_pixel_index_bounds(w, h, c, x, y, k);
    let i = pixel_index(w, c, x, y, k);
    lemma_fundamental_div_mod_converse(i, c, y * w + x, k);
    lemma_fundamental_div_mod_converse(y * w + x, w, y, x);
}

/// A buffer of full length that follows `f` everywhere is `raster_from_fn` of `f`.
pub proof fn lemma_prefix_complete(out: Seq<u8>, w: int, h: int, c: int, f: spec_fn(int, int, int) -> u8)
    requires
        0 <= w,
        0 <= h,
        0 <= c,
        prefix_follows(out, w, h, c, f),
        out.len() == w * h * c,
    ensures
        out == raster_from_fn(w, h, c, f),
{
    let r = raster_from_fn(w, h, c, f);
    assert forall|i: int| 0 <= i < out.len() implies out[i] == r[i] by {
        assert(c > 0 && w > 0 && h > 0) by (nonlinear_arith)
            requires
                0 <= i < w * h * c,
                0 <= w,
                0 <= h,
                0 <= c,
        ;
        let p = i / c;
        let k = i % c;
        lemma_fundamental_div_mod(i, c);
        lemma_mod_pos_bound(i, c);
        lemma_div_pos_is_pos(i, c);
        let x = p % w;
        let y = p / w;
        lemma_fundamental_div_mod(p, w);
        lemma_mod_pos_bound(p, w);
        lemma_div_pos_is_pos(p, w);
        assert(p < w * h) by (nonlinear_arith)
            requires
                i == c * p + k,
                0 <= k < c,
                i < w * h * c,
                0 <= p,
        ;
        lemma_multiply_divide_lt(p, w, h);
        assert(i == pixel_index(w, c, x, y, k)) by (nonlinear_arith)
            requires
                i == c * p + k,
                p == w * y + x,
        ;
    }
    assert(out =~= r);
}

/// Two functions that agree on every in-range pixel channel give the same raster.
pub proof fn lemma_raster_from_fn_ext(
    w: int,
    h: int,
    c: int,
    f: spec_fn(int, int, int) -> u8,
    g: spec_fn(int, int, int) -> u8,
)
    requires
        0 <= w,
        0 <= h,
        0 <= c,
        forall|x: int, y: int, k: int| 0 <= x < w && 0 <= y < h && 0 <= k < c ==> #[trigger] f(x, y, k) == g(x, y, k),
    ensures
        raster_from_fn(w, h, c, f) == raster_from_fn(w, h, c, g),
{
    let a = raster_from_fn(w, h, c, f);
    assert(prefix_follows(a, w, h, c, g)) by {
        assert forall|x: int, y: int, k: int|
            0 <= x < w && 0 <= y < h && 0 <= k < c && pixel_index(w, c, x, y, k) < a.len() implies a[#[trigger] pixel_index(w, c, x, y, k)]
                == g(x, y, k) by {
            lemma_raster_from_fn_sample(w, h, c, f, x, y, k);
        }
    }
    assert(0 <= w * h * c) by (nonlinear_arith)
        requires
            0 <= w,
            0 <= h,
            0 <= c,
    ;
    lemma_prefix_complete(a, w, h, c, g);
}

} // verus!
