//! BT.601 YCbCr-to-RGBA conversion of 4:2:0 planar data.

use crate::types::clamp;
use vstd::prelude::*;

verus! {

// The BT.601 matrix coefficients in 16.16 fixed point, including the
// expansion from the reduced 16..235 / 16..240 ranges to full range.
/// `round((255 / 219) * 65536)`
pub const GRAY_COEFF: i32 = 76309;

/// `round((255 / 224) * 1.402 * 65536)`
pub const CR_TO_R: i32 = 104597;

/// `round(-(255 / 224) * 1.402 * (0.299 / 0.587) * 65536)`
pub const CR_TO_G: i32 = -53279;

/// `round(-(255 / 224) * 1.772 * (0.114 / 0.587) * 65536)`
pub const CB_TO_G: i32 = -25675;

/// `round((255 / 224) * 1.772 * 65536)`
pub const CB_TO_B: i32 = 132201;

/// The red channel of a YCbCr triple: the luma and chroma offsets are
/// removed, the fixed-point matrix row applied with rounding, and the
/// result clipped to a byte.
pub open spec fn red_of(y: int, cr: int) -> int {
    clamp(((y - 16) * 76309 + 104597 * (cr - 128) + 32768) / 65536, 0, 255)
}

/// The green channel of a YCbCr triple.
pub open spec fn green_of(y: int, cb: int, cr: int) -> int {
    clamp(((y - 16) * 76309 - 53279 * (cr - 128) - 25675 * (cb - 128) + 32768) / 65536, 0, 255)
}

/// The blue channel of a YCbCr triple.
pub open spec fn blue_of(y: int, cb: int) -> int {
    clamp(((y - 16) * 76309 + 132201 * (cb - 128) + 32768) / 65536, 0, 255)
}

/// The chroma plane sample used for luma pixel `p` of a `y_width`-wide
/// picture whose chroma rows are `br_width` wide: the nearest-neighbour
/// sample of the 2x2 luma quad.
pub open spec fn chroma_index(p: int, y_width: int, br_width: int) -> int
    recommends
        y_width >= 1,
        br_width >= 1,
{
    (p % y_width) / 2 + ((p / y_width) / 2) * br_width
}

/// Flooring division by `65536` of a bounded value.
fn floor_div_65536(x: i32) -> (r: i32)
    requires
        -0x40000000 < x < 0x40000000,
    ensures
        r as int == (x as int) / 65536,
{
    if x >= 0 {
        let q = (x as u32) / 65536u32;
        q as i32
    } else {
        let nx = (-x) as u32;
        let q = (nx + 65535) / 65536;
        proof {
            let xi = x as int;
            vstd::arithmetic::div_mod::lemma_fundamental_div_mod(xi, 65536);
            let qq = xi / 65536;
            let rr = xi % 65536;
            assert(xi == 65536 * qq + rr && 0 <= rr < 65536);
            assert((-xi) + 65535 == 65536 * (-qq) + (65535 - rr));
            vstd::arithmetic::div_mod::lemma_fundamental_div_mod_converse(
                (-xi) + 65535,
                65536,
                -qq,
                65535 - rr,
            );
        }
        -(q as i32)
    }
}

/// Convert one YCbCr pixel to its RGB bytes.
pub fn yuv_to_rgb_pixel(y: u8, cb: u8, cr: u8) -> (rgb: (u8, u8, u8))
    ensures
        rgb.0 as int == red_of(y as int, cr as int),
        rgb.1 as int == green_of(y as int, cb as int, cr as int),
        rgb.2 as int == blue_of(y as int, cb as int),
{
    let gray: i32 = (y as i32 - 16) * GRAY_COEFF;
    let cbv: i32 = cb as i32 - 128;
    let crv: i32 = cr as i32 - 128;
    let r_num: i32 = gray + CR_TO_R * crv + 32768;
    let g_num: i32 = gray + CR_TO_G * crv + CB_TO_G * cbv + 32768;
    let b_num: i32 = gray + CB_TO_B * cbv + 32768;
    let r = clamp_channel(floor_div_65536(r_num));
    let g = clamp_channel(floor_div_65536(g_num));
    let b = clamp_channel(floor_div_65536(b_num));
    (r, g, b)
}

/// Clip a channel value to a byte.
fn clamp_channel(x: i32) -> (r: u8)
    ensures
        r as int == clamp(x as int, 0, 255),
{
    if x < 0 {
        0
    } else if x > 255 {
        255
    } else {
        x as u8
    }
}

/// Pixel `p` of the packed output holds the converted RGBA quadruple of
/// luma pixel `p` and its nearest chroma sample.
pub open spec fn rgba_pixel_ok(
    rgba: Seq<u8>,
    y: Seq<u8>,
    cb: Seq<u8>,
    cr: Seq<u8>,
    w: int,
    bw: int,
    p: int,
) -> bool {
    let ci = chroma_index(p, w, bw);
    &&& rgba[4 * p] as int == red_of(y[p] as int, cr[ci] as int)
    &&& rgba[4 * p + 1] as int == green_of(y[p] as int, cb[ci] as int, cr[ci] as int)
    &&& rgba[4 * p + 2] as int == blue_of(y[p] as int, cb[ci] as int)
    &&& rgba[4 * p + 3] == 255
}

/// Convert planar 4:2:0 YCbCr data into packed RGBA8888 data.
///
/// The result holds one RGBA quadruple per luma pixel; each 2x2 luma quad
/// reuses the single co-sited chroma sample without interpolation, and
/// the alpha channel is always 255. The chroma planes must be half the
/// luma plane's width and height, both rounded up.
pub fn yuv420_to_rgba(
    y: &Vec<u8>,
    chroma_b: &Vec<u8>,
    chroma_r: &Vec<u8>,
    y_width: usize,
    br_width: usize,
) -> (rgba: Vec<u8>)
    requires
        y@.len() == 0 ==> chroma_b@.len() == 0 && chroma_r@.len() == 0,
        y@.len() > 0 ==> {
            &&& y_width >= 1
            &&& br_width as int == (y_width + 1) as int / 2
            &&& y@.len() % y_width as nat == 0
            &&& chroma_b@.len() == br_width as int * (((y@.len() / y_width as nat) + 1) as int
                / 2)
            &&& chroma_r@.len() == chroma_b@.len()
        },
        y@.len() <= 0x10000000,
    ensures
        rgba@.len() == 4 * y@.len(),
        forall|p: int|
            0 <= p < y@.len() ==> #[trigger] rgba_pixel_ok(
                rgba@,
                y@,
                chroma_b@,
                chroma_r@,
                y_width as int,
                br_width as int,
                p,
            ),
{
    let mut rgba: Vec<u8> = Vec::new();
    if y.len() == 0 {
        return rgba;
    }
    let y_height = y.len() / y_width;
    let br_height = (y_height + 1) / 2;
    proof {
        vstd::arithmetic::div_mod::lemma_fundamental_div_mod(y@.len() as int, y_width as int);
    }
    let mut p: usize = 0;
    while p < y.len()
        invariant
            y_width >= 1,
            br_width as int == (y_width + 1) as int / 2,
            y@.len() % y_width as nat == 0,
            y@.len() > 0,
            y@.len() <= 0x10000000,
            y_height == y@.len() / y_width as nat,
            br_height as int == ((y_height + 1) as int) / 2,
            chroma_b@.len() == br_width as int * br_height as int,
            chroma_r@.len() == chroma_b@.len(),
            p <= y@.len(),
            rgba@.len() == 4 * p,
            forall|q: int|
                0 <= q < p ==> #[trigger] rgba_pixel_ok(
                    rgba@,
                    y@,
                    chroma_b@,
                    chroma_r@,
                    y_width as int,
                    br_width as int,
                    q,
                ),
        decreases y@.len() - p,
    {
        let px = p % y_width;
        let py = p / y_width;
        let cx = px / 2;
        let cy = py / 2;
        proof {
            lemma_chroma_in_plane(
                p as int,
                y@.len() as int,
                y_width as int,
                br_width as int,
                y_height as int,
                br_height as int,
            );
        }
        let ci = cx + cy * br_width;
        let ghost pre = rgba@;
        let (r, g, b) = yuv_to_rgb_pixel(y[p], chroma_b[ci], chroma_r[ci]);
        rgba.push(r);
        rgba.push(g);
        rgba.push(b);
        rgba.push(255);
        proof {
            let w = y_width as int;
            let bw = br_width as int;
            assert forall|q: int| 0 <= q <= p as int implies #[trigger] rgba_pixel_ok(
                rgba@,
                y@,
                chroma_b@,
                chroma_r@,
                w,
                bw,
                q,
            ) by {
                if q < p as int {
                    assert(rgba_pixel_ok(pre, y@, chroma_b@, chroma_r@, w, bw, q));
                    assert(rgba@[4 * q] == pre[4 * q]);
                    assert(rgba@[4 * q + 1] == pre[4 * q + 1]);
                    assert(rgba@[4 * q + 2] == pre[4 * q + 2]);
                    assert(rgba@[4 * q + 3] == pre[4 * q + 3]);
                } else {
                    assert(rgba@[4 * q] == r && rgba@[4 * q + 1] == g && rgba@[4 * q + 2] == b
                        && rgba@[4 * q + 3] == 255);
                    assert(ci as int == chroma_index(q, w, bw));
                }
            }
        }
        p += 1;
    }
    rgba
}

/// The chroma sample of a luma pixel lies inside the chroma plane.
proof fn lemma_chroma_in_plane(p: int, n: int, w: int, bw: int, h: int, bh: int)
    requires
        w >= 1,
        n > 0,
        n % w == 0,
        h == n / w,
        bw == (w + 1) / 2,
        bh == (h + 1) / 2,
        0 <= p < n,
    ensures
        0 <= (p % w) / 2 < bw,
        0 <= p / w < h,
        0 <= (p / w) / 2 < bh,
        0 <= (p % w) / 2 + ((p / w) / 2) * bw < bw * bh,
        (p % w) / 2 + ((p / w) / 2) * bw == chroma_index(p, w, bw),
        bw * bh <= n,
{
    vstd::arithmetic::div_mod::lemma_fundamental_div_mod(p, w);
    vstd::arithmetic::div_mod::lemma_fundamental_div_mod(n, w);
    assert(0 <= p % w < w);
    assert(p / w < h) by (nonlinear_arith)
        requires
            p == w * (p / w) + p % w && 0 <= p % w < w && p < n && n == w * h,
    ;
    assert(p / w >= 0) by (nonlinear_arith)
        requires
            p == w * (p / w) + p % w && 0 <= p % w < w && p >= 0 && w >= 1,
    ;
    assert((p % w) / 2 < bw) by {
        assert(p % w <= w - 1);
        assert((w - 1) / 2 < bw);
        vstd::arithmetic::div_mod::lemma_div_is_ordered(p % w, w - 1, 2);
    }
    assert((p / w) / 2 < bh) by {
        assert(p / w <= h - 1);
        assert((h - 1) / 2 < bh);
        vstd::arithmetic::div_mod::lemma_div_is_ordered(p / w, h - 1, 2);
    }
    assert((p % w) / 2 >= 0 && (p / w) / 2 >= 0);
    let cx = (p % w) / 2;
    let cy = (p / w) / 2;
    assert(cx + cy * bw < bw * bh) by (nonlinear_arith)
        requires
            0 <= cx < bw && 0 <= cy < bh,
    ;
    assert(cy * bw >= 0) by (nonlinear_arith)
        requires
            cy >= 0 && bw >= 1,
    ;
    assert(bw <= w) by {
        assert(w + 1 <= 2 * w);
        vstd::arithmetic::div_mod::lemma_div_is_ordered(w + 1, 2 * w, 2);
        vstd::arithmetic::div_mod::lemma_div_by_multiple(w, 2);
    }
    assert(h >= 1) by {
        assert(h * w == w * h) by (nonlinear_arith);
        if h <= 0 {
            assert(w * h <= 0) by (nonlinear_arith)
                requires
                    h <= 0 && w >= 1,
            ;
        }
    }
    assert(bh <= h) by {
        assert(h + 1 <= 2 * h);
        vstd::arithmetic::div_mod::lemma_div_is_ordered(h + 1, 2 * h, 2);
        vstd::arithmetic::div_mod::lemma_div_by_multiple(h, 2);
    }
    assert(bw * bh <= w * h) by (nonlinear_arith)
        requires
            0 <= bw <= w && 0 <= bh <= h,
    ;
    assert(w * h == n) by (nonlinear_arith)
        requires
            n == w * h,
    ;
}

/// Fully black input (`Y = 16`, `Cb = Cr = 128`) converts to black, and
/// fully white input (`Y = 235`) converts to white, each with an opaque
/// alpha in the packed form.
pub proof fn lemma_black_and_white()
    ensures
        red_of(16, 128) == 0 && green_of(16, 128, 128) == 0 && blue_of(16, 128) == 0,
        red_of(235, 128) == 255 && green_of(235, 128, 128) == 255 && blue_of(235, 128) == 255,
{
    assert(32768int / 65536 == 0) by {
        vstd::arithmetic::div_mod::lemma_basic_div(32768, 65536);
    }
    let white: int = (235 - 16) * 76309 + 32768;
    assert(white == 16744439);
    assert(white / 65536 == 255) by {
        vstd::arithmetic::div_mod::lemma_fundamental_div_mod_converse(16744439, 65536, 255, 32759);
    }
}

} // verus!
