//! Framing of a photo on the screen: the photo is scaled to fit the screen keeping its aspect
//! ratio, and when it does not fill the screen, the empty bands are filled with blurred parts
//! of the photo itself. The geometry is computed here in exact rational arithmetic; scaling,
//! cutting out and drawing pictures over one another is done by the `image` crate, and the
//! blur (which takes a floating-point strength) by the caller, between
//! [`background_sources`] and [`compose_frame`].

use vstd::prelude::*;

use crate::cli::{quarter_turns_spec, Rotation};
use crate::info_box::round_div;

verus! {

/// A rectangle cut out of the photo, in photo pixels.
#[derive(Debug, Clone, Copy, PartialEq, Eq, Structural)]
pub struct Crop {
    pub x: u32,
    pub y: u32,
    pub w: u32,
    pub h: u32,
}

/// How a photo is put on the screen.
#[derive(Debug, Clone, Copy, PartialEq, Eq, Structural)]
pub enum Framing {
    /// The scaled photo fills the screen up to less than a pixel in each direction: it is
    /// stretched to the screen size and no background is needed.
    ExactFit,
    /// The scaled photo leaves bands on two opposite sides. The two crops of the photo, each
    /// scaled to the screen and blurred, fill the first band (drawn at the top-left corner)
    /// and the second band (drawn at the bottom-right corner); the scaled photo is drawn at
    /// `(foreground_x, foreground_y)`.
    WithBackground { first: Crop, second: Crop, foreground_x: u32, foreground_y: u32 },
}

/// `n / d`, rounded down (for `n >= 0`, `d > 0`).
pub open spec fn floor_div(n: int, d: int) -> int {
    n / d
}

/// `n / d`, rounded up (for `n >= 0`, `d > 0`).
pub open spec fn ceil_div(n: int, d: int) -> int {
    (n + d - 1) / d
}

/// The fraction `n / d`, but at least 1 (a scaled side never shrinks below one pixel).
pub open spec fn at_least_one(n: int, d: int) -> (int, int) {
    if n >= d {
        (n, d)
    } else {
        (1, 1)
    }
}

/// The photo scaled to fit the screen spans the screen's whole width (it is relatively wider
/// than the screen, or of the same aspect ratio).
pub open spec fn fills_width(iw: int, ih: int, sw: int, sh: int) -> bool {
    sw * ih <= sh * iw
}

/// The other side of the photo scaled to fit the screen, as a fraction: its height when it
/// spans the screen's width, else its width.
pub open spec fn fitted_side(iw: int, ih: int, sw: int, sh: int) -> (int, int) {
    if fills_width(iw, ih, sw, sh) {
        at_least_one(ih * sw, iw)
    } else {
        at_least_one(iw * sh, ih)
    }
}

/// The scaled photo misses the screen size by less than a pixel.
pub open spec fn exact_fit(iw: int, ih: int, sw: int, sh: int) -> bool {
    let (n, d) = fitted_side(iw, ih, sw, sh);
    if fills_width(iw, ih, sw, sh) {
        sh * d - n < d
    } else {
        sw * d - n < d
    }
}

/// Position of the scaled photo: centred, half the band rounded to the nearest pixel.
pub open spec fn foreground_position(iw: int, ih: int, sw: int, sh: int) -> (int, int) {
    let (n, d) = fitted_side(iw, ih, sw, sh);
    if fills_width(iw, ih, sw, sh) {
        (0, round_div(sh * d - n, 2 * d))
    } else {
        (round_div(sw * d - n, 2 * d), 0)
    }
}

pub open spec fn crop(x: int, y: int, w: int, h: int) -> Crop {
    Crop { x: x as u32, y: y as u32, w: w as u32, h: h as u32 }
}

/// The parts of the photo that become the background bands. The screen's shape is laid over
/// the centre of the photo at the largest size that fits in it; the photo scaled to fit that
/// shape leaves two bands, and the parts of the photo under those bands are cut out (start
/// rounded down, size rounded up).
pub open spec fn background_crops(iw: int, ih: int, sw: int, sh: int) -> (Crop, Crop) {
    if iw * sh <= ih * sw {
        // The screen's shape spans the photo's width and `p` of its height.
        let (pn, pd) = at_least_one(sh * iw, sw);
        // The photo scaled into that shape is `t` wide.
        let (tn, td) = at_least_one(iw * pn, pd * ih);
        let y = floor_div(ih * pd - pn, 2 * pd);
        let h = ceil_div(pn, pd);
        if iw * td > tn {
            let w = ceil_div(iw * td - tn, 2 * td);
            (crop(0, y, w, h), crop(floor_div(iw * td + tn, 2 * td), y, w, h))
        } else {
            (crop(0, y, iw, 0), crop(0, ih, iw, 0))
        }
    } else {
        // The screen's shape spans the photo's height and `q` of its width.
        let (qn, qd) = at_least_one(sw * ih, sh);
        // The photo scaled into that shape is `u` high.
        let (un, ud) = at_least_one(ih * qn, qd * iw);
        let x = floor_div(iw * qd - qn, 2 * qd);
        let w = ceil_div(qn, qd);
        let h = ceil_div(ih * ud - un, 2 * ud);
        (crop(x, 0, w, h), crop(x, floor_div(ih * ud + un, 2 * ud), w, h))
    }
}

/// How a photo of `iw` x `ih` pixels is framed on a screen of `sw` x `sh` pixels.
pub open spec fn framing_spec(iw: int, ih: int, sw: int, sh: int) -> Framing {
    if exact_fit(iw, ih, sw, sh) {
        Framing::ExactFit
    } else {
        let (first, second) = background_crops(iw, ih, sw, sh);
        let (fx, fy) = foreground_position(iw, ih, sw, sh);
        Framing::WithBackground { first, second, foreground_x: fx as u32, foreground_y: fy as u32 }
    }
}

/// `n / d` rounded up, known to be at most `k`.
fn ceil_div_at_most(n: u128, d: u128, k: u32) -> (r: u32)
    requires
        d > 0,
        n <= k * d,
        d <= 0x4_0000_0000_0000_0000,
    ensures
        r == ceil_div(n as int, d as int),
        r <= k,
{
    proof {
        vstd::arithmetic::mul::lemma_mul_upper_bound(k as int, u32::MAX as int, d as int, 0x4_0000_0000_0000_0000);
        vstd::arithmetic::div_mod::lemma_div_is_ordered((n + d - 1) as int, (k * d + d - 1) as int, d as int);
        vstd::arithmetic::div_mod::lemma_div_multiples_vanish_fancy(k as int, (d - 1) as int, d as int);
        assert(k * d + d - 1 == d * k + (d - 1)) by (nonlinear_arith);
    }
    ((n + d - 1) / d) as u32
}

/// `n / d` rounded down, known to be at most `k`.
fn floor_div_at_most(n: u128, d: u128, k: u32) -> (r: u32)
    requires
        d > 0,
        n <= k * d,
    ensures
        r == floor_div(n as int, d as int),
        r <= k,
{
    proof {
        vstd::arithmetic::div_mod::lemma_div_is_ordered(n as int, (k * d) as int, d as int);
        vstd::arithmetic::div_mod::lemma_div_multiples_vanish(k as int, d as int);
        assert(k * d == d * k) by (nonlinear_arith);
    }
    (n / d) as u32
}

/// `n / d` rounded to the nearest integer, halves up, known to be at most `k`.
fn round_div_at_most(n: u128, d: u128, k: u32) -> (r: u32)
    requires
        d > 0,
        n <= k * d,
        d <= 0x4_0000_0000_0000_0000,
    ensures
        r == round_div(n as int, d as int),
        r <= k,
{
    proof {
        vstd::arithmetic::mul::lemma_mul_upper_bound(k as int, u32::MAX as int, d as int, 0x4_0000_0000_0000_0000);
        assert(2 * n + d <= 2 * k * d + d) by (nonlinear_arith)
            requires
                n <= k * d,
        ;
        vstd::arithmetic::div_mod::lemma_div_is_ordered((2 * n + d) as int, (2 * k * d + d) as int, (2 * d) as int);
        vstd::arithmetic::div_mod::lemma_div_multiples_vanish_fancy(k as int, d as int, (2 * d) as int);
        assert(2 * k * d + d == 2 * d * k + d) by (nonlinear_arith);
    }
    ((2 * n + d) / (2 * d)) as u32
}

fn at_least_one_u128(n: u128, d: u128) -> (r: (u128, u128))
    ensures
        (r.0 as int, r.1 as int) == at_least_one(n as int, d as int),
{
    if n >= d {
        (n, d)
    } else {
        (1, 1)
    }
}

/// Bounds of the fraction that `at_least_one` gives when `n <= k * d` for a `k >= 1`.
proof fn lemma_at_least_one_bounded(n: int, d: int, k: int)
    requires
        0 <= n,
        0 < d,
        1 <= k,
        n <= k * d,
    ensures
        ({
            let (an, ad) = at_least_one(n, d);
            &&& 0 < ad <= d
            &&& 0 <= an <= k * ad
            &&& an >= ad
        }),
{
}

/// Background crops, computed.
fn compute_background_crops(iw: u32, ih: u32, sw: u32, sh: u32) -> (r: (Crop, Crop))
    requires
        iw > 0,
        ih > 0,
        sw > 0,
        sh > 0,
    ensures
        r == background_crops(iw as int, ih as int, sw as int, sh as int),
{
    let (w128, h128, sw128, sh128) = (iw as u128, ih as u128, sw as u128, sh as u128);
    proof {
        vstd::arithmetic::mul::lemma_mul_upper_bound(sh as int, u32::MAX as int, iw as int, u32::MAX as int);
        vstd::arithmetic::mul::lemma_mul_upper_bound(ih as int, u32::MAX as int, sw as int, u32::MAX as int);
    }
    if w128 * sh128 <= h128 * sw128 {
        let (pn, pd) = at_least_one_u128(sh128 * iw as u128, sw128);
        proof {
            lemma_at_least_one_bounded((sh * iw) as int, sw as int, ih as int);
            vstd::arithmetic::mul::lemma_mul_upper_bound(pd as int, u32::MAX as int, ih as int, u32::MAX as int);
            vstd::arithmetic::mul::lemma_mul_upper_bound(iw as int, u32::MAX as int, pn as int, (u32::MAX * u32::MAX) as int);
            assert(pn <= ih * pd);
            assert(iw * pn <= iw * (pd * ih)) by (nonlinear_arith)
                requires
                    pn <= ih * pd,
            ;
        }
        let (tn, td) = at_least_one_u128(w128 * pn, pd * h128);
        proof {
            lemma_at_least_one_bounded((iw * pn) as int, (pd * ih) as int, iw as int);
            vstd::arithmetic::mul::lemma_mul_upper_bound(iw as int, u32::MAX as int, td as int, (u32::MAX * u32::MAX) as int);
            assert(ih * pd - pn <= ih * (2 * pd)) by (nonlinear_arith)
                requires
                    0 <= pn,
                    0 <= ih,
                    0 <= pd,
            ;
            assert(pn <= ih * pd);
        }
        let y = floor_div_at_most(h128 * pd - pn, 2 * pd, ih);
        let h = ceil_div_at_most(pn, pd, ih);
        if w128 * td > tn {
            proof {
                assert(iw * td - tn <= iw * (2 * td)) by (nonlinear_arith)
                requires
                    0 <= tn,
                    0 <= iw,
                    0 <= td,
            ;
                assert(iw * td + tn <= iw * (2 * td)) by (nonlinear_arith)
                requires
                    tn <= iw * td,
            ;
            }
            let w = ceil_div_at_most(w128 * td - tn, 2 * td, iw);
            let x2 = floor_div_at_most(w128 * td + tn, 2 * td, iw);
            (Crop { x: 0, y, w, h }, Crop { x: x2, y, w, h })
        } else {
            (Crop { x: 0, y, w: iw, h: 0 }, Crop { x: 0, y: ih, w: iw, h: 0 })
        }
    } else {
        let (qn, qd) = at_least_one_u128(sw128 * h128, sh128);
        proof {
            lemma_at_least_one_bounded((sw * ih) as int, sh as int, iw as int);
            vstd::arithmetic::mul::lemma_mul_upper_bound(qd as int, u32::MAX as int, iw as int, u32::MAX as int);
            vstd::arithmetic::mul::lemma_mul_upper_bound(ih as int, u32::MAX as int, qn as int, (u32::MAX * u32::MAX) as int);
            assert(qn <= iw * qd);
            assert(ih * qn <= ih * (qd * iw)) by (nonlinear_arith)
                requires
                    qn <= iw * qd,
            ;
        }
        let (un, ud) = at_least_one_u128(h128 * qn, qd * w128);
        proof {
            lemma_at_least_one_bounded((ih * qn) as int, (qd * iw) as int, ih as int);
            vstd::arithmetic::mul::lemma_mul_upper_bound(ih as int, u32::MAX as int, ud as int, (u32::MAX * u32::MAX) as int);
            assert(iw * qd - qn <= iw * (2 * qd)) by (nonlinear_arith)
                requires
                    0 <= qn,
                    0 <= iw,
                    0 <= qd,
            ;
            assert(ih * ud - un <= ih * (2 * ud)) by (nonlinear_arith)
                requires
                    0 <= un,
                    0 <= ih,
                    0 <= ud,
            ;
            assert(ih * ud + un <= ih * (2 * ud)) by (nonlinear_arith)
                requires
                    un <= ih * ud,
            ;
        }
        let x = floor_div_at_most(w128 * qd - qn, 2 * qd, iw);
        let w = ceil_div_at_most(qn, qd, iw);
        let h = ceil_div_at_most(h128 * ud - un, 2 * ud, ih);
        let y2 = floor_div_at_most(h128 * ud + un, 2 * ud, ih);
        (Crop { x, y: 0, w, h }, Crop { x, y: y2, w, h })
    }
}

proof fn lemma_floor_plus_ceil(a: int, b: int, d: int, k: int)
    requires
        a >= 0,
        b >= 0,
        d > 0,
        a + b == k * d,
    ensures
        floor_div(a, d) + ceil_div(b, d) == k,
{
    let f = a / d;
    let r = a % d;
    vstd::arithmetic::div_mod::lemma_fundamental_div_mod(a, d);
    assert(b + d - 1 == (k - f) * d + (d - 1 - r)) by (nonlinear_arith)
        requires
            a == d * f + r,
            a + b == k * d,
    ;
    vstd::arithmetic::div_mod::lemma_fundamental_div_mod_converse(b + d - 1, d, k - f, d - 1 - r);
}

proof fn lemma_half_band_plus_side(n: int, d: int, k: int)
    requires
        d > 0,
        0 <= n <= k * d,
    ensures
        floor_div(k * d - n, 2 * d) + ceil_div(n, d) <= k,
{
    let y = (k * d - n) / (2 * d);
    let h = (n + d - 1) / d;
    vstd::arithmetic::div_mod::lemma_fundamental_div_mod(k * d - n, 2 * d);
    vstd::arithmetic::div_mod::lemma_fundamental_div_mod(n + d - 1, d);
    assert(y + h <= k) by (nonlinear_arith)
        requires
            k * d - n == (2 * d) * y + (k * d - n) % (2 * d),
            (k * d - n) % (2 * d) >= 0,
            n + d - 1 == d * h + (n + d - 1) % d,
            (n + d - 1) % d >= 0,
            n <= k * d,
            d > 0,
    ;
}

/// The photo scaled to fit the screen, in fractions of a pixel: its width and its height over
/// a common denominator.
pub open spec fn fitted_extent(iw: int, ih: int, sw: int, sh: int) -> (int, int, int) {
    let (n, d) = fitted_side(iw, ih, sw, sh);
    if fills_width(iw, ih, sw, sh) {
        (sw * d, n, d)
    } else {
        (n, sh * d, d)
    }
}

/// The photo scaled to fit the screen keeps its aspect ratio, fits in the screen, spans it in
/// one direction, and is the largest size that does so: any size `w / e` x `h / e` of the
/// photo's aspect ratio that fits in the screen is no larger in either direction. (Where the
/// scaled photo would be thinner than a pixel it is widened to one, and the aspect ratio is
/// lost; those sizes are left out.)
pub proof fn lemma_fitted_extent_is_largest_fit(
    iw: int,
    ih: int,
    sw: int,
    sh: int,
    w: int,
    h: int,
    e: int,
)
    requires
        iw > 0,
        ih > 0,
        sw > 0,
        sh > 0,
        if fills_width(iw, ih, sw, sh) {
            ih * sw >= iw
        } else {
            iw * sh >= ih
        },
        e > 0,
        w >= 0,
        h >= 0,
        w * ih == h * iw,
        w <= sw * e,
        h <= sh * e,
    ensures
        ({
            let (fw, fh, fd) = fitted_extent(iw, ih, sw, sh);
            &&& fd > 0
            &&& fw * ih == fh * iw
            &&& fw <= sw * fd
            &&& fh <= sh * fd
            &&& (fw == sw * fd || fh == sh * fd)
            &&& w * fd <= fw * e
            &&& h * fd <= fh * e
        }),
{
    if fills_width(iw, ih, sw, sh) {
        assert(fitted_extent(iw, ih, sw, sh) == (sw * iw, ih * sw, iw));
        assert((sw * iw) * ih == (ih * sw) * iw) by (nonlinear_arith);
        assert(ih * sw <= sh * iw) by (nonlinear_arith)
            requires
                sw * ih <= sh * iw,
        ;
        assert(w * iw <= (sw * iw) * e) by (nonlinear_arith)
            requires
                w <= sw * e,
                iw > 0,
        ;
        assert(h * iw <= (ih * sw) * e) by (nonlinear_arith)
            requires
                w * ih == h * iw,
                w <= sw * e,
                ih > 0,
        ;
    } else {
        assert(fitted_extent(iw, ih, sw, sh) == (iw * sh, sh * ih, ih));
        assert((iw * sh) * ih == (sh * ih) * iw) by (nonlinear_arith);
        assert(iw * sh <= sw * ih) by (nonlinear_arith)
            requires
                sw * ih > sh * iw,
        ;
        assert(h * ih <= (sh * ih) * e) by (nonlinear_arith)
            requires
                h <= sh * e,
                ih > 0,
        ;
        assert(w * ih <= (iw * sh) * e) by (nonlinear_arith)
            requires
                w * ih == h * iw,
                h <= sh * e,
                iw > 0,
        ;
    }
}

/// The background bands are cut out of the photo itself: both crops lie inside the photo, the
/// first at its left (or top) edge and the second reaching its right (or bottom) edge.
pub proof fn lemma_background_crops_within_photo(iw: u32, ih: u32, sw: u32, sh: u32)
    requires
        iw > 0,
        ih > 0,
        sw > 0,
        sh > 0,
    ensures
        ({
            let (first, second) = background_crops(iw as int, ih as int, sw as int, sh as int);
            &&& first.x + first.w <= iw
            &&& first.y + first.h <= ih
            &&& second.x + second.w <= iw
            &&& second.y + second.h <= ih
            &&& (first.x == 0 && second.x + second.w == iw) || (first.y == 0 && second.y
                + second.h == ih)
        }),
{
    let (iw, ih, sw, sh) = (iw as int, ih as int, sw as int, sh as int);
    if iw * sh <= ih * sw {
        assert(sh * iw <= ih * sw) by (nonlinear_arith)
            requires
                iw * sh <= ih * sw,
        ;
        let (pn, pd) = at_least_one(sh * iw, sw);
        lemma_at_least_one_bounded(sh * iw, sw, ih);
        assert(iw * pn <= iw * (pd * ih)) by (nonlinear_arith)
            requires
                pn <= ih * pd,
                iw > 0,
        ;
        let (tn, td) = at_least_one(iw * pn, pd * ih);
        assert(pd * ih > 0) by (nonlinear_arith)
            requires
                pd > 0,
                ih > 0,
        ;
        lemma_at_least_one_bounded(iw * pn, pd * ih, iw);
        let y = floor_div(ih * pd - pn, 2 * pd);
        let h = ceil_div(pn, pd);
        assert(ih * pd == pd * ih) by (nonlinear_arith);
        lemma_half_band_plus_side(pn, pd, ih);
        vstd::arithmetic::div_mod::lemma_div_pos_is_pos(ih * pd - pn, 2 * pd);
        vstd::arithmetic::div_mod::lemma_div_pos_is_pos(pn + pd - 1, pd);
        if iw * td > tn {
            let w = ceil_div(iw * td - tn, 2 * td);
            let x2 = floor_div(iw * td + tn, 2 * td);
            assert((iw * td + tn) + (iw * td - tn) == iw * (2 * td)) by (nonlinear_arith);
            lemma_floor_plus_ceil(iw * td + tn, iw * td - tn, 2 * td, iw);
            vstd::arithmetic::div_mod::lemma_div_pos_is_pos(iw * td + tn, 2 * td);
            vstd::arithmetic::div_mod::lemma_div_pos_is_pos(iw * td - tn + 2 * td - 1, 2 * td);
            assert(y + h <= ih);
            assert(x2 + w == iw);
        }
    } else {
        assert(sw * ih <= iw * sh) by (nonlinear_arith)
            requires
                iw * sh > ih * sw,
        ;
        let (qn, qd) = at_least_one(sw * ih, sh);
        lemma_at_least_one_bounded(sw * ih, sh, iw);
        assert(ih * qn <= ih * (qd * iw)) by (nonlinear_arith)
            requires
                qn <= iw * qd,
                ih > 0,
        ;
        let (un, ud) = at_least_one(ih * qn, qd * iw);
        assert(qd * iw > 0) by (nonlinear_arith)
            requires
                qd > 0,
                iw > 0,
        ;
        lemma_at_least_one_bounded(ih * qn, qd * iw, ih);
        let x = floor_div(iw * qd - qn, 2 * qd);
        let w = ceil_div(qn, qd);
        assert(iw * qd == qd * iw) by (nonlinear_arith);
        lemma_half_band_plus_side(qn, qd, iw);
        vstd::arithmetic::div_mod::lemma_div_pos_is_pos(iw * qd - qn, 2 * qd);
        vstd::arithmetic::div_mod::lemma_div_pos_is_pos(qn + qd - 1, qd);
        let h = ceil_div(ih * ud - un, 2 * ud);
        let y2 = floor_div(ih * ud + un, 2 * ud);
        assert((ih * ud + un) + (ih * ud - un) == ih * (2 * ud)) by (nonlinear_arith);
        lemma_floor_plus_ceil(ih * ud + un, ih * ud - un, 2 * ud, ih);
        vstd::arithmetic::div_mod::lemma_div_pos_is_pos(ih * ud + un, 2 * ud);
        vstd::arithmetic::div_mod::lemma_div_pos_is_pos(ih * ud - un + 2 * ud - 1, 2 * ud);
        assert(x + w <= iw);
        assert(y2 + h == ih);
    }
}

/// Decides how a photo of `image_size` is framed on a screen of `screen_size` (both in pixels,
/// neither side zero).
pub fn frame_layout(image_size: (u32, u32), screen_size: (u32, u32)) -> (r: Framing)
    requires
        image_size.0 > 0,
        image_size.1 > 0,
        screen_size.0 > 0,
        screen_size.1 > 0,
    ensures
        r == framing_spec(
            image_size.0 as int,
            image_size.1 as int,
            screen_size.0 as int,
            screen_size.1 as int,
        ),
{
    let (iw, ih) = image_size;
    let (sw, sh) = screen_size;
    let (w128, h128, sw128, sh128) = (iw as u128, ih as u128, sw as u128, sh as u128);
    proof {
        vstd::arithmetic::mul::lemma_mul_upper_bound(sh as int, u32::MAX as int, iw as int, u32::MAX as int);
        vstd::arithmetic::mul::lemma_mul_upper_bound(ih as int, u32::MAX as int, sw as int, u32::MAX as int);
    }
    let fills = sw128 * h128 <= sh128 * w128;
    let (n, d) = if fills {
        at_least_one_u128(h128 * sw128, w128)
    } else {
        at_least_one_u128(w128 * sh128, h128)
    };
    proof {
        if fills {
            lemma_at_least_one_bounded((ih * sw) as int, iw as int, sh as int);
        } else {
            lemma_at_least_one_bounded((iw * sh) as int, ih as int, sw as int);
        }
        vstd::arithmetic::mul::lemma_mul_upper_bound(sh as int, u32::MAX as int, d as int, u32::MAX as int);
        vstd::arithmetic::mul::lemma_mul_upper_bound(sw as int, u32::MAX as int, d as int, u32::MAX as int);
    }
    let exact = if fills {
        sh128 * d - n < d
    } else {
        sw128 * d - n < d
    };
    if exact {
        return Framing::ExactFit;
    }
    let (first, second) = compute_background_crops(iw, ih, sw, sh);
    if fills {
        proof {
            assert(sh * d - n <= sh * (2 * d)) by (nonlinear_arith)
                requires
                    0 <= n,
                    0 <= sh,
                    0 <= d,
            ;
        }
        let fy = round_div_at_most(sh128 * d - n, 2 * d, sh);
        Framing::WithBackground { first, second, foreground_x: 0, foreground_y: fy }
    } else {
        proof {
            assert(sw * d - n <= sw * (2 * d)) by (nonlinear_arith)
                requires
                    0 <= n,
                    0 <= sw,
                    0 <= d,
            ;
        }
        let fx = round_div_at_most(sw128 * d - n, 2 * d, sw);
        Framing::WithBackground { first, second, foreground_x: fx, foreground_y: 0 }
    }
}

/// An RGB picture: `width` x `height` pixels of three bytes each (red, green, blue), row by row
/// from the top-left corner.
pub struct Bitmap {
    width: u32,
    height: u32,
    pixels: Vec<u8>,
}

/// Scaling filters of `image::imageops::FilterType` that the frame uses.
#[derive(Debug, Clone, Copy, PartialEq, Eq, Structural)]
pub enum ScaleFilter {
    Nearest,
    Lanczos3,
}

/// Index of byte `c` (0 red, 1 green, 2 blue) of pixel `(x, y)` of a picture `width` pixels wide.
pub open spec fn byte_index(width: int, x: int, y: int, c: int) -> int {
    3 * (y * width + x) + c
}

/// `w * h * 3` zero bytes: a black picture.
pub open spec fn black_bytes(w: int, h: int) -> Seq<u8> {
    Seq::new((w * h * 3) as nat, |i: int| 0u8)
}

/// The rectangle `crop_imm` cuts out: its corner clamped into the picture, its size clamped to
/// what is left of the picture from there.
pub open spec fn clipped_crop(width: int, height: int, x: int, y: int, w: int, h: int) -> (
    int,
    int,
    int,
    int,
) {
    let x1 = if x < width {
        x
    } else {
        width
    };
    let y1 = if y < height {
        y
    } else {
        height
    };
    (x1, y1, if w < width - x1 {
        w
    } else {
        width - x1
    }, if h < height - y1 {
        h
    } else {
        height - y1
    })
}

/// The bytes of the cut-out of a picture.
pub open spec fn cropped_bytes(
    width: int,
    height: int,
    pixels: Seq<u8>,
    x: int,
    y: int,
    w: int,
    h: int,
) -> Seq<u8> {
    let (x1, y1, w1, h1) = clipped_crop(width, height, x, y, w, h);
    Seq::new(
        (w1 * h1 * 3) as nat,
        |i: int| pixels[byte_index(width, x1 + (i / 3) % w1, y1 + (i / 3) / w1, i % 3)],
    )
}

/// The bytes of the picture `bottom` with the picture `top` drawn over it, its top-left corner
/// at `(x, y)`: the pixels under `top` are replaced, the parts of `top` outside `bottom` are
/// left out.
pub open spec fn overlaid_bytes(
    bw: int,
    bottom: Seq<u8>,
    tw: int,
    th: int,
    top: Seq<u8>,
    x: int,
    y: int,
) -> Seq<u8> {
    Seq::new(
        bottom.len(),
        |i: int|
            {
                let px = (i / 3) % bw;
                let py = (i / 3) / bw;
                if x <= px < x + tw && y <= py < y + th {
                    top[byte_index(tw, px - x, py - y, i % 3)]
                } else {
                    bottom[i]
                }
            },
    )
}

/// The pixels `image::imageops::resize` computes when it scales an RGB picture of `width` x
/// `height` to `nwidth` x `nheight` with the filter.
pub uninterp spec fn scaled_pixels(
    width: u32,
    height: u32,
    pixels: Seq<u8>,
    nwidth: u32,
    nheight: u32,
    filter: ScaleFilter,
) -> Seq<u8>;

/// The size `DynamicImage::resize` scales a picture of `width` x `height` to when asked to fit
/// it in `nwidth` x `nheight` keeping its aspect ratio.
pub uninterp spec fn fitted_size(width: u32, height: u32, nwidth: u32, nheight: u32) -> (u32, u32);

impl Bitmap {
    #[verifier::type_invariant]
    spec fn holds_every_pixel(self) -> bool {
        self.pixels@.len() == self.width * self.height * 3
    }

    pub closed spec fn width_spec(&self) -> u32 {
        self.width
    }

    pub closed spec fn height_spec(&self) -> u32 {
        self.height
    }

    pub closed spec fn bytes(&self) -> Seq<u8> {
        self.pixels@
    }

    /// A picture from its RGB bytes, when there are exactly three for each pixel.
    pub fn from_rgb(width: u32, height: u32, pixels: Vec<u8>) -> (r: Option<Bitmap>)
        ensures
            r is Some <==> pixels@.len() == width * height * 3,
            r matches Some(b) ==> b.width_spec() == width && b.height_spec() == height && b.bytes()
                == pixels@,
    {
        proof {
            vstd::arithmetic::mul::lemma_mul_upper_bound(
                width as int,
                u32::MAX as int,
                height as int,
                u32::MAX as int,
            );
        }
        if (width as u128) * (height as u128) * 3 == pixels.len() as u128 {
            Some(Bitmap { width, height, pixels })
        } else {
            None
        }
    }

    /// A black picture.
    pub fn black(width: u32, height: u32) -> (r: Bitmap)
        requires
            width * height * 3 <= usize::MAX,
        ensures
            r.width_spec() == width,
            r.height_spec() == height,
            r.bytes() == black_bytes(width as int, height as int),
    {
        let n = width as usize * height as usize * 3;
        let pixels = vec![0u8; n];
        assert(pixels@ == black_bytes(width as int, height as int));
        Bitmap { width, height, pixels }
    }

    pub fn width(&self) -> (r: u32)
        ensures
            r == self.width_spec(),
    {
        self.width
    }

    pub fn height(&self) -> (r: u32)
        ensures
            r == self.height_spec(),
    {
        self.height
    }

    /// The RGB bytes, row by row.
    pub fn pixels(&self) -> (r: &[u8])
        ensures
            r@ == self.bytes(),
    {
        self.pixels.as_slice()
    }

    /// The RGB bytes, row by row.
    pub fn into_pixels(self) -> (r: Vec<u8>)
        ensures
            r@ == self.bytes(),
    {
        self.pixels
    }
}

/// Calls `image::imageops::resize` on the picture: the result has the asked size and the pixels
/// the filter computes. The size must not be zero.
#[verifier::external_body]
pub(crate) fn scale_exact(picture: &Bitmap, nwidth: u32, nheight: u32, filter: ScaleFilter) -> (r: Bitmap)
    requires
        nwidth >= 1,
        nheight >= 1,
    ensures
        r.width_spec() == nwidth,
        r.height_spec() == nheight,
        r.bytes() == scaled_pixels(
            picture.width_spec(),
            picture.height_spec(),
            picture.bytes(),
            nwidth,
            nheight,
            filter,
        ),
{
    let source = image::ImageBuffer::<image::Rgb<u8>, &[u8]>::from_raw(
        picture.width,
        picture.height,
        picture.pixels.as_slice(),
    ).expect("a bitmap holds every pixel");
    let filter = match filter {
        ScaleFilter::Nearest => image::imageops::FilterType::Nearest,
        ScaleFilter::Lanczos3 => image::imageops::FilterType::Lanczos3,
    };
    let scaled = image::imageops::resize(&source, nwidth, nheight, filter);
    Bitmap { width: nwidth, height: nheight, pixels: scaled.into_raw() }
}

/// Calls `DynamicImage::resize` on the picture: scaled to the largest size that keeps its aspect
/// ratio and fits in `nwidth` x `nheight` (rounded, at least one pixel each way), its pixels
/// computed by `imageops::resize` at that size. The bounds must not be zero.
#[verifier::external_body]
pub(crate) fn scale_to_fit(picture: Bitmap, nwidth: u32, nheight: u32, filter: ScaleFilter) -> (r: Bitmap)
    requires
        nwidth >= 1,
        nheight >= 1,
    ensures
        (r.width_spec(), r.height_spec()) == fitted_size(
            picture.width_spec(),
            picture.height_spec(),
            nwidth,
            nheight,
        ),
        1 <= r.width_spec() <= nwidth,
        1 <= r.height_spec() <= nheight,
        r.bytes() == scaled_pixels(
            picture.width_spec(),
            picture.height_spec(),
            picture.bytes(),
            r.width_spec(),
            r.height_spec(),
            filter,
        ),
{
    let Bitmap { width, height, pixels } = picture;
    let source = image::DynamicImage::ImageRgb8(
        image::RgbImage::from_raw(width, height, pixels).expect("a bitmap holds every pixel"),
    );
    let filter = match filter {
        ScaleFilter::Nearest => image::imageops::FilterType::Nearest,
        ScaleFilter::Lanczos3 => image::imageops::FilterType::Lanczos3,
    };
    let scaled = source.resize(nwidth, nheight, filter).into_rgb8();
    Bitmap { width: scaled.width(), height: scaled.height(), pixels: scaled.into_raw() }
}

proof fn lemma_crop_byte(pw: int, ph: int, x1: int, y1: int, w1: int, row: int, col: int, c: int)
    requires
        0 <= x1,
        0 <= y1,
        0 <= row,
        0 <= col < w1,
        x1 + w1 <= pw,
        y1 + row < ph,
        0 <= c < 3,
    ensures
        ({
            let k = 3 * (row * w1 + col) + c;
            &&& k / 3 == row * w1 + col
            &&& k % 3 == c
            &&& (k / 3) % w1 == col
            &&& (k / 3) / w1 == row
            &&& byte_index(pw, x1 + col, y1 + row, c) == 3 * ((y1 + row) * pw + x1) + 3 * col + c
            &&& 0 <= byte_index(pw, x1 + col, y1 + row, c) < pw * ph * 3
        }),
{
    let q = row * w1 + col;
    assert(q >= 0) by (nonlinear_arith)
        requires
            0 <= row,
            0 <= col,
            w1 > 0,
            q == row * w1 + col,
    ;
    vstd::arithmetic::div_mod::lemma_fundamental_div_mod_converse(3 * q + c, 3, q, c);
    assert(q == row * w1 + col);
    assert(q == w1 * row + col) by (nonlinear_arith)
        requires
            q == row * w1 + col,
    ;
    vstd::arithmetic::div_mod::lemma_fundamental_div_mod_converse(q, w1, row, col);
    assert(3 * ((y1 + row) * pw + (x1 + col)) + c == 3 * ((y1 + row) * pw + x1) + 3 * col + c)
        by (nonlinear_arith);
    assert((y1 + row) * pw + (x1 + col) < pw * ph) by (nonlinear_arith)
        requires
            y1 + row < ph,
            x1 + col < pw,
            0 <= y1 + row,
            0 <= x1 + col,
    {
        assert((y1 + row) * pw <= (ph - 1) * pw) by (nonlinear_arith)
            requires
                y1 + row <= ph - 1,
                0 <= pw,
        ;
    }
    assert(0 <= (y1 + row) * pw) by (nonlinear_arith)
        requires
            0 <= y1 + row,
            0 <= pw,
    ;
}

/// The cut-out `image::imageops::crop_imm` makes (its whole behaviour is `cropped_bytes`),
/// copied pixel by pixel.
fn crop_picture(picture: &Bitmap, x: u32, y: u32, w: u32, h: u32) -> (r: Bitmap)
    ensures
        r.width_spec() == clipped_crop(
            picture.width_spec() as int,
            picture.height_spec() as int,
            x as int,
            y as int,
            w as int,
            h as int,
        ).2,
        r.height_spec() == clipped_crop(
            picture.width_spec() as int,
            picture.height_spec() as int,
            x as int,
            y as int,
            w as int,
            h as int,
        ).3,
        r.bytes() == cropped_bytes(
            picture.width_spec() as int,
            picture.height_spec() as int,
            picture.bytes(),
            x as int,
            y as int,
            w as int,
            h as int,
        ),
{
    proof {
        use_type_invariant(picture);
    }
    let pw = picture.width;
    let ph = picture.height;
    let x1 = if x < pw {
        x
    } else {
        pw
    };
    let y1 = if y < ph {
        y
    } else {
        ph
    };
    let w1 = if w < pw - x1 {
        w
    } else {
        pw - x1
    };
    let h1 = if h < ph - y1 {
        h
    } else {
        ph - y1
    };
    let ghost source = picture.pixels@;
    let ghost expected = cropped_bytes(
        pw as int,
        ph as int,
        source,
        x as int,
        y as int,
        w as int,
        h as int,
    );
    proof {
        assert(w1 * h1 <= pw * ph) by (nonlinear_arith)
            requires
                w1 <= pw,
                h1 <= ph,
        ;
        assert(expected.len() == w1 * h1 * 3);
    }
    let source_len = picture.pixels.len();
    assert(pw * ph * 3 == source_len);
    let mut out: Vec<u8> = Vec::new();
    let mut row: u32 = 0;
    while row < h1
        invariant
            source == picture.pixels@,
            source.len() == pw * ph * 3,
            pw * ph * 3 <= usize::MAX,
            expected == cropped_bytes(pw as int, ph as int, source, x as int, y as int, w as int, h as int),
            expected.len() == w1 * h1 * 3,
            (x1 as int, y1 as int, w1 as int, h1 as int) == clipped_crop(
                pw as int,
                ph as int,
                x as int,
                y as int,
                w as int,
                h as int,
            ),
            pw == picture.width,
            ph == picture.height,
            row <= h1,
            x1 + w1 <= pw,
            y1 + h1 <= ph,
            out@.len() == 3 * (row * w1),
            forall|k: int| 0 <= k < out@.len() ==> k < expected.len() && out@[k] == expected[k],
        decreases h1 - row,
    {
        proof {
            assert(row * w1 + w1 == (row + 1) * w1) by (nonlinear_arith);
            assert((row + 1) * w1 <= h1 * w1) by (nonlinear_arith)
                requires
                    row + 1 <= h1,
                    0 <= w1,
            ;
            assert(h1 * w1 == w1 * h1) by (nonlinear_arith);
        }
        let start: usize = if w1 > 0 {
            proof {
                lemma_crop_byte(pw as int, ph as int, x1 as int, y1 as int, w1 as int, row as int, 0, 0);
                assert(0 <= (y1 + row) * pw <= (y1 + row) * pw + x1 < pw * ph);
            }
            ((y1 + row) as usize * pw as usize + x1 as usize) * 3
        } else {
            0
        };
        let mut col: u32 = 0;
        while col < w1
            invariant
                source == picture.pixels@,
                source.len() == pw * ph * 3,
                pw * ph * 3 <= usize::MAX,
                expected == cropped_bytes(pw as int, ph as int, source, x as int, y as int, w as int, h as int),
                expected.len() == w1 * h1 * 3,
                (x1 as int, y1 as int, w1 as int, h1 as int) == clipped_crop(
                    pw as int,
                    ph as int,
                    x as int,
                    y as int,
                    w as int,
                    h as int,
                ),
                pw == picture.width,
                ph == picture.height,
                row < h1,
                col <= w1,
                x1 + w1 <= pw,
                y1 + h1 <= ph,
                w1 > 0 ==> start == 3 * ((y1 + row) * pw + x1),
                out@.len() == 3 * (row * w1 + col),
                row * w1 + w1 == (row + 1) * w1,
                (row + 1) * w1 <= h1 * w1,
                h1 * w1 == w1 * h1,
                forall|k: int| 0 <= k < out@.len() ==> k < expected.len() && out@[k] == expected[k],
            decreases w1 - col,
        {
            proof {
                lemma_crop_byte(pw as int, ph as int, x1 as int, y1 as int, w1 as int, row as int, col as int, 0);
                lemma_crop_byte(pw as int, ph as int, x1 as int, y1 as int, w1 as int, row as int, col as int, 2);
            }
            let i = start + 3 * col as usize;
            let ghost before = out@.len() as int;
            out.push(picture.pixels[i]);
            out.push(picture.pixels[i + 1]);
            out.push(picture.pixels[i + 2]);
            proof {
                assert forall|k: int| 0 <= k < out@.len() implies k < expected.len() && out@[k]
                    == expected[k] by {
                    if k >= before {
                        let c = k - before;
                        lemma_crop_byte(pw as int, ph as int, x1 as int, y1 as int, w1 as int, row as int, col as int, c);
                    }
                }
            }
            col = col + 1;
        }
        row = row + 1;
    }
    proof {
        assert(h1 * w1 == w1 * h1) by (nonlinear_arith);
        assert(out@ =~= expected);
    }
    Bitmap { width: w1, height: h1, pixels: out }
}

/// Calls `image::imageops::overlay`: `top` is drawn over `bottom` with its top-left corner at
/// `(x, y)`. RGB pixels have no transparency, so the pixels under `top` are replaced.
#[verifier::external_body]
fn overlay(bottom: &mut Bitmap, top: &Bitmap, x: i64, y: i64)
    ensures
        final(bottom).width_spec() == old(bottom).width_spec(),
        final(bottom).height_spec() == old(bottom).height_spec(),
        final(bottom).bytes() == overlaid_bytes(
            old(bottom).width_spec() as int,
            old(bottom).bytes(),
            top.width_spec() as int,
            top.height_spec() as int,
            top.bytes(),
            x as int,
            y as int,
        ),
{
    let (width, height) = (bottom.width, bottom.height);
    let mut canvas = image::ImageBuffer::<image::Rgb<u8>, &mut [u8]>::from_raw(
        width,
        height,
        bottom.pixels.as_mut_slice(),
    ).expect("a bitmap holds every pixel");
    let layer = image::ImageBuffer::<image::Rgb<u8>, &[u8]>::from_raw(
        top.width,
        top.height,
        top.pixels.as_slice(),
    ).expect("a bitmap holds every pixel");
    image::imageops::overlay(&mut canvas, &layer, x, y);
}

/// A band's source: the crop of the photo, scaled (nearest neighbour) to fit the screen.
pub open spec fn band_source(
    iw: u32,
    ih: u32,
    pixels: Seq<u8>,
    crop: Crop,
    sw: u32,
    sh: u32,
) -> (u32, u32, Seq<u8>) {
    let (x1, y1, w1, h1) = clipped_crop(
        iw as int,
        ih as int,
        crop.x as int,
        crop.y as int,
        crop.w as int,
        crop.h as int,
    );
    let bytes = cropped_bytes(
        iw as int,
        ih as int,
        pixels,
        crop.x as int,
        crop.y as int,
        crop.w as int,
        crop.h as int,
    );
    let (fw, fh) = fitted_size(w1 as u32, h1 as u32, sw, sh);
    (fw, fh, scaled_pixels(w1 as u32, h1 as u32, bytes, fw, fh, ScaleFilter::Nearest))
}

pub open spec fn bitmap_view(b: Bitmap) -> (u32, u32, Seq<u8>) {
    (b.width_spec(), b.height_spec(), b.bytes())
}

/// The parts of the photo that fill the bands beside (or above and below) it, each scaled to
/// fit the screen, to be blurred before [`compose_frame`] draws them; none when the photo fills
/// the screen.
pub fn background_sources(photo: &Bitmap, screen_size: (u32, u32)) -> (r: Option<(Bitmap, Bitmap)>)
    requires
        photo.width_spec() > 0,
        photo.height_spec() > 0,
        screen_size.0 > 0,
        screen_size.1 > 0,
    ensures
        match framing_spec(
            photo.width_spec() as int,
            photo.height_spec() as int,
            screen_size.0 as int,
            screen_size.1 as int,
        ) {
            Framing::ExactFit => r is None,
            Framing::WithBackground { first, second, .. } => r matches Some((b1, b2)) && {
                &&& bitmap_view(b1) == band_source(
                    photo.width_spec(),
                    photo.height_spec(),
                    photo.bytes(),
                    first,
                    screen_size.0,
                    screen_size.1,
                )
                &&& bitmap_view(b2) == band_source(
                    photo.width_spec(),
                    photo.height_spec(),
                    photo.bytes(),
                    second,
                    screen_size.0,
                    screen_size.1,
                )
            },
        },
{
    let (sw, sh) = screen_size;
    match frame_layout((photo.width(), photo.height()), screen_size) {
        Framing::ExactFit => None,
        Framing::WithBackground { first, second, .. } => {
            let crop1 = crop_picture(photo, first.x, first.y, first.w, first.h);
            let crop2 = crop_picture(photo, second.x, second.y, second.w, second.h);
            Some((scale_to_fit(crop1, sw, sh, ScaleFilter::Nearest), scale_to_fit(crop2, sw, sh, ScaleFilter::Nearest)))
        },
    }
}

/// The bytes of the framed photo. A photo that fills the screen is stretched to it (Lanczos3);
/// otherwise a black screen gets the first band at its top-left corner, the second at its
/// bottom-right corner, and the photo, scaled to fit (Lanczos3), at its framing position.
pub open spec fn framed_bytes(
    iw: u32,
    ih: u32,
    pixels: Seq<u8>,
    sw: u32,
    sh: u32,
    bands: Option<((u32, u32, Seq<u8>), (u32, u32, Seq<u8>))>,
) -> Seq<u8> {
    match framing_spec(iw as int, ih as int, sw as int, sh as int) {
        Framing::ExactFit => scaled_pixels(iw, ih, pixels, sw, sh, ScaleFilter::Lanczos3),
        Framing::WithBackground { foreground_x, foreground_y, .. } => {
            let black = black_bytes(sw as int, sh as int);
            let backdrop = match bands {
                None => black,
                Some(((w1, h1, b1), (w2, h2, b2))) => {
                    let with_first = overlaid_bytes(sw as int, black, w1 as int, h1 as int, b1, 0, 0);
                    overlaid_bytes(sw as int, with_first, w2 as int, h2 as int, b2, sw - w2, sh - h2)
                },
            };
            let (fw, fh) = fitted_size(iw, ih, sw, sh);
            overlaid_bytes(
                sw as int,
                backdrop,
                fw as int,
                fh as int,
                scaled_pixels(iw, ih, pixels, fw, fh, ScaleFilter::Lanczos3),
                foreground_x as int,
                foreground_y as int,
            )
        },
    }
}

pub open spec fn bands_view(bands: Option<(Bitmap, Bitmap)>) -> Option<
    ((u32, u32, Seq<u8>), (u32, u32, Seq<u8>)),
> {
    match bands {
        None => None,
        Some((b1, b2)) => Some((bitmap_view(b1), bitmap_view(b2))),
    }
}

/// Prepares a photo for display: resized and centred on the screen, with the empty space
/// filled by the (blurred) band pictures, black where there are none. The screen's bytes must
/// fit in memory.
pub fn compose_frame(photo: Bitmap, screen_size: (u32, u32), bands: Option<(Bitmap, Bitmap)>) -> (r:
    Bitmap)
    requires
        photo.width_spec() > 0,
        photo.height_spec() > 0,
        screen_size.0 > 0,
        screen_size.1 > 0,
        screen_size.0 * screen_size.1 * 3 <= usize::MAX,
    ensures
        r.width_spec() == screen_size.0,
        r.height_spec() == screen_size.1,
        r.bytes() == framed_bytes(
            photo.width_spec(),
            photo.height_spec(),
            photo.bytes(),
            screen_size.0,
            screen_size.1,
            bands_view(bands),
        ),
{
    let (sw, sh) = screen_size;
    match frame_layout((photo.width(), photo.height()), screen_size) {
        Framing::ExactFit => {
            /* The photo fits the screen up to less than a pixel: stretching it by that fraction
             * is invisible, and it makes the bytes exactly those of the screen. */
            scale_exact(&photo, sw, sh, ScaleFilter::Lanczos3)
        },
        Framing::WithBackground { foreground_x, foreground_y, .. } => {
            let mut frame = Bitmap::black(sw, sh);
            match bands {
                None => {},
                Some((first, second)) => {
                    overlay(&mut frame, &first, 0, 0);
                    let x2 = sw as i64 - second.width() as i64;
                    let y2 = sh as i64 - second.height() as i64;
                    overlay(&mut frame, &second, x2, y2);
                },
            }
            let foreground = scale_to_fit(photo, sw, sh, ScaleFilter::Lanczos3);
            overlay(&mut frame, &foreground, foreground_x as i64, foreground_y as i64);
            frame
        },
    }
}

/// The size and 8-bit RGB bytes of the picture `image::load_from_memory` decodes from `bytes`
/// (in whatever format it recognizes), or `None` where it cannot decode them.
pub uninterp spec fn decoded_rgb(bytes: Seq<u8>) -> Option<(u32, u32, Seq<u8>)>;

/// Calls `image::load_from_memory` and converts the picture to 8-bit RGB (`into_rgb8`): the
/// picture the bytes decode to, or `None` where decoding fails.
#[verifier::external_body]
pub(crate) fn load_from_memory(bytes: &[u8]) -> (r: Option<Bitmap>)
    ensures
        r is Some <==> decoded_rgb(bytes@) is Some,
        r matches Some(b) ==> decoded_rgb(bytes@) == Some(bitmap_view(b)),
{
    match image::load_from_memory(bytes) {
        Ok(picture) => {
            let rgb = picture.into_rgb8();
            Some(Bitmap { width: rgb.width(), height: rgb.height(), pixels: rgb.into_raw() })
        },
        Err(_) => None,
    }
}

/// The picture `bytes` decode to, when they decode to one of at least one pixel.
pub open spec fn decoded_picture(bytes: Seq<u8>) -> Option<(u32, u32, Seq<u8>)> {
    match decoded_rgb(bytes) {
        Some((w, h, pixels)) => if w > 0 && h > 0 {
            Some((w, h, pixels))
        } else {
            None
        },
        None => None,
    }
}

pub open spec fn opt_bitmap_view(b: Option<Bitmap>) -> Option<(u32, u32, Seq<u8>)> {
    match b {
        Some(b) => Some(bitmap_view(b)),
        None => None,
    }
}

/// A photo from its encoded bytes (JPEG, PNG, ...): the picture they decode to, or `None` when
/// they do not decode to a picture of at least one pixel.
pub fn decode_photo(bytes: &[u8]) -> (r: Option<Bitmap>)
    ensures
        opt_bitmap_view(r) == decoded_picture(bytes@),
{
    match load_from_memory(bytes) {
        Some(picture) => if picture.width() > 0 && picture.height() > 0 {
            Some(picture)
        } else {
            None
        },
        None => None,
    }
}

/// A screen a frame can be composed for: neither side zero, and its bytes fit in memory.
pub open spec fn composable_screen(size: (u32, u32)) -> bool {
    size.0 > 0 && size.1 > 0 && size.0 * size.1 * 3 <= usize::MAX
}

pub fn is_composable_screen(size: (u32, u32)) -> (r: bool)
    ensures
        r == composable_screen(size),
{
    proof {
        vstd::arithmetic::mul::lemma_mul_upper_bound(
            size.0 as int,
            u32::MAX as int,
            size.1 as int,
            u32::MAX as int,
        );
    }
    size.0 > 0 && size.1 > 0 && (size.0 as u128) * (size.1 as u128) * 3 <= usize::MAX as u128
}

/// Size of a `w` x `h` picture turned by the rotation: a quarter turn swaps the sides.
pub open spec fn turned_size(w: u32, h: u32, rotation: Rotation) -> (u32, u32) {
    if quarter_turns_spec(rotation) % 2 == 1 {
        (h, w)
    } else {
        (w, h)
    }
}

/// The pixel of a `w` x `h` picture that lands at `(x, y)` when the picture is turned clockwise
/// by the rotation.
pub open spec fn turn_source(w: int, h: int, rotation: Rotation, x: int, y: int) -> (int, int) {
    match rotation {
        Rotation::D0 => (x, y),
        Rotation::D90 => (y, h - 1 - x),
        Rotation::D180 => (w - 1 - x, h - 1 - y),
        Rotation::D270 => (w - 1 - y, x),
    }
}

/// The bytes of a `w` x `h` picture turned clockwise by the rotation (what
/// `imageops::rotate90`, `rotate180` and `rotate270` compute).
pub open spec fn turned_bytes(w: u32, h: u32, pixels: Seq<u8>, rotation: Rotation) -> Seq<u8> {
    let ow = turned_size(w, h, rotation).0 as int;
    Seq::new(
        (w * h * 3) as nat,
        |i: int|
            {
                let (sx, sy) = turn_source(w as int, h as int, rotation, (i / 3) % ow, (i / 3) / ow);
                pixels[byte_index(w as int, sx, sy, i % 3)]
            },
    )
}

/// The picture `(w, h, pixels)` turned clockwise by the rotation.
pub open spec fn turned_view(picture: (u32, u32, Seq<u8>), rotation: Rotation) -> (u32, u32, Seq<u8>) {
    let (w, h, pixels) = picture;
    let (tw, th) = turned_size(w, h, rotation);
    (tw, th, turned_bytes(w, h, pixels, rotation))
}

fn turn_source_of(w: u32, h: u32, rotation: Rotation, x: u32, y: u32) -> (r: (u32, u32))
    requires
        x < turned_size(w, h, rotation).0,
        y < turned_size(w, h, rotation).1,
    ensures
        (r.0 as int, r.1 as int) == turn_source(w as int, h as int, rotation, x as int, y as int),
        r.0 < w,
        r.1 < h,
{
    match rotation {
        Rotation::D0 => (x, y),
        Rotation::D90 => (y, h - 1 - x),
        Rotation::D180 => (w - 1 - x, h - 1 - y),
        Rotation::D270 => (w - 1 - y, x),
    }
}

/// The picture turned clockwise by the rotation, copied pixel by pixel.
pub fn turn_picture(picture: Bitmap, rotation: Rotation) -> (r: Bitmap)
    ensures
        bitmap_view(r) == turned_view(bitmap_view(picture), rotation),
{
    proof {
        use_type_invariant(&picture);
    }
    let w = picture.width;
    let h = picture.height;
    let (ow, oh) = if rotation.quarter_turns() % 2 == 1 {
        (h, w)
    } else {
        (w, h)
    };
    let ghost source = picture.pixels@;
    let ghost expected = turned_bytes(w, h, source, rotation);
    proof {
        assert(ow * oh == w * h) by (nonlinear_arith)
            requires
                (ow == h && oh == w) || (ow == w && oh == h),
        ;
    }
    let n = picture.pixels.len();
    let mut out: Vec<u8> = Vec::new();
    let mut y: u32 = 0;
    while y < oh
        invariant
            n == w * h * 3,
            source == picture.pixels@,
            source.len() == w * h * 3,
            w == picture.width,
            h == picture.height,
            (ow, oh) == turned_size(w, h, rotation),
            ow * oh == w * h,
            expected == turned_bytes(w, h, source, rotation),
            expected.len() == w * h * 3,
            y <= oh,
            out@.len() == 3 * (y * ow),
            forall|k: int| 0 <= k < out@.len() ==> k < expected.len() && out@[k] == expected[k],
        decreases oh - y,
    {
        proof {
            assert(y * ow + ow == (y + 1) * ow) by (nonlinear_arith);
            assert((y + 1) * ow <= oh * ow) by (nonlinear_arith)
                requires
                    y + 1 <= oh,
                    0 <= ow,
            ;
            assert(oh * ow == ow * oh) by (nonlinear_arith);
        }
        let mut x: u32 = 0;
        while x < ow
            invariant
                n == w * h * 3,
                source == picture.pixels@,
                source.len() == w * h * 3,
                w == picture.width,
                h == picture.height,
                (ow, oh) == turned_size(w, h, rotation),
                ow * oh == w * h,
                expected == turned_bytes(w, h, source, rotation),
                expected.len() == w * h * 3,
                y < oh,
                x <= ow,
                out@.len() == 3 * (y * ow + x),
                y * ow + ow == (y + 1) * ow,
                (y + 1) * ow <= oh * ow,
                oh * ow == ow * oh,
                forall|k: int| 0 <= k < out@.len() ==> k < expected.len() && out@[k] == expected[k],
            decreases ow - x,
        {
            let (sx, sy) = turn_source_of(w, h, rotation, x, y);
            proof {
                lemma_crop_byte(w as int, h as int, sx as int, sy as int, 1, 0, 0, 0);
                lemma_crop_byte(w as int, h as int, sx as int, sy as int, 1, 0, 0, 2);
                lemma_crop_byte(ow as int, oh as int, 0, 0, ow as int, y as int, x as int, 0);
                assert(0 <= sy * w) by (nonlinear_arith)
                    requires
                        0 <= sy,
                        0 <= w,
                ;
                assert(sy * w + sx < w * h);
            }
            let i = (sy as usize * w as usize + sx as usize) * 3;
            let ghost before = out@.len() as int;
            out.push(picture.pixels[i]);
            out.push(picture.pixels[i + 1]);
            out.push(picture.pixels[i + 2]);
            proof {
                assert forall|k: int| 0 <= k < out@.len() implies k < expected.len() && out@[k]
                    == expected[k] by {
                    if k >= before {
                        let c = k - before;
                        lemma_crop_byte(ow as int, oh as int, 0, 0, ow as int, y as int, x as int, c);
                        lemma_crop_byte(w as int, h as int, sx as int, sy as int, 1, 0, 0, c);
                    }
                }
            }
            x = x + 1;
        }
        y = y + 1;
    }
    proof {
        assert(oh * ow == ow * oh) by (nonlinear_arith);
        assert(out@.len() == expected.len());
        assert(out@ =~= expected);
    }
    Bitmap { width: ow, height: oh, pixels: out }
}

/// Draws `icon` over the top-left corner of `picture`: the pixels under it are replaced, the
/// parts of it outside the picture left out.
pub fn draw_icon(picture: &mut Bitmap, icon: &Bitmap)
    ensures
        final(picture).width_spec() == old(picture).width_spec(),
        final(picture).height_spec() == old(picture).height_spec(),
        final(picture).bytes() == overlaid_bytes(
            old(picture).width_spec() as int,
            old(picture).bytes(),
            icon.width_spec() as int,
            icon.height_spec() as int,
            icon.bytes(),
            0,
            0,
        ),
{
    overlay(picture, icon, 0, 0);
}

/// Law: when the photo is framed with bands, whatever the bands are, the rectangle of the
/// fitted size at the framing position shows the photo scaled to that size: pixel `(x, y)` of the
/// frame inside it is pixel `(x - foreground_x, y - foreground_y)` of the scaled photo. The bands
/// show only outside it.
pub proof fn lemma_frame_shows_the_photo(
    iw: u32,
    ih: u32,
    pixels: Seq<u8>,
    sw: u32,
    sh: u32,
    bands: Option<((u32, u32, Seq<u8>), (u32, u32, Seq<u8>))>,
    x: int,
    y: int,
    c: int,
)
    requires
        framing_spec(iw as int, ih as int, sw as int, sh as int) is WithBackground,
        0 <= x < sw,
        0 <= y < sh,
        0 <= c < 3,
        ({
            let framing = framing_spec(iw as int, ih as int, sw as int, sh as int);
            let (fw, fh) = fitted_size(iw, ih, sw, sh);
            &&& framing->foreground_x <= x < framing->foreground_x + fw
            &&& framing->foreground_y <= y < framing->foreground_y + fh
        }),
    ensures
        ({
            let framing = framing_spec(iw as int, ih as int, sw as int, sh as int);
            let (fw, fh) = fitted_size(iw, ih, sw, sh);
            let frame = framed_bytes(iw, ih, pixels, sw, sh, bands);
            &&& frame.len() == sw * sh * 3
            &&& frame[byte_index(sw as int, x, y, c)] == scaled_pixels(
                iw,
                ih,
                pixels,
                fw,
                fh,
                ScaleFilter::Lanczos3,
            )[byte_index(
                fw as int,
                x - framing->foreground_x,
                y - framing->foreground_y,
                c,
            )]
        }),
{
    lemma_crop_byte(sw as int, sh as int, 0, 0, sw as int, y, x, c);
}

/// Law: turning a picture clockwise moves its pixels as a clockwise turn does. Pixel `(x, y)` of
/// the turned picture is, unturned, pixel `(x, y)`; by a quarter turn, pixel `(y, h - 1 - x)` (the
/// left column becomes the top row); by a half turn, pixel `(w - 1 - x, h - 1 - y)`; by three
/// quarters, pixel `(w - 1 - y, x)`. A quarter or three-quarter turn swaps the sides.
pub proof fn lemma_turn_moves_pixels_clockwise(
    w: u32,
    h: u32,
    pixels: Seq<u8>,
    rotation: Rotation,
    x: int,
    y: int,
    c: int,
)
    requires
        0 <= x < turned_view((w, h, pixels), rotation).0,
        0 <= y < turned_view((w, h, pixels), rotation).1,
        0 <= c < 3,
    ensures
        ({
            let (tw, th, turned) = turned_view((w, h, pixels), rotation);
            let at = turned[byte_index(tw as int, x, y, c)];
            &&& turned.len() == w * h * 3
            &&& match rotation {
                Rotation::D0 => tw == w && th == h && at == pixels[byte_index(w as int, x, y, c)],
                Rotation::D90 => tw == h && th == w && at == pixels[byte_index(
                    w as int,
                    y,
                    h - 1 - x,
                    c,
                )],
                Rotation::D180 => tw == w && th == h && at == pixels[byte_index(
                    w as int,
                    w - 1 - x,
                    h - 1 - y,
                    c,
                )],
                Rotation::D270 => tw == h && th == w && at == pixels[byte_index(
                    w as int,
                    w - 1 - y,
                    x,
                    c,
                )],
            }
        }),
{
    let (tw, th) = turned_size(w, h, rotation);
    lemma_crop_byte(tw as int, th as int, 0, 0, tw as int, y, x, c);
    assert(tw * th == w * h) by (nonlinear_arith)
        requires
            (tw == h && th == w) || (tw == w && th == h),
    ;
}

} // verus!
