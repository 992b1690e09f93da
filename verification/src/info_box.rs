//! Geometry of the on-screen photo info box (shooting date and location).

use vstd::prelude::*;

use crate::cli::Rotation;

verus! {

/// Largest coordinate or size accepted by an SDL rectangle (`i32::MAX / 2`).
pub const RECT_MAX: u32 = 1073741823;

/// Smallest coordinate accepted by an SDL rectangle (`i32::MIN / 2`).
pub const RECT_MIN: i32 = -1073741824;

/// A destination rectangle on the screen, as SDL stores it: position clamped to
/// `[RECT_MIN, RECT_MAX]`, sizes clamped to `[1, RECT_MAX]`.
#[derive(Debug, Clone, Copy, PartialEq, Eq, Structural)]
pub struct Rect {
    pub x: i32,
    pub y: i32,
    pub w: u32,
    pub h: u32,
}

pub open spec fn clamp_position(v: int) -> int {
    if v > RECT_MAX as int {
        RECT_MAX as int
    } else if v < RECT_MIN as int {
        RECT_MIN as int
    } else {
        v
    }
}

pub open spec fn clamp_size(v: int) -> int {
    if v == 0 {
        1
    } else if v > RECT_MAX as int {
        RECT_MAX as int
    } else {
        v
    }
}

pub open spec fn rect_spec(x: int, y: int, w: int, h: int) -> Rect {
    Rect {
        x: clamp_position(x) as i32,
        y: clamp_position(y) as i32,
        w: clamp_size(w) as u32,
        h: clamp_size(h) as u32,
    }
}

impl Rect {
    /// Builds a rectangle the way SDL does: a zero size becomes 1, and values beyond SDL's
    /// range are clamped into it.
    pub fn new(x: i32, y: i32, w: u32, h: u32) -> (r: Rect)
        ensures
            r == rect_spec(x as int, y as int, w as int, h as int),
    {
        let cx = if x > RECT_MAX as i32 {
            RECT_MAX as i32
        } else if x < RECT_MIN {
            RECT_MIN
        } else {
            x
        };
        let cy = if y > RECT_MAX as i32 {
            RECT_MAX as i32
        } else if y < RECT_MIN {
            RECT_MIN
        } else {
            y
        };
        let cw = if w == 0 {
            1
        } else if w > RECT_MAX {
            RECT_MAX
        } else {
            w
        };
        let ch = if h == 0 {
            1
        } else if h > RECT_MAX {
            RECT_MAX
        } else {
            h
        };
        Rect { x: cx, y: cy, w: cw, h: ch }
    }
}

pub open spec fn min_int(a: int, b: int) -> int {
    if a <= b {
        a
    } else {
        b
    }
}

pub open spec fn max_int(a: int, b: int) -> int {
    if a >= b {
        a
    } else {
        b
    }
}

pub open spec fn saturating_sub(a: int, b: int) -> int {
    if a >= b {
        a - b
    } else {
        0
    }
}

/// Font point size: a 30th of the smaller screen dimension, at least 20, at most `u16::MAX`.
pub open spec fn font_point_size_spec(screen_w: int, screen_h: int) -> int {
    min_int(max_int(20, min_int(screen_w, screen_h) / 30), 65535)
}

/// Outline width of the stroke font: a 480th of the smaller screen dimension rounded up, at
/// least 1, at most `u16::MAX`.
pub open spec fn stroke_outline_width_spec(screen_w: int, screen_h: int) -> int {
    min_int(max_int((min_int(screen_w, screen_h) + 479) / 480, 1), 65535)
}

fn min_u32(a: u32, b: u32) -> (r: u32)
    ensures
        r == min_int(a as int, b as int),
{
    if a <= b {
        a
    } else {
        b
    }
}

pub fn get_font_point_size(screen_size: (u32, u32)) -> (r: u16)
    ensures
        r == font_point_size_spec(screen_size.0 as int, screen_size.1 as int),
{
    let (screen_w, screen_h) = screen_size;
    let screen_min = min_u32(screen_w, screen_h);
    let size = screen_min / 30;
    let size = if size < 20 {
        20
    } else {
        size
    };
    if size > 65535 {
        65535
    } else {
        size as u16
    }
}

pub fn get_stroke_font_outline_width(screen_size: (u32, u32)) -> (r: u16)
    ensures
        r == stroke_outline_width_spec(screen_size.0 as int, screen_size.1 as int),
{
    let (screen_w, screen_h) = screen_size;
    let screen_min = min_u32(screen_w, screen_h);
    let width = screen_min / 480 + if screen_min % 480 == 0 {
        0
    } else {
        1
    };
    let width = if width < 1 {
        1
    } else {
        width
    };
    if width > 65535 {
        65535
    } else {
        width as u16
    }
}

/// `n / d` rounded to the nearest integer, halves rounded up.
pub open spec fn round_div(n: int, d: int) -> int {
    (2 * n + d) / (2 * d)
}

/// The scale factor applied to the text, as a fraction `num / den`: the largest factor not
/// above 1 at which the text fits into the screen area left inside the padding.
pub open spec fn text_scale(available_w: int, available_h: int, text_w: int, text_h: int) -> (int, int) {
    if available_w >= text_w && available_h >= text_h {
        (1, 1)
    } else if available_w * text_h <= available_h * text_w {
        (available_w, text_w)
    } else {
        (available_h, text_h)
    }
}

/// Screen dimension left for the text after subtracting padding on both sides.
pub open spec fn available_dim(screen: int, padding: int) -> int {
    saturating_sub(screen, min_int(2 * padding, u32::MAX as int))
}

/// The text size after scaling it down (never up) to fit the padded screen: zero when the text
/// has no area, otherwise each side scaled and rounded, and at least one pixel.
pub open spec fn scale_to_screen_spec(
    screen_w: int,
    screen_h: int,
    text_w: int,
    text_h: int,
    padding: int,
) -> (int, int) {
    if text_w == 0 || text_h == 0 {
        (0, 0)
    } else {
        let (num, den) = text_scale(
            available_dim(screen_w, padding),
            available_dim(screen_h, padding),
            text_w,
            text_h,
        );
        (max_int(round_div(text_w * num, den), 1), max_int(round_div(text_h * num, den), 1))
    }
}

proof fn lemma_scale_at_most_one(aw: int, ah: int, tw: int, th: int)
    requires
        0 <= aw,
        0 <= ah,
        0 < tw,
        0 < th,
    ensures
        ({
            let (num, den) = text_scale(aw, ah, tw, th);
            0 <= num <= den && den > 0 && (den == 1 || den == tw || den == th)
        }),
{
    if aw >= tw && ah >= th {
    } else if aw * th <= ah * tw {
        if aw >= tw {
            assert(ah < th);
            assert(ah * tw < th * tw) by (nonlinear_arith)
                requires
                    ah < th,
                    tw > 0,
            ;
            assert(aw * th >= tw * th) by (nonlinear_arith)
                requires
                    aw >= tw,
                    th > 0,
            ;
            assert(false);
        }
    } else {
        if ah >= th {
            assert(aw < tw);
            assert(aw * th < tw * th) by (nonlinear_arith)
                requires
                    aw < tw,
                    th > 0,
            ;
            assert(ah * tw >= th * tw) by (nonlinear_arith)
                requires
                    ah >= th,
                    tw > 0,
            ;
            assert(false);
        }
    }
}

proof fn lemma_round_div_at_most(n: int, d: int, k: int)
    requires
        0 <= n <= k * d,
        d > 0,
    ensures
        round_div(n, d) <= k,
        n == k * d ==> round_div(n, d) == k,
{
    vstd::arithmetic::div_mod::lemma_div_is_ordered(2 * n + d, 2 * (k * d) + d, 2 * d);
    assert(2 * (k * d) + d == k * (2 * d) + d) by (nonlinear_arith);
    vstd::arithmetic::div_mod::lemma_fundamental_div_mod_converse(2 * (k * d) + d, 2 * d, k, d);
}

/// Text that has an area is never enlarged, and it always keeps at least one pixel on each
/// side; when the padded screen leaves any room, the scaled text fits into that room.
pub proof fn lemma_scaled_text_fits(
    screen_w: u32,
    screen_h: u32,
    text_w: u32,
    text_h: u32,
    padding: u32,
)
    requires
        text_w > 0,
        text_h > 0,
    ensures
        ({
            let (w, h) = scale_to_screen_spec(
                screen_w as int,
                screen_h as int,
                text_w as int,
                text_h as int,
                padding as int,
            );
            let aw = available_dim(screen_w as int, padding as int);
            let ah = available_dim(screen_h as int, padding as int);
            &&& 1 <= w <= text_w
            &&& 1 <= h <= text_h
            &&& aw >= 1 && ah >= 1 ==> w <= aw && h <= ah
        }),
{
    let aw = available_dim(screen_w as int, padding as int);
    let ah = available_dim(screen_h as int, padding as int);
    let tw = text_w as int;
    let th = text_h as int;
    lemma_scale_at_most_one(aw, ah, tw, th);
    let (num, den) = text_scale(aw, ah, tw, th);
    assert(tw * num <= tw * den) by (nonlinear_arith)
        requires
            0 <= num <= den,
            tw > 0,
    ;
    assert(th * num <= th * den) by (nonlinear_arith)
        requires
            0 <= num <= den,
            th > 0,
    ;
    assert(0 <= tw * num && 0 <= th * num) by (nonlinear_arith)
        requires
            0 <= num,
            tw > 0,
            th > 0,
    ;
    lemma_round_div_at_most(tw * num, den, tw);
    lemma_round_div_at_most(th * num, den, th);
    if aw >= 1 && ah >= 1 {
        if aw >= tw && ah >= th {
        } else if aw * th <= ah * tw {
            assert(tw * aw == aw * tw) by (nonlinear_arith);
            lemma_round_div_at_most(tw * aw, tw, aw);
            assert(th * aw <= ah * tw) by (nonlinear_arith)
                requires
                    aw * th <= ah * tw,
            ;
            lemma_round_div_at_most(th * aw, tw, ah);
        } else {
            assert(th * ah == ah * th) by (nonlinear_arith);
            lemma_round_div_at_most(th * ah, th, ah);
            assert(tw * ah <= aw * th) by (nonlinear_arith)
                requires
                    aw * th > ah * tw,
            ;
            lemma_round_div_at_most(tw * ah, th, aw);
        }
    }
}

/// `t * num / den` rounded, computed without overflow.
fn scale_dim(t: u32, num: u32, den: u32) -> (r: u32)
    requires
        0 < den,
        num <= den,
    ensures
        r == round_div(t * num, den as int),
        r <= t,
{
    proof {
        vstd::arithmetic::mul::lemma_mul_upper_bound(t as int, u32::MAX as int, num as int, u32::MAX as int);
    }
    let prod: u64 = t as u64 * num as u64;
    let q: u64 = prod / den as u64;
    let rem: u64 = prod % den as u64;
    proof {
        assert(t * num <= t * den) by (nonlinear_arith)
            requires
                num <= den,
        ;
        vstd::arithmetic::div_mod::lemma_fundamental_div_mod(prod as int, den as int);
        assert(prod == den * q + rem);
        assert(q <= t) by (nonlinear_arith)
            requires
                prod <= t * den,
                prod == den * q + rem,
                0 <= rem,
                den > 0,
        ;
        let n = t * num;
        let d = den as int;
        assert(n == d * q + rem);
        if 2 * rem >= d {
            assert(2 * n + d == 2 * d * (q + 1) + (2 * rem - d)) by (nonlinear_arith)
                requires
                    n == d * q + rem,
            ;
            assert(0 <= 2 * rem - d < 2 * d);
            vstd::arithmetic::div_mod::lemma_div_multiples_vanish_fancy(q + 1, 2 * rem - d, 2 * d);
            assert(q + 1 <= t) by (nonlinear_arith)
                requires
                    n <= t * d,
                    n == d * q + rem,
                    2 * rem >= d,
                    d > 0,
            ;
        } else {
            assert(2 * n + d == 2 * d * q + (2 * rem + d)) by (nonlinear_arith)
                requires
                    n == d * q + rem,
            ;
            assert(0 <= 2 * rem + d < 2 * d);
            vstd::arithmetic::div_mod::lemma_div_multiples_vanish_fancy(q as int, 2 * rem + d, 2 * d);
        }
    }
    if 2 * rem >= den as u64 {
        (q + 1) as u32
    } else {
        q as u32
    }
}

fn saturating_sub_u32(a: u32, b: u32) -> (r: u32)
    ensures
        r == saturating_sub(a as int, b as int),
{
    if a >= b {
        a - b
    } else {
        0
    }
}

/// Scales text to guarantee that it fits on the screen. Text without area stays `(0, 0)`.
pub fn scale_to_screen(screen_size: (u32, u32), text_size: (u32, u32), padding: u32) -> (r: (
    u32,
    u32,
))
    ensures
        (r.0 as int, r.1 as int) == scale_to_screen_spec(
            screen_size.0 as int,
            screen_size.1 as int,
            text_size.0 as int,
            text_size.1 as int,
            padding as int,
        ),
{
    let (screen_w, screen_h) = screen_size;
    let (text_w, text_h) = text_size;
    if text_w == 0 || text_h == 0 {
        return (0, 0);
    }
    let double_padding: u32 = if padding > u32::MAX / 2 {
        u32::MAX
    } else {
        2 * padding
    };
    let available_w = saturating_sub_u32(screen_w, double_padding);
    let available_h = saturating_sub_u32(screen_h, double_padding);
    proof {
        lemma_scale_at_most_one(available_w as int, available_h as int, text_w as int, text_h as int);
    }
    proof {
        vstd::arithmetic::mul::lemma_mul_upper_bound(
            available_w as int,
            u32::MAX as int,
            text_h as int,
            u32::MAX as int,
        );
        vstd::arithmetic::mul::lemma_mul_upper_bound(
            available_h as int,
            u32::MAX as int,
            text_w as int,
            u32::MAX as int,
        );
    }
    let (num, den): (u32, u32) = if available_w >= text_w && available_h >= text_h {
        (1, 1)
    } else if (available_w as u64) * (text_h as u64) <= (available_h as u64) * (text_w as u64) {
        (available_w, text_w)
    } else {
        (available_h, text_h)
    };
    let new_w = scale_dim(text_w, num, den);
    let new_h = scale_dim(text_h, num, den);
    (if new_w == 0 {
        1
    } else {
        new_w
    }, if new_h == 0 {
        1
    } else {
        new_h
    })
}

/// The info box sits in the viewer's bottom-left corner, inset by a 72nd of the smaller screen
/// dimension; which screen corner that is depends on the rotation.
pub open spec fn text_box_rect_spec(
    screen_w: int,
    screen_h: int,
    text_w: int,
    text_h: int,
    rotation: Rotation,
) -> Rect {
    let padding = min_int(screen_w, screen_h) / 72;
    let (w, h) = scale_to_screen_spec(screen_w, screen_h, text_w, text_h, padding);
    let right_x = saturating_sub(saturating_sub(screen_w, w), padding);
    let bottom_y = saturating_sub(saturating_sub(screen_h, h), padding);
    let (x, y) = match rotation {
        Rotation::D0 => (padding, bottom_y),
        Rotation::D90 => (padding, padding),
        Rotation::D180 => (right_x, padding),
        Rotation::D270 => (right_x, bottom_y),
    };
    rect_spec(min_int(x, i32::MAX as int), min_int(y, i32::MAX as int), w, h)
}

/// Calculates the destination rectangle for the photo info box in the bottom-left part of the
/// screen (as the viewer sees it). It never fails.
pub fn get_text_box_dst_rect(
    screen_size: (u32, u32),
    text_surface_size: (u32, u32),
    rotation: Rotation,
) -> (r: Result<Rect, String>)
    ensures
        r == Ok::<Rect, String>(
            text_box_rect_spec(
                screen_size.0 as int,
                screen_size.1 as int,
                text_surface_size.0 as int,
                text_surface_size.1 as int,
                rotation,
            ),
        ),
{
    let (screen_w, screen_h) = screen_size;
    let padding = min_u32(screen_w, screen_h) / 72;
    let (text_w, text_h) = scale_to_screen(screen_size, text_surface_size, padding);
    let right_x = saturating_sub_u32(saturating_sub_u32(screen_w, text_w), padding);
    let bottom_y = saturating_sub_u32(saturating_sub_u32(screen_h, text_h), padding);
    let (x, y) = match rotation {
        Rotation::D0 => (padding, bottom_y),
        Rotation::D90 => (padding, padding),
        Rotation::D180 => (right_x, padding),
        Rotation::D270 => (right_x, bottom_y),
    };
    let x = min_u32(x, i32::MAX as u32) as i32;
    let y = min_u32(y, i32::MAX as u32) as i32;
    Ok(Rect::new(x, y, text_w, text_h))
}

} // verus!
