//! The CRT post-processing model, in fixed point at scale 10000: the
//! barrel-distortion remap of a viewport coordinate, the rounded-edge
//! bounds test, the vignette, and the scanline/grille factor. For every
//! output pixel the undistorted coordinate samples the source color,
//! the remapped coordinate decides visibility and the vignette, and the
//! combined multiplicative factor never exceeds 1.2.

use vstd::prelude::*;
use crate::fixed::{
    cos_fx, cos_val, clamp_unit_fx, clamp_unit_val, div_trunc, div_trunc_by, mul_fx, mul_fx_spec,
    lemma_mul_fx_unit_range, sqrt_fx, sqrt_fx_val,
};

verus! {

/// A fixed-point product with one signed factor in [-1, 1] and one
/// factor in [0, 1] stays in [-1, 1].
proof fn lemma_mul_fx_signed_unit(a: int, b: int)
    requires
        -10_000 <= a <= 10_000,
        0 <= b <= 10_000,
    ensures
        -10_000 <= mul_fx_spec(a, b) <= 10_000,
{
    if a >= 0 {
        lemma_mul_fx_unit_range(a, b);
    } else {
        lemma_mul_fx_unit_range(-a, b);
        assert(a * b == -((-a) * b)) by (nonlinear_arith);
    }
}

/// A fixed-point product with a zero factor is zero.
proof fn lemma_mul_fx_zero(a: int, b: int)
    requires
        a == 0 || b == 0,
    ensures
        mul_fx_spec(a, b) == 0,
{
    assert(a * b == 0) by (nonlinear_arith)
        requires
            a == 0 || b == 0,
    ;
}

/// The horizontal barrel-distorted coordinate of `(x, y)`: remap to
/// [-1, 1], push outward by the squared vertical offset over 6, and
/// remap back to [0, 1] scale (the result may leave that range; such
/// pixels are off the rounded screen).
pub open spec fn curve_x_spec(x: int, y: int) -> int {
    let tx = 2 * x - 10_000;
    let ty = 2 * y - 10_000;
    let ox = (if ty >= 0 { ty } else { -ty }) / 6;
    let o2 = mul_fx_spec(ox, ox);
    div_trunc(tx + mul_fx_spec(tx, o2) + 10_000, 2)
}

/// The vertical barrel-distorted coordinate of `(x, y)`, with the
/// squared horizontal offset over 4.
pub open spec fn curve_y_spec(x: int, y: int) -> int {
    let tx = 2 * x - 10_000;
    let ty = 2 * y - 10_000;
    let oy = (if tx >= 0 { tx } else { -tx }) / 4;
    let o2 = mul_fx_spec(oy, oy);
    div_trunc(ty + mul_fx_spec(ty, o2) + 10_000, 2)
}

/// A viewport coordinate is visible when its remapped coordinate stays
/// inside the unit square; outside it the screen's rounded edge shows
/// pure black.
pub open spec fn crt_visible(x: int, y: int) -> bool {
    &&& 0 <= curve_x_spec(x, y) <= 10_000
    &&& 0 <= curve_y_spec(x, y) <= 10_000
}

/// The barrel-distorted remap of a viewport coordinate in [0, 1]^2.
pub fn crt_curve(x: i64, y: i64) -> (c: (i64, i64))
    requires
        0 <= x <= 10_000,
        0 <= y <= 10_000,
    ensures
        c.0 == curve_x_spec(x as int, y as int),
        c.1 == curve_y_spec(x as int, y as int),
{
    let tx: i64 = 2 * x - 10_000;
    let ty: i64 = 2 * y - 10_000;
    let ax: i64 = if ty >= 0 { ty } else { -ty };
    let ay: i64 = if tx >= 0 { tx } else { -tx };
    let ox: i64 = ((ax as u64) / 6) as i64;
    let oy: i64 = ((ay as u64) / 4) as i64;
    let o2x = mul_fx(ox, ox);
    let o2y = mul_fx(oy, oy);
    proof {
        lemma_mul_fx_unit_range(ox as int, ox as int);
        lemma_mul_fx_unit_range(oy as int, oy as int);
        lemma_mul_fx_signed_unit(tx as int, o2x as int);
        lemma_mul_fx_signed_unit(ty as int, o2y as int);
    }
    let cx = div_trunc_by(tx + mul_fx(tx, o2x) + 10_000, 2);
    let cy = div_trunc_by(ty + mul_fx(ty, o2y) + 10_000, 2);
    (cx, cy)
}

/// The vignette factor at a remapped coordinate inside the unit square:
/// `clamp(pow(16 x y (1-x) (1-y), 0.3), 0, 1)`, the power approximated
/// by the exponent 5/16 — the clamped inner product raised to the fifth
/// power under four square roots.
pub open spec fn vignette_spec(cx: int, cy: int) -> int {
    let inner = mul_fx_spec(mul_fx_spec(cx, cy), mul_fx_spec(10_000 - cx, 10_000 - cy));
    let base = clamp_unit_val(16 * inner);
    let b2 = mul_fx_spec(base, base);
    let b5 = mul_fx_spec(mul_fx_spec(b2, b2), base);
    sqrt_fx_val(sqrt_fx_val(sqrt_fx_val(sqrt_fx_val(b5))))
}

/// The vignette factor at a remapped coordinate inside the unit square.
/// Stays in [0, 1]; zero on the screen border.
pub fn vignette_fx(cx: i64, cy: i64) -> (v: i64)
    requires
        0 <= cx <= 10_000,
        0 <= cy <= 10_000,
    ensures
        v == vignette_spec(cx as int, cy as int),
        0 <= v <= 10_000,
        cx == 0 || cy == 0 || cx == 10_000 || cy == 10_000 ==> v == 0,
{
    let p1 = mul_fx(cx, cy);
    let p2 = mul_fx(10_000 - cx, 10_000 - cy);
    proof {
        lemma_mul_fx_unit_range(cx as int, cy as int);
        lemma_mul_fx_unit_range(10_000 - cx as int, 10_000 - cy as int);
        lemma_mul_fx_unit_range(p1 as int, p2 as int);
    }
    let inner = mul_fx(p1, p2);
    proof {
        if cx == 0 || cy == 0 {
            lemma_mul_fx_zero(cx as int, cy as int);
        }
        if cx == 10_000 || cy == 10_000 {
            lemma_mul_fx_zero(10_000 - cx as int, 10_000 - cy as int);
        }
        if p1 == 0 || p2 == 0 {
            lemma_mul_fx_zero(p1 as int, p2 as int);
        }
    }
    let base = clamp_unit_fx(16 * inner);
    proof {
        lemma_mul_fx_unit_range(base as int, base as int);
    }
    let b2 = mul_fx(base, base);
    proof {
        lemma_mul_fx_unit_range(b2 as int, b2 as int);
        if base == 0 {
            lemma_mul_fx_zero(base as int, base as int);
        }
    }
    let b4 = mul_fx(b2, b2);
    proof {
        lemma_mul_fx_unit_range(b4 as int, base as int);
        if b2 == 0 {
            lemma_mul_fx_zero(b2 as int, b2 as int);
        }
    }
    let b5 = mul_fx(b4, base);
    proof {
        if b4 == 0 {
            lemma_mul_fx_zero(b4 as int, base as int);
        }
    }
    let r1 = sqrt_fx(b5);
    let r2 = sqrt_fx(r1);
    let r3 = sqrt_fx(r2);
    let r4 = sqrt_fx(r3);
    r4
}

/// The vertical scanline term: a cosine across about 240 lines, its
/// phase moved by 0.008 of the configured time, lifted to [0.9, 1.0]
/// and clamped into [0, 1].
pub open spec fn scanline_term(y: int, t: int) -> int {
    let drift = div_trunc(8 * t, 1_000);
    let angle = mul_fx_spec(31_416, y + drift) * 240;
    clamp_unit_val(9_500 + div_trunc(cos_val(angle), 20))
}

/// The horizontal grille term: a cosine across about 640 columns,
/// amplified half again, clamped into [0, 1] and lifted to [0.85, 1.0].
pub open spec fn grille_term(x: int) -> int {
    let angle = mul_fx_spec(31_416, x) * 640;
    8_500 + div_trunc(3 * clamp_unit_val(div_trunc(3 * cos_val(angle), 2)), 20)
}

/// The combined scanline/grille factor: both terms multiplied and
/// scaled by 1.2.
pub open spec fn scanline_grille_spec(x: int, y: int, t: int) -> int {
    div_trunc(12 * mul_fx_spec(scanline_term(y, t), grille_term(x)), 10)
}

/// The scanline/grille factor at an undistorted viewport coordinate:
/// a clamped vertical cosine term (period about 240 lines, phase moved
/// by the configured time), a clamped horizontal cosine term (period
/// about 640 columns), multiplied and scaled by 1.2. Never exceeds 1.2.
pub fn scanline_grille_fx(x: i64, y: i64, time_fx: i64) -> (s: i64)
    requires
        0 <= x <= 10_000,
        0 <= y <= 10_000,
        0 <= time_fx <= 100_000_000,
    ensures
        s == scanline_grille_spec(x as int, y as int, time_fx as int),
        0 <= s <= 12_000,
{
    let drift = div_trunc_by(8 * time_fx, 1_000);
    let angle_scan = mul_fx(31_416, y + drift) * 240;
    let c_scan = cos_fx(angle_scan);
    let scan = clamp_unit_fx(9_500 + div_trunc_by(c_scan, 20));
    let angle_grille = mul_fx(31_416, x) * 640;
    let c_grille = cos_fx(angle_grille);
    let lifted = clamp_unit_fx(div_trunc_by(3 * c_grille, 2));
    let grille = 8_500 + div_trunc_by(3 * lifted, 20);
    proof {
        lemma_mul_fx_unit_range(scan as int, grille as int);
    }
    let both = mul_fx(scan, grille);
    div_trunc_by(12 * both, 10)
}

/// Law: for any viewport coordinate in the unit square the combined
/// multiplicative factor applied to the source color — vignette times
/// scanline/grille — stays within [0, 1.2] (12000 at scale); there is
/// no channel amplification beyond the 1.2 grille ceiling.
pub fn crt_factor(cx: i64, cy: i64, x: i64, y: i64, time_fx: i64) -> (f: i64)
    requires
        0 <= cx <= 10_000,
        0 <= cy <= 10_000,
        0 <= x <= 10_000,
        0 <= y <= 10_000,
        0 <= time_fx <= 100_000_000,
    ensures
        f == mul_fx_spec(
            vignette_spec(cx as int, cy as int),
            scanline_grille_spec(x as int, y as int, time_fx as int),
        ),
        0 <= f <= 12_000,
{
    let vig = vignette_fx(cx, cy);
    let sg = scanline_grille_fx(x, y, time_fx);
    proof {
        assert(0 <= vig * sg <= 10_000 * sg) by (nonlinear_arith)
            requires
                0 <= vig <= 10_000,
                0 <= sg,
        ;
        vstd::arithmetic::div_mod::lemma_div_is_ordered(vig * sg, 10_000 * sg, 10_000);
        assert((10_000 * sg) / 10_000 == sg);
    }
    mul_fx(vig, sg)
}

/// One 8-bit channel scaled by a fixed-point factor, capped at 255.
pub open spec fn scaled_channel(c: u8, f: int) -> u8
    recommends
        0 <= f,
{
    let s = (c * f) / 10_000;
    if s > 255 {
        255u8
    } else {
        s as u8
    }
}

/// Scale one channel by a factor in [0, 1.2].
pub fn apply_factor(c: u8, f: i64) -> (r: u8)
    requires
        0 <= f <= 12_000,
    ensures
        r == scaled_channel(c, f as int),
{
    proof {
        vstd::arithmetic::mul::lemma_mul_upper_bound(c as int, 255, f as int, 12_000);
    }
    let p: u64 = (c as u64) * (f as u64);
    let q: u64 = p / 10_000;
    if q > 255 {
        255
    } else {
        q as u8
    }
}

/// The combined factor a visible pixel's color is scaled by: the
/// vignette at the remapped coordinate times the scanline/grille factor
/// at the undistorted one.
pub open spec fn shade_factor_spec(x: int, y: int, t: int) -> int {
    mul_fx_spec(
        vignette_spec(curve_x_spec(x, y), curve_y_spec(x, y)),
        scanline_grille_spec(x, y, t),
    )
}

/// Shade one output pixel: a coordinate whose remap leaves the unit
/// square is pure black whatever the source color; a visible one is the
/// source color times the combined factor, so no channel exceeds 1.2
/// times its source value (capped at 255).
pub fn shade_pixel(x: i64, y: i64, time_fx: i64, red: u8, green: u8, blue: u8) -> (out: (
    u8,
    u8,
    u8,
))
    requires
        0 <= x <= 10_000,
        0 <= y <= 10_000,
        0 <= time_fx <= 100_000_000,
    ensures
        !crt_visible(x as int, y as int) ==> out == (0u8, 0u8, 0u8),
        crt_visible(x as int, y as int) ==> {
            let f = shade_factor_spec(x as int, y as int, time_fx as int);
            &&& out.0 == scaled_channel(red, f)
            &&& out.1 == scaled_channel(green, f)
            &&& out.2 == scaled_channel(blue, f)
            &&& out.0 as int <= (red as int * 12_000) / 10_000
            &&& out.1 as int <= (green as int * 12_000) / 10_000
            &&& out.2 as int <= (blue as int * 12_000) / 10_000
        },
{
    let (cx, cy) = crt_curve(x, y);
    if cx < 0 || cx > 10_000 || cy < 0 || cy > 10_000 {
        (0u8, 0u8, 0u8)
    } else {
        let f = crt_factor(cx, cy, x, y, time_fx);
        let r = apply_factor(red, f);
        let g = apply_factor(green, f);
        let b = apply_factor(blue, f);
        proof {
            lemma_scaled_channel_ceiling(red, f as int);
            lemma_scaled_channel_ceiling(green, f as int);
            lemma_scaled_channel_ceiling(blue, f as int);
            assert(f == shade_factor_spec(x as int, y as int, time_fx as int));
        }
        (r, g, b)
    }
}

/// A channel scaled by a factor of at most 1.2 stays at or below 1.2
/// times the channel.
proof fn lemma_scaled_channel_ceiling(c: u8, f: int)
    requires
        0 <= f <= 12_000,
    ensures
        scaled_channel(c, f) as int <= (c as int * 12_000) / 10_000,
{
    assert(c * f <= c * 12_000) by (nonlinear_arith)
        requires
            0 <= f <= 12_000,
            0 <= c,
    ;
    vstd::arithmetic::div_mod::lemma_div_is_ordered(c * f, c * 12_000, 10_000);
}

} // verus!
