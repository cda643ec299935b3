use crtcam::crt::{apply_factor, crt_curve, crt_factor, scanline_grille_fx, shade_pixel, vignette_fx};
use crtcam::fixed::{FX_ONE, cos_fx, isqrt, mul_fx, sqrt_fx};

#[test]
fn scale_constant_is_ten_thousand() {
    assert_eq!(FX_ONE, 10_000);
}

#[test]
fn isqrt_exact_values() {
    assert_eq!(isqrt(0), 0);
    assert_eq!(isqrt(1), 1);
    assert_eq!(isqrt(3), 1);
    assert_eq!(isqrt(4), 2);
    assert_eq!(isqrt(99), 9);
    assert_eq!(isqrt(100), 10);
    assert_eq!(isqrt(100_000_000), 10_000);
    assert_eq!(isqrt(99_999_999), 9_999);
}

#[test]
fn sqrt_fx_fixed_points() {
    assert_eq!(sqrt_fx(0), 0);
    assert_eq!(sqrt_fx(10_000), 10_000);
    // sqrt(0.25) = 0.5 at scale.
    assert_eq!(sqrt_fx(2_500), 5_000);
}

#[test]
fn mul_fx_truncates_toward_zero() {
    assert_eq!(mul_fx(5_000, 5_000), 2_500);
    assert_eq!(mul_fx(-5_000, 5_000), -2_500);
    assert_eq!(mul_fx(3, 3), 0);
    assert_eq!(mul_fx(-3, 3), 0);
    assert_eq!(mul_fx(10_000, 12_000), 12_000);
}

#[test]
fn cosine_hits_cardinal_angles() {
    // Angles are radians at scale: pi is 31416.
    assert_eq!(cos_fx(0), 10_000);
    assert_eq!(cos_fx(15_708), 0);
    assert_eq!(cos_fx(31_416), -10_000);
    assert_eq!(cos_fx(62_832), 10_000);
    assert_eq!(cos_fx(-31_416), -10_000);
}

#[test]
fn cosine_stays_within_unit_range() {
    let mut a: i64 = -400_000;
    while a <= 400_000 {
        let c = cos_fx(a);
        assert!(-10_000 <= c && c <= 10_000);
        a += 1_037;
    }
}

#[test]
fn curve_fixes_the_center() {
    assert_eq!(crt_curve(5_000, 5_000), (5_000, 5_000));
}

#[test]
fn curve_pushes_corners_off_screen() {
    // At the viewport corner the remap leaves [0,1]^2, the rounded-edge
    // region: the x coordinate lands at -138 of 10000.
    let (cx, cy) = crt_curve(0, 0);
    assert!(cx < 0);
    assert!(cy < 0);
    assert_eq!(cx, -138);
}

#[test]
fn out_of_bounds_coordinate_renders_black() {
    // Corner pixels curve off screen: pure black whatever the source.
    assert_eq!(shade_pixel(0, 0, 1_000, 255, 255, 255), (0, 0, 0));
    assert_eq!(shade_pixel(10_000, 10_000, 1_000, 1, 2, 3), (0, 0, 0));
    assert_eq!(shade_pixel(0, 10_000, 1_000, 200, 100, 50), (0, 0, 0));
}

#[test]
fn vignette_darkens_the_border_and_spares_the_center() {
    assert_eq!(vignette_fx(0, 5_000), 0);
    assert_eq!(vignette_fx(5_000, 0), 0);
    assert_eq!(vignette_fx(10_000, 5_000), 0);
    assert_eq!(vignette_fx(5_000, 10_000), 0);
    assert_eq!(vignette_fx(5_000, 5_000), 10_000);
}

#[test]
fn vignette_stays_in_unit_range() {
    let mut x: i64 = 0;
    while x <= 10_000 {
        let mut y: i64 = 0;
        while y <= 10_000 {
            let v = vignette_fx(x, y);
            assert!(0 <= v && v <= 10_000);
            y += 417;
        }
        x += 417;
    }
}

#[test]
fn combined_factor_never_exceeds_the_grille_ceiling() {
    // The vignette times the scanline/grille factor stays in [0, 1.2].
    let mut x: i64 = 0;
    while x <= 10_000 {
        let mut y: i64 = 0;
        while y <= 10_000 {
            let s = scanline_grille_fx(x, y, 1_000);
            assert!(0 <= s && s <= 12_000);
            let f = crt_factor(x, y, x, y, 1_000);
            assert!(0 <= f && f <= 12_000);
            y += 739;
        }
        x += 739;
    }
}

#[test]
fn apply_factor_scales_and_caps() {
    assert_eq!(apply_factor(100, 10_000), 100);
    assert_eq!(apply_factor(100, 12_000), 120);
    assert_eq!(apply_factor(255, 12_000), 255);
    assert_eq!(apply_factor(200, 5_000), 100);
    assert_eq!(apply_factor(0, 12_000), 0);
    assert_eq!(apply_factor(255, 0), 0);
}

#[test]
fn center_pixel_shades_to_exact_value() {
    // At the screen center with the time value 0.1: the vignette is
    // exactly 1, the scanline term is 9912, the grille term is 10000,
    // and the combined factor 11894, so a 100-level channel lifts to 118.
    assert_eq!(shade_pixel(5_000, 5_000, 1_000, 100, 100, 100), (118, 118, 118));
}

#[test]
fn shading_is_deterministic() {
    let first = shade_pixel(3_000, 7_000, 1_000, 90, 180, 250);
    for _ in 0..8 {
        assert_eq!(shade_pixel(3_000, 7_000, 1_000, 90, 180, 250), first);
    }
}
