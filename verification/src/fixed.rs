//! Fixed-point arithmetic for the shader model, at a scale of 10000
//! (the value 1.0 is the integer 10000). Division truncates toward
//! zero. A cosine is approximated on the reduced circle by a bounded
//! rational formula; an integer square root is exact.

use vstd::prelude::*;

verus! {

/// The fixed-point representation of 1.0.
pub const FX_ONE: i64 = 10_000;

/// Integer division truncating toward zero (the sign convention of the
/// shader model's arithmetic).
pub open spec fn div_trunc(a: int, d: int) -> int
    recommends
        d > 0,
{
    if a >= 0 {
        a / d
    } else {
        -((-a) / d)
    }
}

/// The product of two fixed-point values.
pub open spec fn mul_fx_spec(a: int, b: int) -> int {
    div_trunc(a * b, 10_000)
}

/// Truncating division by a positive constant.
pub fn div_trunc_by(a: i64, d: u64) -> (r: i64)
    requires
        d >= 1,
        a > i64::MIN,
    ensures
        r == div_trunc(a as int, d as int),
{
    if a >= 0 {
        ((a as u64) / d) as i64
    } else {
        -((((-a) as u64) / d) as i64)
    }
}

/// Fixed-point multiply: the scaled product, truncated toward zero.
pub fn mul_fx(a: i64, b: i64) -> (r: i64)
    requires
        -1_000_000_000 <= a <= 1_000_000_000,
        -1_000_000_000 <= b <= 1_000_000_000,
    ensures
        r == mul_fx_spec(a as int, b as int),
        -100_000_000_000_000 <= r <= 100_000_000_000_000,
{
    proof {
        assert(-1_000_000_000_000_000_000 <= a * b <= 1_000_000_000_000_000_000) by (nonlinear_arith)
            requires
                -1_000_000_000 <= a <= 1_000_000_000,
                -1_000_000_000 <= b <= 1_000_000_000,
        ;
    }
    let p: i64 = a * b;
    proof {
        if p >= 0 {
            vstd::arithmetic::div_mod::lemma_div_is_ordered(
                p as int,
                1_000_000_000_000_000_000,
                10_000,
            );
        } else {
            vstd::arithmetic::div_mod::lemma_div_is_ordered(
                -(p as int),
                1_000_000_000_000_000_000,
                10_000,
            );
        }
    }
    div_trunc_by(p, 10_000)
}

/// A fixed-point product of values in [0, 1] stays in [0, 1]; more
/// generally a product of nonnegative values keeps nonnegative and is
/// bounded by the scaled product of the factors' bounds.
pub proof fn lemma_mul_fx_unit_range(a: int, b: int)
    requires
        0 <= a <= 10_000,
        0 <= b <= 10_000,
    ensures
        0 <= mul_fx_spec(a, b) <= 10_000,
{
    assert(0 <= a * b <= 10_000 * b) by (nonlinear_arith)
        requires
            0 <= a <= 10_000,
            0 <= b,
    ;
    assert((a * b) / 10_000 <= (10_000 * b) / 10_000) by {
        vstd::arithmetic::div_mod::lemma_div_is_ordered(a * b, 10_000 * b, 10_000);
    }
    assert((10_000 * b) / 10_000 == b);
}

/// The integer square root as a value: the root of the predecessor,
/// stepped up where the next square still fits.
pub open spec fn isqrt_val(n: nat) -> nat
    decreases n,
{
    if n == 0 {
        0
    } else {
        let r = isqrt_val((n - 1) as nat);
        if (r + 1) * (r + 1) <= n {
            r + 1
        } else {
            r
        }
    }
}

/// The spec square root is exact: its square fits and the next square
/// does not.
proof fn lemma_isqrt_val_correct(n: nat)
    ensures
        isqrt_val(n) * isqrt_val(n) <= n,
        n < (isqrt_val(n) + 1) * (isqrt_val(n) + 1),
    decreases n,
{
    if n > 0 {
        lemma_isqrt_val_correct((n - 1) as nat);
        let r = isqrt_val((n - 1) as nat);
        if (r + 1) * (r + 1) <= n {
            assert(isqrt_val(n) == r + 1);
            assert((r + 1 + 1) * (r + 1 + 1) > n) by (nonlinear_arith)
                requires
                    n - 1 < (r + 1) * (r + 1),
                    (r + 1) * (r + 1) <= n,
                    r >= 0,
            ;
            assert(n < (isqrt_val(n) + 1) * (isqrt_val(n) + 1)) by (nonlinear_arith)
                requires
                    isqrt_val(n) == r + 1,
                    (r + 1 + 1) * (r + 1 + 1) > n,
            ;
        } else {
            assert(isqrt_val(n) == r);
            assert(r * r <= n - 1 <= n);
            assert(n < (isqrt_val(n) + 1) * (isqrt_val(n) + 1)) by (nonlinear_arith)
                requires
                    isqrt_val(n) == r,
                    !((r + 1) * (r + 1) <= n),
            ;
        }
    } else {
        assert(isqrt_val(n) == 0);
        assert(n < (isqrt_val(n) + 1) * (isqrt_val(n) + 1)) by (nonlinear_arith)
            requires
                n == 0,
                isqrt_val(n) == 0,
        ;
    }
}

/// Exactness pins the root: two integers whose squares bracket `n` the
/// same way are equal.
proof fn lemma_isqrt_unique(n: nat, a: nat, b: nat)
    by (nonlinear_arith)
    requires
        a * a <= n < (a + 1) * (a + 1),
        b * b <= n < (b + 1) * (b + 1),
    ensures
        a == b,
{
}

/// The exact integer square root: the greatest integer whose square
/// does not exceed the argument.
pub fn isqrt(n: u64) -> (r: u64)
    requires
        n <= 100_000_000,
    ensures
        r == isqrt_val(n as nat),
        r * r <= n,
        n < (r + 1) * (r + 1),
        r <= 10_000,
{
    let mut lo: u64 = 0;
    let mut hi: u64 = 10_001;
    proof {
        assert(100_000_000 < 10_001 * 10_001) by (nonlinear_arith);
    }
    while lo + 1 < hi
        invariant
            lo < hi,
            hi <= 10_001,
            lo * lo <= n,
            n < hi * hi,
        decreases hi - lo,
    {
        let mid: u64 = lo + (hi - lo) / 2;
        proof {
            assert(mid * mid <= 100_020_001) by (nonlinear_arith)
                requires
                    mid <= 10_000,
            ;
        }
        if mid * mid <= n {
            lo = mid;
        } else {
            hi = mid;
        }
    }
    proof {
        lemma_isqrt_val_correct(n as nat);
        lemma_isqrt_unique(n as nat, lo as nat, isqrt_val(n as nat));
    }
    lo
}

/// The fixed-point square root of a value in [0, 1]: the integer square
/// root of the value raised back to scale.
pub open spec fn sqrt_fx_val(x: int) -> int
    recommends
        0 <= x,
{
    isqrt_val((x * 10_000) as nat) as int
}

/// The fixed-point square root of a value in [0, 1]. Stays in [0, 1].
pub fn sqrt_fx(x: i64) -> (r: i64)
    requires
        0 <= x <= 10_000,
    ensures
        r == sqrt_fx_val(x as int),
        0 <= r <= 10_000,
        x == 0 ==> r == 0,
{
    let scaled: u64 = (x as u64) * 10_000;
    let root = isqrt(scaled);
    proof {
        if x == 0 {
            assert(root * root <= 0);
            assert(root == 0) by (nonlinear_arith)
                requires
                    root * root <= 0,
            ;
        }
    }
    root as i64
}

/// A fixed-point value clamped into [0, 1].
pub open spec fn clamp_unit_val(x: int) -> int {
    if x < 0 {
        0
    } else if x > 10_000 {
        10_000
    } else {
        x
    }
}

/// Clamp a fixed-point value into [0, 1].
pub fn clamp_unit_fx(x: i64) -> (r: i64)
    ensures
        r == clamp_unit_val(x as int),
{
    if x < 0 {
        0
    } else if x > 10_000 {
        10_000
    } else {
        x
    }
}

/// The circle constant at scale: 2*pi.
pub const TWO_PI_FX: i64 = 62_832;

/// Reduction of an angle to [0, 2*pi): the Euclidean remainder.
pub open spec fn angle_reduced(x: int) -> int {
    x % 62_832
}

/// The rational cosine approximation on a quarter circle, for an angle
/// in [0, pi/2]: `(pi^2 - 4*t^2) / (pi^2 + t^2)`, evaluated at scale.
pub open spec fn quarter_cos(theta: int) -> int {
    let t2 = (theta * theta) / 10_000;
    ((98_696 - 4 * t2) * 10_000) / (98_696 + t2)
}

/// The approximate cosine of a reduced angle, folded onto the quarter
/// circle with the usual symmetries.
pub open spec fn cos_of_reduced(r: int) -> int {
    let theta = if r >= 31_416 { 62_832 - r } else { r };
    if theta <= 15_708 {
        quarter_cos(theta)
    } else {
        -quarter_cos(31_416 - theta)
    }
}

/// The approximate cosine of any fixed-point angle.
pub open spec fn cos_val(x: int) -> int {
    cos_of_reduced(angle_reduced(x))
}

/// The quarter-circle formula stays within [0, 1] for angles in
/// [0, pi/2].
proof fn lemma_quarter_cos_range(theta: int)
    requires
        0 <= theta <= 15_708,
    ensures
        0 <= quarter_cos(theta) <= 10_000,
{
    let t2 = (theta * theta) / 10_000;
    assert(0 <= theta * theta <= 246_741_264) by (nonlinear_arith)
        requires
            0 <= theta <= 15_708,
    ;
    assert(0 <= t2 <= 24_674);
    let num = (98_696 - 4 * t2) * 10_000;
    let den = 98_696 + t2;
    assert(0 <= num);
    assert(num <= den * 10_000) by (nonlinear_arith)
        requires
            num == (98_696 - 4 * t2) * 10_000,
            den == 98_696 + t2,
            0 <= t2 <= 24_674,
    ;
    assert(num / den <= (den * 10_000) / den) by {
        vstd::arithmetic::div_mod::lemma_div_is_ordered(num, den * 10_000, den);
    }
    assert((den * 10_000) / den == 10_000) by (nonlinear_arith)
        requires
            den >= 1,
    ;
}

/// The approximate cosine is bounded by [-1, 1] for every angle.
pub proof fn lemma_cos_val_range(x: int)
    ensures
        -10_000 <= cos_val(x) <= 10_000,
{
    let r = angle_reduced(x);
    assert(0 <= r < 62_832);
    let theta = if r >= 31_416 { 62_832 - r } else { r };
    if theta <= 15_708 {
        lemma_quarter_cos_range(theta);
    } else {
        lemma_quarter_cos_range(31_416 - theta);
    }
}

/// Evaluate the quarter-circle cosine formula.
fn quarter_cos_exec(theta: i64) -> (r: i64)
    requires
        0 <= theta <= 15_708,
    ensures
        r == quarter_cos(theta as int),
        0 <= r <= 10_000,
{
    proof {
        assert(0 <= theta * theta <= 246_741_264) by (nonlinear_arith)
            requires
                0 <= theta <= 15_708,
        ;
        lemma_quarter_cos_range(theta as int);
    }
    let t2: i64 = ((((theta * theta) as u64)) / 10_000) as i64;
    let num: i64 = (98_696 - 4 * t2) * 10_000;
    let den: i64 = 98_696 + t2;
    ((num as u64) / (den as u64)) as i64
}

/// The approximate cosine of a fixed-point angle (radians at scale):
/// reduce to one turn, fold onto the quarter circle, and evaluate the
/// rational approximation. Always within [-1, 1].
pub fn cos_fx(x: i64) -> (r: i64)
    requires
        -4_000_000_000_000_000_000 < x < 4_000_000_000_000_000_000,
    ensures
        r == cos_val(x as int),
        -10_000 <= r <= 10_000,
{
    let reduced: i64 = if x >= 0 {
        ((x as u64) % 62_832) as i64
    } else {
        let m: u64 = ((-x) as u64) % 62_832;
        if m == 0 {
            0
        } else {
            62_832 - (m as i64)
        }
    };
    proof {
        assert(reduced == angle_reduced(x as int));
        lemma_cos_val_range(x as int);
    }
    let theta: i64 = if reduced >= 31_416 {
        62_832 - reduced
    } else {
        reduced
    };
    if theta <= 15_708 {
        quarter_cos_exec(theta)
    } else {
        -quarter_cos_exec(31_416 - theta)
    }
}

} // verus!
