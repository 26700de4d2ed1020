//! Saturating fixed-point arithmetic: 1000 fraction steps per unit.
//!
//! Every scalar the analysis handles (coordinates, speeds, degrees,
//! physics constants) is an `i64` holding `1000 * value`. Products and
//! sums saturate at `FX_LIM`, far beyond any quantity a level or a
//! replay can hold, so all operations are total.

use vstd::prelude::*;
use vstd::arithmetic::div_mod::{
    lemma_div_is_ordered, lemma_div_multiples_vanish, lemma_div_of0, lemma_fundamental_div_mod,
    lemma_fundamental_div_mod_converse,
};

verus! {

/// Fixed-point steps per world unit.
pub const FX_ONE: i64 = 1000;

/// Saturation bound of fixed-point products and sums.
pub const FX_LIM: i64 = 0x4000_0000;

/// Full turn (360 degrees) in fixed-point.
pub const FX_CIRCLE: i64 = 360000;

/// Quarter turn (90 degrees) in fixed-point.
pub const FX_QUARTER: i64 = 90000;

pub open spec fn fx_clamped(v: int) -> int {
    if v > FX_LIM {
        FX_LIM as int
    } else if v < -(FX_LIM as int) {
        -(FX_LIM as int)
    } else {
        v
    }
}

/// Division by a positive divisor that truncates toward zero.
pub open spec fn div_trunc(p: int, d: int) -> int {
    if p >= 0 {
        p / d
    } else {
        -((-p) / d)
    }
}

/// Fixed-point product: `a * b / 1000`, truncated toward zero, saturated.
pub open spec fn spec_fx_mul(a: int, b: int) -> int {
    fx_clamped(div_trunc(a * b, 1000))
}

/// Saturated sum.
pub open spec fn spec_fx_add(a: int, b: int) -> int {
    fx_clamped(a + b)
}

pub(crate) fn abs_mag(a: i64) -> (r: u64)
    ensures
        r as int == vstd::math::abs(a as int),
{
    if a >= 0 {
        a as u64
    } else if a == i64::MIN {
        9223372036854775808u64
    } else {
        (-a) as u64
    }
}

pub fn fx_mul(a: i64, b: i64) -> (r: i64)
    ensures
        r as int == spec_fx_mul(a as int, b as int),
        -FX_LIM <= r <= FX_LIM,
{
    let neg: bool = (a < 0) != (b < 0);
    let ma: u64 = abs_mag(a);
    let mb: u64 = abs_mag(b);
    proof {
        let prod: int = (a as int) * (b as int);
        assert((prod >= 0 ==> (ma as int) * (mb as int) == prod)
            && (prod < 0 ==> (ma as int) * (mb as int) == -prod)
            && ((a < 0) != (b < 0) ==> prod <= 0)
            && (!((a < 0) != (b < 0)) ==> prod >= 0)
            && (ma as int) * (mb as int) < 0x1_0000_0000_0000_0000_0000_0000_0000_0000int)
            by (nonlinear_arith)
            requires
                (a >= 0 ==> ma as int == a as int),
                (a < 0 ==> ma as int == -(a as int)),
                (b >= 0 ==> mb as int == b as int),
                (b < 0 ==> mb as int == -(b as int)),
                0 <= (ma as int),
                (ma as int) < 0x1_0000_0000_0000_0000int,
                0 <= (mb as int),
                (mb as int) < 0x1_0000_0000_0000_0000int,
                prod == (a as int) * (b as int),
        ;
    }
    let p: u128 = (ma as u128) * (mb as u128);
    let q: u128 = p / 1000;
    if q > (FX_LIM as u128) {
        if neg {
            -FX_LIM
        } else {
            FX_LIM
        }
    } else {
        let qi: i64 = q as i64;
        if neg {
            -qi
        } else {
            qi
        }
    }
}

pub fn fx_add(a: i64, b: i64) -> (r: i64)
    ensures
        r as int == spec_fx_add(a as int, b as int),
        -FX_LIM <= r <= FX_LIM,
{
    let s: i128 = (a as i128) + (b as i128);
    if s > (FX_LIM as i128) {
        FX_LIM
    } else if s < -(FX_LIM as i128) {
        -FX_LIM
    } else {
        s as i64
    }
}

/// Saturate a raw scalar to the fixed-point range.
pub fn fx_clamp(a: i64) -> (r: i64)
    ensures
        r as int == fx_clamped(a as int),
        -FX_LIM <= r <= FX_LIM,
{
    if a > FX_LIM {
        FX_LIM
    } else if a < -FX_LIM {
        -FX_LIM
    } else {
        a
    }
}

/// Bounds of a product of bounded non-negative factors.
pub proof fn lemma_mul_le(a: int, b: int, ca: int, cb: int)
    requires
        0 <= a <= ca,
        0 <= b <= cb,
    ensures
        0 <= a * b,
        a * b <= ca * cb,
{
    assert(0 <= a * b && a * b <= ca * cb) by (nonlinear_arith)
        requires
            0 <= a <= ca,
            0 <= b <= cb,
    ;
}

/// Multiplying by one (1000 in fixed-point) is the identity inside the
/// saturation range, and multiplying by zero gives zero.
pub proof fn lemma_fx_mul_unit(v: i64)
    requires
        -FX_LIM <= v <= FX_LIM,
    ensures
        spec_fx_mul(1000, v as int) == v as int,
        spec_fx_mul(0, v as int) == 0,
{
    lemma_div_of0(1000);
    if v >= 0 {
        lemma_div_multiples_vanish(v as int, 1000);
    } else {
        lemma_div_multiples_vanish(-(v as int), 1000);
        assert(-(1000 * (v as int)) == 1000 * (-(v as int)));
    }
}

/// Largest `r` with `r * r <= n`.
pub open spec fn sqrt_floor(n: nat) -> nat
    decreases n,
{
    if n == 0 {
        0
    } else {
        let p = sqrt_floor((n - 1) as nat);
        if (p + 1) * (p + 1) <= n {
            p + 1
        } else {
            p
        }
    }
}

pub proof fn lemma_sqrt_floor(n: nat)
    ensures
        sqrt_floor(n) * sqrt_floor(n) <= n,
        n < (sqrt_floor(n) + 1) * (sqrt_floor(n) + 1),
    decreases n,
{
    if n > 0 {
        lemma_sqrt_floor((n - 1) as nat);
        let p = sqrt_floor((n - 1) as nat);
        if (p + 1) * (p + 1) <= n {
            assert(sqrt_floor(n) == p + 1);
            assert(n <= (p + 1) * (p + 1));
            assert((p + 1) * (p + 1) < (p + 2) * (p + 2)) by (nonlinear_arith)
                requires
                    p >= 0,
            ;
        } else {
            assert(sqrt_floor(n) == p);
        }
        assert(sqrt_floor(n) * sqrt_floor(n) <= n);
        assert(n < (sqrt_floor(n) + 1) * (sqrt_floor(n) + 1));
    } else {
        let s = sqrt_floor(n);
        assert(s == 0);
        assert(s * s <= n && n < (s + 1) * (s + 1)) by (nonlinear_arith)
            requires
                n == 0,
                s == 0,
        ;
    }
}

pub proof fn lemma_sqrt_floor_unique(n: nat, r: nat)
    requires
        r * r <= n,
        n < (r + 1) * (r + 1),
    ensures
        r == sqrt_floor(n),
{
    lemma_sqrt_floor(n);
    let s = sqrt_floor(n);
    if r < s {
        assert((r + 1) * (r + 1) <= s * s) by (nonlinear_arith)
            requires
                r < s,
        ;
    }
    if s < r {
        assert((s + 1) * (s + 1) <= r * r) by (nonlinear_arith)
            requires
                s < r,
        ;
    }
}

pub fn isqrt_u128(n: u128) -> (r: u64)
    ensures
        r as nat == sqrt_floor(n as nat),
{
    let mut lo: u128 = 0;
    let mut hi: u128 = 0x1_0000_0000_0000_0000u128;
    proof {
        assert(0x1_0000_0000_0000_0000int * 0x1_0000_0000_0000_0000int
            == 0x1_0000_0000_0000_0000_0000_0000_0000_0000int) by (nonlinear_arith);
    }
    while lo + 1 < hi
        invariant
            lo < hi,
            hi <= 0x1_0000_0000_0000_0000u128,
            (lo as int) * (lo as int) <= n as int,
            (n as int) < (hi as int) * (hi as int),
        decreases hi - lo,
    {
        let mid: u128 = lo + (hi - lo) / 2;
        proof {
            assert((mid as int) * (mid as int)
                < 0x1_0000_0000_0000_0000_0000_0000_0000_0000int) by (nonlinear_arith)
                requires
                    0 <= mid as int,
                    (mid as int) < 0x1_0000_0000_0000_0000int,
            ;
        }
        if mid * mid <= n {
            lo = mid;
        } else {
            hi = mid;
        }
    }
    proof {
        lemma_sqrt_floor_unique(n as nat, lo as nat);
    }
    lo as u64
}

/// Reduce an angle to `[0, 360000)` with Euclidean remainder.
pub fn angle_mod(a: i64) -> (r: i64)
    ensures
        r as int == (a as int) % 360000,
        0 <= r < 360000,
{
    if a >= 0 {
        let r: u64 = (a as u64) % 360000;
        proof {
            lemma_fundamental_div_mod(a as int, 360000);
            lemma_fundamental_div_mod(a as u64 as int, 360000);
        }
        r as i64
    } else {
        let na: i128 = -(a as i128);
        let m: u64 = ((na as u128) % 360000) as u64;
        proof {
            let nai: int = na as int;
            lemma_fundamental_div_mod(nai, 360000);
            let nq: int = nai / 360000;
            let nr: int = nai % 360000;
            if nr == 0 {
                lemma_fundamental_div_mod_converse(a as int, 360000, -nq, 0);
            } else {
                lemma_fundamental_div_mod_converse(a as int, 360000, -nq - 1, 360000 - nr);
            }
        }
        if m == 0 {
            0
        } else {
            360000 - (m as i64)
        }
    }
}

/// Quarter-wave sine on `[0, 90000]`, via the cubic and quintic terms of
/// the series, clamped to `[0, 1000]`.
pub open spec fn sin_quarter(t: int) -> int {
    let x: int = (t * 6283) / 360000;
    let v: int = x - (x * x * x) / 6000000 + (x * x * x * x * x) / 120000000000000;
    if v < 0 {
        0
    } else if v > 1000 {
        1000
    } else {
        v
    }
}

/// Quarter-wave cosine on `[0, 90000]`, clamped to `[0, 1000]`.
pub open spec fn cos_quarter(t: int) -> int {
    let x: int = (t * 6283) / 360000;
    let v: int = 1000 - (x * x) / 2000 + (x * x * x * x) / 24000000000
        - (x * x * x * x * x * x) / 720000000000000000;
    if v < 0 {
        0
    } else if v > 1000 {
        1000
    } else {
        v
    }
}

/// Sine of a fixed-point angle in degrees, scaled by 1000.
pub open spec fn spec_sin_fx(a: int) -> int {
    let r: int = a % 360000;
    if r < 90000 {
        sin_quarter(r)
    } else if r < 180000 {
        cos_quarter(r - 90000)
    } else if r < 270000 {
        -sin_quarter(r - 180000)
    } else {
        -cos_quarter(r - 270000)
    }
}

/// Cosine of a fixed-point angle in degrees, scaled by 1000.
pub open spec fn spec_cos_fx(a: int) -> int {
    let r: int = a % 360000;
    if r < 90000 {
        cos_quarter(r)
    } else if r < 180000 {
        -sin_quarter(r - 90000)
    } else if r < 270000 {
        -cos_quarter(r - 180000)
    } else {
        sin_quarter(r - 270000)
    }
}

fn sin_q(t: i64) -> (r: i64)
    requires
        0 <= t <= 90000,
    ensures
        r as int == sin_quarter(t as int),
        0 <= r <= 1000,
{
    let xn: u64 = ((t as u64) * 6283) / 360000;
    proof {
        lemma_div_is_ordered((t as u64) as int * 6283, 565470000, 360000);
        lemma_fundamental_div_mod_converse(565470000, 360000, 1570, 270000);
        let xi: int = xn as int;
        lemma_mul_le(xi, xi, 1570, 1570);
        lemma_mul_le(xi * xi, xi, 2464900, 1570);
        lemma_mul_le(xi * xi * xi, xi, 3869893000, 1570);
        lemma_mul_le(xi * xi * xi * xi, xi, 6075732010000, 1570);
    }
    let x3: u64 = (xn * xn * xn) / 6000000;
    let x5: u64 = (xn * xn * xn * xn * xn) / 120000000000000;
    let v: i64 = (xn as i64) - (x3 as i64) + (x5 as i64);
    if v < 0 {
        0
    } else if v > 1000 {
        1000
    } else {
        v
    }
}

fn cos_q(t: i64) -> (r: i64)
    requires
        0 <= t <= 90000,
    ensures
        r as int == cos_quarter(t as int),
        0 <= r <= 1000,
{
    let xn: u64 = ((t as u64) * 6283) / 360000;
    proof {
        lemma_div_is_ordered((t as u64) as int * 6283, 565470000, 360000);
        lemma_fundamental_div_mod_converse(565470000, 360000, 1570, 270000);
        let xi: int = xn as int;
        lemma_mul_le(xi, xi, 1570, 1570);
        lemma_mul_le(xi * xi, xi, 2464900, 1570);
        lemma_mul_le(xi * xi * xi, xi, 3869893000, 1570);
        lemma_mul_le(xi * xi * xi * xi, xi, 6075732010000, 1570);
        lemma_mul_le(xi * xi * xi * xi * xi, xi, 9538899255700000, 1570);
    }
    let x2: u64 = (xn * xn) / 2000;
    let x4: u64 = (xn * xn * xn * xn) / 24000000000;
    let x6: u64 = (xn * xn * xn * xn * xn * xn) / 720000000000000000;
    let v: i64 = 1000 - (x2 as i64) + (x4 as i64) - (x6 as i64);
    if v < 0 {
        0
    } else if v > 1000 {
        1000
    } else {
        v
    }
}

/// Sine of a fixed-point angle in degrees, scaled by 1000.
pub fn sin_fx(a: i64) -> (r: i64)
    ensures
        r as int == spec_sin_fx(a as int),
        -1000 <= r <= 1000,
{
    let m: i64 = angle_mod(a);
    if m < 90000 {
        sin_q(m)
    } else if m < 180000 {
        cos_q(m - 90000)
    } else if m < 270000 {
        -sin_q(m - 180000)
    } else {
        -cos_q(m - 270000)
    }
}

/// Cosine of a fixed-point angle in degrees, scaled by 1000.
pub fn cos_fx(a: i64) -> (r: i64)
    ensures
        r as int == spec_cos_fx(a as int),
        -1000 <= r <= 1000,
{
    let m: i64 = angle_mod(a);
    if m < 90000 {
        cos_q(m)
    } else if m < 180000 {
        -sin_q(m - 90000)
    } else if m < 270000 {
        -cos_q(m - 180000)
    } else {
        sin_q(m - 270000)
    }
}

} // verus!
