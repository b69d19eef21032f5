//! Scalar helpers on fixed-point values: minimum, maximum, absolute value,
//! clamping, truncating division, fixed-point products and quotients, and
//! the floor square root that underlies every Euclidean length.

use crate::UNIT;
use vstd::arithmetic::div_mod::lemma_fundamental_div_mod_converse;
use vstd::prelude::*;

verus! {

/// `int` fits in an `i64`.
pub open spec fn fits_i64(x: int) -> bool {
    i64::MIN <= x <= i64::MAX
}

/// Quotient of `a` by `b` rounded toward zero, the rounding convention of
/// every division the engine performs.
pub open spec fn div_t(a: int, b: int) -> int
    recommends
        b != 0,
{
    let q = vstd::math::abs(a) as int / vstd::math::abs(b) as int;
    if (a >= 0) == (b >= 0) {
        q
    } else {
        -q
    }
}

/// Minimum of two raw scalars.
pub fn min2(a: i64, b: i64) -> (r: i64)
    ensures
        r == vstd::math::min(a as int, b as int),
{
    if a <= b {
        a
    } else {
        b
    }
}

/// Maximum of two raw scalars.
pub fn max2(a: i64, b: i64) -> (r: i64)
    ensures
        r == vstd::math::max(a as int, b as int),
{
    if a >= b {
        a
    } else {
        b
    }
}

/// Absolute value; the argument must not be `i64::MIN`.
pub fn abs64(a: i64) -> (r: i64)
    requires
        a != i64::MIN,
    ensures
        r == vstd::math::abs(a as int),
{
    if a < 0 {
        -a
    } else {
        a
    }
}

/// Clamp `x` into `[lo, hi]`.
pub fn clamp64(x: i64, lo: i64, hi: i64) -> (r: i64)
    requires
        lo <= hi,
    ensures
        r == vstd::math::max(lo as int, vstd::math::min(x as int, hi as int)),
{
    if x < lo {
        lo
    } else if x > hi {
        hi
    } else {
        x
    }
}

/// Division by a positive divisor, rounded toward zero.
pub fn div_trunc(a: i64, b: i64) -> (r: i64)
    requires
        b > 0,
    ensures
        r == div_t(a as int, b as int),
{
    a / b
}

/// Ceiling division for non-negative dividends.
pub fn div_ceil_nn(a: i64, b: i64) -> (r: i64)
    requires
        a >= 0,
        b > 0,
    ensures
        r == (a + b - 1) as int / b as int,
        r * b >= a,
        (r - 1) * b < a,
{
    let q = a / b;
    let rem = a % b;
    proof {
        vstd::arithmetic::div_mod::lemma_fundamental_div_mod(a as int, b as int);
        assert(q * b == b * q) by (nonlinear_arith);
        assert(0 <= q && q <= b * q) by (nonlinear_arith)
            requires
                b >= 1,
                a >= 0,
                a == b * q + rem,
                0 <= rem < b,
        ;
        assert((q + 1) * (b as int) == q * b + b) by (nonlinear_arith);
        assert((q - 1) * (b as int) == q * b - b) by (nonlinear_arith);
        if rem == 0 {
            lemma_fundamental_div_mod_converse(a + b - 1, b as int, q as int, b - 1);
        } else {
            lemma_fundamental_div_mod_converse(a + b - 1, b as int, q + 1, rem - 1);
        }
    }
    if rem == 0 {
        q
    } else {
        q + 1
    }
}

/// Fixed-point product: `a * b / UNIT`, rounded toward zero.
pub fn mul_fp(a: i64, b: i64) -> (r: i64)
    requires
        fits_i64(div_t(a as int * b as int, UNIT as int)),
    ensures
        r == div_t(a as int * b as int, UNIT as int),
{
    proof {
        assert((a as int) * (b as int) < 0x8000_0000_0000_0000_0000_0000_0000_0000int
            && (a as int) * (b as int) >= -0x8000_0000_0000_0000_0000_0000_0000_0000int)
            by (nonlinear_arith)
            requires
                i64::MIN <= a <= i64::MAX,
                i64::MIN <= b <= i64::MAX,
        ;
    }
    let p: i128 = (a as i128) * (b as i128);
    let q: i128 = p / (UNIT as i128);
    q as i64
}

/// Fixed-point quotient: `a * UNIT / b`, rounded toward zero.
pub fn div_fp(a: i64, b: i64) -> (r: i64)
    requires
        b != 0,
        b != i64::MIN,
        fits_i64(div_t(a as int * UNIT as int, b as int)),
    ensures
        r == div_t(a as int * UNIT as int, b as int),
{
    proof {
        assert((a as int) * (UNIT as int) < 0x8000_0000_0000_0000_0000_0000_0000_0000int
            && (a as int) * (UNIT as int) >= -0x8000_0000_0000_0000_0000_0000_0000_0000int)
            by (nonlinear_arith)
            requires
                i64::MIN <= a <= i64::MAX,
                0 < UNIT <= i64::MAX,
        ;
        assert((a as int) * (UNIT as int) == -((-(a as int)) * (UNIT as int))) by (nonlinear_arith);
    }
    let p: i128 = (a as i128) * (UNIT as i128);
    let bb: i128 = if b < 0 {
        -(b as i128)
    } else {
        b as i128
    };
    let q: i128 = p / bb;
    let r: i128 = if b < 0 {
        -q
    } else {
        q
    };
    r as i64
}

/// The projection fraction `num * UNIT / den`, a fixed-point value in
/// `[0, UNIT]` when `0 <= num <= den`.
pub fn frac_div(num: i64, den: i64) -> (r: i64)
    requires
        0 <= num <= den,
        den > 0,
    ensures
        r == num * UNIT / (den as int),
        0 <= r <= UNIT,
{
    proof {
        assert(num * UNIT >= 0 && num * UNIT <= den * UNIT) by (nonlinear_arith)
            requires
                0 <= num <= den,
                UNIT > 0,
        ;
        vstd::arithmetic::div_mod::lemma_div_is_ordered(num * UNIT, den * UNIT, den as int);
        vstd::arithmetic::div_mod::lemma_div_by_multiple(UNIT as int, den as int);
        vstd::arithmetic::div_mod::lemma_div_pos_is_pos(num * UNIT, den as int);
    }
    ((num as i128) * (UNIT as i128) / (den as i128)) as i64
}

/// Scale `v` by a fraction `frac` in `[0, UNIT]`: `v * frac / UNIT`, rounded
/// toward zero. The magnitude never grows.
pub fn mul_frac(v: i64, frac: i64) -> (r: i64)
    requires
        0 <= frac <= UNIT,
        -0x1000_0000_0000 <= v <= 0x1000_0000_0000,
    ensures
        r == div_t(v * frac, UNIT as int),
        -vstd::math::abs(v as int) <= r <= vstd::math::abs(v as int),
{
    proof {
        let av = vstd::math::abs(v as int);
        assert(vstd::math::abs(v * frac) == av * frac && av * frac <= av * UNIT)
            by (nonlinear_arith)
            requires
                0 <= frac <= UNIT,
                av == vstd::math::abs(v as int),
                av == if v >= 0 { v as int } else { -(v as int) },
                vstd::math::abs(v * frac) == if v * frac >= 0 { v * frac } else { -(v * frac) },
        ;
        vstd::arithmetic::div_mod::lemma_div_by_multiple(
            vstd::math::abs(v as int) as int,
            UNIT as int,
        );
        vstd::arithmetic::div_mod::lemma_div_is_ordered(
            vstd::math::abs(v * frac) as int,
            vstd::math::abs(v as int) * UNIT,
            UNIT as int,
        );
    }
    ((v as i128) * (frac as i128) / (UNIT as i128)) as i64
}

/// Magnitude bound on a product from magnitude bounds on its factors.
pub proof fn lemma_mul_bounds(a: int, b: int, aa: int, bb: int)
    by (nonlinear_arith)
    requires
        -aa <= a <= aa,
        -bb <= b <= bb,
    ensures
        -(aa * bb) <= a * b <= aa * bb,
{
}

/// Floor of the square root of `n`, as a recursive mathematical definition.
pub open spec fn sqrt_floor(n: int) -> int
    recommends
        n >= 0,
    decreases n,
{
    if n <= 0 {
        0
    } else {
        let r = sqrt_floor(n - 1);
        if (r + 1) * (r + 1) <= n {
            r + 1
        } else {
            r
        }
    }
}

/// `sqrt_floor(n)` is the floor of the square root of `n`.
pub proof fn lemma_sqrt_floor_bounds(n: int)
    requires
        n >= 0,
    ensures
        sqrt_floor(n) >= 0,
        sqrt_floor(n) * sqrt_floor(n) <= n,
        n < (sqrt_floor(n) + 1) * (sqrt_floor(n) + 1),
    decreases n,
{
    if n > 0 {
        lemma_sqrt_floor_bounds(n - 1);
        let r = sqrt_floor(n - 1);
        if (r + 1) * (r + 1) <= n {
            assert((r + 2) * (r + 2) > (r + 1) * (r + 1)) by (nonlinear_arith)
                requires
                    r >= 0,
            ;
        }
    }
}

/// Any `a` satisfying the floor-square-root bounds equals `sqrt_floor(n)`.
pub proof fn lemma_sqrt_floor_unique(n: int, a: int)
    requires
        n >= 0,
        a >= 0,
        a * a <= n,
        n < (a + 1) * (a + 1),
    ensures
        a == sqrt_floor(n),
{
    lemma_sqrt_floor_bounds(n);
    let s = sqrt_floor(n);
    if a < s {
        assert((a + 1) * (a + 1) <= s * s) by (nonlinear_arith)
            requires
                0 <= a + 1 <= s,
        ;
    } else if a > s {
        assert((s + 1) * (s + 1) <= a * a) by (nonlinear_arith)
            requires
                0 <= s + 1 <= a,
        ;
    }
}

/// Floor square root: the unique `r` with `r * r <= n < (r + 1) * (r + 1)`.
pub fn isqrt(n: u64) -> (r: u64)
    ensures
        r * r <= n,
        n < (r + 1) * (r + 1),
        r <= 0x1_0000_0000,
        r == sqrt_floor(n as int),
{
    let mut lo: u64 = 0;
    let mut hi: u64 = 0x1_0000_0001;
    proof {
        assert(0x1_0000_0001int * 0x1_0000_0001int > u64::MAX) by (nonlinear_arith);
    }
    while hi - lo > 1
        invariant
            lo < hi <= 0x1_0000_0001,
            lo * lo <= n,
            (n as int) < (hi as int) * (hi as int),
        decreases hi - lo,
    {
        let mid = lo + (hi - lo) / 2;
        proof {
            assert((mid as int) * (mid as int) <= 0x1_0000_0001int * 0x1_0000_0001int
                <= u128::MAX) by (nonlinear_arith)
                requires
                    0 <= mid <= 0x1_0000_0001,
            ;
        }
        let sq: u128 = (mid as u128) * (mid as u128);
        if sq <= n as u128 {
            lo = mid;
        } else {
            hi = mid;
        }
    }
    proof {
        lemma_sqrt_floor_unique(n as int, lo as int);
    }
    lo
}

} // verus!
