//! Polynomial smooth minimum and maximum.
//!
//! `smin(d1, d2, k)` blends two distance fields over a width `k` instead of
//! taking a hard branch: with `h = saturate(1/2 + (d2 - d1) / (2k))` it is
//! `mix(d2, d1, h) - k * h * (1 - h)`. Writing `c = clamp(k + d2 - d1, 0, 2k)`
//! (so `h = c / (2k)`) and clearing denominators gives the integer form used
//! here: `smin = d2 - ceil(c * (2 * (d2 - d1) + 2 * k - c) / (4 * k))`.
//! Rounding the subtracted term up keeps the result at or below the hard
//! minimum. `smax` is the mirror image, `-smin(-d1, -d2, k)`.

use vstd::arithmetic::div_mod::{
    lemma_div_is_ordered, lemma_fundamental_div_mod_converse,
};
use vstd::math::{max, min};
use vstd::prelude::*;

verus! {

/// Largest distance magnitude the smooth combinators accept.
pub const SMOOTH_MAX: i64 = 0x4000_0000_0000;

/// The clamped blend numerator `c = clamp(k + d2 - d1, 0, 2k)`; the blend
/// weight `h` of the polynomial form is `c / (2k)`.
pub open spec fn smin_blend(d1: int, d2: int, k: int) -> int {
    max(0, min(k + d2 - d1, 2 * k))
}

/// Numerator of the blended correction term, `c * (2 * (d2 - d1) + 2k - c)`.
pub open spec fn smin_num(d1: int, d2: int, k: int) -> int {
    let c = smin_blend(d1, d2, k);
    c * (2 * (d2 - d1) + 2 * k - c)
}

/// Smooth minimum over mathematical integers, with the blended correction
/// rounded up so the result never exceeds the hard minimum.
pub open spec fn smin_s(d1: int, d2: int, k: int) -> int
    recommends
        k > 0,
{
    d2 - (smin_num(d1, d2, k) + 4 * k - 1) / (4 * k)
}

/// Smooth maximum: the mirror image of the smooth minimum.
pub open spec fn smax_s(d1: int, d2: int, k: int) -> int
    recommends
        k > 0,
{
    -smin_s(-d1, -d2, k)
}

/// The smooth minimum lies within `[min - k/4 - 1, min]` and agrees with
/// the hard minimum once the operands are at least `k` apart.
pub proof fn lemma_smin_props(d1: int, d2: int, k: int)
    requires
        0 < k <= SMOOTH_MAX,
        -SMOOTH_MAX <= d1 <= SMOOTH_MAX,
        -SMOOTH_MAX <= d2 <= SMOOTH_MAX,
    ensures
        smin_s(d1, d2, k) <= min(d1, d2),
        smin_s(d1, d2, k) >= min(d1, d2) - k / 4 - 1,
        vstd::math::abs(d1 - d2) >= k ==> smin_s(d1, d2, k) == min(d1, d2),
        0 <= smin_num(d1, d2, k) <= 0x1_0000_0000_0000_0000_0000_0000,
{
    let diff = d2 - d1;
    let c = smin_blend(d1, d2, k);
    let num = smin_num(d1, d2, k);
    let q = (num + 4 * k - 1) / (4 * k);
    if diff >= k {
        // fully separated: c == 2k and the correction is exactly diff
        assert(c == 2 * k);
        assert(num == 4 * k * diff && num <= 0x1_0000_0000_0000_0000_0000_0000)
            by (nonlinear_arith)
            requires
                c == 2 * k,
                num == c * (2 * diff + 2 * k - c),
                0 < k <= SMOOTH_MAX,
                k <= diff <= 2 * SMOOTH_MAX,
        ;
        assert(num + 4 * k - 1 == diff * (4 * k) + (4 * k - 1)) by (nonlinear_arith)
            requires
                num == 4 * k * diff,
        ;
        lemma_fundamental_div_mod_converse(num + 4 * k - 1, 4 * k, diff, 4 * k - 1);
        assert(q == diff);
        assert(smin_s(d1, d2, k) == d1);
    } else if diff <= -k {
        // fully separated the other way: c == 0 and nothing is subtracted
        assert(c == 0);
        assert(num == 0) by (nonlinear_arith)
            requires
                num == c * (2 * diff + 2 * k - c),
                c == 0,
        ;
        lemma_fundamental_div_mod_converse(4 * k - 1, 4 * k, 0, 4 * k - 1);
        assert(q == 0);
        assert(smin_s(d1, d2, k) == d2);
    } else {
        // inside the blend: c == k + diff and num == c * c
        assert(c == k + diff);
        assert(num == c * c && num >= 0 && num <= 0x1_0000_0000_0000_0000_0000_0000)
            by (nonlinear_arith)
            requires
                num == c * (2 * diff + 2 * k - c),
                c == k + diff,
                0 < k <= SMOOTH_MAX,
                -k < diff < k,
        ;
        // c * c == 4 * k * diff + (k - diff)^2, so q >= diff and q >= 0
        assert(num >= 4 * k * diff) by (nonlinear_arith)
            requires
                num == c * c,
                c == k + diff,
        ;
        assert(diff * (4 * k) + (4 * k - 1) <= num + 4 * k - 1) by (nonlinear_arith)
            requires
                num >= 4 * k * diff,
        ;
        lemma_fundamental_div_mod_converse(diff * (4 * k) + (4 * k - 1), 4 * k, diff, 4 * k - 1);
        lemma_div_is_ordered(diff * (4 * k) + (4 * k - 1), num + 4 * k - 1, 4 * k);
        assert(q >= diff);
        lemma_fundamental_div_mod_converse(4 * k - 1, 4 * k, 0, 4 * k - 1);
        lemma_div_is_ordered(4 * k - 1, num + 4 * k - 1, 4 * k);
        assert(q >= 0);
        assert(smin_s(d1, d2, k) <= min(d1, d2));
        // and c * c <= 4 * k * max(0, diff) + k^2, so q stays close
        let dplus = max(0, diff);
        assert(num <= 4 * k * dplus + k * k) by (nonlinear_arith)
            requires
                num == c * c,
                c == k + diff,
                dplus == max(0, diff),
                -k < diff < k,
                k > 0,
        ;
        // ceiling bound: (4k * dplus + k^2 + 4k - 1) / 4k <= dplus + 1 + k/4
        let x = (dplus + 1 + k / 4) * (4 * k) + (4 * k - 1);
        assert(4 * (k / 4) >= k - 3);
        assert(num + 4 * k - 1 <= x) by (nonlinear_arith)
            requires
                num <= 4 * k * dplus + k * k,
                4 * (k / 4) >= k - 3,
                x == (dplus + 1 + k / 4) * (4 * k) + (4 * k - 1),
                k > 0,
        ;
        lemma_fundamental_div_mod_converse(x, 4 * k, dplus + 1 + k / 4, 4 * k - 1);
        lemma_div_is_ordered(num + 4 * k - 1, x, 4 * k);
        assert(q <= dplus + 1 + k / 4);
        assert(smin_s(d1, d2, k) >= min(d1, d2) - k / 4 - 1);
    }
}

/// Smooth minimum: at most `min(d1, d2)`, at least `min(d1, d2) - k/4 - 1`,
/// and exactly the hard minimum once the operands differ by at least `k`.
pub fn smin(d1: i64, d2: i64, k: i64) -> (r: i64)
    requires
        0 < k <= SMOOTH_MAX,
        -SMOOTH_MAX <= d1 <= SMOOTH_MAX,
        -SMOOTH_MAX <= d2 <= SMOOTH_MAX,
    ensures
        r == smin_s(d1 as int, d2 as int, k as int),
        r <= min(d1 as int, d2 as int),
        r >= min(d1 as int, d2 as int) - k / 4 - 1,
        vstd::math::abs(d1 - d2) >= k ==> r == min(d1 as int, d2 as int),
{
    proof {
        lemma_smin_props(d1 as int, d2 as int, k as int);
    }
    let c: i64 = {
        let raw = k + d2 - d1;
        if raw < 0 {
            0
        } else if raw > 2 * k {
            2 * k
        } else {
            raw
        }
    };
    let num: i128 = (c as i128) * (2 * (d2 as i128 - d1 as i128) + 2 * (k as i128) - c as i128);
    proof {
        assert(c == smin_blend(d1 as int, d2 as int, k as int));
        assert(num == smin_num(d1 as int, d2 as int, k as int));
    }
    let q: i128 = (num + 4 * (k as i128) - 1) / (4 * (k as i128));
    proof {
        assert((d2 as i128) - (q as i128) == smin_s(d1 as int, d2 as int, k as int));
    }
    (d2 as i128 - q) as i64
}

/// Smooth maximum: at least `max(d1, d2)`, at most `max(d1, d2) + k/4 + 1`,
/// and exactly the hard maximum once the operands differ by at least `k`.
pub fn smax(d1: i64, d2: i64, k: i64) -> (r: i64)
    requires
        0 < k <= SMOOTH_MAX,
        -SMOOTH_MAX <= d1 <= SMOOTH_MAX,
        -SMOOTH_MAX <= d2 <= SMOOTH_MAX,
    ensures
        r == smax_s(d1 as int, d2 as int, k as int),
        r >= max(d1 as int, d2 as int),
        r <= max(d1 as int, d2 as int) + k / 4 + 1,
        vstd::math::abs(d1 - d2) >= k ==> r == max(d1 as int, d2 as int),
{
    proof {
        lemma_smin_props(-d1 as int, -d2 as int, k as int);
    }
    let s = smin(-d1, -d2, k);
    -s
}

} // verus!
