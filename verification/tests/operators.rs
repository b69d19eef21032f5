use sdfcore::fixed::{abs64, clamp64, div_ceil_nn, div_fp, div_trunc, isqrt, max2, min2, mul_fp};
use sdfcore::ops::Operator;
use sdfcore::smooth::{smax, smin};
use sdfcore::UNIT;

#[test]
fn scalar_helpers() {
    assert_eq!(min2(3, 5), 3);
    assert_eq!(max2(3, 5), 5);
    assert_eq!(min2(-3, -5), -5);
    assert_eq!(abs64(-42), 42);
    assert_eq!(clamp64(7, 0, 5), 5);
    assert_eq!(clamp64(-7, 0, 5), 0);
    assert_eq!(clamp64(3, 0, 5), 3);
}

#[test]
fn division_helpers() {
    assert_eq!(div_trunc(7, 2), 3);
    assert_eq!(div_trunc(-7, 2), -3);
    assert_eq!(div_ceil_nn(7, 2), 4);
    assert_eq!(div_ceil_nn(8, 2), 4);
    assert_eq!(div_ceil_nn(0, 5), 0);
    assert_eq!(mul_fp(3 * UNIT, 2 * UNIT), 6 * UNIT);
    assert_eq!(mul_fp(-3 * UNIT, 2 * UNIT), -6 * UNIT);
    assert_eq!(div_fp(UNIT, 2 * UNIT), UNIT / 2);
    assert_eq!(div_fp(UNIT, -2 * UNIT), -(UNIT / 2));
}

#[test]
fn integer_square_root() {
    assert_eq!(isqrt(0), 0);
    assert_eq!(isqrt(15), 3);
    assert_eq!(isqrt(16), 4);
    assert_eq!(isqrt(24), 4);
    assert_eq!(isqrt(25), 5);
    assert_eq!(isqrt(u64::MAX), 4294967295);
}

#[test]
fn operator_algebra() {
    let pairs: [(i64, i64); 6] = [(3, 5), (-5, 1), (-3, -7), (0, 0), (100, -100), (7, 7)];
    for (a, b) in pairs {
        assert_eq!(Operator::Union.operate(a, b), a.min(b));
        assert_eq!(Operator::Intersection.operate(a, b), a.max(b));
        assert_eq!(Operator::Difference.operate(a, b), b.max(-a));
        assert_eq!(Operator::Xor.operate(a, b), a.min(b).max(-(a.max(b))));
    }
}

#[test]
fn difference_is_not_symmetric() {
    // subtracting a from b differs from subtracting b from a
    let a = -3;
    let b = 10;
    assert_eq!(Operator::Difference.operate(a, b), 10);
    assert_eq!(Operator::Difference.operate(b, a), -3);
}

#[test]
fn smooth_min_exact_values() {
    // equal operands blend to min - k/4 exactly
    assert_eq!(smin(0, 0, UNIT), -16384);
    assert_eq!(smax(0, 0, UNIT), 16384);
    // operands at least k apart reproduce the hard min and max
    assert_eq!(smin(100, 200, 50), 100);
    assert_eq!(smax(100, 200, 50), 200);
    assert_eq!(smin(200, 100, 50), 100);
    // inside the blend, rounded toward the min
    assert_eq!(smin(0, 10, UNIT), -16380);
}

#[test]
fn smooth_min_below_hard_min() {
    let cases: [(i64, i64, i64); 5] =
        [(0, 0, 100), (-500, 300, 1000), (12345, -999, 77), (1, 2, 3), (-1, -2, UNIT)];
    for (d1, d2, k) in cases {
        let lo = d1.min(d2);
        let s = smin(d1, d2, k);
        assert!(s <= lo);
        assert!(s >= lo - k / 4 - 1);
        let hi = d1.max(d2);
        let t = smax(d1, d2, k);
        assert!(t >= hi);
        assert!(t <= hi + k / 4 + 1);
    }
}

#[test]
fn smooth_min_approaches_hard_min_as_width_shrinks() {
    let d1 = 400;
    let d2 = 300;
    let mut prev_gap = i64::MAX;
    for k in [4096, 1024, 256, 64, 16, 4, 1] {
        let gap = d1.min(d2) - smin(d1, d2, k);
        assert!(gap <= k / 4 + 1);
        assert!(gap <= prev_gap);
        prev_gap = gap;
    }
    assert_eq!(smin(d1, d2, 1), d1.min(d2));
}
