//! 2D signed-distance primitives.
//!
//! Every function takes a query point already expressed in the primitive's
//! local frame (the caller subtracts any transform offset first) and returns
//! a signed fixed-point scalar: negative inside, zero on the boundary,
//! positive outside. The fields are exact up to the floor rounding of the
//! square root and of fixed-point products.

use crate::fixed::{
    clamp64, div_t, frac_div, lemma_mul_bounds, max2, min2, mul_frac, sqrt_floor,
};
use crate::vec2::{cross2_raw, dot2_raw, norm2_s, v2_coord_ok, v2_local_ok, Vec2, Vec2Ghost};
use crate::{coord_ok, unit_ok, COORD_MAX, UNIT};
use vstd::math::{max, min};
use vstd::prelude::*;

verus! {

/// Bound on the magnitude of every 2D primitive distance.
pub const DIST2_MAX: i64 = 0x4_0000_0000;

/// Disk: distance from the center minus the radius.
pub open spec fn sd_disk_s(p: Vec2, r: int) -> int {
    norm2_s(p) - r
}

/// Disk (a filled circle) of radius `r` centered on the local origin.
pub fn sd_disk(p: Vec2, r: i64) -> (d: i64)
    requires
        v2_local_ok(p),
        0 <= r <= COORD_MAX,
    ensures
        d == sd_disk_s(p, r as int),
        -DIST2_MAX <= d <= DIST2_MAX,
{
    p.norm() - r
}

/// Annulus (2D torus): distance from the circle of radius `major`, minus
/// the tube radius `minor`.
pub open spec fn sd_annulus_s(p: Vec2, major: int, minor: int) -> int {
    vstd::math::abs(norm2_s(p) - major) - minor
}

/// Annulus with center radius `major` and half-thickness `minor`.
pub fn sd_annulus(p: Vec2, major: i64, minor: i64) -> (d: i64)
    requires
        v2_local_ok(p),
        0 <= major <= COORD_MAX,
        0 <= minor <= COORD_MAX,
    ensures
        d == sd_annulus_s(p, major as int, minor as int),
        -DIST2_MAX <= d <= DIST2_MAX,
{
    let ring = p.norm() - major;
    let a = if ring < 0 {
        -ring
    } else {
        ring
    };
    a - minor
}

/// Rectangle: length of the componentwise overshoot plus the (negative)
/// interior term.
pub open spec fn sd_rectangle_s(p: Vec2, hx: int, hy: int) -> int {
    let vx = vstd::math::abs(p.x as int) - hx;
    let vy = vstd::math::abs(p.y as int) - hy;
    sqrt_floor(max(vx, 0) * max(vx, 0) + max(vy, 0) * max(vy, 0)) + min(max(vx, vy), 0)
}

/// Axis-aligned rectangle with half-extents `(hx, hy)`.
pub fn sd_rectangle(p: Vec2, hx: i64, hy: i64) -> (d: i64)
    requires
        v2_local_ok(p),
        0 <= hx <= COORD_MAX,
        0 <= hy <= COORD_MAX,
    ensures
        d == sd_rectangle_s(p, hx as int, hy as int),
        -DIST2_MAX <= d <= DIST2_MAX,
{
    let ax = if p.x < 0 {
        -p.x
    } else {
        p.x
    };
    let ay = if p.y < 0 {
        -p.y
    } else {
        p.y
    };
    let vx = ax - hx;
    let vy = ay - hy;
    let outside = Vec2 { x: max2(vx, 0), y: max2(vy, 0) }.norm();
    let inside = min2(max2(vx, vy), 0);
    outside + inside
}

/// Half-plane: the fixed-point dot product against the boundary normal.
pub open spec fn sd_plane2_s(p: Vec2, n: Vec2) -> int {
    div_t(dot2_raw(p, n), UNIT as int)
}

/// Half-plane through the local origin with unit outward normal `n`.
pub fn sd_plane2(p: Vec2, n: Vec2) -> (d: i64)
    requires
        v2_local_ok(p),
        unit_ok(n.x),
        unit_ok(n.y),
    ensures
        d == sd_plane2_s(p, n),
        -DIST2_MAX <= d <= DIST2_MAX,
{
    proof {
        lemma_mul_bounds(p.x as int, n.x as int, 2 * COORD_MAX as int, UNIT as int);
        lemma_mul_bounds(p.y as int, n.y as int, 2 * COORD_MAX as int, UNIT as int);
    }
    let raw: i128 = (p.x as i128) * (n.x as i128) + (p.y as i128) * (n.y as i128);
    (raw / (UNIT as i128)) as i64
}

/// Capsule lying on the x axis from the origin to `(width, 0)`: fold onto
/// the positive half, collapse the segment, measure, and subtract `r`.
pub open spec fn sd_capsule_x_s(p: Vec2, width: int, r: int) -> int {
    let ax = vstd::math::abs(p.x as int) as int;
    let qx = ax - min(ax, width);
    sqrt_floor(qx * qx + p.y * p.y) - r
}

/// Capsule along the x axis with half-length `width` and radius `r`.
pub fn sd_capsule_x(p: Vec2, width: i64, r: i64) -> (d: i64)
    requires
        v2_local_ok(p),
        0 <= width <= COORD_MAX,
        0 <= r <= COORD_MAX,
    ensures
        d == sd_capsule_x_s(p, width as int, r as int),
        -DIST2_MAX <= d <= DIST2_MAX,
{
    let ax = if p.x < 0 {
        -p.x
    } else {
        p.x
    };
    let qx = ax - min2(ax, width);
    Vec2 { x: qx, y: p.y }.norm() - r
}

/// Infinite line through `a` with unit direction `dir`: the magnitude of
/// the fixed-point 2D cross product of the offset against the direction.
pub open spec fn sd_line2_s(p: Vec2, a: Vec2, dir: Vec2) -> int {
    vstd::math::abs(
        div_t(cross2_raw(Vec2 { x: (p.x - a.x) as i64, y: (p.y - a.y) as i64 }, dir), UNIT as int),
    ) as int
}

/// Infinite line through `a` along the unit direction `dir` (unsigned).
pub fn sd_line2(p: Vec2, a: Vec2, dir: Vec2) -> (d: i64)
    requires
        v2_local_ok(p),
        v2_coord_ok(a),
        unit_ok(dir.x),
        unit_ok(dir.y),
    ensures
        d == sd_line2_s(p, a, dir),
        0 <= d <= DIST2_MAX,
{
    proof {
        lemma_mul_bounds(p.x - a.x, dir.y as int, 3 * COORD_MAX as int, UNIT as int);
        lemma_mul_bounds(p.y - a.y, dir.x as int, 3 * COORD_MAX as int, UNIT as int);
    }
    let raw: i128 = ((p.x - a.x) as i128) * (dir.y as i128) - ((p.y - a.y) as i128)
        * (dir.x as i128);
    let c: i64 = (raw / (UNIT as i128)) as i64;
    if c < 0 {
        -c
    } else {
        c
    }
}

/// The square root of three, in fixed point.
pub const SQRT3: i64 = 113512;

/// Equilateral triangle with its base edge at `y == -r/sqrt(3)` and its
/// apex at `(0, 2r/sqrt(3))`: fold the plane onto one edge's half-space,
/// clamp along the edge, and sign by the side of the edge.
pub open spec fn sd_equilateral_s(p: Vec2, r: int) -> int {
    let px0 = vstd::math::abs(p.x as int) - r;
    let py0 = p.y + div_t(r * UNIT, SQRT3 as int);
    let rot = px0 + div_t(py0 * SQRT3, UNIT as int) > 0;
    let px1 = if rot {
        div_t(px0 - div_t(py0 * SQRT3, UNIT as int), 2)
    } else {
        px0
    };
    let py1 = if rot {
        div_t(-div_t(px0 * SQRT3, UNIT as int) - py0, 2)
    } else {
        py0
    };
    let px2 = px1 - max(-2 * r, min(px1, 0));
    let len = sqrt_floor(px2 * px2 + py1 * py1);
    if py1 > 0 {
        -len
    } else if py1 < 0 {
        len
    } else {
        0
    }
}

/// Equilateral triangle of circumradius-style size `r`.
#[verifier::rlimit(80)]
pub fn sd_equilateral(p: Vec2, r: i64) -> (d: i64)
    requires
        v2_local_ok(p),
        0 <= r <= COORD_MAX,
    ensures
        d == sd_equilateral_s(p, r as int),
        -DIST2_MAX <= d <= DIST2_MAX,
{
    proof {
        lemma_mul_bounds(r as int, UNIT as int, COORD_MAX as int, UNIT as int);
        let m = vstd::math::abs((r * UNIT) as int) as int;
        vstd::arithmetic::div_mod::lemma_div_is_ordered(m, COORD_MAX * UNIT, SQRT3 as int);
        vstd::arithmetic::div_mod::lemma_div_pos_is_pos(m, SQRT3 as int);
        assert(COORD_MAX * UNIT / (SQRT3 as int) <= COORD_MAX) by {
            assert(COORD_MAX * UNIT <= COORD_MAX * SQRT3) by (nonlinear_arith)
                requires
                    UNIT <= SQRT3,
                    COORD_MAX > 0,
            ;
            vstd::arithmetic::div_mod::lemma_div_is_ordered(
                COORD_MAX * UNIT,
                COORD_MAX * SQRT3,
                SQRT3 as int,
            );
            vstd::arithmetic::div_mod::lemma_div_by_multiple(COORD_MAX as int, SQRT3 as int);
        }
    }
    let shift: i64 = (((r as i128) * (UNIT as i128)) / (SQRT3 as i128)) as i64;
    let ax = if p.x < 0 {
        -p.x
    } else {
        p.x
    };
    let px0 = ax - r;
    let py0 = p.y + shift;
    proof {
        lemma_mul_bounds(py0 as int, SQRT3 as int, 4 * COORD_MAX as int, SQRT3 as int);
        lemma_mul_bounds(px0 as int, SQRT3 as int, 3 * COORD_MAX as int, SQRT3 as int);
        lemma_scaled_div_bound(py0 as int, 4 * COORD_MAX as int);
        lemma_scaled_div_bound(px0 as int, 3 * COORD_MAX as int);
    }
    let ky: i64 = (((py0 as i128) * (SQRT3 as i128)) / (UNIT as i128)) as i64;
    let kx: i64 = (((px0 as i128) * (SQRT3 as i128)) / (UNIT as i128)) as i64;
    let rot = px0 + ky > 0;
    let px1 = if rot {
        (px0 - ky) / 2
    } else {
        px0
    };
    let py1 = if rot {
        (-kx - py0) / 2
    } else {
        py0
    };
    let clamped = clamp64(px1, -(2 * r), 0);
    let px2 = px1 - clamped;
    let len = Vec2 { x: px2, y: py1 }.norm();
    if py1 > 0 {
        -len
    } else if py1 < 0 {
        len
    } else {
        0
    }
}

/// A value bounded by `m` scaled by `SQRT3 / UNIT` stays within `2 m`.
proof fn lemma_scaled_div_bound(a: int, m: int)
    requires
        0 <= m,
        -(m * SQRT3) <= a * SQRT3 <= m * SQRT3,
    ensures
        -2 * m <= div_t(a * SQRT3, UNIT as int) <= 2 * m,
{
    let aa = vstd::math::abs(a * SQRT3) as int;
    assert(m * SQRT3 <= 2 * m * UNIT) by (nonlinear_arith)
        requires
            m >= 0,
            SQRT3 <= 2 * UNIT,
    ;
    vstd::arithmetic::div_mod::lemma_div_is_ordered(aa, 2 * m * UNIT, UNIT as int);
    assert(2 * m * UNIT == (2 * m) * UNIT);
    vstd::arithmetic::div_mod::lemma_div_by_multiple(2 * m, UNIT as int);
    vstd::arithmetic::div_mod::lemma_div_pos_is_pos(aa, UNIT as int);
}

/// The closest point to `p` on the segment from `a` to `b`, by clamped
/// projection; a degenerate segment collapses to `a`.
pub open spec fn seg_closest2_s(p: Vec2, a: Vec2, b: Vec2) -> Vec2Ghost {
    let dx = b.x - a.x;
    let dy = b.y - a.y;
    if dx == 0 && dy == 0 {
        Vec2Ghost { x: a.x as int, y: a.y as int }
    } else {
        let lsq = dx * dx + dy * dy;
        let dotv = (p.x - a.x) * dx + (p.y - a.y) * dy;
        let tn = max(0, min(dotv, lsq));
        let frac = tn * UNIT / lsq;
        Vec2Ghost {
            x: a.x + div_t(dx * frac, UNIT as int),
            y: a.y + div_t(dy * frac, UNIT as int),
        }
    }
}

/// Line segment: distance from `p` to the closest point on `a`–`b`.
pub open spec fn sd_segment2_s(p: Vec2, a: Vec2, b: Vec2) -> int {
    let c = seg_closest2_s(p, a, b);
    sqrt_floor((p.x - c.x) * (p.x - c.x) + (p.y - c.y) * (p.y - c.y))
}

/// The closest point to `p` on the segment from `a` to `b`.
pub fn seg_closest2(p: Vec2, a: Vec2, b: Vec2) -> (c: Vec2)
    requires
        v2_local_ok(p),
        v2_coord_ok(a),
        v2_coord_ok(b),
    ensures
        c.x == seg_closest2_s(p, a, b).x,
        c.y == seg_closest2_s(p, a, b).y,
        -3 * COORD_MAX <= c.x <= 3 * COORD_MAX,
        -3 * COORD_MAX <= c.y <= 3 * COORD_MAX,
{
    let dx = b.x - a.x;
    let dy = b.y - a.y;
    if dx == 0 && dy == 0 {
        a
    } else {
        proof {
            lemma_mul_bounds(dx as int, dx as int, 2 * COORD_MAX as int, 2 * COORD_MAX as int);
            lemma_mul_bounds(dy as int, dy as int, 2 * COORD_MAX as int, 2 * COORD_MAX as int);
            lemma_mul_bounds(
                p.x - a.x,
                dx as int,
                3 * COORD_MAX as int,
                2 * COORD_MAX as int,
            );
            lemma_mul_bounds(
                p.y - a.y,
                dy as int,
                3 * COORD_MAX as int,
                2 * COORD_MAX as int,
            );
        }
        let lsq = dx * dx + dy * dy;
        proof {
            assert(lsq > 0) by (nonlinear_arith)
                requires
                    lsq == dx * dx + dy * dy,
                    dx != 0 || dy != 0,
            ;
        }
        let dotv = (p.x - a.x) * dx + (p.y - a.y) * dy;
        let tn = if dotv < 0 {
            0
        } else if dotv > lsq {
            lsq
        } else {
            dotv
        };
        let frac = frac_div(tn, lsq);
        let cx = a.x + mul_frac(dx, frac);
        let cy = a.y + mul_frac(dy, frac);
        Vec2 { x: cx, y: cy }
    }
}

/// Line segment from `a` to `b` (an unsigned field: never negative).
pub fn sd_segment2(p: Vec2, a: Vec2, b: Vec2) -> (d: i64)
    requires
        v2_local_ok(p),
        v2_coord_ok(a),
        v2_coord_ok(b),
    ensures
        d == sd_segment2_s(p, a, b),
        0 <= d <= DIST2_MAX,
{
    let c = seg_closest2(p, a, b);
    Vec2 { x: p.x - c.x, y: p.y - c.y }.norm()
}

/// General triangle through `a`, `b`, `c`: the unsigned distance is the
/// least distance to the three edges; the sign is negative exactly when
/// the point lies on the interior side of all three, read off by
/// orienting each edge cross product with the triangle's own winding. A
/// degenerate (collinear) triangle has no interior and evaluates to the
/// plain edge distance with sign zero on the carrier line.
pub open spec fn sd_triangle_s(p: Vec2, a: Vec2, b: Vec2, c: Vec2) -> int {
    let q0 = seg_closest2_s(p, a, b);
    let q1 = seg_closest2_s(p, b, c);
    let q2 = seg_closest2_s(p, c, a);
    let d0 = (p.x - q0.x) * (p.x - q0.x) + (p.y - q0.y) * (p.y - q0.y);
    let d1 = (p.x - q1.x) * (p.x - q1.x) + (p.y - q1.y) * (p.y - q1.y);
    let d2 = (p.x - q2.x) * (p.x - q2.x) + (p.y - q2.y) * (p.y - q2.y);
    let winding = (b.x - a.x) * (a.y - c.y) - (b.y - a.y) * (a.x - c.x);
    let sgn: int = if winding > 0 {
        1
    } else if winding < 0 {
        -1
    } else {
        0
    };
    let w0 = sgn * ((p.x - a.x) * (b.y - a.y) - (p.y - a.y) * (b.x - a.x));
    let w1 = sgn * ((p.x - b.x) * (c.y - b.y) - (p.y - b.y) * (c.x - b.x));
    let w2 = sgn * ((p.x - c.x) * (a.y - c.y) - (p.y - c.y) * (a.x - c.x));
    let side = min(min(w0, w1), w2);
    let len = sqrt_floor(min(min(d0, d1), d2));
    if side > 0 {
        -len
    } else if side < 0 {
        len
    } else {
        0
    }
}

/// General triangle with vertices `a`, `b`, `c`.
pub fn sd_triangle(p: Vec2, a: Vec2, b: Vec2, c: Vec2) -> (d: i64)
    requires
        v2_local_ok(p),
        v2_coord_ok(a),
        v2_coord_ok(b),
        v2_coord_ok(c),
    ensures
        d == sd_triangle_s(p, a, b, c),
        -DIST2_MAX <= d <= DIST2_MAX,
{
    let q0 = seg_closest2(p, a, b);
    let q1 = seg_closest2(p, b, c);
    let q2 = seg_closest2(p, c, a);
    proof {
        lemma_mul_bounds(p.x - q0.x, p.x - q0.x, 5 * COORD_MAX as int, 5 * COORD_MAX as int);
        lemma_mul_bounds(p.y - q0.y, p.y - q0.y, 5 * COORD_MAX as int, 5 * COORD_MAX as int);
        lemma_mul_bounds(p.x - q1.x, p.x - q1.x, 5 * COORD_MAX as int, 5 * COORD_MAX as int);
        lemma_mul_bounds(p.y - q1.y, p.y - q1.y, 5 * COORD_MAX as int, 5 * COORD_MAX as int);
        lemma_mul_bounds(p.x - q2.x, p.x - q2.x, 5 * COORD_MAX as int, 5 * COORD_MAX as int);
        lemma_mul_bounds(p.y - q2.y, p.y - q2.y, 5 * COORD_MAX as int, 5 * COORD_MAX as int);
        lemma_mul_bounds(b.x - a.x, a.y - c.y, 2 * COORD_MAX as int, 2 * COORD_MAX as int);
        lemma_mul_bounds(b.y - a.y, a.x - c.x, 2 * COORD_MAX as int, 2 * COORD_MAX as int);
        lemma_mul_bounds(p.x - a.x, b.y - a.y, 3 * COORD_MAX as int, 2 * COORD_MAX as int);
        lemma_mul_bounds(p.y - a.y, b.x - a.x, 3 * COORD_MAX as int, 2 * COORD_MAX as int);
        lemma_mul_bounds(p.x - b.x, c.y - b.y, 3 * COORD_MAX as int, 2 * COORD_MAX as int);
        lemma_mul_bounds(p.y - b.y, c.x - b.x, 3 * COORD_MAX as int, 2 * COORD_MAX as int);
        lemma_mul_bounds(p.x - c.x, a.y - c.y, 3 * COORD_MAX as int, 2 * COORD_MAX as int);
        lemma_mul_bounds(p.y - c.y, a.x - c.x, 3 * COORD_MAX as int, 2 * COORD_MAX as int);
    }
    let d0 = (p.x - q0.x) * (p.x - q0.x) + (p.y - q0.y) * (p.y - q0.y);
    let d1 = (p.x - q1.x) * (p.x - q1.x) + (p.y - q1.y) * (p.y - q1.y);
    let d2 = (p.x - q2.x) * (p.x - q2.x) + (p.y - q2.y) * (p.y - q2.y);
    let winding = (b.x - a.x) * (a.y - c.y) - (b.y - a.y) * (a.x - c.x);
    let sgn: i64 = if winding > 0 {
        1
    } else if winding < 0 {
        -1
    } else {
        0
    };
    proof {
        lemma_mul_bounds(
            sgn as int,
            (p.x - a.x) * (b.y - a.y) - (p.y - a.y) * (b.x - a.x),
            1,
            0x1000_0000_0000_0000int,
        );
        lemma_mul_bounds(
            sgn as int,
            (p.x - b.x) * (c.y - b.y) - (p.y - b.y) * (c.x - b.x),
            1,
            0x1000_0000_0000_0000int,
        );
        lemma_mul_bounds(
            sgn as int,
            (p.x - c.x) * (a.y - c.y) - (p.y - c.y) * (a.x - c.x),
            1,
            0x1000_0000_0000_0000int,
        );
    }
    let w0 = sgn * ((p.x - a.x) * (b.y - a.y) - (p.y - a.y) * (b.x - a.x));
    let w1 = sgn * ((p.x - b.x) * (c.y - b.y) - (p.y - b.y) * (c.x - b.x));
    let w2 = sgn * ((p.x - c.x) * (a.y - c.y) - (p.y - c.y) * (a.x - c.x));
    let side = min2(min2(w0, w1), w2);
    let dmin = min2(min2(d0, d1), d2);
    proof {
        assert(dmin >= 0) by (nonlinear_arith)
            requires
                dmin == vstd::math::min(
                    vstd::math::min(
                        (p.x - q0.x) * (p.x - q0.x) + (p.y - q0.y) * (p.y - q0.y),
                        (p.x - q1.x) * (p.x - q1.x) + (p.y - q1.y) * (p.y - q1.y),
                    ),
                    (p.x - q2.x) * (p.x - q2.x) + (p.y - q2.y) * (p.y - q2.y),
                ),
        ;
    }
    let len = crate::fixed::isqrt(dmin as u64) as i64;
    proof {
        crate::fixed::lemma_sqrt_floor_bounds(dmin as int);
        crate::fixed::lemma_sqrt_floor_unique(dmin as int, sqrt_floor(dmin as int));
    }
    if side > 0 {
        -len
    } else if side < 0 {
        len
    } else {
        0
    }
}

/// Capsule: segment distance minus the capsule radius.
pub open spec fn sd_capsule2_s(p: Vec2, a: Vec2, b: Vec2, r: int) -> int {
    sd_segment2_s(p, a, b) - r
}

/// Capsule (a segment inflated by radius `r`).
pub fn sd_capsule2(p: Vec2, a: Vec2, b: Vec2, r: i64) -> (d: i64)
    requires
        v2_local_ok(p),
        v2_coord_ok(a),
        v2_coord_ok(b),
        0 <= r <= COORD_MAX,
    ensures
        d == sd_capsule2_s(p, a, b, r as int),
        -DIST2_MAX <= d <= DIST2_MAX,
{
    sd_segment2(p, a, b) - r
}

/// The closest point to `p` on the ray starting at `a` with unit direction
/// `dir`: the projection parameter is clamped below at zero only.
pub open spec fn ray_closest2_s(p: Vec2, a: Vec2, dir: Vec2) -> Vec2Ghost {
    let t = max(0, div_t((p.x - a.x) * dir.x + (p.y - a.y) * dir.y, UNIT as int));
    Vec2Ghost {
        x: a.x + div_t(dir.x * t, UNIT as int),
        y: a.y + div_t(dir.y * t, UNIT as int),
    }
}

/// Ray: distance from `p` to the closest point on the ray (unsigned).
pub open spec fn sd_ray2_s(p: Vec2, a: Vec2, dir: Vec2) -> int {
    let c = ray_closest2_s(p, a, dir);
    sqrt_floor((p.x - c.x) * (p.x - c.x) + (p.y - c.y) * (p.y - c.y))
}

/// Ray from `a` along the unit direction `dir`.
pub fn sd_ray2(p: Vec2, a: Vec2, dir: Vec2) -> (d: i64)
    requires
        v2_local_ok(p),
        v2_coord_ok(a),
        unit_ok(dir.x),
        unit_ok(dir.y),
    ensures
        d == sd_ray2_s(p, a, dir),
        0 <= d <= DIST2_MAX,
{
    proof {
        lemma_mul_bounds(p.x - a.x, dir.x as int, 3 * COORD_MAX as int, UNIT as int);
        lemma_mul_bounds(p.y - a.y, dir.y as int, 3 * COORD_MAX as int, UNIT as int);
    }
    let raw: i128 = ((p.x - a.x) as i128) * (dir.x as i128) + ((p.y - a.y) as i128)
        * (dir.y as i128);
    let tq: i64 = (raw / (UNIT as i128)) as i64;
    let t = if tq < 0 {
        0
    } else {
        tq
    };
    proof {
        lemma_mul_bounds(dir.x as int, t as int, UNIT as int, 6 * COORD_MAX as int);
        lemma_mul_bounds(dir.y as int, t as int, UNIT as int, 6 * COORD_MAX as int);
    }
    let mx: i64 = (((dir.x as i128) * (t as i128)) / (UNIT as i128)) as i64;
    let my: i64 = (((dir.y as i128) * (t as i128)) / (UNIT as i128)) as i64;
    let cx = a.x + mx;
    let cy = a.y + my;
    Vec2 { x: p.x - cx, y: p.y - cy }.norm()
}

/// A 2D primitive: a closed set of shape kinds, each carrying its own
/// fixed-point parameters. Immutable once constructed.
#[derive(Clone, Copy, PartialEq, Eq, Structural, Debug)]
pub enum Shape {
    Disk { radius: i64 },
    EquilateralTriangle { radius: i64 },
    Triangle { a: Vec2, b: Vec2, c: Vec2 },
    CapsuleX { width: i64, radius: i64 },
    Line { origin: Vec2, dir: Vec2 },
    Rectangle { half_width: i64, half_height: i64 },
    Torus { major: i64, minor: i64 },
    Capsule { a: Vec2, b: Vec2, radius: i64 },
    LineSegment { a: Vec2, b: Vec2 },
    Ray { origin: Vec2, dir: Vec2 },
    Plane { normal: Vec2 },
}

/// The shape's parameters are within the engine's coordinate bounds;
/// normals and directions must be unit length (their components then lie
/// within one unit, which is all the distance bound needs).
pub open spec fn shape2_ok(s: Shape) -> bool {
    match s {
        Shape::Disk { radius } => 0 <= radius <= COORD_MAX,
        Shape::EquilateralTriangle { radius } => 0 <= radius <= COORD_MAX,
        Shape::Triangle { a, b, c } => v2_coord_ok(a) && v2_coord_ok(b) && v2_coord_ok(c),
        Shape::CapsuleX { width, radius } => 0 <= width <= COORD_MAX && 0 <= radius <= COORD_MAX,
        Shape::Line { origin, dir } => v2_coord_ok(origin) && unit_ok(dir.x) && unit_ok(dir.y),
        Shape::Rectangle { half_width, half_height } => 0 <= half_width <= COORD_MAX && 0
            <= half_height <= COORD_MAX,
        Shape::Torus { major, minor } => 0 <= major <= COORD_MAX && 0 <= minor <= COORD_MAX,
        Shape::Capsule { a, b, radius } => v2_coord_ok(a) && v2_coord_ok(b) && 0 <= radius
            <= COORD_MAX,
        Shape::LineSegment { a, b } => v2_coord_ok(a) && v2_coord_ok(b),
        Shape::Ray { origin, dir } => v2_coord_ok(origin) && unit_ok(dir.x) && unit_ok(dir.y),
        Shape::Plane { normal } => unit_ok(normal.x) && unit_ok(normal.y),
    }
}

/// The signed distance of each shape kind at a local-frame point.
pub open spec fn sd_shape2_s(s: Shape, p: Vec2) -> int {
    match s {
        Shape::Disk { radius } => sd_disk_s(p, radius as int),
        Shape::EquilateralTriangle { radius } => sd_equilateral_s(p, radius as int),
        Shape::Triangle { a, b, c } => sd_triangle_s(p, a, b, c),
        Shape::CapsuleX { width, radius } => sd_capsule_x_s(p, width as int, radius as int),
        Shape::Line { origin, dir } => sd_line2_s(p, origin, dir),
        Shape::Rectangle { half_width, half_height } => sd_rectangle_s(
            p,
            half_width as int,
            half_height as int,
        ),
        Shape::Torus { major, minor } => sd_annulus_s(p, major as int, minor as int),
        Shape::Capsule { a, b, radius } => sd_capsule2_s(p, a, b, radius as int),
        Shape::LineSegment { a, b } => sd_segment2_s(p, a, b),
        Shape::Ray { origin, dir } => sd_ray2_s(p, origin, dir),
        Shape::Plane { normal } => sd_plane2_s(p, normal),
    }
}

impl Shape {
    /// Check at run time that the shape's parameters are within bounds.
    pub fn check(self) -> (b: bool)
        ensures
            b == shape2_ok(self),
    {
        match self {
            Shape::Disk { radius } => 0 <= radius && radius <= COORD_MAX,
            Shape::EquilateralTriangle { radius } => 0 <= radius && radius <= COORD_MAX,
            Shape::Triangle { a, b, c } => -COORD_MAX <= a.x && a.x <= COORD_MAX && -COORD_MAX
                <= a.y && a.y <= COORD_MAX && -COORD_MAX <= b.x && b.x <= COORD_MAX && -COORD_MAX
                <= b.y && b.y <= COORD_MAX && -COORD_MAX <= c.x && c.x <= COORD_MAX && -COORD_MAX
                <= c.y && c.y <= COORD_MAX,
            Shape::CapsuleX { width, radius } => 0 <= width && width <= COORD_MAX && 0 <= radius
                && radius <= COORD_MAX,
            Shape::Line { origin, dir } => -COORD_MAX <= origin.x && origin.x <= COORD_MAX
                && -COORD_MAX <= origin.y && origin.y <= COORD_MAX && -UNIT <= dir.x && dir.x
                <= UNIT && -UNIT <= dir.y && dir.y <= UNIT,
            Shape::Rectangle { half_width, half_height } => 0 <= half_width && half_width
                <= COORD_MAX && 0 <= half_height && half_height <= COORD_MAX,
            Shape::Torus { major, minor } => 0 <= major && major <= COORD_MAX && 0 <= minor
                && minor <= COORD_MAX,
            Shape::Capsule { a, b, radius } => -COORD_MAX <= a.x && a.x <= COORD_MAX && -COORD_MAX
                <= a.y && a.y <= COORD_MAX && -COORD_MAX <= b.x && b.x <= COORD_MAX && -COORD_MAX
                <= b.y && b.y <= COORD_MAX && 0 <= radius && radius <= COORD_MAX,
            Shape::LineSegment { a, b } => -COORD_MAX <= a.x && a.x <= COORD_MAX && -COORD_MAX
                <= a.y && a.y <= COORD_MAX && -COORD_MAX <= b.x && b.x <= COORD_MAX && -COORD_MAX
                <= b.y && b.y <= COORD_MAX,
            Shape::Ray { origin, dir } => -COORD_MAX <= origin.x && origin.x <= COORD_MAX
                && -COORD_MAX <= origin.y && origin.y <= COORD_MAX && -UNIT <= dir.x && dir.x
                <= UNIT && -UNIT <= dir.y && dir.y <= UNIT,
            Shape::Plane { normal } => -UNIT <= normal.x && normal.x <= UNIT && -UNIT <= normal.y
                && normal.y <= UNIT,
        }
    }

    /// Evaluate the shape's signed distance at a point already expressed in
    /// the shape's local frame.
    pub fn signed_distance(self, p: Vec2) -> (d: i64)
        requires
            shape2_ok(self),
            v2_local_ok(p),
        ensures
            d == sd_shape2_s(self, p),
            -DIST2_MAX <= d <= DIST2_MAX,
    {
        match self {
            Shape::Disk { radius } => sd_disk(p, radius),
            Shape::EquilateralTriangle { radius } => sd_equilateral(p, radius),
            Shape::Triangle { a, b, c } => sd_triangle(p, a, b, c),
            Shape::CapsuleX { width, radius } => sd_capsule_x(p, width, radius),
            Shape::Line { origin, dir } => sd_line2(p, origin, dir),
            Shape::Rectangle { half_width, half_height } => sd_rectangle(
                p,
                half_width,
                half_height,
            ),
            Shape::Torus { major, minor } => sd_annulus(p, major, minor),
            Shape::Capsule { a, b, radius } => sd_capsule2(p, a, b, radius),
            Shape::LineSegment { a, b } => sd_segment2(p, a, b),
            Shape::Ray { origin, dir } => sd_ray2(p, origin, dir),
            Shape::Plane { normal } => sd_plane2(p, normal),
        }
    }
}

} // verus!
