//! 3D signed-distance primitives.
//!
//! Every function takes a query point already expressed in the primitive's
//! local frame and returns a signed fixed-point scalar: negative inside,
//! zero on the boundary, positive outside. Sphere, plane, torus, segment
//! and capsule are exact up to floor rounding; cuboid, cylinder and the
//! cuboid frames are the usual tight bounds.

use crate::fixed::{
    div_t, frac_div, lemma_mul_bounds, max2, min2, mul_frac, sqrt_floor,
};
use crate::vec2::Vec2;
use crate::vec3::{
    cross3_fp, dot3_fp, len_sq3, norm3_s, v3_coord_ok, v3_local_ok, v3_unit_ok, Vec3, Vec3Ghost,
};
use crate::{coord_ok, unit_ok, COORD_MAX, UNIT};
use vstd::math::{max, min};
use vstd::prelude::*;

verus! {

/// Bound on the magnitude of every 3D primitive distance.
pub const DIST3_MAX: i64 = 0x4_0000_0000;

/// Bound on the axial coordinate used by the cylinder; inactive for points
/// and parameters within the engine's coordinate range.
pub const AXIS_MAX: i64 = 0x2000_0000;

/// Sphere: distance from the center minus the radius.
pub open spec fn sd_sphere_s(p: Vec3, r: int) -> int {
    norm3_s(p) - r
}

/// Sphere of radius `r` centered on the local origin.
pub fn sd_sphere(p: Vec3, r: i64) -> (d: i64)
    requires
        v3_local_ok(p),
        0 <= r <= COORD_MAX,
    ensures
        d == sd_sphere_s(p, r as int),
        -DIST3_MAX <= d <= DIST3_MAX,
{
    p.norm() - r
}

/// Sign law for the sphere: the distance is positive exactly for points
/// whose squared length passes the radius, negative exactly strictly
/// inside, and zero on the boundary shell, where the floor square root
/// rounds to the radius.
pub proof fn lemma_sphere_sign(p: Vec3, r: i64)
    requires
        v3_local_ok(p),
        0 <= r <= COORD_MAX,
    ensures
        sd_sphere_s(p, r as int) > 0 <==> len_sq3(p) >= (r + 1) * (r + 1),
        sd_sphere_s(p, r as int) < 0 <==> len_sq3(p) < r * r,
{
    assert(len_sq3(p) >= 0) by (nonlinear_arith);
    crate::fixed::lemma_sqrt_floor_bounds(len_sq3(p));
    let s = norm3_s(p);
    if s > r {
        assert((r + 1) * (r + 1) <= s * s) by (nonlinear_arith)
            requires
                0 <= r + 1 <= s,
        ;
    } else {
        assert((s + 1) * (s + 1) <= (r + 1) * (r + 1)) by (nonlinear_arith)
            requires
                0 <= s + 1 <= r + 1,
        ;
    }
    if s < r {
        assert((s + 1) * (s + 1) <= r * r) by (nonlinear_arith)
            requires
                0 <= s + 1 <= r,
        ;
    } else {
        assert(r * r <= s * s) by (nonlinear_arith)
            requires
                0 <= r <= s,
        ;
    }
}

/// Half-space: the fixed-point dot product against the boundary normal.
pub open spec fn sd_plane3_s(p: Vec3, n: Vec3) -> int {
    dot3_fp(p, n)
}

/// Half-space through the local origin with unit outward normal `n`.
pub fn sd_plane3(p: Vec3, n: Vec3) -> (d: i64)
    requires
        v3_local_ok(p),
        v3_unit_ok(n),
    ensures
        d == sd_plane3_s(p, n),
        -DIST3_MAX <= d <= DIST3_MAX,
{
    p.dot_fp(n)
}

/// Torus around axis `n`: combines the distance from the axis-projected
/// ring of radius `major` with the height along `n`, minus `minor`.
pub open spec fn sd_torus3_s(p: Vec3, major: int, minor: int, n: Vec3) -> int {
    let c = cross3_fp(p, n);
    let ring = sqrt_floor(c.x * c.x + c.y * c.y + c.z * c.z) - major;
    let h = dot3_fp(p, n);
    sqrt_floor(ring * ring + h * h) - minor
}

/// Torus with ring radius `major` and tube radius `minor`, lying in the
/// plane perpendicular to the unit normal `n`.
pub fn sd_torus3(p: Vec3, major: i64, minor: i64, n: Vec3) -> (d: i64)
    requires
        v3_local_ok(p),
        0 <= major <= COORD_MAX,
        0 <= minor <= COORD_MAX,
        v3_unit_ok(n),
    ensures
        d == sd_torus3_s(p, major as int, minor as int, n),
        -DIST3_MAX <= d <= DIST3_MAX,
{
    let c = p.cross_fp(n);
    proof {
        crate::vec3::lemma_norm3_bound(c, 4 * COORD_MAX as int);
    }
    let ring = c.norm() - major;
    let h = p.dot_fp(n);
    Vec2 { x: ring, y: h }.norm() - minor
}

/// Disk: like the torus, but the height term is clamped against the disk
/// plane before combining, and only the outward overshoot of the ring
/// counts.
pub open spec fn sd_disk3_s(p: Vec3, major: int, minor: int, n: Vec3) -> int {
    let c = cross3_fp(p, n);
    let ring = sqrt_floor(c.x * c.x + c.y * c.y + c.z * c.z) - major;
    let h = vstd::math::abs(dot3_fp(p, n)) as int;
    let rx = max(ring, 0);
    sqrt_floor(rx * rx + h * h) - minor
}

/// Flat disk of radius `major` and half-thickness `minor`, perpendicular to
/// the unit normal `n`.
pub fn sd_disk3(p: Vec3, major: i64, minor: i64, n: Vec3) -> (d: i64)
    requires
        v3_local_ok(p),
        0 <= major <= COORD_MAX,
        0 <= minor <= COORD_MAX,
        v3_unit_ok(n),
    ensures
        d == sd_disk3_s(p, major as int, minor as int, n),
        -DIST3_MAX <= d <= DIST3_MAX,
{
    let c = p.cross_fp(n);
    proof {
        crate::vec3::lemma_norm3_bound(c, 4 * COORD_MAX as int);
    }
    let ring = c.norm() - major;
    let h0 = p.dot_fp(n);
    let h = if h0 < 0 {
        -h0
    } else {
        h0
    };
    let rx = max2(ring, 0);
    Vec2 { x: rx, y: h }.norm() - minor
}

/// The closest point to `p` on the segment from `a` to `b`, by clamped
/// projection; a degenerate segment collapses to `a`.
pub open spec fn seg_closest3_s(p: Vec3, a: Vec3, b: Vec3) -> Vec3Ghost {
    let dx = b.x - a.x;
    let dy = b.y - a.y;
    let dz = b.z - a.z;
    if dx == 0 && dy == 0 && dz == 0 {
        Vec3Ghost { x: a.x as int, y: a.y as int, z: a.z as int }
    } else {
        let lsq = dx * dx + dy * dy + dz * dz;
        let dotv = (p.x - a.x) * dx + (p.y - a.y) * dy + (p.z - a.z) * dz;
        let tn = max(0, min(dotv, lsq));
        let frac = tn * UNIT / lsq;
        Vec3Ghost {
            x: a.x + div_t(dx * frac, UNIT as int),
            y: a.y + div_t(dy * frac, UNIT as int),
            z: a.z + div_t(dz * frac, UNIT as int),
        }
    }
}

/// Line segment: distance from `p` to the closest point on `a`–`b`.
pub open spec fn sd_segment3_s(p: Vec3, a: Vec3, b: Vec3) -> int {
    let c = seg_closest3_s(p, a, b);
    sqrt_floor(
        (p.x - c.x) * (p.x - c.x) + (p.y - c.y) * (p.y - c.y) + (p.z - c.z) * (p.z - c.z),
    )
}

/// Line segment from `a` to `b` (an unsigned field: never negative).
pub fn sd_segment3(p: Vec3, a: Vec3, b: Vec3) -> (d: i64)
    requires
        v3_local_ok(p),
        v3_coord_ok(a),
        v3_coord_ok(b),
    ensures
        d == sd_segment3_s(p, a, b),
        0 <= d <= DIST3_MAX,
{
    let dx = b.x - a.x;
    let dy = b.y - a.y;
    let dz = b.z - a.z;
    if dx == 0 && dy == 0 && dz == 0 {
        p.sub(a).norm()
    } else {
        proof {
            lemma_mul_bounds(dx as int, dx as int, 2 * COORD_MAX as int, 2 * COORD_MAX as int);
            lemma_mul_bounds(dy as int, dy as int, 2 * COORD_MAX as int, 2 * COORD_MAX as int);
            lemma_mul_bounds(dz as int, dz as int, 2 * COORD_MAX as int, 2 * COORD_MAX as int);
            lemma_mul_bounds(p.x - a.x, dx as int, 3 * COORD_MAX as int, 2 * COORD_MAX as int);
            lemma_mul_bounds(p.y - a.y, dy as int, 3 * COORD_MAX as int, 2 * COORD_MAX as int);
            lemma_mul_bounds(p.z - a.z, dz as int, 3 * COORD_MAX as int, 2 * COORD_MAX as int);
        }
        let lsq = dx * dx + dy * dy + dz * dz;
        proof {
            assert(lsq > 0) by (nonlinear_arith)
                requires
                    lsq == dx * dx + dy * dy + dz * dz,
                    dx != 0 || dy != 0 || dz != 0,
            ;
        }
        let dotv = (p.x - a.x) * dx + (p.y - a.y) * dy + (p.z - a.z) * dz;
        let tn = if dotv < 0 {
            0
        } else if dotv > lsq {
            lsq
        } else {
            dotv
        };
        let frac = frac_div(tn, lsq);
        let cx = a.x + mul_frac(dx, frac);
        let cy = a.y + mul_frac(dy, frac);
        let cz = a.z + mul_frac(dz, frac);
        Vec3 { x: p.x - cx, y: p.y - cy, z: p.z - cz }.norm()
    }
}

/// Capsule: segment distance minus the capsule radius.
pub open spec fn sd_capsule3_s(p: Vec3, a: Vec3, b: Vec3, r: int) -> int {
    sd_segment3_s(p, a, b) - r
}

/// Capsule (a segment inflated by radius `r`).
pub fn sd_capsule3(p: Vec3, a: Vec3, b: Vec3, r: i64) -> (d: i64)
    requires
        v3_local_ok(p),
        v3_coord_ok(a),
        v3_coord_ok(b),
        0 <= r <= COORD_MAX,
    ensures
        d == sd_capsule3_s(p, a, b, r as int),
        -DIST3_MAX <= d <= DIST3_MAX,
{
    sd_segment3(p, a, b) - r
}

/// Cuboid: length of the componentwise overshoot plus the (negative)
/// interior term.
pub open spec fn sd_cuboid_s(p: Vec3, h: Vec3) -> int {
    let vx = vstd::math::abs(p.x as int) - h.x;
    let vy = vstd::math::abs(p.y as int) - h.y;
    let vz = vstd::math::abs(p.z as int) - h.z;
    sqrt_floor(max(vx, 0) * max(vx, 0) + max(vy, 0) * max(vy, 0) + max(vz, 0) * max(vz, 0)) + min(
        vstd::math::max3(vx, vy, vz),
        0,
    )
}

/// Axis-aligned box with half-extents `h`.
pub fn sd_cuboid(p: Vec3, h: Vec3) -> (d: i64)
    requires
        v3_local_ok(p),
        0 <= h.x <= COORD_MAX,
        0 <= h.y <= COORD_MAX,
        0 <= h.z <= COORD_MAX,
    ensures
        d == sd_cuboid_s(p, h),
        -DIST3_MAX <= d <= DIST3_MAX,
{
    let vx = abs_c(p.x) - h.x;
    let vy = abs_c(p.y) - h.y;
    let vz = abs_c(p.z) - h.z;
    let outside = Vec3 { x: max2(vx, 0), y: max2(vy, 0), z: max2(vz, 0) }.norm();
    let inside = min2(max2(max2(vx, vy), vz), 0);
    outside + inside
}

/// Absolute value for in-range coordinates.
fn abs_c(x: i64) -> (r: i64)
    requires
        x > i64::MIN,
    ensures
        r == vstd::math::abs(x as int),
{
    if x < 0 {
        -x
    } else {
        x
    }
}

/// The box-bound distance of one frame strut: overshoot length plus the
/// interior term.
pub open spec fn strut_s(vx: int, vy: int, vz: int) -> int {
    sqrt_floor(max(vx, 0) * max(vx, 0) + max(vy, 0) * max(vy, 0) + max(vz, 0) * max(vz, 0)) + min(
        vstd::math::max3(vx, vy, vz),
        0,
    )
}

/// One frame strut, evaluated executably.
fn strut(vx: i64, vy: i64, vz: i64) -> (d: i64)
    requires
        crate::span_ok(vx as int),
        crate::span_ok(vy as int),
        crate::span_ok(vz as int),
    ensures
        d == strut_s(vx as int, vy as int, vz as int),
        -3 * crate::SPAN_MAX <= d <= 0x1_0000_0000 + 3 * crate::SPAN_MAX,
{
    let outside = Vec3 { x: max2(vx, 0), y: max2(vy, 0), z: max2(vz, 0) }.norm();
    let inside = min2(max2(max2(vx, vy), vz), 0);
    outside + inside
}

/// Radial cuboid frame: the minimum Euclidean distance to the box's
/// twelve edges, taken over three axis-permuted clamped offset vectors,
/// minus an edge radius.
pub open spec fn sd_cuboid_frame_radial_s(p: Vec3, h: Vec3, r: int) -> int {
    let vx = vstd::math::abs(p.x as int) - h.x;
    let vy = vstd::math::abs(p.y as int) - h.y;
    let vz = vstd::math::abs(p.z as int) - h.z;
    min(
        min(
            sqrt_floor(vx * vx + vy * vy + max(vz, 0) * max(vz, 0)),
            sqrt_floor(vx * vx + max(vy, 0) * max(vy, 0) + vz * vz),
        ),
        sqrt_floor(max(vx, 0) * max(vx, 0) + vy * vy + vz * vz),
    ) - r
}

/// Cuboid frame whose edges are rounded by radius `r`.
pub fn sd_cuboid_frame_radial(p: Vec3, h: Vec3, r: i64) -> (d: i64)
    requires
        v3_local_ok(p),
        0 <= h.x <= COORD_MAX,
        0 <= h.y <= COORD_MAX,
        0 <= h.z <= COORD_MAX,
        0 <= r <= COORD_MAX,
    ensures
        d == sd_cuboid_frame_radial_s(p, h, r as int),
        -DIST3_MAX <= d <= DIST3_MAX,
{
    let vx = abs_c(p.x) - h.x;
    let vy = abs_c(p.y) - h.y;
    let vz = abs_c(p.z) - h.z;
    let d1 = Vec3 { x: vx, y: vy, z: max2(vz, 0) }.norm();
    let d2 = Vec3 { x: vx, y: max2(vy, 0), z: vz }.norm();
    let d3 = Vec3 { x: max2(vx, 0), y: vy, z: vz }.norm();
    min2(min2(d1, d2), d3) - r
}

/// Cuboid frame built from a box of half-extents `h` with struts of full
/// thickness `t` (halved internally, as in the box-frame construction).
pub open spec fn sd_cuboid_frame_s(p: Vec3, h: Vec3, t: Vec3) -> int {
    let ex = div_t(t.x as int, 2);
    let ey = div_t(t.y as int, 2);
    let ez = div_t(t.z as int, 2);
    let px = vstd::math::abs(p.x as int) - h.x - ex;
    let py = vstd::math::abs(p.y as int) - h.y - ey;
    let pz = vstd::math::abs(p.z as int) - h.z - ez;
    let qx = vstd::math::abs(px + ex) as int - ex;
    let qy = vstd::math::abs(py + ey) as int - ey;
    let qz = vstd::math::abs(pz + ez) as int - ez;
    min(min(strut_s(px, qy, qz), strut_s(qx, py, qz)), strut_s(qx, qy, pz))
}

/// Hollow cuboid frame.
pub fn sd_cuboid_frame(p: Vec3, h: Vec3, t: Vec3) -> (d: i64)
    requires
        v3_local_ok(p),
        0 <= h.x <= COORD_MAX,
        0 <= h.y <= COORD_MAX,
        0 <= h.z <= COORD_MAX,
        0 <= t.x <= COORD_MAX,
        0 <= t.y <= COORD_MAX,
        0 <= t.z <= COORD_MAX,
    ensures
        d == sd_cuboid_frame_s(p, h, t),
        -DIST3_MAX <= d <= DIST3_MAX,
{
    let ex = t.x / 2;
    let ey = t.y / 2;
    let ez = t.z / 2;
    let px = abs_c(p.x) - h.x - ex;
    let py = abs_c(p.y) - h.y - ey;
    let pz = abs_c(p.z) - h.z - ez;
    let qx = abs_c(px + ex) - ex;
    let qy = abs_c(py + ey) - ey;
    let qz = abs_c(pz + ez) - ez;
    let d1 = strut(px, qy, qz);
    let d2 = strut(qx, py, qz);
    let d3 = strut(qx, qy, pz);
    min2(min2(d1, d2), d3)
}

/// Cylinder between the cap centers `a` and `b` with radius `r`: combines
/// the radial distance from the axis with the axial overrun past the caps.
/// The axial coordinate is computed against the floor-rounded axis length
/// and clamped to the coordinate range (inactive for in-range shapes); a
/// degenerate cylinder (`a == b`) measures from `a` alone.
pub open spec fn sd_cylinder_s(p: Vec3, a: Vec3, b: Vec3, r: int) -> int {
    let dx = b.x - a.x;
    let dy = b.y - a.y;
    let dz = b.z - a.z;
    if dx == 0 && dy == 0 && dz == 0 {
        let vx = sqrt_floor(
            (p.x - a.x) * (p.x - a.x) + (p.y - a.y) * (p.y - a.y) + (p.z - a.z) * (p.z - a.z),
        ) - r;
        sqrt_floor(max(vx, 0) * max(vx, 0)) + min(vx, 0)
    } else {
        let lsq = dx * dx + dy * dy + dz * dz;
        let nab = sqrt_floor(lsq);
        let dotv = (p.x - a.x) * dx + (p.y - a.y) * dy + (p.z - a.z) * dz;
        let da = max(-AXIS_MAX as int, min(div_t(dotv, nab), AXIS_MAX as int));
        let cx = a.x + div_t(dx * da, nab);
        let cy = a.y + div_t(dy * da, nab);
        let cz = a.z + div_t(dz * da, nab);
        let radial = sqrt_floor(
            (p.x - cx) * (p.x - cx) + (p.y - cy) * (p.y - cy) + (p.z - cz) * (p.z - cz),
        );
        let vx = radial - r;
        let vy = div_t(vstd::math::abs(2 * da - nab) as int - nab, 2);
        sqrt_floor(max(vx, 0) * max(vx, 0) + max(vy, 0) * max(vy, 0)) + min(max(vx, vy), 0)
    }
}

/// Cylinder from `a` to `b` with radius `r`.
pub fn sd_cylinder(p: Vec3, a: Vec3, b: Vec3, r: i64) -> (d: i64)
    requires
        v3_local_ok(p),
        v3_coord_ok(a),
        v3_coord_ok(b),
        0 <= r <= COORD_MAX,
    ensures
        d == sd_cylinder_s(p, a, b, r as int),
        -DIST3_MAX <= d <= DIST3_MAX,
{
    let dx = b.x - a.x;
    let dy = b.y - a.y;
    let dz = b.z - a.z;
    if dx == 0 && dy == 0 && dz == 0 {
        let vx = p.sub(a).norm() - r;
        let m = max2(vx, 0);
        proof {
            assert((m as int) * (m as int) < ((m + 1) as int) * ((m + 1) as int))
                by (nonlinear_arith)
                requires
                    m >= 0,
            ;
            crate::fixed::lemma_sqrt_floor_unique((m as int) * (m as int), m as int);
        }
        m + min2(vx, 0)
    } else {
        proof {
            lemma_mul_bounds(dx as int, dx as int, 2 * COORD_MAX as int, 2 * COORD_MAX as int);
            lemma_mul_bounds(dy as int, dy as int, 2 * COORD_MAX as int, 2 * COORD_MAX as int);
            lemma_mul_bounds(dz as int, dz as int, 2 * COORD_MAX as int, 2 * COORD_MAX as int);
            lemma_mul_bounds(p.x - a.x, dx as int, 3 * COORD_MAX as int, 2 * COORD_MAX as int);
            lemma_mul_bounds(p.y - a.y, dy as int, 3 * COORD_MAX as int, 2 * COORD_MAX as int);
            lemma_mul_bounds(p.z - a.z, dz as int, 3 * COORD_MAX as int, 2 * COORD_MAX as int);
        }
        let lsq = dx * dx + dy * dy + dz * dz;
        proof {
            assert(lsq > 0) by (nonlinear_arith)
                requires
                    lsq == dx * dx + dy * dy + dz * dz,
                    dx != 0 || dy != 0 || dz != 0,
            ;
        }
        let nab = crate::fixed::isqrt(lsq as u64) as i64;
        proof {
            assert(nab >= 1) by (nonlinear_arith)
                requires
                    lsq >= 1,
                    nab >= 0,
                    lsq < (nab + 1) * (nab + 1),
            ;
            assert(dx * dx <= lsq && dy * dy <= lsq && dz * dz <= lsq) by (nonlinear_arith)
                requires
                    lsq == dx * dx + dy * dy + dz * dz,
            ;
            assert(-nab <= dx <= nab && -nab <= dy <= nab && -nab <= dz <= nab)
                by (nonlinear_arith)
                requires
                    dx * dx <= lsq,
                    dy * dy <= lsq,
                    dz * dz <= lsq,
                    (nab as int) * (nab as int) <= lsq < (nab + 1) * (nab + 1),
                    nab >= 1,
            ;
        }
        let dotv = (p.x - a.x) * dx + (p.y - a.y) * dy + (p.z - a.z) * dz;
        let da = clamp_axis(div_signed(dotv, nab));
        let cx = a.x + axis_step(dx, da, nab);
        let cy = a.y + axis_step(dy, da, nab);
        let cz = a.z + axis_step(dz, da, nab);
        let foot = Vec3 { x: p.x - cx, y: p.y - cy, z: p.z - cz };
        proof {
            crate::vec3::lemma_norm3_bound(foot, 8 * COORD_MAX as int);
        }
        let radial = foot.norm();
        let vx = radial - r;
        let h = abs_c(2 * da - nab) - nab;
        let vy = h / 2;
        let outside = Vec2 { x: max2(vx, 0), y: max2(vy, 0) }.norm();
        outside + min2(max2(vx, vy), 0)
    }
}

/// Truncating division used for the cylinder's axial coordinate.
fn div_signed(a: i64, b: i64) -> (r: i64)
    requires
        b > 0,
    ensures
        r == div_t(a as int, b as int),
{
    a / b
}

/// Clamp an axial coordinate into the supported range.
fn clamp_axis(x: i64) -> (r: i64)
    ensures
        r == max(-AXIS_MAX as int, min(x as int, AXIS_MAX as int)),
        -AXIS_MAX <= r <= AXIS_MAX,
{
    if x < -AXIS_MAX {
        -AXIS_MAX
    } else if x > AXIS_MAX {
        AXIS_MAX
    } else {
        x
    }
}

/// One component of the axis foot point: `d * da / nab`, with magnitude at
/// most `|da|` because `|d| <= nab`.
fn axis_step(d: i64, da: i64, nab: i64) -> (r: i64)
    requires
        nab >= 1,
        -nab <= d <= nab,
        -AXIS_MAX <= da <= AXIS_MAX,
    ensures
        r == div_t(d * da, nab as int),
        -AXIS_MAX <= r <= AXIS_MAX,
{
    proof {
        lemma_mul_bounds(d as int, da as int, nab as int, AXIS_MAX as int);
        let ad = vstd::math::abs(d * da);
        assert(ad <= nab * AXIS_MAX) by (nonlinear_arith)
            requires
                -(nab * AXIS_MAX as int) <= d * da <= nab * AXIS_MAX as int,
                ad == vstd::math::abs(d * da),
                ad == if d * da >= 0 { d * da } else { -(d * da) },
        ;
        vstd::arithmetic::div_mod::lemma_div_is_ordered(ad as int, nab * AXIS_MAX as int, nab as int);
        vstd::arithmetic::div_mod::lemma_div_by_multiple(AXIS_MAX as int, nab as int);
        assert(nab * AXIS_MAX == AXIS_MAX * nab) by (nonlinear_arith);
        vstd::arithmetic::div_mod::lemma_div_pos_is_pos(ad as int, nab as int);
    }
    let q: i128 = (d as i128) * (da as i128) / (nab as i128);
    q as i64
}


/// A 3D primitive: a closed set of shape kinds, each carrying its own
/// fixed-point parameters.
#[derive(Clone, Copy, PartialEq, Eq, Structural, Debug)]
pub enum Shape3 {
    Sphere { radius: i64 },
    Plane { normal: Vec3 },
    Torus { major: i64, minor: i64, normal: Vec3 },
    Disk { major: i64, minor: i64, normal: Vec3 },
    LineSegment { a: Vec3, b: Vec3 },
    Capsule { a: Vec3, b: Vec3, radius: i64 },
    Cylinder { a: Vec3, b: Vec3, radius: i64 },
    Cuboid { half: Vec3 },
    CuboidFrameRadial { half: Vec3, radius: i64 },
    CuboidFrame { half: Vec3, thickness: Vec3 },
}

/// Half-extent components are nonnegative world coordinates.
pub open spec fn extents_ok(h: Vec3) -> bool {
    0 <= h.x <= COORD_MAX && 0 <= h.y <= COORD_MAX && 0 <= h.z <= COORD_MAX
}

/// The shape's parameters are within the engine's coordinate bounds;
/// normals must be unit length.
pub open spec fn shape3_ok(s: Shape3) -> bool {
    match s {
        Shape3::Sphere { radius } => 0 <= radius <= COORD_MAX,
        Shape3::Plane { normal } => v3_unit_ok(normal),
        Shape3::Torus { major, minor, normal } => 0 <= major <= COORD_MAX && 0 <= minor
            <= COORD_MAX && v3_unit_ok(normal),
        Shape3::Disk { major, minor, normal } => 0 <= major <= COORD_MAX && 0 <= minor
            <= COORD_MAX && v3_unit_ok(normal),
        Shape3::LineSegment { a, b } => v3_coord_ok(a) && v3_coord_ok(b),
        Shape3::Capsule { a, b, radius } => v3_coord_ok(a) && v3_coord_ok(b) && 0 <= radius
            <= COORD_MAX,
        Shape3::Cylinder { a, b, radius } => v3_coord_ok(a) && v3_coord_ok(b) && 0 <= radius
            <= COORD_MAX,
        Shape3::Cuboid { half } => extents_ok(half),
        Shape3::CuboidFrameRadial { half, radius } => extents_ok(half) && 0 <= radius <= COORD_MAX,
        Shape3::CuboidFrame { half, thickness } => extents_ok(half) && extents_ok(thickness),
    }
}

/// The signed distance of each shape kind at a local-frame point.
pub open spec fn sd_shape3_s(s: Shape3, p: Vec3) -> int {
    match s {
        Shape3::Sphere { radius } => sd_sphere_s(p, radius as int),
        Shape3::Plane { normal } => sd_plane3_s(p, normal),
        Shape3::Torus { major, minor, normal } => sd_torus3_s(p, major as int, minor as int, normal),
        Shape3::Disk { major, minor, normal } => sd_disk3_s(p, major as int, minor as int, normal),
        Shape3::LineSegment { a, b } => sd_segment3_s(p, a, b),
        Shape3::Capsule { a, b, radius } => sd_capsule3_s(p, a, b, radius as int),
        Shape3::Cylinder { a, b, radius } => sd_cylinder_s(p, a, b, radius as int),
        Shape3::Cuboid { half } => sd_cuboid_s(p, half),
        Shape3::CuboidFrameRadial { half, radius } => sd_cuboid_frame_radial_s(p, half, radius as int),
        Shape3::CuboidFrame { half, thickness } => sd_cuboid_frame_s(p, half, thickness),
    }
}

impl Shape3 {
    /// Evaluate the shape's signed distance at a point already expressed in
    /// the shape's local frame.
    pub fn signed_distance(self, p: Vec3) -> (d: i64)
        requires
            shape3_ok(self),
            v3_local_ok(p),
        ensures
            d == sd_shape3_s(self, p),
            -DIST3_MAX <= d <= DIST3_MAX,
    {
        match self {
            Shape3::Sphere { radius } => sd_sphere(p, radius),
            Shape3::Plane { normal } => sd_plane3(p, normal),
            Shape3::Torus { major, minor, normal } => sd_torus3(p, major, minor, normal),
            Shape3::Disk { major, minor, normal } => sd_disk3(p, major, minor, normal),
            Shape3::LineSegment { a, b } => sd_segment3(p, a, b),
            Shape3::Capsule { a, b, radius } => sd_capsule3(p, a, b, radius),
            Shape3::Cylinder { a, b, radius } => sd_cylinder(p, a, b, radius),
            Shape3::Cuboid { half } => sd_cuboid(p, half),
            Shape3::CuboidFrameRadial { half, radius } => sd_cuboid_frame_radial(p, half, radius),
            Shape3::CuboidFrame { half, thickness } => sd_cuboid_frame(p, half, thickness),
        }
    }
}

} // verus!
