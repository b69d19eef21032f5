//! Fractal domain-warped noise blending (fBm).
//!
//! The base field places a sphere of pseudo-random radius at every lattice
//! vertex and takes the minimum over the eight corners of the query point's
//! cell. Successive octaves evaluate the base field at a domain-rotated,
//! scaled copy of the point and blend it into the running distance with a
//! smooth maximum then a smooth minimum of octave-dependent width
//! `k = 3s/10`; each octave the domain matrix (a fixed rotation scaled by
//! two) is applied and the amplitude `s` halves. Four octaves is the
//! reference depth. The result never rises above the incoming distance and
//! drops below it by a bounded amount, so it remains usable for further
//! sphere tracing.

use crate::fixed::{div_t, lemma_mul_bounds, min2, mul_fp, sqrt_floor};
use crate::smooth::{smax, smax_s, smin, smin_s};
use crate::sdf3::DIST3_MAX;
use crate::vec3::{v3_coord_ok, Vec3};
use crate::UNIT;
use vstd::math::{max, min};
use vstd::prelude::*;

verus! {

/// Bound on the components of a domain-warped point.
pub const FBM_P_MAX: i64 = 0x100_0000_0000;

/// Lattice offset that keeps hash inputs nonnegative.
pub const LATTICE_OFF: i64 = 0x100_0000;

/// Pseudo-random sphere radius at a lattice vertex, in `[0, UNIT/2)`: a
/// fixed quadratic integer hash of the vertex coordinates. Any
/// deterministic pure function works here; this one is cheap and mixes all
/// three coordinates.
#[verifier::opaque]
pub open spec fn cell_radius_s(ix: int, iy: int, iz: int) -> int {
    let h = (ix + LATTICE_OFF) * 2654435761 + (iy + LATTICE_OFF) * 2246822519 + (iz + LATTICE_OFF)
        * 3266489917;
    (h * h + h) % (UNIT as int / 2)
}

/// Evaluate the lattice hash.
fn cell_radius(ix: i64, iy: i64, iz: i64) -> (r: i64)
    requires
        -LATTICE_OFF - 2 <= ix <= LATTICE_OFF + 2,
        -LATTICE_OFF - 2 <= iy <= LATTICE_OFF + 2,
        -LATTICE_OFF - 2 <= iz <= LATTICE_OFF + 2,
    ensures
        r == cell_radius_s(ix as int, iy as int, iz as int),
        0 <= r < UNIT / 2,
{
    proof {
        reveal(cell_radius_s);
    }
    let h: i128 = (ix as i128 + LATTICE_OFF as i128) * 2654435761
        + (iy as i128 + LATTICE_OFF as i128) * 2246822519
        + (iz as i128 + LATTICE_OFF as i128) * 3266489917;
    proof {
        let hh = (ix + LATTICE_OFF) * 2654435761int + (iy + LATTICE_OFF) * 2246822519int + (iz
            + LATTICE_OFF) * 3266489917int;
        lemma_mul_bounds(ix + LATTICE_OFF, 2654435761int, 3 * LATTICE_OFF as int, 2654435761int);
        lemma_mul_bounds(iy + LATTICE_OFF, 2246822519int, 3 * LATTICE_OFF as int, 2246822519int);
        lemma_mul_bounds(iz + LATTICE_OFF, 3266489917int, 3 * LATTICE_OFF as int, 3266489917int);
        lemma_mul_bounds(hh, hh, 0x1000_0000_0000_0000int, 0x1000_0000_0000_0000int);
        assert(hh * hh + hh >= 0) by (nonlinear_arith);
        vstd::arithmetic::div_mod::lemma_mod_bound(hh * hh + hh, UNIT as int / 2);
    }
    let mixed: i128 = h * h + h;
    (mixed % (UNIT as i128 / 2)) as i64
}

/// Floor division of a coordinate by one unit: the lattice index and the
/// in-cell fraction.
fn floor_unit(x: i64) -> (r: (i64, i64))
    requires
        -FBM_P_MAX <= x <= FBM_P_MAX,
    ensures
        r.0 == x as int / (UNIT as int),
        r.1 == x as int % (UNIT as int),
        x == r.0 * UNIT + r.1,
        0 <= r.1 < UNIT,
        -LATTICE_OFF - 1 <= r.0 <= LATTICE_OFF,
    {
    let q0 = x / UNIT;
    let r0 = x - q0 * UNIT;
    proof {
        let ax = vstd::math::abs(x as int) as int;
        vstd::arithmetic::div_mod::lemma_fundamental_div_mod(ax, UNIT as int);
        vstd::arithmetic::div_mod::lemma_mod_bound(ax, UNIT as int);
        if x >= 0 {
            vstd::arithmetic::div_mod::lemma_fundamental_div_mod_converse(
                x as int,
                UNIT as int,
                q0 as int,
                (x - q0 * UNIT) as int,
            );
        } else {
            assert(x == -ax);
            assert(q0 == -(ax / UNIT as int));
            assert((-(ax / UNIT as int)) * UNIT == -(UNIT * (ax / UNIT as int)))
                by (nonlinear_arith);
            if ax % (UNIT as int) == 0 {
                vstd::arithmetic::div_mod::lemma_fundamental_div_mod_converse(
                    x as int,
                    UNIT as int,
                    q0 as int,
                    0,
                );
            } else {
                assert((q0 - 1) * UNIT == q0 * UNIT - UNIT) by (nonlinear_arith);
                vstd::arithmetic::div_mod::lemma_fundamental_div_mod_converse(
                    x as int,
                    UNIT as int,
                    q0 as int - 1,
                    (x - (q0 - 1) * UNIT) as int,
                );
            }
        }
    }
    if r0 < 0 {
        (q0 - 1, r0 + UNIT)
    } else {
        (q0, r0)
    }
}

/// One corner sphere of the base field: distance from the in-cell fraction
/// to the corner, minus the corner's pseudo-random radius.
#[verifier::opaque]
pub open spec fn sph_s(fx: int, fy: int, fz: int, ix: int, iy: int, iz: int, cx: int, cy: int, cz: int) -> int {
    sqrt_floor(
        (fx - cx * UNIT) * (fx - cx * UNIT) + (fy - cy * UNIT) * (fy - cy * UNIT) + (fz - cz
            * UNIT) * (fz - cz * UNIT),
    ) - cell_radius_s(ix + cx, iy + cy, iz + cz)
}

/// Evaluate one corner sphere.
fn sph(fx: i64, fy: i64, fz: i64, ix: i64, iy: i64, iz: i64, cx: i64, cy: i64, cz: i64) -> (d: i64)
    requires
        0 <= fx < UNIT,
        0 <= fy < UNIT,
        0 <= fz < UNIT,
        -LATTICE_OFF - 1 <= ix <= LATTICE_OFF,
        -LATTICE_OFF - 1 <= iy <= LATTICE_OFF,
        -LATTICE_OFF - 1 <= iz <= LATTICE_OFF,
        cx == 0 || cx == 1,
        cy == 0 || cy == 1,
        cz == 0 || cz == 1,
    ensures
        d == sph_s(fx as int, fy as int, fz as int, ix as int, iy as int, iz as int, cx as int,
            cy as int, cz as int),
        -UNIT <= d <= 3 * UNIT,
{
    let v = Vec3 { x: fx - cx * UNIT, y: fy - cy * UNIT, z: fz - cz * UNIT };
    proof {
        reveal(sph_s);
        crate::vec3::lemma_norm3_bound(v, UNIT as int);
    }
    let n = v.norm();
    let rad = cell_radius(ix + cx, iy + cy, iz + cz);
    n - rad
}

/// The base noise field: the minimum over the eight corner spheres of the
/// query point's lattice cell.
#[verifier::opaque]
pub open spec fn sd_base_s(p: Vec3) -> int {
    let ix = p.x as int / (UNIT as int);
    let iy = p.y as int / (UNIT as int);
    let iz = p.z as int / (UNIT as int);
    let fx = p.x as int % (UNIT as int);
    let fy = p.y as int % (UNIT as int);
    let fz = p.z as int % (UNIT as int);
    min(
        min(
            min(sph_s(fx, fy, fz, ix, iy, iz, 0, 0, 0), sph_s(fx, fy, fz, ix, iy, iz, 0, 0, 1)),
            min(sph_s(fx, fy, fz, ix, iy, iz, 0, 1, 0), sph_s(fx, fy, fz, ix, iy, iz, 0, 1, 1)),
        ),
        min(
            min(sph_s(fx, fy, fz, ix, iy, iz, 1, 0, 0), sph_s(fx, fy, fz, ix, iy, iz, 1, 0, 1)),
            min(sph_s(fx, fy, fz, ix, iy, iz, 1, 1, 0), sph_s(fx, fy, fz, ix, iy, iz, 1, 1, 1)),
        ),
    )
}

/// Evaluate the base noise field.
pub fn sd_base(p: Vec3) -> (d: i64)
    requires
        -FBM_P_MAX <= p.x <= FBM_P_MAX,
        -FBM_P_MAX <= p.y <= FBM_P_MAX,
        -FBM_P_MAX <= p.z <= FBM_P_MAX,
    ensures
        d == sd_base_s(p),
        -UNIT <= d <= 3 * UNIT,
{
    proof {
        reveal(sd_base_s);
    }
    let (ix, fx) = floor_unit(p.x);
    let (iy, fy) = floor_unit(p.y);
    let (iz, fz) = floor_unit(p.z);
    let d = min2(
        min2(
            min2(sph(fx, fy, fz, ix, iy, iz, 0, 0, 0), sph(fx, fy, fz, ix, iy, iz, 0, 0, 1)),
            min2(sph(fx, fy, fz, ix, iy, iz, 0, 1, 0), sph(fx, fy, fz, ix, iy, iz, 0, 1, 1)),
        ),
        min2(
            min2(sph(fx, fy, fz, ix, iy, iz, 1, 0, 0), sph(fx, fy, fz, ix, iy, iz, 1, 0, 1)),
            min2(sph(fx, fy, fz, ix, iy, iz, 1, 1, 0), sph(fx, fy, fz, ix, iy, iz, 1, 1, 1)),
        ),
    );
    d
}

/// The fixed domain matrix applied between octaves: a rotation scaled by
/// two, componentwise `(row . p) / UNIT` rounded toward zero.
#[verifier::opaque]
pub open spec fn domain_rot_s(p: Vec3) -> Vec3 {
    Vec3 {
        x: (div_t(104858 * p.y + 78643 * p.z, UNIT as int)) as i64,
        y: (div_t(-104858 * p.x + 47186 * p.y - 62915 * p.z, UNIT as int)) as i64,
        z: (div_t(-78643 * p.x - 62915 * p.y + 83886 * p.z, UNIT as int)) as i64,
    }
}

/// Apply the domain matrix; components grow by at most the matrix norm.
#[verifier::rlimit(50)]
fn domain_rot(p: Vec3) -> (r: Vec3)
    requires
        -FBM_P_MAX <= p.x <= FBM_P_MAX,
        -FBM_P_MAX <= p.y <= FBM_P_MAX,
        -FBM_P_MAX <= p.z <= FBM_P_MAX,
    ensures
        r == domain_rot_s(p),
        ({
            let m = max(
                vstd::math::abs(p.x as int) as int,
                max(vstd::math::abs(p.y as int) as int, vstd::math::abs(p.z as int) as int),
            );
            -6 * m <= r.x <= 6 * m && -6 * m <= r.y <= 6 * m && -6 * m <= r.z <= 6 * m
        }),
{
    let ghost m = max(
        vstd::math::abs(p.x as int) as int,
        max(vstd::math::abs(p.y as int) as int, vstd::math::abs(p.z as int) as int),
    );
    proof {
        reveal(domain_rot_s);
        lemma_mul_bounds(104858, p.y as int, 104858, m);
        lemma_mul_bounds(78643, p.z as int, 78643, m);
        lemma_mul_bounds(-104858, p.x as int, 104858, m);
        lemma_mul_bounds(47186, p.y as int, 47186, m);
        lemma_mul_bounds(-62915, p.z as int, 62915, m);
        lemma_mul_bounds(-78643, p.x as int, 78643, m);
        lemma_mul_bounds(-62915, p.y as int, 62915, m);
        lemma_mul_bounds(83886, p.z as int, 83886, m);
        lemma_div_unit_scale(104858 * p.y + 78643 * p.z, m);
        lemma_div_unit_scale(-104858 * p.x + 47186 * p.y - 62915 * p.z, m);
        lemma_div_unit_scale(-78643 * p.x - 62915 * p.y + 83886 * p.z, m);
    }
    let rx: i128 = 104858 * (p.y as i128) + 78643 * (p.z as i128);
    let ry: i128 = -104858 * (p.x as i128) + 47186 * (p.y as i128) - 62915 * (p.z as i128);
    let rz: i128 = -78643 * (p.x as i128) - 62915 * (p.y as i128) + 83886 * (p.z as i128);
    Vec3 {
        x: (rx / (UNIT as i128)) as i64,
        y: (ry / (UNIT as i128)) as i64,
        z: (rz / (UNIT as i128)) as i64,
    }
}

/// A row sum bounded by `6 * m * UNIT` divides down to at most `6 * m`.
proof fn lemma_div_unit_scale(a: int, m: int)
    requires
        m >= 0,
        -6 * m * UNIT <= a <= 6 * m * UNIT,
    ensures
        -6 * m <= div_t(a, UNIT as int) <= 6 * m,
{
    let aa = vstd::math::abs(a) as int;
    vstd::arithmetic::div_mod::lemma_div_is_ordered(aa, 6 * m * UNIT, UNIT as int);
    assert(6 * m * UNIT == (6 * m) * UNIT);
    vstd::arithmetic::div_mod::lemma_div_by_multiple(6 * m, UNIT as int);
    vstd::arithmetic::div_mod::lemma_div_pos_is_pos(aa, UNIT as int);
}

/// One fBm octave: blend the scaled base field into the running distance
/// with a smooth maximum then a smooth minimum of width `k = 3s/10`.
#[verifier::opaque]
pub open spec fn octave_s(p: Vec3, d: int, s: int) -> int {
    let n = div_t(s * sd_base_s(p), UNIT as int);
    let n2 = smax_s(n, d - s / 10, 3 * s / 10);
    smin_s(n2, d, 3 * s / 10)
}

/// Evaluate one octave. The result never exceeds the running distance and
/// drops below it by at most `s/10 + (3s/10)/4 + 1`.
fn octave(p: Vec3, d: i64, s: i64) -> (r: i64)
    requires
        -FBM_P_MAX <= p.x <= FBM_P_MAX,
        -FBM_P_MAX <= p.y <= FBM_P_MAX,
        -FBM_P_MAX <= p.z <= FBM_P_MAX,
        -2 * DIST3_MAX <= d <= 2 * DIST3_MAX,
        1000 <= s <= UNIT,
    ensures
        r == octave_s(p, d as int, s as int),
        r <= d,
        r >= d - s / 10 - (3 * s / 10) / 4 - 1,
{
    proof {
        reveal(octave_s);
    }
    let base = sd_base(p);
    proof {
        lemma_mul_bounds(s as int, base as int, UNIT as int, 3 * UNIT as int);
        let aa = vstd::math::abs(s * base) as int;
        vstd::arithmetic::div_mod::lemma_div_is_ordered(aa, 3 * UNIT * UNIT, UNIT as int);
        assert(3 * UNIT * UNIT == (3 * UNIT) * UNIT);
        vstd::arithmetic::div_mod::lemma_div_by_multiple(3 * UNIT, UNIT as int);
        vstd::arithmetic::div_mod::lemma_div_pos_is_pos(aa, UNIT as int);
    }
    let n = mul_fp(s, base);
    let k = 3 * s / 10;
    let n2 = smax(n, d - s / 10, k);
    let r = smin(n2, d, k);
    r
}

/// Total drop bound of the four reference octaves.
pub const FBM_MAX_DROP: i64 = 21504;

/// The four-octave fBm field seeded with running distance `d` at point `p`.
#[verifier::opaque]
pub open spec fn sd_fbm_s(p: Vec3, d: int) -> int {
    let d1 = octave_s(p, d, 65536);
    let p1 = domain_rot_s(p);
    let d2 = octave_s(p1, d1, 32768);
    let p2 = domain_rot_s(p1);
    let d3 = octave_s(p2, d2, 16384);
    let p3 = domain_rot_s(p2);
    octave_s(p3, d3, 8192)
}

/// Blend four octaves of domain-warped noise into the distance `d` at
/// point `p`. The result never exceeds `d` and is at least
/// `d - FBM_MAX_DROP`, so the blended field remains a usable (if inexact)
/// distance field.
#[verifier::rlimit(100)]
pub fn sd_fbm(p: Vec3, d: i64) -> (r: i64)
    requires
        v3_coord_ok(p),
        -DIST3_MAX <= d <= DIST3_MAX,
    ensures
        r == sd_fbm_s(p, d as int),
        r <= d,
        r >= d - FBM_MAX_DROP,
{
    let d1 = octave(p, d, 65536);
    let p1 = domain_rot(p);
    let d2 = octave(p1, d1, 32768);
    let p2 = domain_rot(p1);
    let d3 = octave(p2, d2, 16384);
    let p3 = domain_rot(p2);
    let r = octave(p3, d3, 8192);
    proof {
        assert(r == sd_fbm_s(p, d as int)) by {
            reveal(sd_fbm_s);
        }
    }
    r
}

} // verus!
