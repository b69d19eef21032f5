//! Space vectors of fixed-point scalars: raw dot product, fixed-point dot
//! and cross products against unit normals, scaling along a ray, and the
//! floor-rounded Euclidean length used by the 3D distance functions.

use crate::fixed::{div_t, fits_i64, isqrt, lemma_mul_bounds, sqrt_floor};
use crate::{coord_ok, span_ok, unit_ok, COORD_MAX, SPAN_MAX, UNIT};
use vstd::prelude::*;

verus! {

/// A 3D point or direction; components are 48.16 fixed-point.
#[derive(Clone, Copy, PartialEq, Eq, Structural, Debug)]
pub struct Vec3 {
    pub x: i64,
    pub y: i64,
    pub z: i64,
}

/// All components are valid world coordinates.
pub open spec fn v3_coord_ok(v: Vec3) -> bool {
    coord_ok(v.x) && coord_ok(v.y) && coord_ok(v.z)
}

/// All components lie in the local frame range (twice the world range).
pub open spec fn v3_local_ok(v: Vec3) -> bool {
    crate::local_ok(v.x as int) && crate::local_ok(v.y as int) && crate::local_ok(v.z as int)
}

/// All components are small enough to enter a squared length.
pub open spec fn v3_span_ok(v: Vec3) -> bool {
    span_ok(v.x as int) && span_ok(v.y as int) && span_ok(v.z as int)
}

/// All components lie within one unit, as for a unit direction or normal.
pub open spec fn v3_unit_ok(v: Vec3) -> bool {
    unit_ok(v.x) && unit_ok(v.y) && unit_ok(v.z)
}

/// Raw dot product; the scale of the result is `UNIT * UNIT`.
pub open spec fn dot3_raw(a: Vec3, b: Vec3) -> int {
    a.x * b.x + a.y * b.y + a.z * b.z
}

/// Squared Euclidean length, in raw `UNIT * UNIT` scale.
pub open spec fn len_sq3(v: Vec3) -> int {
    dot3_raw(v, v)
}

/// Euclidean length rounded down to a raw tick.
pub open spec fn norm3_s(v: Vec3) -> int {
    sqrt_floor(len_sq3(v))
}

/// Fixed-point dot product: `dot3_raw / UNIT`, rounded toward zero.
pub open spec fn dot3_fp(a: Vec3, b: Vec3) -> int {
    div_t(dot3_raw(a, b), UNIT as int)
}

/// Fixed-point cross product against `n`, componentwise
/// `(cross raw) / UNIT` rounded toward zero.
pub open spec fn cross3_fp(a: Vec3, n: Vec3) -> Vec3Ghost {
    Vec3Ghost {
        x: div_t(a.y * n.z - a.z * n.y, UNIT as int),
        y: div_t(a.z * n.x - a.x * n.z, UNIT as int),
        z: div_t(a.x * n.y - a.y * n.x, UNIT as int),
    }
}

/// A mathematical (unbounded) vector, used only in specifications.
pub ghost struct Vec3Ghost {
    pub x: int,
    pub y: int,
    pub z: int,
}

impl Vec3 {
    /// Build a vector from raw components.
    pub fn new(x: i64, y: i64, z: i64) -> (r: Vec3)
        ensures
            r == (Vec3 { x, y, z }),
    {
        Vec3 { x, y, z }
    }

    /// Componentwise difference.
    pub fn sub(self, o: Vec3) -> (r: Vec3)
        requires
            fits_i64(self.x - o.x),
            fits_i64(self.y - o.y),
            fits_i64(self.z - o.z),
        ensures
            r.x == self.x - o.x,
            r.y == self.y - o.y,
            r.z == self.z - o.z,
    {
        Vec3 { x: self.x - o.x, y: self.y - o.y, z: self.z - o.z }
    }

    /// Componentwise sum.
    pub fn plus(self, o: Vec3) -> (r: Vec3)
        requires
            fits_i64(self.x + o.x),
            fits_i64(self.y + o.y),
            fits_i64(self.z + o.z),
        ensures
            r.x == self.x + o.x,
            r.y == self.y + o.y,
            r.z == self.z + o.z,
    {
        Vec3 { x: self.x + o.x, y: self.y + o.y, z: self.z + o.z }
    }

    /// Euclidean length, rounded down to a raw tick.
    pub fn norm(self) -> (r: i64)
        requires
            v3_span_ok(self),
        ensures
            r == norm3_s(self),
            0 <= r <= 0x1_0000_0000,
    {
        let ax: u64 = if self.x < 0 {
            (-self.x) as u64
        } else {
            self.x as u64
        };
        let ay: u64 = if self.y < 0 {
            (-self.y) as u64
        } else {
            self.y as u64
        };
        let az: u64 = if self.z < 0 {
            (-self.z) as u64
        } else {
            self.z as u64
        };
        proof {
            assert(ax * ax == self.x * self.x && ax * ax <= SPAN_MAX * SPAN_MAX)
                by (nonlinear_arith)
                requires
                    ax == vstd::math::abs(self.x as int),
                    vstd::math::abs(self.x as int) <= SPAN_MAX,
            ;
            assert(ay * ay == self.y * self.y && ay * ay <= SPAN_MAX * SPAN_MAX)
                by (nonlinear_arith)
                requires
                    ay == vstd::math::abs(self.y as int),
                    vstd::math::abs(self.y as int) <= SPAN_MAX,
            ;
            assert(az * az == self.z * self.z && az * az <= SPAN_MAX * SPAN_MAX)
                by (nonlinear_arith)
                requires
                    az == vstd::math::abs(self.z as int),
                    vstd::math::abs(self.z as int) <= SPAN_MAX,
            ;
        }
        let s: u64 = ax * ax + ay * ay + az * az;
        let r = isqrt(s);
        r as i64
    }

    /// Fixed-point dot product against a unit-bounded vector.
    pub fn dot_fp(self, n: Vec3) -> (r: i64)
        requires
            v3_local_ok(self),
            v3_unit_ok(n),
        ensures
            r == dot3_fp(self, n),
            -6 * COORD_MAX <= r <= 6 * COORD_MAX,
    {
        proof {
            lemma_mul_bounds(self.x as int, n.x as int, 2 * COORD_MAX as int, UNIT as int);
            lemma_mul_bounds(self.y as int, n.y as int, 2 * COORD_MAX as int, UNIT as int);
            lemma_mul_bounds(self.z as int, n.z as int, 2 * COORD_MAX as int, UNIT as int);
        }
        let p: i128 = (self.x as i128) * (n.x as i128) + (self.y as i128) * (n.y as i128)
            + (self.z as i128) * (n.z as i128);
        let q: i128 = p / (UNIT as i128);
        q as i64
    }

    /// Fixed-point cross product against a unit-bounded vector.
    pub fn cross_fp(self, n: Vec3) -> (r: Vec3)
        requires
            v3_local_ok(self),
            v3_unit_ok(n),
        ensures
            r.x == cross3_fp(self, n).x,
            r.y == cross3_fp(self, n).y,
            r.z == cross3_fp(self, n).z,
            -4 * COORD_MAX <= r.x <= 4 * COORD_MAX,
            -4 * COORD_MAX <= r.y <= 4 * COORD_MAX,
            -4 * COORD_MAX <= r.z <= 4 * COORD_MAX,
    {
        proof {
            lemma_mul_bounds(self.x as int, n.x as int, 2 * COORD_MAX as int, UNIT as int);
            lemma_mul_bounds(self.y as int, n.y as int, 2 * COORD_MAX as int, UNIT as int);
            lemma_mul_bounds(self.z as int, n.z as int, 2 * COORD_MAX as int, UNIT as int);
            lemma_mul_bounds(self.x as int, n.y as int, 2 * COORD_MAX as int, UNIT as int);
            lemma_mul_bounds(self.y as int, n.z as int, 2 * COORD_MAX as int, UNIT as int);
            lemma_mul_bounds(self.z as int, n.x as int, 2 * COORD_MAX as int, UNIT as int);
            lemma_mul_bounds(self.x as int, n.z as int, 2 * COORD_MAX as int, UNIT as int);
            lemma_mul_bounds(self.y as int, n.x as int, 2 * COORD_MAX as int, UNIT as int);
            lemma_mul_bounds(self.z as int, n.y as int, 2 * COORD_MAX as int, UNIT as int);
        }
        let cx: i128 = (self.y as i128) * (n.z as i128) - (self.z as i128) * (n.y as i128);
        let cy: i128 = (self.z as i128) * (n.x as i128) - (self.x as i128) * (n.z as i128);
        let cz: i128 = (self.x as i128) * (n.y as i128) - (self.y as i128) * (n.x as i128);
        Vec3 {
            x: (cx / (UNIT as i128)) as i64,
            y: (cy / (UNIT as i128)) as i64,
            z: (cz / (UNIT as i128)) as i64,
        }
    }

    /// Scale by a fixed-point factor `t`: componentwise `self * t / UNIT`,
    /// rounded toward zero.
    pub fn scale_fp(self, t: i64) -> (r: Vec3)
        requires
            v3_unit_ok(self),
            -0x1000_0000_0000 <= t <= 0x1000_0000_0000,
        ensures
            r.x == div_t(self.x * t, UNIT as int),
            r.y == div_t(self.y * t, UNIT as int),
            r.z == div_t(self.z * t, UNIT as int),
            -0x1000_0000_0000 <= r.x <= 0x1000_0000_0000,
            -0x1000_0000_0000 <= r.y <= 0x1000_0000_0000,
            -0x1000_0000_0000 <= r.z <= 0x1000_0000_0000,
    {
        proof {
            lemma_mul_bounds(self.x as int, t as int, UNIT as int, 0x1000_0000_0000int);
            lemma_mul_bounds(self.y as int, t as int, UNIT as int, 0x1000_0000_0000int);
            lemma_mul_bounds(self.z as int, t as int, UNIT as int, 0x1000_0000_0000int);
        }
        Vec3 {
            x: ((self.x as i128) * (t as i128) / (UNIT as i128)) as i64,
            y: ((self.y as i128) * (t as i128) / (UNIT as i128)) as i64,
            z: ((self.z as i128) * (t as i128) / (UNIT as i128)) as i64,
        }
    }
}

/// A componentwise bound gives a length bound: the Euclidean length of a
/// vector with components in `[-m, m]` is less than `2 m`.
pub proof fn lemma_norm3_bound(v: Vec3, m: int)
    requires
        0 <= m <= 0x1_0000_0000_0000,
        -m <= v.x <= m,
        -m <= v.y <= m,
        -m <= v.z <= m,
    ensures
        0 <= norm3_s(v) <= 2 * m,
{
    assert(len_sq3(v) >= 0) by (nonlinear_arith);
    crate::fixed::lemma_sqrt_floor_bounds(len_sq3(v));
    let s = norm3_s(v);
    assert(len_sq3(v) <= 3 * m * m) by (nonlinear_arith)
        requires
            -m <= v.x <= m,
            -m <= v.y <= m,
            -m <= v.z <= m,
    ;
    if s > 2 * m {
        assert((2 * m + 1) * (2 * m + 1) <= s * s) by (nonlinear_arith)
            requires
                0 <= 2 * m + 1 <= s,
        ;
        assert(3 * m * m < (2 * m + 1) * (2 * m + 1)) by (nonlinear_arith)
            requires
                m >= 0,
        ;
    }
}

} // verus!
