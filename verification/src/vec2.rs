//! Plane vectors of fixed-point scalars, with the raw dot product and the
//! floor-rounded Euclidean length used by the 2D distance functions.

use crate::fixed::{isqrt, sqrt_floor};
use crate::{coord_ok, span_ok, SPAN_MAX};
use vstd::prelude::*;

verus! {

/// A 2D point or direction; components are 48.16 fixed-point.
#[derive(Clone, Copy, PartialEq, Eq, Structural, Debug)]
pub struct Vec2 {
    pub x: i64,
    pub y: i64,
}

/// Both components are valid world coordinates.
pub open spec fn v2_coord_ok(v: Vec2) -> bool {
    coord_ok(v.x) && coord_ok(v.y)
}

/// Both components lie in the local frame range (twice the world range).
pub open spec fn v2_local_ok(v: Vec2) -> bool {
    crate::local_ok(v.x as int) && crate::local_ok(v.y as int)
}

/// A mathematical (unbounded) plane vector, used only in specifications.
pub ghost struct Vec2Ghost {
    pub x: int,
    pub y: int,
}

/// Both components are small enough to enter a squared length.
pub open spec fn v2_span_ok(v: Vec2) -> bool {
    span_ok(v.x as int) && span_ok(v.y as int)
}

/// Raw dot product; the scale of the result is `UNIT * UNIT`.
pub open spec fn dot2_raw(a: Vec2, b: Vec2) -> int {
    a.x * b.x + a.y * b.y
}

/// Raw 2D cross product (the z component of the 3D cross); the scale of
/// the result is `UNIT * UNIT`.
pub open spec fn cross2_raw(a: Vec2, b: Vec2) -> int {
    a.x * b.y - a.y * b.x
}

/// Squared Euclidean length, in raw `UNIT * UNIT` scale.
pub open spec fn len_sq2(v: Vec2) -> int {
    dot2_raw(v, v)
}

/// Euclidean length rounded down to a raw tick.
pub open spec fn norm2_s(v: Vec2) -> int {
    sqrt_floor(len_sq2(v))
}

impl Vec2 {
    /// Build a vector from raw components.
    pub fn new(x: i64, y: i64) -> (r: Vec2)
        ensures
            r == (Vec2 { x, y }),
    {
        Vec2 { x, y }
    }

    /// Componentwise difference.
    pub fn sub(self, o: Vec2) -> (r: Vec2)
        requires
            crate::fixed::fits_i64(self.x - o.x),
            crate::fixed::fits_i64(self.y - o.y),
        ensures
            r.x == self.x - o.x,
            r.y == self.y - o.y,
    {
        Vec2 { x: self.x - o.x, y: self.y - o.y }
    }

    /// Componentwise sum.
    pub fn plus(self, o: Vec2) -> (r: Vec2)
        requires
            crate::fixed::fits_i64(self.x + o.x),
            crate::fixed::fits_i64(self.y + o.y),
        ensures
            r.x == self.x + o.x,
            r.y == self.y + o.y,
    {
        Vec2 { x: self.x + o.x, y: self.y + o.y }
    }

    /// Euclidean length, rounded down to a raw tick.
    pub fn norm(self) -> (r: i64)
        requires
            v2_span_ok(self),
        ensures
            r == norm2_s(self),
            0 <= r <= 0x1_0000_0000,
    {
        let ax: u64 = if self.x < 0 {
            (-self.x) as u64
        } else {
            self.x as u64
        };
        let ay: u64 = if self.y < 0 {
            (-self.y) as u64
        } else {
            self.y as u64
        };
        proof {
            assert(ax * ax == self.x * self.x && ax * ax <= SPAN_MAX * SPAN_MAX)
                by (nonlinear_arith)
                requires
                    ax == vstd::math::abs(self.x as int),
                    vstd::math::abs(self.x as int) <= SPAN_MAX,
            ;
            assert(ay * ay == self.y * self.y && ay * ay <= SPAN_MAX * SPAN_MAX)
                by (nonlinear_arith)
                requires
                    ay == vstd::math::abs(self.y as int),
                    vstd::math::abs(self.y as int) <= SPAN_MAX,
            ;
        }
        let s: u64 = ax * ax + ay * ay;
        let r = isqrt(s);
        r as i64
    }
}

/// A componentwise bound gives a length bound: the Euclidean length of a
/// plane vector with components in `[-m, m]` is less than `2 m`.
pub proof fn lemma_norm2_bound(v: Vec2, m: int)
    requires
        0 <= m <= 0x1_0000_0000_0000,
        -m <= v.x <= m,
        -m <= v.y <= m,
    ensures
        0 <= norm2_s(v) <= 2 * m,
{
    assert(len_sq2(v) >= 0) by (nonlinear_arith);
    crate::fixed::lemma_sqrt_floor_bounds(len_sq2(v));
    let s = norm2_s(v);
    assert(len_sq2(v) <= 2 * m * m) by (nonlinear_arith)
        requires
            -m <= v.x <= m,
            -m <= v.y <= m,
    ;
    if s > 2 * m {
        assert((2 * m + 1) * (2 * m + 1) <= s * s) by (nonlinear_arith)
            requires
                0 <= 2 * m + 1 <= s,
        ;
        assert(2 * m * m < (2 * m + 1) * (2 * m + 1)) by (nonlinear_arith)
            requires
                m >= 0,
        ;
    }
}

} // verus!
