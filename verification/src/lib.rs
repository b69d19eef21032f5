//! A signed-distance-field (SDF) evaluation engine over fixed-point scalars.
//!
//! Scalars are signed 48.16 fixed-point numbers: an `i64` counts multiples of
//! `1 / UNIT` where `UNIT == 65536`. The crate provides exact and tightly
//! bounded distance functions for 2D and 3D primitives, boolean (CSG)
//! combinators with smooth variants, a stack-based postfix interpreter that
//! composes primitives into compound fields, and a sphere-tracing loop that
//! intersects rays with a field under a fixed step budget.

pub mod fbm;
pub mod fixed;
pub mod interpreter;
pub mod march;
pub mod ops;
pub mod sdf2;
pub mod sdf3;
pub mod select;
pub mod smooth;
pub mod stack;
pub mod vec2;
pub mod vec3;

use vstd::prelude::*;

verus! {

/// Fixed-point scale: one spatial unit is `UNIT` raw ticks.
pub const UNIT: i64 = 65536;

/// Largest raw coordinate magnitude accepted for points, offsets and shape
/// parameters. Chosen so that every intermediate product and squared length
/// the engine forms stays inside `i64` and `u64`.
pub const COORD_MAX: i64 = 0x0800_0000;

/// Raw values with magnitude at most `COORD_MAX` are valid world
/// coordinates and shape parameters.
pub open spec fn coord_ok(x: i64) -> bool {
    -COORD_MAX <= x <= COORD_MAX
}

/// Points already moved into a primitive's local frame (a world point minus
/// a transform offset) may be twice as large.
pub open spec fn local_ok(x: int) -> bool {
    -2 * COORD_MAX <= x <= 2 * COORD_MAX
}

/// Components of unit-length directions and normals lie within one unit.
pub open spec fn unit_ok(x: i64) -> bool {
    -UNIT <= x <= UNIT
}

/// Bound on the components a squared length can be formed from: three such
/// squares still sum inside `u64`.
pub const SPAN_MAX: i64 = 0x8000_0000;

/// Raw values small enough to enter a squared length.
pub open spec fn span_ok(x: int) -> bool {
    -SPAN_MAX <= x <= SPAN_MAX
}

} // verus!
