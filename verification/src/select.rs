//! Shape selection for simple, non-interpreted scenes: a single primitive
//! kind chosen by index at run time, parametrized by one shared `Params`
//! record whose meaning depends on the kind's `ShapeSpec` (how many
//! dimension scalars and control points it consumes, and whether its
//! dimensions are radius-style).

use crate::UNIT;
use vstd::prelude::*;

verus! {

/// The selectable 2D shape kinds.
#[derive(Clone, Copy, PartialEq, Eq, Structural, Debug)]
pub enum Shape {
    Circle,
    Rectangle,
    EquilateralTriangle,
    IsoscelesTriangle,
    Triangle,
    Capsule,
    Torus,
    Line,
    Plane,
    LineSegement,
    PlaneSegment,
    Ray,
    PlaneRay,
}

/// How a kind consumes the shared `Params` record.
#[derive(Clone, Copy, PartialEq, Eq, Structural, Debug)]
pub struct ShapeSpec {
    /// How many dimension scalars the kind reads.
    pub num_dims: u32,
    /// How many 2D control points the kind reads.
    pub num_points: u32,
    /// Whether the dimension scalars are radius-style paddings.
    pub is_radial: bool,
}

/// The shared parameter record: two dimension scalars and up to three 2D
/// control points, all fixed-point.
#[derive(Clone, Copy, PartialEq, Eq, Structural, Debug)]
pub struct Params {
    pub dim1: i64,
    pub dim2: i64,
    pub x0: i64,
    pub y0: i64,
    pub x1: i64,
    pub y1: i64,
    pub x2: i64,
    pub y2: i64,
}

/// The selection table: which parts of `Params` each kind consumes.
pub open spec fn shape_spec_s(s: Shape) -> ShapeSpec {
    match s {
        Shape::Circle => ShapeSpec { num_dims: 1, num_points: 0, is_radial: true },
        Shape::Rectangle => ShapeSpec { num_dims: 2, num_points: 0, is_radial: false },
        Shape::EquilateralTriangle => ShapeSpec { num_dims: 1, num_points: 0, is_radial: true },
        Shape::IsoscelesTriangle => ShapeSpec { num_dims: 2, num_points: 0, is_radial: false },
        Shape::Triangle => ShapeSpec { num_dims: 0, num_points: 3, is_radial: false },
        Shape::Capsule => ShapeSpec { num_dims: 1, num_points: 2, is_radial: true },
        Shape::Torus => ShapeSpec { num_dims: 2, num_points: 0, is_radial: true },
        Shape::Line => ShapeSpec { num_dims: 0, num_points: 0, is_radial: false },
        Shape::Plane => ShapeSpec { num_dims: 0, num_points: 0, is_radial: false },
        Shape::LineSegement => ShapeSpec { num_dims: 0, num_points: 2, is_radial: false },
        Shape::PlaneSegment => ShapeSpec { num_dims: 0, num_points: 2, is_radial: false },
        Shape::Ray => ShapeSpec { num_dims: 0, num_points: 1, is_radial: false },
        Shape::PlaneRay => ShapeSpec { num_dims: 0, num_points: 1, is_radial: false },
    }
}

/// The kind selected by an index, counting from `Circle`; an out-of-range
/// index falls back to the default kind rather than failing.
pub open spec fn from_u32_s(x: u32) -> Shape {
    if x == 1 {
        Shape::Rectangle
    } else if x == 2 {
        Shape::EquilateralTriangle
    } else if x == 3 {
        Shape::IsoscelesTriangle
    } else if x == 4 {
        Shape::Triangle
    } else if x == 5 {
        Shape::Capsule
    } else if x == 6 {
        Shape::Torus
    } else if x == 7 {
        Shape::Line
    } else if x == 8 {
        Shape::Plane
    } else if x == 9 {
        Shape::LineSegement
    } else if x == 10 {
        Shape::PlaneSegment
    } else if x == 11 {
        Shape::Ray
    } else if x == 12 {
        Shape::PlaneRay
    } else {
        Shape::Circle
    }
}

impl Shape {
    /// Select a kind by index; out-of-range indices yield `Circle`.
    pub fn from_u32(x: u32) -> (s: Shape)
        ensures
            s == from_u32_s(x),
            x >= 13 ==> s == Shape::Circle,
    {
        match x {
            1 => Shape::Rectangle,
            2 => Shape::EquilateralTriangle,
            3 => Shape::IsoscelesTriangle,
            4 => Shape::Triangle,
            5 => Shape::Capsule,
            6 => Shape::Torus,
            7 => Shape::Line,
            8 => Shape::Plane,
            9 => Shape::LineSegement,
            10 => Shape::PlaneSegment,
            11 => Shape::Ray,
            12 => Shape::PlaneRay,
            _ => Shape::Circle,
        }
    }

    /// How this kind consumes the shared parameter record.
    pub fn shape_spec(self) -> (r: ShapeSpec)
        ensures
            r == shape_spec_s(self),
    {
        match self {
            Shape::Circle => ShapeSpec { num_dims: 1, num_points: 0, is_radial: true },
            Shape::Rectangle => ShapeSpec { num_dims: 2, num_points: 0, is_radial: false },
            Shape::EquilateralTriangle => ShapeSpec {
                num_dims: 1,
                num_points: 0,
                is_radial: true,
            },
            Shape::IsoscelesTriangle => ShapeSpec { num_dims: 2, num_points: 0, is_radial: false },
            Shape::Triangle => ShapeSpec { num_dims: 0, num_points: 3, is_radial: false },
            Shape::Capsule => ShapeSpec { num_dims: 1, num_points: 2, is_radial: true },
            Shape::Torus => ShapeSpec { num_dims: 2, num_points: 0, is_radial: true },
            Shape::Line => ShapeSpec { num_dims: 0, num_points: 0, is_radial: false },
            Shape::Plane => ShapeSpec { num_dims: 0, num_points: 0, is_radial: false },
            Shape::LineSegement => ShapeSpec { num_dims: 0, num_points: 2, is_radial: false },
            Shape::PlaneSegment => ShapeSpec { num_dims: 0, num_points: 2, is_radial: false },
            Shape::Ray => ShapeSpec { num_dims: 0, num_points: 1, is_radial: false },
            Shape::PlaneRay => ShapeSpec { num_dims: 0, num_points: 1, is_radial: false },
        }
    }

    /// Default parameters for this kind: radius-style kinds get small
    /// paddings (one fifth and one twentieth of a unit), the others get
    /// half-unit extents, with fixed default control points.
    pub fn params(&self) -> (r: Params)
        ensures
            shape_spec_s(*self).is_radial ==> r.dim1 == UNIT / 5 && r.dim2 == UNIT / 20,
            !shape_spec_s(*self).is_radial ==> r.dim1 == UNIT / 2 && r.dim2 == UNIT / 5,
            r.x0 == 0 && r.y0 == 0,
            r.x1 == UNIT / 5 && r.y1 == UNIT / 5,
            r.x2 == -(2 * UNIT / 5) && r.y2 == 7 * UNIT / 20,
    {
        let is_radial = self.shape_spec().is_radial;
        Params {
            dim1: if is_radial {
                UNIT / 5
            } else {
                UNIT / 2
            },
            dim2: if is_radial {
                UNIT / 20
            } else {
                UNIT / 5
            },
            x0: 0,
            y0: 0,
            x1: UNIT / 5,
            y1: UNIT / 5,
            x2: -(2 * UNIT / 5),
            y2: 7 * UNIT / 20,
        }
    }
}

} // verus!
