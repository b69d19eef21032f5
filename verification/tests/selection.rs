use sdfcore::select::{Params, Shape, ShapeSpec};
use sdfcore::UNIT;

#[test]
fn index_selection_and_fallback() {
    assert_eq!(Shape::from_u32(0), Shape::Circle);
    assert_eq!(Shape::from_u32(1), Shape::Rectangle);
    assert_eq!(Shape::from_u32(2), Shape::EquilateralTriangle);
    assert_eq!(Shape::from_u32(3), Shape::IsoscelesTriangle);
    assert_eq!(Shape::from_u32(4), Shape::Triangle);
    assert_eq!(Shape::from_u32(5), Shape::Capsule);
    assert_eq!(Shape::from_u32(6), Shape::Torus);
    assert_eq!(Shape::from_u32(7), Shape::Line);
    assert_eq!(Shape::from_u32(8), Shape::Plane);
    assert_eq!(Shape::from_u32(9), Shape::LineSegement);
    assert_eq!(Shape::from_u32(10), Shape::PlaneSegment);
    assert_eq!(Shape::from_u32(11), Shape::Ray);
    assert_eq!(Shape::from_u32(12), Shape::PlaneRay);
    // out-of-range indices fall back to the default kind
    assert_eq!(Shape::from_u32(13), Shape::Circle);
    assert_eq!(Shape::from_u32(9999), Shape::Circle);
}

#[test]
fn shape_specs() {
    assert_eq!(
        Shape::Circle.shape_spec(),
        ShapeSpec { num_dims: 1, num_points: 0, is_radial: true },
    );
    assert_eq!(
        Shape::Rectangle.shape_spec(),
        ShapeSpec { num_dims: 2, num_points: 0, is_radial: false },
    );
    assert_eq!(
        Shape::Triangle.shape_spec(),
        ShapeSpec { num_dims: 0, num_points: 3, is_radial: false },
    );
    assert_eq!(
        Shape::Capsule.shape_spec(),
        ShapeSpec { num_dims: 1, num_points: 2, is_radial: true },
    );
    assert_eq!(
        Shape::Torus.shape_spec(),
        ShapeSpec { num_dims: 2, num_points: 0, is_radial: true },
    );
    assert_eq!(
        Shape::Plane.shape_spec(),
        ShapeSpec { num_dims: 0, num_points: 0, is_radial: false },
    );
    assert_eq!(
        Shape::Ray.shape_spec(),
        ShapeSpec { num_dims: 0, num_points: 1, is_radial: false },
    );
}

#[test]
fn default_parameters() {
    let radial = Shape::Circle.params();
    assert_eq!(
        radial,
        Params {
            dim1: UNIT / 5,
            dim2: UNIT / 20,
            x0: 0,
            y0: 0,
            x1: UNIT / 5,
            y1: UNIT / 5,
            x2: -(2 * UNIT / 5),
            y2: 7 * UNIT / 20,
        },
    );
    let boxy = Shape::Rectangle.params();
    assert_eq!(boxy.dim1, UNIT / 2);
    assert_eq!(boxy.dim2, UNIT / 5);
    assert_eq!(boxy.x2, radial.x2);
}
