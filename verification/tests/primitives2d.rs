use sdfcore::sdf2::{
    sd_annulus, sd_capsule2, sd_capsule_x, sd_disk, sd_equilateral, sd_line2, sd_plane2, sd_ray2,
    sd_rectangle, sd_segment2, sd_triangle, Shape,
};
use sdfcore::vec2::Vec2;
use sdfcore::UNIT;

const EPS: i64 = 66; // about 1e-3 of a unit

fn v(x: i64, y: i64) -> Vec2 {
    Vec2 { x, y }
}

#[test]
fn disk_boundary_inside_outside() {
    assert_eq!(sd_disk(v(UNIT, 0), UNIT), 0);
    assert_eq!(sd_disk(v(0, 0), UNIT), -UNIT);
    assert_eq!(sd_disk(v(10 * UNIT, 0), UNIT), 9 * UNIT);
    // 3-4-5 triangle: exact length off-axis
    assert_eq!(sd_disk(v(3 * UNIT, 4 * UNIT), UNIT), 4 * UNIT);
}

#[test]
fn rectangle_boundary_inside_outside() {
    let hx = UNIT;
    let hy = UNIT / 2;
    assert_eq!(sd_rectangle(v(UNIT, 0), hx, hy), 0);
    assert_eq!(sd_rectangle(v(0, UNIT / 2), hx, hy), 0);
    assert_eq!(sd_rectangle(v(0, 0), hx, hy), -(UNIT / 2));
    assert_eq!(sd_rectangle(v(5 * UNIT, 0), hx, hy), 4 * UNIT);
    // corner distance is the diagonal overshoot
    let d = sd_rectangle(v(2 * UNIT, UNIT / 2 + UNIT), hx, hy);
    assert!((d - Vec2 { x: UNIT, y: UNIT }.norm()).abs() <= 1);
}

#[test]
fn annulus_boundary_inside_outside() {
    let major = 2 * UNIT;
    let minor = UNIT / 2;
    assert_eq!(sd_annulus(v(major + minor, 0), major, minor), 0);
    assert_eq!(sd_annulus(v(major - minor, 0), major, minor), 0);
    assert_eq!(sd_annulus(v(major, 0), major, minor), -minor);
    assert!(sd_annulus(v(10 * UNIT, 0), major, minor) > 0);
    assert!(sd_annulus(v(0, 0), major, minor) > 0); // the hole is outside
}

#[test]
fn segment_and_capsule() {
    let a = v(-UNIT, 0);
    let b = v(UNIT, 0);
    assert_eq!(sd_segment2(v(0, 0), a, b), 0);
    assert_eq!(sd_segment2(v(0, UNIT), a, b), UNIT);
    assert_eq!(sd_segment2(v(3 * UNIT, 0), a, b), 2 * UNIT);
    // degenerate segment measures from its point
    assert_eq!(sd_segment2(v(UNIT, 0), a, a), 2 * UNIT);
    let r = UNIT / 2;
    assert_eq!(sd_capsule2(v(0, UNIT), a, b, r), UNIT / 2);
    assert_eq!(sd_capsule2(v(UNIT + r, 0), a, b, r), 0);
    assert!(sd_capsule2(v(0, 0), a, b, r) < 0);
}

#[test]
fn ray_distance() {
    let origin = v(0, 0);
    let dir = v(UNIT, 0); // unit +x
    assert_eq!(sd_ray2(v(5 * UNIT, 0), origin, dir), 0);
    assert_eq!(sd_ray2(v(5 * UNIT, 2 * UNIT), origin, dir), 2 * UNIT);
    // behind the origin the distance is measured from the endpoint
    assert_eq!(sd_ray2(v(-3 * UNIT, 4 * UNIT), origin, dir), 5 * UNIT);
}

#[test]
fn equilateral_triangle() {
    let r = UNIT;
    // the centroid is inside
    assert!(sd_equilateral(v(0, 0), r) < 0);
    // the three vertices lie on the boundary
    let base_y = -37837; // -r / sqrt(3)
    assert!(sd_equilateral(v(r, base_y), r).abs() < EPS);
    assert!(sd_equilateral(v(-r, base_y), r).abs() < EPS);
    assert!(sd_equilateral(v(0, -2 * base_y), r).abs() < EPS);
    // the base edge midpoint lies on the boundary
    assert!(sd_equilateral(v(0, base_y), r).abs() < EPS);
    // far below the base the distance is about the gap to the edge
    let d = sd_equilateral(v(0, base_y - 5 * UNIT), r);
    assert!((d - 5 * UNIT).abs() < EPS);
    assert!(sd_equilateral(v(50 * UNIT, 50 * UNIT), r) > 0);
}

#[test]
fn general_triangle() {
    let a = v(-2 * UNIT, 0);
    let b = v(2 * UNIT, 0);
    let c = v(0, 3 * UNIT);
    // inside, near the centroid
    assert!(sd_triangle(v(0, UNIT), a, b, c) < 0);
    // on the base edge
    assert_eq!(sd_triangle(v(0, 0), a, b, c), 0);
    // on a vertex
    assert_eq!(sd_triangle(c, a, b, c), 0);
    // straight below the base the distance is the gap
    assert_eq!(sd_triangle(v(0, -3 * UNIT), a, b, c), 3 * UNIT);
    // beyond a vertex the distance is measured from that vertex
    assert_eq!(sd_triangle(v(5 * UNIT, 0), a, b, c), 3 * UNIT);
    // the sign convention is independent of the winding
    assert_eq!(
        sd_triangle(v(0, UNIT), a, b, c),
        sd_triangle(v(0, UNIT), c, b, a),
    );
    assert_eq!(
        sd_triangle(v(0, -3 * UNIT), a, b, c),
        sd_triangle(v(0, -3 * UNIT), c, b, a),
    );
}

#[test]
fn axis_capsule_specialization() {
    let w = UNIT;
    let r = UNIT / 2;
    assert_eq!(sd_capsule_x(v(0, 0), w, r), -r);
    assert_eq!(sd_capsule_x(v(w + r, 0), w, r), 0);
    assert_eq!(sd_capsule_x(v(-(w + r), 0), w, r), 0);
    assert_eq!(sd_capsule_x(v(0, 3 * UNIT), w, r), 3 * UNIT - r);
    assert!(sd_capsule_x(v(40 * UNIT, 0), w, r) > 0);
}

#[test]
fn infinite_line() {
    let a = v(0, 0);
    let dir = v(UNIT, 0);
    assert_eq!(sd_line2(v(7 * UNIT, 0), a, dir), 0);
    assert_eq!(sd_line2(v(-9 * UNIT, 2 * UNIT), a, dir), 2 * UNIT);
    assert_eq!(sd_line2(v(3 * UNIT, -2 * UNIT), a, dir), 2 * UNIT);
}

#[test]
fn half_plane() {
    let n = v(0, UNIT); // boundary is the x axis, outside is +y
    assert_eq!(sd_plane2(v(7 * UNIT, 0), n), 0);
    assert_eq!(sd_plane2(v(0, 3 * UNIT), n), 3 * UNIT);
    assert_eq!(sd_plane2(v(0, -3 * UNIT), n), -3 * UNIT);
}

#[test]
fn shape_dispatch_matches_primitives() {
    let p = v(3 * UNIT, 4 * UNIT);
    assert_eq!(
        Shape::Disk { radius: UNIT }.signed_distance(p),
        sd_disk(p, UNIT),
    );
    assert_eq!(
        Shape::Rectangle { half_width: UNIT, half_height: UNIT }.signed_distance(p),
        sd_rectangle(p, UNIT, UNIT),
    );
    assert_eq!(
        Shape::Torus { major: 2 * UNIT, minor: UNIT / 2 }.signed_distance(p),
        sd_annulus(p, 2 * UNIT, UNIT / 2),
    );
}

#[test]
fn every_kind_positive_far_small_on_boundary() {
    let far = v(100 * UNIT, 100 * UNIT);
    let shapes = [
        Shape::Disk { radius: UNIT },
        Shape::EquilateralTriangle { radius: UNIT },
        Shape::CapsuleX { width: UNIT, radius: UNIT / 2 },
        Shape::Triangle { a: v(-UNIT, 0), b: v(UNIT, 0), c: v(0, UNIT) },
        Shape::Rectangle { half_width: UNIT, half_height: UNIT },
        Shape::Torus { major: 2 * UNIT, minor: UNIT / 2 },
        Shape::Capsule { a: v(-UNIT, 0), b: v(UNIT, 0), radius: UNIT / 2 },
        Shape::LineSegment { a: v(-UNIT, 0), b: v(UNIT, 0) },
        Shape::Ray { origin: v(0, 0), dir: v(0, UNIT) },
        Shape::Plane { normal: v(0, UNIT) },
    ];
    for s in shapes {
        assert!(s.signed_distance(far) > 0, "far point not outside: {:?}", s);
    }
    let boundary = [
        (Shape::Disk { radius: UNIT }, v(UNIT, 0)),
        (Shape::EquilateralTriangle { radius: UNIT }, v(0, -37837)),
        (Shape::CapsuleX { width: UNIT, radius: UNIT / 2 }, v(0, UNIT / 2)),
        (Shape::Triangle { a: v(-UNIT, 0), b: v(UNIT, 0), c: v(0, UNIT) }, v(0, 0)),
        (Shape::Line { origin: v(0, 0), dir: v(UNIT, 0) }, v(6 * UNIT, 0)),
        (Shape::Rectangle { half_width: UNIT, half_height: UNIT }, v(UNIT, 0)),
        (Shape::Torus { major: 2 * UNIT, minor: UNIT / 2 }, v(2 * UNIT + UNIT / 2, 0)),
        (Shape::Capsule { a: v(-UNIT, 0), b: v(UNIT, 0), radius: UNIT / 2 }, v(0, UNIT / 2)),
        (Shape::LineSegment { a: v(-UNIT, 0), b: v(UNIT, 0) }, v(UNIT / 2, 0)),
        (Shape::Ray { origin: v(0, 0), dir: v(0, UNIT) }, v(0, 3 * UNIT)),
        (Shape::Plane { normal: v(0, UNIT) }, v(-5 * UNIT, 0)),
    ];
    for (s, p) in boundary {
        assert!(s.signed_distance(p).abs() < EPS, "boundary sample off: {:?}", s);
    }
}
