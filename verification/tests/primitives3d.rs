use sdfcore::sdf3::{
    sd_capsule3, sd_cuboid, sd_cuboid_frame, sd_cuboid_frame_radial, sd_cylinder, sd_disk3,
    sd_plane3, sd_segment3, sd_sphere, sd_torus3, Shape3,
};
use sdfcore::vec3::Vec3;
use sdfcore::UNIT;

const EPS: i64 = 66; // about 1e-3 of a unit

fn v(x: i64, y: i64, z: i64) -> Vec3 {
    Vec3 { x, y, z }
}

#[test]
fn sphere_boundary_inside_outside() {
    assert_eq!(sd_sphere(v(UNIT, 0, 0), UNIT), 0);
    assert_eq!(sd_sphere(v(0, 0, 0), UNIT), -UNIT);
    assert_eq!(sd_sphere(v(0, 3 * UNIT, 4 * UNIT), UNIT), 4 * UNIT);
}

#[test]
fn half_space() {
    let n = v(0, UNIT, 0);
    assert_eq!(sd_plane3(v(9 * UNIT, 0, -UNIT), n), 0);
    assert_eq!(sd_plane3(v(0, 2 * UNIT, 0), n), 2 * UNIT);
    assert_eq!(sd_plane3(v(0, -2 * UNIT, 0), n), -2 * UNIT);
}

#[test]
fn torus_boundary_and_center() {
    let n = v(0, 0, UNIT);
    let major = 2 * UNIT;
    let minor = UNIT / 2;
    assert_eq!(sd_torus3(v(major + minor, 0, 0), major, minor, n), 0);
    assert_eq!(sd_torus3(v(major, 0, 0), major, minor, n), -minor);
    // on the axis the nearest tube point is a ring radius and height away
    let d = sd_torus3(v(0, 0, 0), major, minor, n);
    assert_eq!(d, major - minor);
    assert!(sd_torus3(v(20 * UNIT, 0, 0), major, minor, n) > 0);
}

#[test]
fn flat_disk() {
    let n = v(0, 0, UNIT);
    let major = UNIT;
    let minor = UNIT / 2;
    // on the rim
    assert_eq!(sd_disk3(v(major + minor, 0, 0), major, minor, n), 0);
    // above the face the height dominates
    assert_eq!(sd_disk3(v(0, 0, 2 * UNIT), major, minor, n), 2 * UNIT - minor);
    assert!(sd_disk3(v(0, 0, 0), major, minor, n) < 0);
}

#[test]
fn segment_and_capsule_3d() {
    let a = v(0, 0, 0);
    let b = v(0, 0, 2 * UNIT);
    assert_eq!(sd_segment3(v(0, 0, UNIT), a, b), 0);
    assert_eq!(sd_segment3(v(UNIT, 0, UNIT), a, b), UNIT);
    assert_eq!(sd_segment3(v(0, 0, 5 * UNIT), a, b), 3 * UNIT);
    assert_eq!(sd_segment3(v(UNIT, 0, 0), a, a), UNIT);
    assert_eq!(sd_capsule3(v(UNIT, 0, UNIT), a, b, UNIT / 2), UNIT / 2);
}

#[test]
fn cylinder_side_cap_and_inside() {
    let a = v(0, 0, 0);
    let b = v(0, 0, 2 * UNIT);
    let r = UNIT;
    // on the side wall, halfway up
    assert_eq!(sd_cylinder(v(UNIT, 0, UNIT), a, b, r), 0);
    // on the top cap axis
    let d_cap = sd_cylinder(v(0, 0, 3 * UNIT), a, b, r);
    assert!((d_cap - UNIT).abs() < EPS);
    // inside
    assert!(sd_cylinder(v(0, 0, UNIT), a, b, r) < 0);
    // far away
    assert!(sd_cylinder(v(30 * UNIT, 0, UNIT), a, b, r) > 0);
    // degenerate cylinder measures from its point
    assert_eq!(sd_cylinder(v(2 * UNIT, 0, 0), a, a, r), UNIT);
}

#[test]
fn cuboid_boundary_inside_outside() {
    let h = v(UNIT, UNIT / 2, 2 * UNIT);
    assert_eq!(sd_cuboid(v(UNIT, 0, 0), h), 0);
    assert_eq!(sd_cuboid(v(0, 0, 0), h), -(UNIT / 2));
    assert_eq!(sd_cuboid(v(4 * UNIT, 0, 0), h), 3 * UNIT);
    // corner overshoot is a Euclidean length
    let d = sd_cuboid(v(4 * UNIT, UNIT / 2 + 4 * UNIT, 0), h);
    assert_eq!(d, 5 * UNIT);
}

#[test]
fn cuboid_frames() {
    let h = v(UNIT, UNIT, UNIT);
    // an edge of the box lies on the radial frame's surface (radius zero)
    assert_eq!(sd_cuboid_frame_radial(v(UNIT, UNIT, 0), h, 0), 0);
    // a rounded frame pushes the surface out by its radius
    assert_eq!(sd_cuboid_frame_radial(v(UNIT, UNIT, 0), h, UNIT / 4), -(UNIT / 4));
    // the face center is far from every edge
    assert_eq!(sd_cuboid_frame_radial(v(UNIT, 0, 0), h, 0), UNIT);
    assert!(sd_cuboid_frame_radial(v(20 * UNIT, 0, 0), h, 0) > 0);

    let t = v(UNIT / 4, UNIT / 4, UNIT / 4);
    // the outer corner of the hollow frame
    let c = UNIT + UNIT / 8;
    assert_eq!(sd_cuboid_frame(v(c, c, c), h, t), 0);
    assert!(sd_cuboid_frame(v(20 * UNIT, 0, 0), h, t) > 0);
    // the face center of the hollow frame is outside the struts
    assert!(sd_cuboid_frame(v(0, 0, 0), h, t) > 0);
}

#[test]
fn shape3_dispatch_matches_primitives() {
    let p = v(3 * UNIT, 0, 4 * UNIT);
    assert_eq!(
        Shape3::Sphere { radius: UNIT }.signed_distance(p),
        sd_sphere(p, UNIT),
    );
    assert_eq!(
        Shape3::Cuboid { half: v(UNIT, UNIT, UNIT) }.signed_distance(p),
        sd_cuboid(p, v(UNIT, UNIT, UNIT)),
    );
    assert_eq!(
        Shape3::Cylinder { a: v(0, 0, 0), b: v(0, 0, UNIT), radius: UNIT }.signed_distance(p),
        sd_cylinder(p, v(0, 0, 0), v(0, 0, UNIT), UNIT),
    );
}

#[test]
fn every_3d_kind_positive_far_small_on_boundary() {
    let far = v(100 * UNIT, 100 * UNIT, 100 * UNIT);
    let n = v(0, 0, UNIT);
    let shapes = [
        Shape3::Sphere { radius: UNIT },
        Shape3::Torus { major: 2 * UNIT, minor: UNIT / 2, normal: n },
        Shape3::Disk { major: UNIT, minor: UNIT / 2, normal: n },
        Shape3::LineSegment { a: v(0, 0, 0), b: v(0, 0, UNIT) },
        Shape3::Capsule { a: v(0, 0, 0), b: v(0, 0, UNIT), radius: UNIT / 2 },
        Shape3::Cylinder { a: v(0, 0, 0), b: v(0, 0, UNIT), radius: UNIT },
        Shape3::Cuboid { half: v(UNIT, UNIT, UNIT) },
        Shape3::CuboidFrameRadial { half: v(UNIT, UNIT, UNIT), radius: UNIT / 4 },
        Shape3::CuboidFrame { half: v(UNIT, UNIT, UNIT), thickness: v(UNIT / 4, UNIT / 4, UNIT / 4) },
    ];
    for s in shapes {
        assert!(s.signed_distance(far) > 0, "far point not outside: {:?}", s);
    }
    let boundary = [
        (Shape3::Sphere { radius: UNIT }, v(0, UNIT, 0)),
        (Shape3::Torus { major: 2 * UNIT, minor: UNIT / 2, normal: n }, v(2 * UNIT + UNIT / 2, 0, 0)),
        (Shape3::Disk { major: UNIT, minor: UNIT / 2, normal: n }, v(UNIT + UNIT / 2, 0, 0)),
        (Shape3::LineSegment { a: v(0, 0, 0), b: v(0, 0, UNIT) }, v(0, 0, UNIT / 2)),
        (Shape3::Capsule { a: v(0, 0, 0), b: v(0, 0, UNIT), radius: UNIT / 2 }, v(UNIT / 2, 0, 0)),
        (Shape3::Cylinder { a: v(0, 0, 0), b: v(0, 0, UNIT), radius: UNIT }, v(UNIT, 0, UNIT / 2)),
        (Shape3::Cuboid { half: v(UNIT, UNIT, UNIT) }, v(0, -UNIT, 0)),
        (Shape3::CuboidFrameRadial { half: v(UNIT, UNIT, UNIT), radius: 0 }, v(UNIT, UNIT, 0)),
        (
            Shape3::CuboidFrame {
                half: v(UNIT, UNIT, UNIT),
                thickness: v(UNIT / 4, UNIT / 4, UNIT / 4),
            },
            v(UNIT + UNIT / 8, UNIT + UNIT / 8, UNIT + UNIT / 8),
        ),
        (Shape3::Plane { normal: n }, v(4 * UNIT, 4 * UNIT, 0)),
    ];
    for (s, p) in boundary {
        assert!(s.signed_distance(p).abs() < EPS, "boundary sample off: {:?}", s);
    }
}
