use sdfcore::fbm::{sd_base, sd_fbm, FBM_MAX_DROP};
use sdfcore::vec3::Vec3;
use sdfcore::UNIT;

fn v(x: i64, y: i64, z: i64) -> Vec3 {
    Vec3 { x, y, z }
}

#[test]
fn base_field_range_and_determinism() {
    let points = [
        v(0, 0, 0),
        v(UNIT / 2, UNIT / 3, UNIT / 7),
        v(-3 * UNIT, 2 * UNIT, -5 * UNIT),
        v(123456, -654321, 777777),
    ];
    for p in points {
        let d = sd_base(p);
        assert!(d >= -UNIT && d <= 3 * UNIT);
        assert_eq!(d, sd_base(p)); // a pure function of the point
    }
}

#[test]
fn base_field_negative_near_an_occupied_vertex() {
    // at a lattice vertex the nearest corner sphere is centered here, so the
    // distance is minus that corner's radius (or zero if the radius is zero)
    let d = sd_base(v(0, 0, 0));
    assert!(d <= 0);
    assert!(d > -UNIT / 2 - 1);
}

#[test]
fn fbm_only_lowers_and_by_a_bounded_amount() {
    let points = [v(0, 0, 0), v(UNIT, -UNIT, 3 * UNIT), v(-7 * UNIT / 3, UNIT / 9, 0)];
    let seeds: [i64; 4] = [0, UNIT, 10 * UNIT, -UNIT];
    for p in points {
        for d in seeds {
            let r = sd_fbm(p, d);
            assert!(r <= d);
            assert!(r >= d - FBM_MAX_DROP);
            assert_eq!(r, sd_fbm(p, d));
        }
    }
}

#[test]
fn fbm_varies_with_position() {
    // near the surface the blend is not a constant offset of the seed:
    // among a handful of points at least two receive different values
    let samples = [
        sd_fbm(v(0, 0, 0), 0),
        sd_fbm(v(5 * UNIT, 3 * UNIT, -2 * UNIT), 0),
        sd_fbm(v(UNIT / 3, -UNIT / 5, 2 * UNIT), 0),
        sd_fbm(v(-4 * UNIT, UNIT, 7 * UNIT), 0),
    ];
    assert!(samples.iter().any(|&x| x != samples[0]));
}
