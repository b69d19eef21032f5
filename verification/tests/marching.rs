use sdfcore::march::{
    cursor_distance_at_slice, estimate_normal, ray_march, ray_point, scene_distance,
    shape_distance_at_slice, slice_plane_t, MarchConfig, Probe, RayMarchResult, Scene,
};
use sdfcore::sdf3::Shape3;
use sdfcore::vec3::Vec3;
use sdfcore::UNIT;

fn v(x: i64, y: i64, z: i64) -> Vec3 {
    Vec3 { x, y, z }
}

fn cfg() -> MarchConfig {
    MarchConfig { max_steps: 100, max_dist: 100 * UNIT, surf_dist: 7 }
}

fn sphere_scene(center: Vec3, radius: i64) -> Scene {
    Scene { shape: Shape3::Sphere { radius }, offset: center, slice_z: None, probe: None }
}

#[test]
fn ray_hits_sphere_dead_ahead() {
    // sphere of radius 1 centered 10 units down the ray: hit at 9, two steps
    let scene = sphere_scene(v(0, 0, 10 * UNIT), UNIT);
    let r = ray_march(&scene, v(0, 0, 0), v(0, 0, UNIT), cfg());
    assert_eq!(r.result, RayMarchResult::Hit);
    assert_eq!(r.distance, 9 * UNIT);
    assert!(r.steps <= 2);
    assert!(!r.probe);
}

#[test]
fn ray_away_from_geometry_diverges() {
    // sphere behind the ray: the field only grows, march passes the horizon
    let scene = sphere_scene(v(0, 0, -10 * UNIT), UNIT);
    let c = cfg();
    let r = ray_march(&scene, v(0, 0, 0), v(0, 0, UNIT), c);
    assert_eq!(r.result, RayMarchResult::Divergent);
    assert!(r.distance > c.max_dist);
    assert!(r.steps <= c.max_steps);
}

#[test]
fn budget_exhaustion_is_reported() {
    // one step toward a sphere two units off axis cannot resolve the ray
    let scene = sphere_scene(v(0, 2 * UNIT, 0), UNIT);
    let c = MarchConfig { max_steps: 1, max_dist: 100 * UNIT, surf_dist: 7 };
    let r = ray_march(&scene, v(0, 0, 0), v(0, 0, UNIT), c);
    assert_eq!(r.result, RayMarchResult::BudgetExhausted);
    assert_eq!(r.steps, 1);
    assert_eq!(r.distance, UNIT); // one step of the initial distance 1
}

#[test]
fn probe_branch_hit_is_classified() {
    // the probe ball sits two units ahead, the shape ten units ahead
    let scene = Scene {
        shape: Shape3::Sphere { radius: UNIT },
        offset: v(0, 0, 10 * UNIT),
        slice_z: None,
        probe: Some(Probe { center: v(0, 0, 2 * UNIT), radius: UNIT }),
    };
    let r = ray_march(&scene, v(0, 0, 0), v(0, 0, UNIT), cfg());
    assert_eq!(r.result, RayMarchResult::Hit);
    assert!(r.probe);
    assert_eq!(r.distance, UNIT);
}

#[test]
fn slicing_cuts_the_shape_open() {
    // keep only the z <= 0 half of a sphere at the origin
    let mut scene = sphere_scene(v(0, 0, 0), UNIT);
    scene.slice_z = Some(0);
    // a ray from below still hits the lower hemisphere
    let r = ray_march(&scene, v(0, 0, -5 * UNIT), v(0, 0, UNIT), cfg());
    assert_eq!(r.result, RayMarchResult::Hit);
    assert_eq!(r.distance, 4 * UNIT);
    // cutting everything below -2 leaves nothing of the sphere
    scene.slice_z = Some(-2 * UNIT);
    let r2 = ray_march(&scene, v(0, 0, -5 * UNIT), v(0, 0, UNIT), cfg());
    assert_eq!(r2.result, RayMarchResult::Divergent);
}

#[test]
fn slice_plane_intersection() {
    let c = cfg();
    let ro = v(0, 0, 0);
    let rd = v(0, 0, UNIT);
    assert_eq!(slice_plane_t(ro, rd, 5 * UNIT, c), 5 * UNIT);
    // parallel ray: the sentinel
    assert_eq!(slice_plane_t(ro, v(UNIT, 0, 0), 5 * UNIT, c), c.max_dist);
    // plane behind the ray: the sentinel
    assert_eq!(slice_plane_t(ro, rd, -5 * UNIT, c), c.max_dist);
    // pointing away: the sentinel
    assert_eq!(slice_plane_t(ro, v(0, 0, -UNIT), 5 * UNIT, c), c.max_dist);
}

#[test]
fn distances_at_the_slice_plane() {
    let c = cfg();
    let ro = v(0, 0, 0);
    let rd = v(0, 0, UNIT);
    // a unit sphere centered on the slice crossing point
    let d = shape_distance_at_slice(&Shape3::Sphere { radius: UNIT }, v(0, 0, 5 * UNIT), ro, rd,
        5 * UNIT, c);
    assert_eq!(d, -UNIT);
    let d2 = cursor_distance_at_slice(v(0, 0, 0), ro, rd, 5 * UNIT, c);
    assert_eq!(d2, 5 * UNIT);
    // no crossing: both report the sentinel
    let d3 = shape_distance_at_slice(&Shape3::Sphere { radius: UNIT }, v(0, 0, 0), ro,
        v(UNIT, 0, 0), 5 * UNIT, c);
    assert_eq!(d3, c.max_dist);
}

#[test]
fn forward_difference_normal() {
    let scene = sphere_scene(v(0, 0, 0), UNIT);
    let eps = 655;
    let n = estimate_normal(&scene, v(2 * UNIT, 0, 0), eps);
    assert_eq!(n.x, eps); // the field grows one-for-one along the radius
    assert!(n.y >= 0 && n.y <= eps);
    assert!(n.z >= 0 && n.z <= eps);
}

#[test]
fn direct_field_queries() {
    let scene = sphere_scene(v(0, 0, 0), UNIT);
    assert_eq!(scene_distance(&scene, v(3 * UNIT, 0, 0)), 2 * UNIT);
    assert_eq!(ray_point(v(0, 0, 0), v(0, 0, UNIT), 3 * UNIT), v(0, 0, 3 * UNIT));
}

#[test]
fn default_configuration() {
    let c = MarchConfig::default();
    assert_eq!(c.max_steps, 100);
    assert_eq!(c.max_dist, 100 * UNIT);
    assert_eq!(c.surf_dist, 7);
}
