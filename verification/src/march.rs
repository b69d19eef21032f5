//! The sphere-tracing engine.
//!
//! Given a ray origin, a unit direction and a scene, the tracer repeatedly
//! evaluates the scene's distance field at the current ray point and
//! advances by that distance: the field's value is a safe step length.
//! It terminates `Hit` when a step falls below the surface threshold,
//! `Divergent` when the accumulated distance passes the horizon, and
//! `BudgetExhausted` when the step budget runs out — the loop is bounded
//! regardless of the field. A scene optionally composes the shape with a
//! slicing plane (geometry cut open at `z == slice_z`) and a probe sphere
//! unioned in while a cursor button is held; a hit records which branch
//! produced it.

use crate::fixed::div_t;
use crate::sdf3::{sd_shape3_s, sd_sphere_s, shape3_ok, Shape3, DIST3_MAX};
use crate::vec3::{v3_coord_ok, v3_unit_ok, Vec3};
use crate::{coord_ok, COORD_MAX, UNIT};
use vstd::math::{max, min};
use vstd::prelude::*;

verus! {

/// Horizon bound: ray origins and the divergence distance stay within it,
/// which keeps every marched point inside the coordinate range.
pub const MARCH_MAX: i64 = 0x0400_0000;

/// Tuning constants of the tracer, overridable per profile.
#[derive(Clone, Copy, PartialEq, Eq, Structural, Debug)]
pub struct MarchConfig {
    /// Iteration budget: the loop never runs more steps than this.
    pub max_steps: u32,
    /// Divergence horizon: accumulated distance beyond it ends the march.
    pub max_dist: i64,
    /// Surface threshold: a step below it counts as a hit.
    pub surf_dist: i64,
}

/// Bounds under which the tracer's arithmetic stays in range.
pub open spec fn cfg_ok(cfg: MarchConfig) -> bool {
    0 < cfg.surf_dist <= UNIT && 0 < cfg.max_dist <= MARCH_MAX && 0 < cfg.max_steps <= 1000000
}

impl Default for MarchConfig {
    /// One hundred steps, a horizon of one hundred units, and a surface
    /// threshold of about one ten-thousandth of a unit.
    fn default() -> (cfg: MarchConfig)
        ensures
            cfg.max_steps == 100,
            cfg.max_dist == 100 * UNIT,
            cfg.surf_dist == 7,
            cfg_ok(cfg),
    {
        MarchConfig { max_steps: 100, max_dist: 100 * UNIT, surf_dist: 7 }
    }
}

/// Terminal classification of one traced ray.
#[derive(Clone, Copy, PartialEq, Eq, Structural, Debug)]
pub enum RayMarchResult {
    /// A step fell below the surface threshold.
    Hit,
    /// The accumulated distance passed the horizon.
    Divergent,
    /// The step budget ran out; shaded like `Divergent`, kept apart for
    /// diagnostics.
    BudgetExhausted,
}

/// The probe sphere unioned into the field while the cursor is held.
#[derive(Clone, Copy, Debug)]
pub struct Probe {
    pub center: Vec3,
    pub radius: i64,
}

/// A traced scene: one primitive at an offset, an optional slicing plane,
/// and an optional probe sphere.
#[derive(Clone, Copy, Debug)]
pub struct Scene {
    pub shape: Shape3,
    pub offset: Vec3,
    pub slice_z: Option<i64>,
    pub probe: Option<Probe>,
}

/// Scene parameters are within the engine's coordinate bounds.
pub open spec fn scene_ok(scene: Scene) -> bool {
    &&& shape3_ok(scene.shape)
    &&& v3_coord_ok(scene.offset)
    &&& match scene.slice_z {
        Some(z) => coord_ok(z),
        None => true,
    }
    &&& match scene.probe {
        Some(pr) => v3_coord_ok(pr.center) && 0 <= pr.radius <= COORD_MAX,
        None => true,
    }
}

/// A world point moved into a local frame.
pub open spec fn local3(p: Vec3, o: Vec3) -> Vec3 {
    Vec3 { x: (p.x - o.x) as i64, y: (p.y - o.y) as i64, z: (p.z - o.z) as i64 }
}

/// The shape branch of the field: the primitive, cut by the slicing plane.
pub open spec fn sd_shape_branch_s(scene: Scene, p: Vec3) -> int {
    let base = sd_shape3_s(scene.shape, local3(p, scene.offset));
    match scene.slice_z {
        Some(z) => max(base, p.z - z),
        None => base,
    }
}

/// The probe branch of the field: the probe sphere, cut by the same plane;
/// where no probe is active the branch is absent.
pub open spec fn sd_probe_branch_s(scene: Scene, p: Vec3) -> int {
    match scene.probe {
        Some(pr) => {
            let ball = sd_sphere_s(local3(p, pr.center), pr.radius as int);
            match scene.slice_z {
                Some(z) => max(ball, p.z - z),
                None => ball,
            }
        },
        None => 0,
    }
}

/// The scene's distance field: the shape branch, unioned with the probe
/// branch while a probe is active.
pub open spec fn sd_scene_s(scene: Scene, p: Vec3) -> int {
    match scene.probe {
        Some(_) => min(sd_shape_branch_s(scene, p), sd_probe_branch_s(scene, p)),
        None => sd_shape_branch_s(scene, p),
    }
}

/// Whether a hit at `p` belongs to the probe branch rather than the shape.
pub open spec fn probe_closer(scene: Scene, p: Vec3) -> bool {
    scene.probe is Some && sd_probe_branch_s(scene, p) <= sd_shape_branch_s(scene, p)
}

/// The ray point at accumulated distance `t`: `ro + rd * t / UNIT`,
/// componentwise, rounded toward zero.
pub open spec fn ray_point_s(ro: Vec3, rd: Vec3, t: int) -> Vec3 {
    Vec3 {
        x: (ro.x + div_t(rd.x * t, UNIT as int)) as i64,
        y: (ro.y + div_t(rd.y * t, UNIT as int)) as i64,
        z: (ro.z + div_t(rd.z * t, UNIT as int)) as i64,
    }
}

/// The ray is within bounds: origin inside the horizon, direction unit
/// length (the caller's responsibility; components then lie within one
/// unit, which is all the arithmetic needs).
pub open spec fn ray_ok(ro: Vec3, rd: Vec3) -> bool {
    &&& -MARCH_MAX <= ro.x <= MARCH_MAX
    &&& -MARCH_MAX <= ro.y <= MARCH_MAX
    &&& -MARCH_MAX <= ro.z <= MARCH_MAX
    &&& v3_unit_ok(rd)
}

/// What one traced ray did, over mathematical integers.
pub ghost struct MarchTrace {
    pub result: RayMarchResult,
    pub distance: int,
    pub steps: nat,
    pub probe: bool,
}

/// The trace of the marching loop from accumulated distance `t` with
/// `fuel` steps left: evaluate, advance, classify.
pub open spec fn march_from(
    scene: Scene,
    ro: Vec3,
    rd: Vec3,
    cfg: MarchConfig,
    t: int,
    fuel: nat,
) -> MarchTrace
    decreases fuel,
{
    if fuel == 0 {
        MarchTrace { result: RayMarchResult::BudgetExhausted, distance: t, steps: 0, probe: false }
    } else {
        let p = ray_point_s(ro, rd, t);
        let d = sd_scene_s(scene, p);
        let t2 = t + d;
        if d < cfg.surf_dist {
            MarchTrace {
                result: RayMarchResult::Hit,
                distance: t2,
                steps: 1,
                probe: probe_closer(scene, p),
            }
        } else if t2 > cfg.max_dist {
            MarchTrace { result: RayMarchResult::Divergent, distance: t2, steps: 1, probe: false }
        } else {
            let rec = march_from(scene, ro, rd, cfg, t2, (fuel - 1) as nat);
            MarchTrace {
                result: rec.result,
                distance: rec.distance,
                steps: rec.steps + 1,
                probe: rec.probe,
            }
        }
    }
}

/// The full trace of a ray under a configuration.
pub open spec fn ray_march_s(scene: Scene, ro: Vec3, rd: Vec3, cfg: MarchConfig) -> MarchTrace {
    march_from(scene, ro, rd, cfg, 0, cfg.max_steps as nat)
}

/// What `ray_march` returns.
#[derive(Clone, Copy, Debug)]
pub struct MarchResult {
    pub result: RayMarchResult,
    pub distance: i64,
    pub steps: u32,
    pub probe: bool,
}

/// The march consumes at most its fuel, and a divergent march really did
/// pass the horizon.
pub proof fn lemma_march_terminal(
    scene: Scene,
    ro: Vec3,
    rd: Vec3,
    cfg: MarchConfig,
    t: int,
    fuel: nat,
)
    ensures
        march_from(scene, ro, rd, cfg, t, fuel).steps <= fuel,
        march_from(scene, ro, rd, cfg, t, fuel).result is Divergent ==> march_from(
            scene,
            ro,
            rd,
            cfg,
            t,
            fuel,
        ).distance > cfg.max_dist,
        march_from(scene, ro, rd, cfg, t, fuel).result is BudgetExhausted ==> march_from(
            scene,
            ro,
            rd,
            cfg,
            t,
            fuel,
        ).steps == fuel,
    decreases fuel,
{
    if fuel > 0 {
        let p = ray_point_s(ro, rd, t);
        let d = sd_scene_s(scene, p);
        let t2 = t + d;
        if d < cfg.surf_dist {
        } else if t2 > cfg.max_dist {
        } else {
            lemma_march_terminal(scene, ro, rd, cfg, t2, (fuel - 1) as nat);
        }
    }
}

/// Divergence law: over a field everywhere at least `delta` (itself at
/// least the surface threshold), a ray with enough fuel to pass the horizon
/// terminates `Divergent` — it never hits and never exhausts the budget.
pub proof fn lemma_march_divergent(
    scene: Scene,
    ro: Vec3,
    rd: Vec3,
    cfg: MarchConfig,
    delta: int,
    t: int,
    fuel: nat,
)
    requires
        delta >= cfg.surf_dist,
        cfg.surf_dist > 0,
        forall|p: Vec3| sd_scene_s(scene, p) >= delta,
        fuel >= 1,
        t + fuel * delta > cfg.max_dist,
    ensures
        march_from(scene, ro, rd, cfg, t, fuel).result is Divergent,
        march_from(scene, ro, rd, cfg, t, fuel).distance > cfg.max_dist,
    decreases fuel,
{
    let p = ray_point_s(ro, rd, t);
    let d = sd_scene_s(scene, p);
    assert(d >= delta);
    let t2 = t + d;
    if t2 > cfg.max_dist {
    } else {
        if fuel == 1 {
            assert(1 * delta == delta) by (nonlinear_arith);
            assert(false);
        }
        assert((fuel - 1) * delta == fuel * delta - delta) by (nonlinear_arith);
        lemma_march_divergent(scene, ro, rd, cfg, delta, t2, (fuel - 1) as nat);
    }
}

/// Sphere-hit law: a ray aimed straight at a sphere of radius `r` whose
/// center lies at distance `dd` along the ray terminates `Hit` with
/// accumulated distance within the surface threshold of `dd - r` — here
/// exactly `dd - r`, because each step is exact — and in at most two steps.
pub proof fn lemma_march_sphere_hit(dd: i64, r: i64, cfg: MarchConfig)
    requires
        cfg_ok(cfg),
        cfg.max_steps >= 2,
        0 <= r < dd <= COORD_MAX,
        dd - r <= cfg.max_dist,
    ensures
        ({
            let scene = Scene {
                shape: Shape3::Sphere { radius: r },
                offset: Vec3 { x: 0, y: 0, z: dd },
                slice_z: None,
                probe: None,
            };
            let ro = Vec3 { x: 0, y: 0, z: 0 };
            let rd = Vec3 { x: 0, y: 0, z: UNIT };
            let tr = ray_march_s(scene, ro, rd, cfg);
            tr.result is Hit && tr.distance == dd - r && tr.steps <= 2
        }),
{
    let scene = Scene {
        shape: Shape3::Sphere { radius: r },
        offset: Vec3 { x: 0, y: 0, z: dd },
        slice_z: None,
        probe: None,
    };
    let ro = Vec3 { x: 0, y: 0, z: 0 };
    let rd = Vec3 { x: 0, y: 0, z: UNIT };
    lemma_axis_point(ro, rd, 0);
    let p0 = ray_point_s(ro, rd, 0);
    assert(p0 == (Vec3 { x: 0, y: 0, z: 0 }));
    lemma_axis_sphere_distance(scene, p0, dd, r);
    assert(sd_scene_s(scene, p0) == dd - r);
    let t1 = dd - r;
    if t1 < cfg.surf_dist {
        assert(ray_march_s(scene, ro, rd, cfg).result is Hit);
    } else {
        lemma_axis_point(ro, rd, t1 as int);
        let p1 = ray_point_s(ro, rd, t1 as int);
        assert(p1 == (Vec3 { x: 0, y: 0, z: t1 as i64 }));
        lemma_axis_sphere_distance(scene, p1, dd, r);
        assert(sd_scene_s(scene, p1) == dd - t1 - r);
        assert(sd_scene_s(scene, p1) == 0);
        let rec = march_from(scene, ro, rd, cfg, t1 as int, (cfg.max_steps - 1) as nat);
        assert(rec.result is Hit && rec.distance == t1 && rec.steps == 1);
    }
}

/// On the z axis, the marched ray point at distance `t` is `(0, 0, t)`.
proof fn lemma_axis_point(ro: Vec3, rd: Vec3, t: int)
    requires
        ro == (Vec3 { x: 0i64, y: 0i64, z: 0i64 }),
        rd == (Vec3 { x: 0i64, y: 0i64, z: UNIT }),
        0 <= t <= MARCH_MAX,
    ensures
        ray_point_s(ro, rd, t) == (Vec3 { x: 0i64, y: 0i64, z: t as i64 }),
{
    assert(0 * t == 0) by (nonlinear_arith);
    assert(div_t(0, UNIT as int) == 0);
    assert(UNIT * t == t * UNIT) by (nonlinear_arith);
    vstd::arithmetic::div_mod::lemma_div_by_multiple(t, UNIT as int);
    assert(div_t(UNIT * t, UNIT as int) == t);
}

/// On the z axis, the scene of one sphere centered at `(0, 0, dd)` measures
/// exactly `|dd - z| - r`.
proof fn lemma_axis_sphere_distance(scene: Scene, p: Vec3, dd: i64, r: i64)
    requires
        scene == (Scene {
            shape: Shape3::Sphere { radius: r },
            offset: Vec3 { x: 0, y: 0, z: dd },
            slice_z: None::<i64>,
            probe: None::<Probe>,
        }),
        p.x == 0,
        p.y == 0,
        -COORD_MAX <= p.z - dd <= COORD_MAX,
    ensures
        sd_scene_s(scene, p) == vstd::math::abs(p.z - dd) - r,
{
    let q = local3(p, scene.offset);
    assert(q == (Vec3 { x: 0i64, y: 0i64, z: (p.z - dd) as i64 }));
    let h = vstd::math::abs(p.z - dd) as int;
    assert(crate::vec3::len_sq3(q) == h * h) by (nonlinear_arith)
        requires
            q.x == 0,
            q.y == 0,
            h == vstd::math::abs(q.z as int) as int,
            h == if q.z >= 0 { q.z as int } else { -(q.z as int) },
    ;
    assert(h * h < (h + 1) * (h + 1)) by (nonlinear_arith)
        requires
            h >= 0,
    ;
    crate::fixed::lemma_sqrt_floor_unique(h * h, h);
    assert(crate::vec3::norm3_s(q) == h);
}

/// Evaluate the scene's field and report which branch is closer.
fn scene_sd_probe(scene: &Scene, p: Vec3) -> (r: (i64, bool))
    requires
        scene_ok(*scene),
        v3_coord_ok(p),
    ensures
        r.0 == sd_scene_s(*scene, p),
        r.1 == probe_closer(*scene, p),
        -DIST3_MAX <= r.0 <= DIST3_MAX,
{
    let base = scene.shape.signed_distance(p.sub(scene.offset));
    let shaped = match scene.slice_z {
        Some(z) => crate::fixed::max2(base, p.z - z),
        None => base,
    };
    match scene.probe {
        Some(pr) => {
            let ball = crate::sdf3::sd_sphere(p.sub(pr.center), pr.radius);
            let sliced_ball = match scene.slice_z {
                Some(z) => crate::fixed::max2(ball, p.z - z),
                None => ball,
            };
            (crate::fixed::min2(shaped, sliced_ball), sliced_ball <= shaped)
        },
        None => (shaped, false),
    }
}

/// The ray point at accumulated distance `t`.
pub fn ray_point(ro: Vec3, rd: Vec3, t: i64) -> (r: Vec3)
    requires
        ray_ok(ro, rd),
        0 <= t <= MARCH_MAX,
    ensures
        r == ray_point_s(ro, rd, t as int),
        v3_coord_ok(r),
{
    let s = rd.scale_fp(t);
    proof {
        lemma_step_bound(rd.x as int, t as int);
        lemma_step_bound(rd.y as int, t as int);
        lemma_step_bound(rd.z as int, t as int);
    }
    ro.plus(s)
}

/// A unit-bounded direction component scaled by `t` moves at most `t`.
proof fn lemma_step_bound(c: int, t: int)
    requires
        -UNIT <= c <= UNIT,
        0 <= t,
    ensures
        -t <= div_t(c * t, UNIT as int) <= t,
{
    crate::fixed::lemma_mul_bounds(c, t, UNIT as int, t);
    let a = vstd::math::abs(c * t);
    assert(a <= UNIT * t) by (nonlinear_arith)
        requires
            -(UNIT * t) <= c * t <= UNIT * t,
            a == if c * t >= 0 { c * t } else { -(c * t) },
    ;
    vstd::arithmetic::div_mod::lemma_div_is_ordered(a as int, UNIT * t, UNIT as int);
    assert(UNIT * t == t * UNIT) by (nonlinear_arith);
    vstd::arithmetic::div_mod::lemma_div_by_multiple(t, UNIT as int);
    vstd::arithmetic::div_mod::lemma_div_pos_is_pos(a as int, UNIT as int);
}

/// Query the scene's distance field directly (a plain field query, as used
/// for iso-distance shading).
pub fn scene_distance(scene: &Scene, p: Vec3) -> (d: i64)
    requires
        scene_ok(*scene),
        v3_coord_ok(p),
    ensures
        d == sd_scene_s(*scene, p),
        -DIST3_MAX <= d <= DIST3_MAX,
{
    let (d, _) = scene_sd_probe(scene, p);
    d
}

/// Where the ray meets the slicing plane `z == slice_z`, as an accumulated
/// distance: the analytic solution of `ro.z + rd.z * t / UNIT == slice_z`,
/// clamped into `[0, max_dist]`; a ray parallel to the plane (`rd.z == 0`),
/// one that points away from it, or one that meets it beyond the horizon
/// yields the `max_dist` sentinel ("no intersection").
pub open spec fn slice_t_s(ro: Vec3, rd: Vec3, slice_z: i64, max_dist: i64) -> int {
    if rd.z == 0 {
        max_dist as int
    } else {
        let q = div_t((slice_z - ro.z) * UNIT, rd.z as int);
        if q < 0 || q > max_dist {
            max_dist as int
        } else {
            q
        }
    }
}

/// Solve the ray/slicing-plane intersection.
pub fn slice_plane_t(ro: Vec3, rd: Vec3, slice_z: i64, cfg: MarchConfig) -> (x: i64)
    requires
        ray_ok(ro, rd),
        coord_ok(slice_z),
        cfg_ok(cfg),
    ensures
        x == slice_t_s(ro, rd, slice_z, cfg.max_dist),
        0 <= x <= cfg.max_dist,
{
    if rd.z == 0 {
        return cfg.max_dist;
    }
    proof {
        let a = (slice_z - ro.z) as int;
        crate::fixed::lemma_mul_bounds(a, UNIT as int, 2 * COORD_MAX as int, UNIT as int);
        let m = vstd::math::abs(a * UNIT) as int;
        let bz = vstd::math::abs(rd.z as int) as int;
        vstd::arithmetic::div_mod::lemma_div_is_ordered_by_denominator(m, 1, bz);
        vstd::arithmetic::div_mod::lemma_div_pos_is_pos(m, bz);
    }
    let q = crate::fixed::div_fp(slice_z - ro.z, rd.z);
    if q < 0 || q > cfg.max_dist {
        cfg.max_dist
    } else {
        q
    }
}

/// The shape branch's distance where the ray crosses the slicing plane, or
/// `max_dist` when the ray never does: tells the shader how far inside or
/// outside the cut face a pixel lies.
pub open spec fn shape_at_slice_s(
    shape: Shape3,
    offset: Vec3,
    ro: Vec3,
    rd: Vec3,
    slice_z: i64,
    max_dist: i64,
) -> int {
    let x = slice_t_s(ro, rd, slice_z, max_dist);
    if x >= max_dist {
        max_dist as int
    } else {
        sd_shape3_s(shape, local3(ray_point_s(ro, rd, x), offset))
    }
}

/// Distance from the shape where the ray crosses the slicing plane.
pub fn shape_distance_at_slice(
    shape: &Shape3,
    offset: Vec3,
    ro: Vec3,
    rd: Vec3,
    slice_z: i64,
    cfg: MarchConfig,
) -> (d: i64)
    requires
        shape3_ok(*shape),
        v3_coord_ok(offset),
        ray_ok(ro, rd),
        coord_ok(slice_z),
        cfg_ok(cfg),
    ensures
        d == shape_at_slice_s(*shape, offset, ro, rd, slice_z, cfg.max_dist),
{
    let x = slice_plane_t(ro, rd, slice_z, cfg);
    if x >= cfg.max_dist {
        cfg.max_dist
    } else {
        let p = ray_point(ro, rd, x);
        shape.signed_distance(p.sub(offset))
    }
}

/// Distance from the probe cursor where the ray crosses the slicing plane,
/// or `max_dist` when the ray never does.
pub open spec fn cursor_at_slice_s(
    cursor: Vec3,
    ro: Vec3,
    rd: Vec3,
    slice_z: i64,
    max_dist: i64,
) -> int {
    let x = slice_t_s(ro, rd, slice_z, max_dist);
    if x >= max_dist {
        max_dist as int
    } else {
        let p = ray_point_s(ro, rd, x);
        crate::vec3::norm3_s(local3(p, cursor))
    }
}

/// Distance from the cursor where the ray crosses the slicing plane.
pub fn cursor_distance_at_slice(
    cursor: Vec3,
    ro: Vec3,
    rd: Vec3,
    slice_z: i64,
    cfg: MarchConfig,
) -> (d: i64)
    requires
        v3_coord_ok(cursor),
        ray_ok(ro, rd),
        coord_ok(slice_z),
        cfg_ok(cfg),
    ensures
        d == cursor_at_slice_s(cursor, ro, rd, slice_z, cfg.max_dist),
{
    let x = slice_plane_t(ro, rd, slice_z, cfg);
    if x >= cfg.max_dist {
        cfg.max_dist
    } else {
        let p = ray_point(ro, rd, x);
        p.sub(cursor).norm()
    }
}

/// The forward-difference gradient of the scene's field at `p` with step
/// `eps`: an unnormalized surface normal estimate.
pub fn estimate_normal(scene: &Scene, p: Vec3, eps: i64) -> (n: Vec3)
    requires
        scene_ok(*scene),
        0 < eps <= UNIT,
        -COORD_MAX + UNIT <= p.x <= COORD_MAX - UNIT,
        -COORD_MAX + UNIT <= p.y <= COORD_MAX - UNIT,
        -COORD_MAX + UNIT <= p.z <= COORD_MAX - UNIT,
    ensures
        n.x == sd_scene_s(*scene, Vec3 { x: (p.x + eps) as i64, y: p.y, z: p.z }) - sd_scene_s(
            *scene,
            p,
        ),
        n.y == sd_scene_s(*scene, Vec3 { x: p.x, y: (p.y + eps) as i64, z: p.z }) - sd_scene_s(
            *scene,
            p,
        ),
        n.z == sd_scene_s(*scene, Vec3 { x: p.x, y: p.y, z: (p.z + eps) as i64 }) - sd_scene_s(
            *scene,
            p,
        ),
{
    let (d0, _) = scene_sd_probe(scene, p);
    let (dx, _) = scene_sd_probe(scene, Vec3 { x: p.x + eps, y: p.y, z: p.z });
    let (dy, _) = scene_sd_probe(scene, Vec3 { x: p.x, y: p.y + eps, z: p.z });
    let (dz, _) = scene_sd_probe(scene, Vec3 { x: p.x, y: p.y, z: p.z + eps });
    Vec3 { x: dx - d0, y: dy - d0, z: dz - d0 }
}

/// Sphere-trace a ray through a scene.
///
/// The result is exactly the mathematical trace `ray_march_s`: at each of
/// at most `cfg.max_steps` steps the field is evaluated at the current ray
/// point and the distance advances by its value; a step below
/// `cfg.surf_dist` is a `Hit` (recording whether the probe branch produced
/// it), an accumulated distance beyond `cfg.max_dist` is `Divergent`, and
/// a spent budget is `BudgetExhausted`.
pub fn ray_march(scene: &Scene, ro: Vec3, rd: Vec3, cfg: MarchConfig) -> (r: MarchResult)
    requires
        scene_ok(*scene),
        ray_ok(ro, rd),
        cfg_ok(cfg),
    ensures
        r.result == ray_march_s(*scene, ro, rd, cfg).result,
        r.distance == ray_march_s(*scene, ro, rd, cfg).distance,
        r.steps == ray_march_s(*scene, ro, rd, cfg).steps,
        r.probe == ray_march_s(*scene, ro, rd, cfg).probe,
        r.steps <= cfg.max_steps,
        r.result is Divergent ==> r.distance > cfg.max_dist,
{
    proof {
        lemma_march_terminal(*scene, ro, rd, cfg, 0, cfg.max_steps as nat);
    }
    let ghost full = ray_march_s(*scene, ro, rd, cfg);
    let mut t: i64 = 0;
    let mut steps: u32 = 0;
    while steps < cfg.max_steps
        invariant
            scene_ok(*scene),
            ray_ok(ro, rd),
            cfg_ok(cfg),
            0 <= steps <= cfg.max_steps,
            0 <= t <= cfg.max_dist,
            full == ray_march_s(*scene, ro, rd, cfg),
            ({
                let sub = march_from(*scene, ro, rd, cfg, t as int, (cfg.max_steps - steps) as nat);
                full.result == sub.result && full.distance == sub.distance && full.probe
                    == sub.probe && full.steps == steps + sub.steps
            }),
        decreases cfg.max_steps - steps,
    {
        let ghost fuel = (cfg.max_steps - steps) as nat;
        let p = ray_point(ro, rd, t);
        let (d, probe_flag) = scene_sd_probe(scene, p);
        proof {
            assert(p == ray_point_s(ro, rd, t as int));
        }
        let t2 = t + d;
        if d < cfg.surf_dist {
            return MarchResult {
                result: RayMarchResult::Hit,
                distance: t2,
                steps: steps + 1,
                probe: probe_flag,
            };
        }
        if t2 > cfg.max_dist {
            return MarchResult {
                result: RayMarchResult::Divergent,
                distance: t2,
                steps: steps + 1,
                probe: false,
            };
        }
        t = t2;
        steps = steps + 1;
    }
    MarchResult { result: RayMarchResult::BudgetExhausted, distance: t, steps, probe: false }
}

} // verus!
