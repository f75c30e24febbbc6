//! Occlusion resolver: keeps solid geometry out from between the target
//! and the eye.
use vstd::prelude::*;

use crate::fixed::{coord_ok, div_trunc, lemma_normalized_length, lemma_quot_square, lemma_scaled_sum, quot, Vec3, COORD_MAX, ONE};
use crate::rig::{in_world, pos_ok, MainCamera, WORLD_MAX};

verus! {

/// Farthest the eye may stand from the target (five units).
pub const MAX_DISTANCE: i64 = 50_000;

/// Clearance kept from an obstacle's surface (0.01 units).
pub const MIN_DISTANCE_TO_OBJECTS: i64 = 100;

/// Which way the resolver moved the eye, relative to where it wants to be.
#[derive(Clone, Copy, Debug, PartialEq, Eq, Structural)]
pub enum LineOfSightCorrection {
    /// An obstacle holds the eye nearer than it wants to be.
    Closer,
    /// Nothing holds it: the eye may move back out.
    Further,
}

/// Where the eye should stand this frame, and which way that moved it.
#[derive(Clone, Copy, Debug, PartialEq, Eq, Structural)]
pub struct LineOfSightResult {
    pub location: Vec3,
    pub correction: LineOfSightCorrection,
}

/// A ray for the collision query: from `origin` along the unit `direction`,
/// no farther than `max_distance`.
#[derive(Clone, Copy, Debug, PartialEq, Eq, Structural)]
pub struct Ray {
    pub origin: Vec3,
    pub direction: Vec3,
    pub max_distance: i64,
}

/// Direction from the pending target to the pending eye, at most `ONE`
/// long; +Z where the eye stands on the target.
pub open spec fn view_direction(c: MainCamera) -> Vec3 {
    c.pending.eye.translation.sub_spec(c.pending.target).normalize_or_spec(
        Vec3 { x: 0, y: 0, z: ONE },
    )
}

/// The point `distance` along the unit `direction` from `origin`.
pub open spec fn point_along(origin: Vec3, direction: Vec3, distance: int) -> Vec3 {
    Vec3 {
        x: (origin.x + quot(direction.x * distance, ONE as int)) as i64,
        y: (origin.y + quot(direction.y * distance, ONE as int)) as i64,
        z: (origin.z + quot(direction.z * distance, ONE as int)) as i64,
    }
}

/// The ray that the collision query casts for this frame.
pub open spec fn line_of_sight_ray_spec(c: MainCamera) -> Ray {
    Ray { origin: c.pending.target, direction: view_direction(c), max_distance: MAX_DISTANCE }
}

/// Distance the eye may stand at, for what the query returned: the hit
/// distance less the clearance, or `max_distance` where nothing was hit.
pub open spec fn raycast_distance_spec(hit_distance: Option<i64>, max_distance: int) -> int {
    match hit_distance {
        Some(t) => t - MIN_DISTANCE_TO_OBJECTS,
        None => max_distance,
    }
}

/// Resolved eye location and correction, for what the query returned.
pub open spec fn line_of_sight_spec(c: MainCamera, hit_distance: Option<i64>) -> LineOfSightResult {
    let desired = c.pending.eye.translation.sub_spec(c.pending.target);
    let distance = raycast_distance_spec(hit_distance, MAX_DISTANCE as int);
    LineOfSightResult {
        location: point_along(c.pending.target, view_direction(c), distance),
        correction: if distance * distance < desired.length_squared_spec() {
            LineOfSightCorrection::Closer
        } else {
            LineOfSightCorrection::Further
        },
    }
}

/// A hit distance that a query capped at `max_distance` can return.
pub open spec fn hit_ok(hit_distance: Option<i64>, max_distance: int) -> bool {
    match hit_distance {
        Some(t) => 0 <= t <= max_distance,
        None => true,
    }
}

/// The ray to cast from the pending target toward the pending eye.
pub fn line_of_sight_ray(camera: &MainCamera) -> (r: Ray)
    requires
        camera.wf(),
    ensures
        r == line_of_sight_ray_spec(*camera),
{
    let desired = camera.pending.eye.translation.sub(camera.pending.target);
    let direction = desired.normalize_or(Vec3::new(0, 0, ONE));
    Ray { origin: camera.pending.target, direction, max_distance: MAX_DISTANCE }
}

/// Distance the eye may stand at, given the query's hit distance (none
/// where nothing solid lies within `max_distance`).
pub fn get_raycast_distance(hit_distance: Option<i64>, max_distance: i64) -> (r: i64)
    requires
        0 <= max_distance <= COORD_MAX,
        hit_ok(hit_distance, max_distance as int),
    ensures
        r == raycast_distance_spec(hit_distance, max_distance as int),
{
    match hit_distance {
        Some(t) => t - MIN_DISTANCE_TO_OBJECTS,
        None => max_distance,
    }
}

fn step_along(o: i64, d: i64, distance: i64) -> (r: i64)
    requires
        -WORLD_MAX <= o <= WORLD_MAX,
        -ONE <= d <= ONE,
        -MIN_DISTANCE_TO_OBJECTS <= distance <= MAX_DISTANCE,
    ensures
        r == o + quot(d * distance, ONE as int),
        -WORLD_MAX - MAX_DISTANCE <= r <= WORLD_MAX + MAX_DISTANCE,
{
    proof {
        assert(-ONE * MAX_DISTANCE <= d * distance <= ONE * MAX_DISTANCE) by (nonlinear_arith)
            requires
                -ONE <= d <= ONE,
                -MIN_DISTANCE_TO_OBJECTS <= distance <= MAX_DISTANCE,
                ONE == 10_000int,
                MAX_DISTANCE == 50_000int,
                MIN_DISTANCE_TO_OBJECTS == 100int,
        ;
        let p = d * distance;
        let a = if p >= 0 { p } else { -p };
        assert(a / (ONE as int) <= MAX_DISTANCE) by (nonlinear_arith)
            requires
                0 <= a <= ONE * MAX_DISTANCE,
                ONE == 10_000int,
        ;
    }
    o + div_trunc(d * distance, ONE)
}

proof fn lemma_square_of_distance(d: int)
    requires
        -MIN_DISTANCE_TO_OBJECTS <= d <= MAX_DISTANCE,
    ensures
        0 <= d * d <= MAX_DISTANCE * MAX_DISTANCE,
{
    assert(0 <= d * d <= MAX_DISTANCE * MAX_DISTANCE) by (nonlinear_arith)
        requires
            -100 <= d <= 50_000,
            MAX_DISTANCE == 50_000int,
    ;
}

/// A point `d` along a direction at most `ONE` long lies no farther than
/// `d` from where it starts.
proof fn lemma_offset_within_reach(origin: Vec3, direction: Vec3, d: int)
    requires
        direction.length_squared_spec() <= ONE * ONE,
        origin.wf(),
        coord_ok(origin.x + quot(direction.x * d, ONE as int)),
        coord_ok(origin.y + quot(direction.y * d, ONE as int)),
        coord_ok(origin.z + quot(direction.z * d, ONE as int)),
    ensures
        point_along(origin, direction, d).sub_spec(origin).length_squared_spec() <= d * d,
{
    let o = ONE as int;
    let (px, py, pz) = (direction.x * d, direction.y * d, direction.z * d);
    let (qx, qy, qz) = (quot(px, o), quot(py, o), quot(pz, o));
    lemma_quot_square(px, o);
    lemma_quot_square(py, o);
    lemma_quot_square(pz, o);
    let off = point_along(origin, direction, d).sub_spec(origin);
    assert(off.x == qx && off.y == qy && off.z == qz);
    let (dx, dy, dz) = (direction.x as int, direction.y as int, direction.z as int);
    assert(px * px == (dx * dx) * (d * d) && py * py == (dy * dy) * (d * d) && pz * pz == (dz
        * dz) * (d * d)) by (nonlinear_arith)
        requires
            px == dx * d,
            py == dy * d,
            pz == dz * d,
    ;
    assert(dx * dx >= 0 && dy * dy >= 0 && dz * dz >= 0 && qx * qx >= 0 && qy * qy >= 0 && qz
        * qz >= 0) by (nonlinear_arith);
    if d == 0 {
        assert(px == 0 && py == 0 && pz == 0);
    } else {
        assert(d * d > 0) by (nonlinear_arith)
            requires
                d != 0,
        ;
        lemma_scaled_sum(qx * qx, qy * qy, qz * qz, dx * dx, dy * dy, dz * dz, o * o, d * d);
        let q2 = qx * qx + qy * qy + qz * qz;
        assert(q2 <= d * d) by (nonlinear_arith)
            requires
                q2 * (o * o) <= (d * d) * (o * o),
                o > 0,
        ;
    }
}

/// Resolves where the eye should stand, given the hit distance that the
/// collision query returned for `line_of_sight_ray(camera)`.
pub fn keep_line_of_sight(camera: &MainCamera, hit_distance: Option<i64>) -> (r: LineOfSightResult)
    requires
        camera.wf(),
        hit_ok(hit_distance, MAX_DISTANCE as int),
    ensures
        r == line_of_sight_spec(*camera, hit_distance),
        r.location.wf(),
        r.location.sub_spec(camera.pending.target).length_squared_spec() <= MAX_DISTANCE
            * MAX_DISTANCE,
{
    let origin = camera.pending.target;
    let desired = camera.pending.eye.translation.sub(origin);
    let direction = desired.normalize_or(Vec3::new(0, 0, ONE));
    let distance = get_raycast_distance(hit_distance, MAX_DISTANCE);
    let location = Vec3 {
        x: step_along(origin.x, direction.x, distance),
        y: step_along(origin.y, direction.y, distance),
        z: step_along(origin.z, direction.z, distance),
    };
    proof {
        lemma_square_of_distance(distance as int);
        lemma_offset_within_reach(origin, direction, distance as int);
    }
    let squared = (distance * distance) as i128;
    let correction = if squared < desired.length_squared() {
        LineOfSightCorrection::Closer
    } else {
        LineOfSightCorrection::Further
    };
    LineOfSightResult { location, correction }
}

/// Whether the location resolved for `hit_distance` lies inside the world.
pub fn line_of_sight_in_world(camera: &MainCamera, hit_distance: Option<i64>) -> (r: bool)
    requires
        camera.wf(),
        hit_ok(hit_distance, MAX_DISTANCE as int),
    ensures
        r == pos_ok(line_of_sight_spec(*camera, hit_distance).location),
{
    in_world(keep_line_of_sight(camera, hit_distance).location)
}

/// Whatever the query returned within its reach, the resolved location lies
/// no farther than `MAX_DISTANCE` from the target.
pub proof fn lemma_resolved_location_within_reach(c: MainCamera, hit_distance: Option<i64>)
    requires
        c.wf(),
        hit_ok(hit_distance, MAX_DISTANCE as int),
    ensures
        line_of_sight_spec(c, hit_distance).location.sub_spec(c.pending.target).length_squared_spec()
            <= MAX_DISTANCE * MAX_DISTANCE,
{
    let desired = c.pending.eye.translation.sub_spec(c.pending.target);
    let fallback = Vec3 { x: 0, y: 0, z: ONE };
    if !desired.is_approx_zero_spec() {
        lemma_normalized_length(desired, fallback);
    }
    let dir = view_direction(c);
    let d = raycast_distance_spec(hit_distance, MAX_DISTANCE as int);
    lemma_step_bound(dir.x as int, d);
    lemma_step_bound(dir.y as int, d);
    lemma_step_bound(dir.z as int, d);
    lemma_offset_within_reach(c.pending.target, dir, d);
    lemma_square_of_distance(d);
}

proof fn lemma_step_bound(dc: int, d: int)
    requires
        -ONE <= dc <= ONE,
        -MIN_DISTANCE_TO_OBJECTS <= d <= MAX_DISTANCE,
    ensures
        -MAX_DISTANCE <= quot(dc * d, ONE as int) <= MAX_DISTANCE,
{
    let p = dc * d;
    assert(-ONE * MAX_DISTANCE <= p <= ONE * MAX_DISTANCE) by (nonlinear_arith)
        requires
            -ONE <= dc <= ONE,
            -MIN_DISTANCE_TO_OBJECTS <= d <= MAX_DISTANCE,
            p == dc * d,
            ONE == 10_000int,
            MAX_DISTANCE == 50_000int,
            MIN_DISTANCE_TO_OBJECTS == 100int,
    ;
    let a = if p >= 0 { p } else { -p };
    assert(0 <= a / (ONE as int) <= MAX_DISTANCE) by (nonlinear_arith)
        requires
            0 <= a <= ONE * MAX_DISTANCE,
            ONE == 10_000int,
    ;
}

/// An obstacle hit at `h` along the view, nearer than the eye wants to be,
/// puts the eye `h` less the clearance along the view from the target, and
/// the correction is `Closer`.
pub proof fn lemma_occluded_eye_moves_closer(c: MainCamera, h: i64)
    requires
        c.wf(),
        MIN_DISTANCE_TO_OBJECTS <= h <= MAX_DISTANCE,
        h * h < c.pending.eye.translation.sub_spec(c.pending.target).length_squared_spec(),
    ensures
        line_of_sight_spec(c, Some(h)).location == point_along(
            c.pending.target,
            view_direction(c),
            h - MIN_DISTANCE_TO_OBJECTS,
        ),
        line_of_sight_spec(c, Some(h)).correction == LineOfSightCorrection::Closer,
{
    let d = h - MIN_DISTANCE_TO_OBJECTS;
    assert(d * d < h * h) by (nonlinear_arith)
        requires
            0 <= d < h,
    ;
}

/// With nothing hit, the eye goes to `MAX_DISTANCE` along the view, and where
/// it wants to be no farther than that, the correction is `Further`.
pub proof fn lemma_clear_view_moves_further(c: MainCamera)
    requires
        c.wf(),
        c.pending.eye.translation.sub_spec(c.pending.target).length_squared_spec() <= MAX_DISTANCE
            * MAX_DISTANCE,
    ensures
        line_of_sight_spec(c, None).location == point_along(
            c.pending.target,
            view_direction(c),
            MAX_DISTANCE as int,
        ),
        line_of_sight_spec(c, None).correction == LineOfSightCorrection::Further,
{
}

} // verus!
