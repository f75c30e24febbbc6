//! Transform smoother: moves the rendered transform part of the way toward
//! the resolved eye each frame, then commits the pending pose.
use vstd::prelude::*;

use crate::fixed::{div_trunc, quot, Vec3, COORD_MAX, ONE};
use crate::rig::{dir_ok, pos_ok, MainCamera, Transform, WORLD_MAX};
use crate::sight::{
    hit_ok, keep_line_of_sight, line_of_sight_spec, point_along, view_direction,
    LineOfSightCorrection, LineOfSightResult, MAX_DISTANCE,
};

verus! {

/// Translation smoothing rate, per second, while an obstacle pulls the eye in.
pub const CLOSER_SMOOTHING: i64 = 25;

/// Translation smoothing rate, per second, while the eye moves back out.
pub const FURTHER_SMOOTHING: i64 = 10;

/// Rotation smoothing rate, per second.
pub const ROTATION_SMOOTHING: i64 = 15;

/// Longest frame time taken, in steps of a second.
pub const DT_MAX: i64 = COORD_MAX;

/// Share of the remaining way covered this frame, in steps: `rate * dt`,
/// saturating at the whole way.
pub open spec fn blend_factor(rate: int, dt: int) -> int {
    if rate * dt < ONE {
        rate * dt
    } else {
        ONE as int
    }
}

/// `from` moved the share `factor` (in steps) of the way to `to`.
pub open spec fn blend(from: int, to: int, factor: int) -> int {
    from + quot((to - from) * factor, ONE as int)
}

pub open spec fn blend_vec(from: Vec3, to: Vec3, factor: int) -> Vec3 {
    Vec3 {
        x: blend(from.x as int, to.x as int, factor) as i64,
        y: blend(from.y as int, to.y as int, factor) as i64,
        z: blend(from.z as int, to.z as int, factor) as i64,
    }
}

/// Translation smoothing rate for the resolver's correction.
pub open spec fn translation_smoothing(correction: LineOfSightCorrection) -> int {
    match correction {
        LineOfSightCorrection::Closer => CLOSER_SMOOTHING as int,
        LineOfSightCorrection::Further => FURTHER_SMOOTHING as int,
    }
}

/// The view turned the share `factor` of the way from `from` to `to`: the
/// linear blend of the two directions, scaled back to length `ONE` (at
/// most). It lies on the arc between them, as a spherical interpolation
/// would, though its angular speed along the arc is not uniform. A view
/// already at `to` stays as it is; a blend that cancels out (opposite
/// views, halfway) snaps to `to`.
pub open spec fn blend_direction(from: Vec3, to: Vec3, factor: int) -> Vec3 {
    if from == to {
        to
    } else {
        blend_vec(from, to, factor).normalize_or_spec(to)
    }
}

/// The rendered transform after one frame of `dt`: its position moves
/// toward the resolved location, its view toward `forward`.
pub open spec fn smoothed(
    transform: Transform,
    sight: LineOfSightResult,
    forward: Vec3,
    dt: int,
) -> Transform {
    Transform {
        translation: blend_vec(
            transform.translation,
            sight.location,
            blend_factor(translation_smoothing(sight.correction), dt),
        ),
        forward: blend_direction(
            transform.forward,
            forward,
            blend_factor(ROTATION_SMOOTHING as int, dt),
        ),
    }
}

/// The blend stays between its two ends.
proof fn lemma_blend_between(from: int, to: int, factor: int)
    requires
        0 <= factor <= ONE,
    ensures
        from <= to ==> from <= blend(from, to, factor) <= to,
        to <= from ==> to <= blend(from, to, factor) <= from,
{
    let d = to - from;
    let a = if d >= 0 { d } else { -d };
    assert(0 <= a * factor <= a * ONE) by (nonlinear_arith)
        requires
            a >= 0,
            0 <= factor <= ONE,
    ;
    assert(0 <= (a * factor) / (ONE as int) <= a) by (nonlinear_arith)
        requires
            0 <= a * factor <= a * ONE,
            ONE == 10_000int,
    ;
    if d >= 0 {
        assert(d * factor == a * factor);
    } else {
        assert(d * factor == -(a * factor)) by (nonlinear_arith)
            requires
                a == -d,
        ;
        assert(quot(d * factor, ONE as int) == -((a * factor) / (ONE as int)));
    }
}

fn blend_coord(from: i64, to: i64, factor: i64) -> (r: i64)
    requires
        -WORLD_MAX <= from <= WORLD_MAX,
        -WORLD_MAX <= to <= WORLD_MAX,
        0 <= factor <= ONE,
    ensures
        r == blend(from as int, to as int, factor as int),
        -WORLD_MAX <= r <= WORLD_MAX,
{
    proof {
        lemma_blend_between(from as int, to as int, factor as int);
        let d = to - from;
        assert(-2 * WORLD_MAX * ONE <= d * factor <= 2 * WORLD_MAX * ONE) by (nonlinear_arith)
            requires
                -2 * WORLD_MAX <= d <= 2 * WORLD_MAX,
                0 <= factor <= ONE,
                WORLD_MAX == 100_000_000_000int,
                ONE == 10_000int,
        ;
    }
    from + div_trunc((to - from) * factor, ONE)
}

fn blend_vector(from: Vec3, to: Vec3, factor: i64) -> (r: Vec3)
    requires
        pos_ok(from),
        pos_ok(to),
        0 <= factor <= ONE,
    ensures
        r == blend_vec(from, to, factor as int),
        pos_ok(r),
        dir_ok(from) && dir_ok(to) ==> dir_ok(r),
{
    proof {
        lemma_blend_between(from.x as int, to.x as int, factor as int);
        lemma_blend_between(from.y as int, to.y as int, factor as int);
        lemma_blend_between(from.z as int, to.z as int, factor as int);
    }
    Vec3 {
        x: blend_coord(from.x, to.x, factor),
        y: blend_coord(from.y, to.y, factor),
        z: blend_coord(from.z, to.z, factor),
    }
}

/// `rate * dt`, saturating at `ONE`.
pub fn get_blend_factor(rate: i64, dt: i64) -> (r: i64)
    requires
        0 <= rate <= CLOSER_SMOOTHING,
        0 <= dt <= DT_MAX,
    ensures
        r == blend_factor(rate as int, dt as int),
        0 <= r <= ONE,
{
    assert(0 <= rate * dt <= CLOSER_SMOOTHING * DT_MAX) by (nonlinear_arith)
        requires
            0 <= rate <= CLOSER_SMOOTHING,
            0 <= dt <= DT_MAX,
    ;
    let scaled = rate * dt;
    if scaled < ONE {
        scaled
    } else {
        ONE
    }
}

/// The rig and rendered transform after the smoothing step of one frame.
pub open spec fn updated(
    camera: MainCamera,
    transform: Transform,
    hit_distance: Option<i64>,
    dt: int,
) -> (MainCamera, Transform) {
    (
        MainCamera { current: camera.pending, ..camera },
        smoothed(
            transform,
            line_of_sight_spec(camera, hit_distance),
            camera.pending.eye.forward,
            dt,
        ),
    )
}

/// Resolves the line of sight for the hit distance that the collision query
/// returned, moves the rendered transform toward it, and commits the pending
/// pose as the current one.
pub fn update_camera_transform(
    camera: &mut MainCamera,
    transform: &mut Transform,
    hit_distance: Option<i64>,
    dt: i64,
)
    requires
        old(camera).wf(),
        old(transform).wf(),
        hit_ok(hit_distance, MAX_DISTANCE as int),
        pos_ok(line_of_sight_spec(*old(camera), hit_distance).location),
        0 <= dt <= DT_MAX,
    ensures
        (*final(camera), *final(transform)) == updated(
            *old(camera),
            *old(transform),
            hit_distance,
            dt as int,
        ),
        final(camera).wf(),
        final(transform).wf(),
{
    let sight = keep_line_of_sight(camera, hit_distance);
    let rate = match sight.correction {
        LineOfSightCorrection::Closer => CLOSER_SMOOTHING,
        LineOfSightCorrection::Further => FURTHER_SMOOTHING,
    };
    let translation = blend_vector(
        transform.translation,
        sight.location,
        get_blend_factor(rate, dt),
    );
    let target_forward = camera.pending.eye.forward;
    let forward = if transform.forward == target_forward {
        target_forward
    } else {
        blend_vector(transform.forward, target_forward, get_blend_factor(ROTATION_SMOOTHING, dt))
            .normalize_or(target_forward)
    };
    *transform = Transform { translation, forward };
    camera.current = camera.pending;
}

/// Once the rig has committed its pending pose and the rendered transform
/// stands at the resolved location with the pending view, further smoothing
/// steps leave both unchanged.
pub proof fn lemma_smoothing_at_rest(
    camera: MainCamera,
    transform: Transform,
    hit_distance: Option<i64>,
    dt: int,
)
    requires
        camera.current == camera.pending,
        transform.translation == line_of_sight_spec(camera, hit_distance).location,
        transform.forward == camera.pending.eye.forward,
        0 <= dt,
    ensures
        updated(camera, transform, hit_distance, dt) == (camera, transform),
{
    let sight = line_of_sight_spec(camera, hit_distance);
    let ft = blend_factor(translation_smoothing(sight.correction), dt);
    let fr = blend_factor(ROTATION_SMOOTHING as int, dt);
    assert(0 * ft == 0 && 0 * fr == 0);
    assert(blend_vec(transform.translation, sight.location, ft) == transform.translation);
}

/// Once nothing blocks the view, the rendered position heads for the point
/// `MAX_DISTANCE` out along the view at the slower `FURTHER_SMOOTHING` rate.
pub proof fn lemma_clear_view_recovers_slowly(
    camera: MainCamera,
    transform: Transform,
    dt: int,
)
    requires
        camera.wf(),
        camera.pending.eye.translation.sub_spec(camera.pending.target).length_squared_spec()
            <= MAX_DISTANCE * MAX_DISTANCE,
    ensures
        updated(camera, transform, None, dt).1.translation == blend_vec(
            transform.translation,
            point_along(camera.pending.target, view_direction(camera), MAX_DISTANCE as int),
            blend_factor(FURTHER_SMOOTHING as int, dt),
        ),
{
    crate::sight::lemma_clear_view_moves_further(camera);
}

/// A frame long enough to saturate the slower translation rate puts the
/// rendered eye on the resolved location, and so within `MAX_DISTANCE` of
/// the target.
pub proof fn lemma_snapped_eye_within_reach(
    camera: MainCamera,
    transform: Transform,
    hit_distance: Option<i64>,
    dt: int,
)
    requires
        camera.wf(),
        hit_ok(hit_distance, MAX_DISTANCE as int),
        FURTHER_SMOOTHING * dt >= ONE,
    ensures
        updated(camera, transform, hit_distance, dt).1.translation == line_of_sight_spec(
            camera,
            hit_distance,
        ).location,
        updated(camera, transform, hit_distance, dt).1.translation.sub_spec(
            camera.pending.target,
        ).length_squared_spec() <= MAX_DISTANCE * MAX_DISTANCE,
{
    crate::sight::lemma_resolved_location_within_reach(camera, hit_distance);
    let sight = line_of_sight_spec(camera, hit_distance);
    match sight.correction {
        LineOfSightCorrection::Closer => {
            assert(translation_smoothing(sight.correction) * dt == 25 * dt);
        },
        LineOfSightCorrection::Further => {
            assert(translation_smoothing(sight.correction) * dt == 10 * dt);
        },
    }
    assert(blend_factor(translation_smoothing(sight.correction), dt) == ONE);
    let (a, b) = (transform.translation, sight.location);
    assert(quot((b.x - a.x) * ONE, ONE as int) == b.x - a.x);
    assert(quot((b.y - a.y) * ONE, ONE as int) == b.y - a.y);
    assert(quot((b.z - a.z) * ONE, ONE as int) == b.z - a.z);
}

/// The rendered position moves toward the resolved location without passing
/// it: each coordinate ends between where it was and where it is headed.
pub proof fn lemma_smoothing_never_overshoots(
    transform: Transform,
    sight: LineOfSightResult,
    forward: Vec3,
    dt: int,
)
    requires
        0 <= dt,
    ensures
        ({
            let t = smoothed(transform, sight, forward, dt).translation;
            let (a, b) = (transform.translation, sight.location);
            &&& a.x <= b.x ==> a.x <= t.x <= b.x
            &&& b.x <= a.x ==> b.x <= t.x <= a.x
            &&& a.y <= b.y ==> a.y <= t.y <= b.y
            &&& b.y <= a.y ==> b.y <= t.y <= a.y
            &&& a.z <= b.z ==> a.z <= t.z <= b.z
            &&& b.z <= a.z ==> b.z <= t.z <= a.z
        }),
{
    let f = blend_factor(translation_smoothing(sight.correction), dt);
    assert(0 <= translation_smoothing(sight.correction) * dt) by (nonlinear_arith)
        requires
            0 <= translation_smoothing(sight.correction),
            0 <= dt,
    ;
    let (a, b) = (transform.translation, sight.location);
    lemma_blend_between(a.x as int, b.x as int, f);
    lemma_blend_between(a.y as int, b.y as int, f);
    lemma_blend_between(a.z as int, b.z as int, f);
}

} // verus!
