//! Orbit controller: follows the target, then turns the eye around it.
use vstd::prelude::*;

use crate::fixed::{coord_ok, div_trunc, quot, Vec3, COORD_MAX, EPSILON, ONE};
use crate::rig::{dir_ok, in_world, pos_ok, CameraPosition, MainCamera, Transform};

verus! {

/// π in angle steps.
pub const PI: i64 = 31_416;

/// π / 2 in angle steps.
pub const HALF_PI: i64 = 15_708;

/// Closest the view may come to the up axis while looking down at the
/// target: τ / 10.
pub const MOST_ACUTE_ALLOWED_FROM_ABOVE: i64 = 6_283;

/// Closest the view may come to the up axis while looking up at the
/// target: τ / 7.
pub const MOST_ACUTE_ALLOWED_FROM_BELOW: i64 = 8_976;

/// Pitch changes smaller than this (0.01 rad) are dropped.
pub const PITCH_SNAP: i64 = 100;

/// Pointer movement is divided by this to give the turn: a sensitivity of
/// 1e-2 radians per pointer unit.
pub const SENSITIVITY_DIVISOR: i64 = 100;

/// How far the target moved since the last frame, with jitter dropped.
pub open spec fn target_movement(c: MainCamera) -> Vec3 {
    c.pending.target.sub_spec(c.current.target).collapse_approx_zero_spec()
}

/// The rig after the pending eye followed the target: it moves with the
/// target from the committed eye, then turns to face the target unless it
/// stands on it.
pub open spec fn followed(c: MainCamera) -> MainCamera {
    let translation = c.current.eye.translation.add_spec(target_movement(c));
    let forward = c.pending.target.sub_spec(translation).normalize_or_spec(
        c.pending.eye.forward,
    );
    MainCamera {
        pending: CameraPosition { eye: Transform { translation, forward }, ..c.pending },
        ..c
    }
}

/// Moves the pending eye along with the target and aims it at the target.
pub fn follow_target(camera: &mut MainCamera)
    requires
        old(camera).wf(),
        pos_ok(old(camera).current.eye.translation.add_spec(target_movement(*old(camera)))),
    ensures
        *final(camera) == followed(*old(camera)),
        final(camera).wf(),
{
    let movement = camera.pending.target.sub(camera.current.target).collapse_approx_zero();
    let translation = camera.current.eye.translation.add(movement);
    let to_target = camera.pending.target.sub(translation);
    let forward = to_target.normalize_or(camera.pending.eye.forward);
    camera.pending.eye = Transform { translation, forward };
}

/// Whether following the target keeps the pending eye inside the world.
pub fn follow_stays_in_world(camera: &MainCamera) -> (r: bool)
    requires
        camera.wf(),
    ensures
        r == pos_ok(camera.current.eye.translation.add_spec(target_movement(*camera))),
{
    let movement = camera.pending.target.sub(camera.current.target).collapse_approx_zero();
    in_world(camera.current.eye.translation.add(movement))
}

/// Target movement shorter than the jitter epsilon leaves the pending eye
/// exactly where the committed eye stood.
pub proof fn lemma_follow_ignores_jitter(c: MainCamera)
    requires
        c.wf(),
        c.pending.target.sub_spec(c.current.target).is_approx_zero_spec(),
    ensures
        followed(c).pending.eye.translation == c.current.eye.translation,
{
    let t = c.current.eye.translation;
    assert(t.add_spec(Vec3 { x: 0, y: 0, z: 0 }) == t);
}

/// Target movement at least as long as the jitter epsilon moves the pending
/// eye by exactly that movement from the committed eye.
pub proof fn lemma_follow_keeps_offset(c: MainCamera)
    requires
        c.wf(),
        !c.pending.target.sub_spec(c.current.target).is_approx_zero_spec(),
    ensures
        followed(c).pending.eye.translation.x - c.current.eye.translation.x
            == c.pending.target.x - c.current.target.x,
        followed(c).pending.eye.translation.y - c.current.eye.translation.y
            == c.pending.target.y - c.current.target.y,
        followed(c).pending.eye.translation.z - c.current.eye.translation.z
            == c.pending.target.z - c.current.target.z,
{
}

pub open spec fn abs(a: int) -> int {
    if a < 0 {
        -a
    } else {
        a
    }
}

/// Pitch to apply for a requested pitch `angle`, where the view currently
/// makes `angle_to_axis` with the up axis: inside the forbidden cone round
/// either pole a corrective term pushes back out, and a result below
/// `PITCH_SNAP` becomes zero.
pub open spec fn clamp_pitch_spec(angle_to_axis: int, angle: int) -> int {
    let from_above = angle_to_axis > HALF_PI;
    let acute = if from_above {
        PI - angle_to_axis
    } else {
        angle_to_axis
    };
    let most_acute = if from_above {
        MOST_ACUTE_ALLOWED_FROM_ABOVE as int
    } else {
        MOST_ACUTE_ALLOWED_FROM_BELOW as int
    };
    let sign = if from_above {
        -1int
    } else {
        1int
    };
    let new_angle = if acute < most_acute {
        angle - sign * (most_acute - acute)
    } else {
        angle
    };
    if abs(new_angle) < PITCH_SNAP {
        0
    } else {
        new_angle
    }
}

/// Clamps a requested pitch against the cones round the up axis.
pub fn clamp_pitch(angle_to_axis: i64, angle: i64) -> (r: i64)
    requires
        0 <= angle_to_axis <= PI,
        coord_ok(angle as int),
    ensures
        r == clamp_pitch_spec(angle_to_axis as int, angle as int),
{
    let from_above = angle_to_axis > HALF_PI;
    let (acute, most_acute, sign): (i64, i64, i64) = if from_above {
        (PI - angle_to_axis, MOST_ACUTE_ALLOWED_FROM_ABOVE, -1)
    } else {
        (angle_to_axis, MOST_ACUTE_ALLOWED_FROM_BELOW, 1)
    };
    let new_angle = if acute < most_acute {
        angle - sign * (most_acute - acute)
    } else {
        angle
    };
    if -PITCH_SNAP < new_angle && new_angle < PITCH_SNAP {
        0
    } else {
        new_angle
    }
}

/// Angle between the view and the up axis after pitching by the clamped
/// amount (a positive pitch turns the view toward the up axis).
pub open spec fn pitched_angle_to_axis(angle_to_axis: int, angle: int) -> int {
    angle_to_axis - clamp_pitch_spec(angle_to_axis, angle)
}

/// While looking up at the target, a request that does not carry the view
/// past the limit toward the pole leaves it at least `MOST_ACUTE_ALLOWED_FROM_BELOW`
/// from the up axis, less the snap tolerance.
pub proof fn lemma_pitch_clamp_from_below(angle_to_axis: int, angle: int)
    requires
        0 <= angle_to_axis <= HALF_PI,
        angle <= 0 || angle_to_axis - angle >= MOST_ACUTE_ALLOWED_FROM_BELOW,
    ensures
        pitched_angle_to_axis(angle_to_axis, angle) > MOST_ACUTE_ALLOWED_FROM_BELOW
            - PITCH_SNAP,
{
}

/// While looking down at the target, a request that does not carry the view
/// past the limit toward the pole leaves it at least `MOST_ACUTE_ALLOWED_FROM_ABOVE`
/// from the down axis, less the snap tolerance.
pub proof fn lemma_pitch_clamp_from_above(angle_to_axis: int, angle: int)
    requires
        HALF_PI < angle_to_axis <= PI,
        angle >= 0 || (PI - angle_to_axis) + angle >= MOST_ACUTE_ALLOWED_FROM_ABOVE,
    ensures
        PI - pitched_angle_to_axis(angle_to_axis, angle) > MOST_ACUTE_ALLOWED_FROM_ABOVE
            - PITCH_SNAP,
{
    let acute = PI - angle_to_axis;
    let m = MOST_ACUTE_ALLOWED_FROM_ABOVE as int;
    if acute < m {
        assert(-1int * (m - acute) == acute - m);
    }
}

/// Turn of one frame around the target, in angle steps: yaw about the up
/// axis, pitch about the eye's right axis.
#[derive(Clone, Copy, Debug, PartialEq, Eq, Structural)]
pub struct OrbitAngles {
    pub yaw: i64,
    pub pitch: i64,
}

pub open spec fn clamp_spec(v: int, lo: int, hi: int) -> int {
    if v < lo {
        lo
    } else if v > hi {
        hi
    } else {
        v
    }
}

/// Pointer movement of one frame, scaled by the sensitivity; nothing where
/// no input came or where the scaled movement is shorter than `EPSILON`.
pub open spec fn camera_movement_spec(input: Option<(i64, i64)>) -> Option<(int, int)> {
    match input {
        None => None,
        Some((dx, dy)) => {
            let mx = quot(dx as int, SENSITIVITY_DIVISOR as int);
            let my = quot(dy as int, SENSITIVITY_DIVISOR as int);
            if mx * mx + my * my < EPSILON * EPSILON {
                None
            } else {
                Some((mx, my))
            }
        },
    }
}

/// Turn for one frame's pointer movement: yaw against the horizontal
/// movement, clamped to `[-PI, PI]`; pitch against the vertical movement,
/// clamped against the cones round the up axis.
pub open spec fn orbit_angles_spec(input: Option<(i64, i64)>, angle_to_axis: int) -> Option<
    OrbitAngles,
> {
    match camera_movement_spec(input) {
        None => None,
        Some((mx, my)) => Some(
            OrbitAngles {
                yaw: (-clamp_spec(mx, -PI as int, PI as int)) as i64,
                pitch: clamp_pitch_spec(angle_to_axis, -my) as i64,
            },
        ),
    }
}

pub open spec fn input_ok(input: Option<(i64, i64)>) -> bool {
    match input {
        None => true,
        Some((dx, dy)) => coord_ok(dx as int) && coord_ok(dy as int),
    }
}

/// Decides the turn of one frame from the pointer movement, where the view
/// makes `angle_to_axis` with the up axis.
pub fn orbit_angles(input: Option<(i64, i64)>, angle_to_axis: i64) -> (r: Option<OrbitAngles>)
    requires
        0 <= angle_to_axis <= PI,
        input_ok(input),
    ensures
        r == orbit_angles_spec(input, angle_to_axis as int),
{
    let (dx, dy) = match input {
        None => return None,
        Some(d) => d,
    };
    let mx = div_trunc(dx, SENSITIVITY_DIVISOR);
    let my = div_trunc(dy, SENSITIVITY_DIVISOR);
    let eps = EPSILON as i128;
    proof {
        assert(0 <= mx * mx <= COORD_MAX * COORD_MAX) by (nonlinear_arith)
            requires
                -COORD_MAX <= mx <= COORD_MAX,
        ;
        assert(0 <= my * my <= COORD_MAX * COORD_MAX) by (nonlinear_arith)
            requires
                -COORD_MAX <= my <= COORD_MAX,
        ;
    }
    let (mx2, my2) = (mx as i128, my as i128);
    if mx2 * mx2 + my2 * my2 < eps * eps {
        return None;
    }
    let yaw = if mx < -PI {
        PI
    } else if mx > PI {
        -PI
    } else {
        -mx
    };
    Some(OrbitAngles { yaw, pitch: clamp_pitch(angle_to_axis, -my) })
}

/// A rotation, as the rows of its matrix in steps; a rotation matrix has
/// every entry in `[-ONE, ONE]`.
#[derive(Clone, Copy, Debug, PartialEq, Eq, Structural)]
pub struct Rotation {
    pub x_row: Vec3,
    pub y_row: Vec3,
    pub z_row: Vec3,
}

impl Rotation {
    pub open spec fn wf(self) -> bool {
        dir_ok(self.x_row) && dir_ok(self.y_row) && dir_ok(self.z_row)
    }
}

pub open spec fn dot(a: Vec3, b: Vec3) -> int {
    a.x * b.x + a.y * b.y + a.z * b.z
}

/// `rotation` applied to `v`, each coordinate truncated toward zero.
pub open spec fn rotate_spec(rotation: Rotation, v: Vec3) -> Vec3 {
    Vec3 {
        x: quot(dot(rotation.x_row, v), ONE as int) as i64,
        y: quot(dot(rotation.y_row, v), ONE as int) as i64,
        z: quot(dot(rotation.z_row, v), ONE as int) as i64,
    }
}

/// Largest coordinate that `rotate` takes: a difference of two positions.
pub const SPAN_MAX: i64 = 200_000_000_000;

proof fn lemma_product_bound(a: int, b: int)
    requires
        -ONE <= a <= ONE,
        -SPAN_MAX <= b <= SPAN_MAX,
    ensures
        -ONE * SPAN_MAX <= a * b <= ONE * SPAN_MAX,
{
    assert(-ONE * SPAN_MAX <= a * b <= ONE * SPAN_MAX) by (nonlinear_arith)
        requires
            -ONE <= a <= ONE,
            -SPAN_MAX <= b <= SPAN_MAX,
            ONE == 10_000int,
            SPAN_MAX == 200_000_000_000int,
    ;
}

fn rotate_coord(row: Vec3, v: Vec3) -> (r: i64)
    requires
        dir_ok(row),
        -SPAN_MAX <= v.x <= SPAN_MAX,
        -SPAN_MAX <= v.y <= SPAN_MAX,
        -SPAN_MAX <= v.z <= SPAN_MAX,
    ensures
        r == quot(dot(row, v), ONE as int),
        -3 * SPAN_MAX <= r <= 3 * SPAN_MAX,
{
    proof {
        lemma_product_bound(row.x as int, v.x as int);
        lemma_product_bound(row.y as int, v.y as int);
        lemma_product_bound(row.z as int, v.z as int);
    }
    let d = row.x * v.x + row.y * v.y + row.z * v.z;
    div_trunc(d, ONE)
}

/// Applies `rotation` to `v`.
pub fn rotate(rotation: &Rotation, v: Vec3) -> (r: Vec3)
    requires
        rotation.wf(),
        -SPAN_MAX <= v.x <= SPAN_MAX,
        -SPAN_MAX <= v.y <= SPAN_MAX,
        -SPAN_MAX <= v.z <= SPAN_MAX,
    ensures
        r == rotate_spec(*rotation, v),
        r.wf(),
        -3 * SPAN_MAX <= r.x <= 3 * SPAN_MAX,
        -3 * SPAN_MAX <= r.y <= 3 * SPAN_MAX,
        -3 * SPAN_MAX <= r.z <= 3 * SPAN_MAX,
{
    Vec3 {
        x: rotate_coord(rotation.x_row, v),
        y: rotate_coord(rotation.y_row, v),
        z: rotate_coord(rotation.z_row, v),
    }
}

/// Eye position after turning by `rotation` round the pending target.
pub open spec fn orbited_translation(c: MainCamera, rotation: Rotation) -> Vec3 {
    let pivot = c.pending.target;
    pivot.add_spec(rotate_spec(rotation, c.pending.eye.translation.sub_spec(pivot)))
}

/// The rig after the pending eye turned by `rotation` round the pending
/// target: its position orbits the target and its view turns with it.
pub open spec fn orbited(c: MainCamera, rotation: Rotation) -> MainCamera {
    let forward = rotate_spec(rotation, c.pending.eye.forward).normalize_or_spec(
        c.pending.eye.forward,
    );
    MainCamera {
        pending: CameraPosition {
            eye: Transform { translation: orbited_translation(c, rotation), forward },
            ..c.pending
        },
        ..c
    }
}

/// Whether turning by `rotation` keeps the pending eye inside the world.
pub fn orbit_stays_in_world(camera: &MainCamera, rotation: &Rotation) -> (r: bool)
    requires
        camera.wf(),
        rotation.wf(),
    ensures
        r == pos_ok(orbited_translation(*camera, *rotation)),
{
    let pivot = camera.pending.target;
    let turned = rotate(rotation, camera.pending.eye.translation.sub(pivot));
    in_world(pivot.add(turned))
}

/// Turns the pending eye by `rotation` round the pending target.
pub fn orbit(camera: &mut MainCamera, rotation: &Rotation)
    requires
        old(camera).wf(),
        rotation.wf(),
        pos_ok(orbited_translation(*old(camera), *rotation)),
    ensures
        *final(camera) == orbited(*old(camera), *rotation),
        final(camera).wf(),
{
    let pivot = camera.pending.target;
    let offset = camera.pending.eye.translation.sub(pivot);
    let turned = rotate(rotation, offset);
    let translation = pivot.add(turned);
    let forward = rotate(rotation, camera.pending.eye.forward).normalize_or(
        camera.pending.eye.forward,
    );
    camera.pending.eye = Transform { translation, forward };
}

} // verus!
