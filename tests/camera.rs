use foxtrot::cursor::{cursor_grab, CursorGrabMode, CursorState};
use foxtrot::fixed::{div_trunc, isqrt, Vec3, ONE};
use foxtrot::orbit::{
    clamp_pitch, follow_stays_in_world, follow_target, orbit_stays_in_world, orbit, orbit_angles, rotate, OrbitAngles, Rotation, HALF_PI,
    MOST_ACUTE_ALLOWED_FROM_ABOVE, MOST_ACUTE_ALLOWED_FROM_BELOW, PI,
};
use foxtrot::rig::{MainCamera, Transform, WORLD_MAX};
use foxtrot::rigs::CameraRigs;
use foxtrot::sight::{
    get_raycast_distance, line_of_sight_in_world, keep_line_of_sight, line_of_sight_ray, LineOfSightCorrection,
    MAX_DISTANCE,
};
use foxtrot::smooth::{get_blend_factor, update_camera_transform};

fn v(x: i64, y: i64, z: i64) -> Vec3 {
    Vec3::new(x, y, z)
}

/// A rig whose eye stands `distance` out along +Z from a target at the origin,
/// with both poses committed.
fn rig_behind(distance: i64) -> MainCamera {
    let mut camera = MainCamera::new();
    camera.init_eye(Transform { translation: v(0, 0, distance), forward: v(0, 0, -ONE) });
    camera.pending = camera.current;
    camera
}

#[test]
fn vector_arithmetic() {
    assert_eq!(v(1, 2, 3).add(v(10, 20, 30)), v(11, 22, 33));
    assert_eq!(v(1, 2, 3).sub(v(10, 20, 30)), v(-9, -18, -27));
    assert_eq!(v(3, 4, 12).length_squared(), 169);
    assert!(v(5, 5, 5).is_approx_zero());
    assert!(!v(10, 0, 0).is_approx_zero());
    assert_eq!(v(3, -4, 5).collapse_approx_zero(), v(0, 0, 0));
    assert_eq!(v(30, -4, 5).collapse_approx_zero(), v(30, -4, 5));
}

#[test]
fn normalization_and_roots() {
    assert_eq!(isqrt(99), 9);
    assert_eq!(isqrt(100), 10);
    assert_eq!(isqrt(0), 0);
    assert_eq!(div_trunc(-7, 2), -3);
    assert_eq!(div_trunc(7, 2), 3);
    assert_eq!(v(3 * ONE, 4 * ONE, 0).normalize_or(v(0, 0, ONE)), v(6_000, 8_000, 0));
    assert_eq!(v(0, -7, 0).normalize_or(v(0, 0, ONE)), v(0, 0, ONE));
    assert_eq!(v(0, -70, 0).normalize_or(v(0, 0, ONE)), v(0, -ONE, 0));
}

#[test]
fn default_rig_and_setters() {
    let mut camera = MainCamera::new();
    assert_eq!(camera.up, v(0, ONE, 0));
    assert_eq!(camera.forward(), v(0, 0, -ONE));
    camera.set_target(v(1, 2, 3)).set_up(v(0, 0, ONE));
    assert_eq!(camera.pending.target, v(1, 2, 3));
    assert_eq!(camera.current.target, v(0, 0, 0));
    assert_eq!(camera.up, v(0, 0, ONE));
}

#[test]
fn follow_ignores_target_jitter() {
    let mut camera = rig_behind(5 * ONE);
    camera.set_target(v(5, -3, 2));
    follow_target(&mut camera);
    assert_eq!(camera.pending.eye.translation, v(0, 0, 5 * ONE));
    assert_eq!(camera.pending.eye.translation, camera.current.eye.translation);
}

#[test]
fn follow_moves_with_target() {
    let mut camera = rig_behind(5 * ONE);
    camera.set_target(v(ONE, 0, 0));
    follow_target(&mut camera);
    assert_eq!(camera.pending.eye.translation, v(ONE, 0, 5 * ONE));
    assert_eq!(camera.pending.eye.forward, v(0, 0, -ONE));
}

#[test]
fn follow_keeps_view_when_eye_on_target() {
    let mut camera = MainCamera::new();
    camera.pending.eye.forward = v(ONE, 0, 0);
    follow_target(&mut camera);
    assert_eq!(camera.pending.eye.translation, v(0, 0, 0));
    assert_eq!(camera.pending.eye.forward, v(ONE, 0, 0));
}

#[test]
fn pitch_clamp_values() {
    assert_eq!(clamp_pitch(HALF_PI, 500), 500);
    assert_eq!(clamp_pitch(1_000, 0), -(MOST_ACUTE_ALLOWED_FROM_BELOW - 1_000));
    assert_eq!(clamp_pitch(1_000, 0), -7_976);
    assert_eq!(clamp_pitch(PI - 1_000, 0), MOST_ACUTE_ALLOWED_FROM_ABOVE - 1_000);
    assert_eq!(clamp_pitch(PI - 1_000, 0), 5_283);
    assert_eq!(clamp_pitch(8_900, 0), 0);
    assert_eq!(clamp_pitch(20_000, 50), 0);
    assert_eq!(clamp_pitch(20_000, -99), 0);
    assert_eq!(clamp_pitch(20_000, -100), -100);
}

#[test]
fn pitch_clamp_keeps_view_off_the_poles() {
    let below = [0, 1_000, 5_000, 8_975, 8_976, 12_000, HALF_PI];
    for a in below {
        for p in [-3_000, -200, -50, 0] {
            let after = a - clamp_pitch(a, p);
            assert!(after > MOST_ACUTE_ALLOWED_FROM_BELOW - 100, "a={a} p={p}");
        }
    }
    let above = [HALF_PI + 1, 20_000, 26_000, PI - 6_282, PI - 1_000, PI];
    for a in above {
        for p in [0, 50, 200, 3_000] {
            let after = a - clamp_pitch(a, p);
            assert!(PI - after > MOST_ACUTE_ALLOWED_FROM_ABOVE - 100, "a={a} p={p}");
        }
    }
}

#[test]
fn orbit_angles_from_input() {
    assert_eq!(orbit_angles(None, HALF_PI), None);
    assert_eq!(orbit_angles(Some((500, -300)), HALF_PI), None);
    assert_eq!(
        orbit_angles(Some((100_000, 20_000)), HALF_PI),
        Some(OrbitAngles { yaw: -1_000, pitch: -200 })
    );
    assert_eq!(
        orbit_angles(Some((-10_000_000, 0)), HALF_PI),
        Some(OrbitAngles { yaw: PI, pitch: 0 })
    );
    assert_eq!(
        orbit_angles(Some((10_000_000, 0)), 1_000),
        Some(OrbitAngles { yaw: -PI, pitch: -7_976 })
    );
}

#[test]
fn orbit_turns_eye_round_target() {
    let quarter_turn = Rotation {
        x_row: v(0, 0, ONE),
        y_row: v(0, ONE, 0),
        z_row: v(-ONE, 0, 0),
    };
    assert_eq!(rotate(&quarter_turn, v(1, 2, 3)), v(3, 2, -1));
    assert_eq!(rotate(&quarter_turn, v(ONE, 2 * ONE, 3 * ONE)), v(3 * ONE, 2 * ONE, -ONE));
    let mut camera = rig_behind(5 * ONE);
    camera.set_target(v(ONE, 0, 0));
    follow_target(&mut camera);
    orbit(&mut camera, &quarter_turn);
    assert_eq!(camera.pending.eye.translation, v(6 * ONE, 0, 0));
    assert_eq!(camera.pending.eye.forward, v(-ONE, 0, 0));
    assert_eq!(camera.pending.target, v(ONE, 0, 0));
}

#[test]
fn raycast_distance_keeps_clearance() {
    assert_eq!(get_raycast_distance(Some(2 * ONE), MAX_DISTANCE), 19_900);
    assert_eq!(get_raycast_distance(None, MAX_DISTANCE), 50_000);
    assert_eq!(get_raycast_distance(Some(0), MAX_DISTANCE), -100);
}

#[test]
fn ray_points_from_target_to_eye() {
    let camera = rig_behind(3 * ONE);
    let ray = line_of_sight_ray(&camera);
    assert_eq!(ray.origin, v(0, 0, 0));
    assert_eq!(ray.direction, v(0, 0, ONE));
    assert_eq!(ray.max_distance, MAX_DISTANCE);
    let mut above = MainCamera::new();
    above.pending.eye.translation = v(0, 2 * ONE, 0);
    assert_eq!(line_of_sight_ray(&above).direction, v(0, ONE, 0));
    assert_eq!(line_of_sight_ray(&MainCamera::new()).direction, v(0, 0, ONE));
}

#[test]
fn obstacle_pulls_eye_closer() {
    let camera = rig_behind(5 * ONE);
    let sight = keep_line_of_sight(&camera, Some(2 * ONE));
    assert_eq!(sight.location, v(0, 0, 19_900));
    assert_eq!(sight.correction, LineOfSightCorrection::Closer);
}

#[test]
fn clear_view_lets_eye_out() {
    let camera = rig_behind(5 * ONE);
    let sight = keep_line_of_sight(&camera, None);
    assert_eq!(sight.location, v(0, 0, 50_000));
    assert_eq!(sight.correction, LineOfSightCorrection::Further);
    let near = rig_behind(ONE);
    let sight = keep_line_of_sight(&near, None);
    assert_eq!(sight.location, v(0, 0, 50_000));
    assert_eq!(sight.correction, LineOfSightCorrection::Further);
}

#[test]
fn blend_factor_saturates() {
    assert_eq!(get_blend_factor(10, 160), 1_600);
    assert_eq!(get_blend_factor(25, 160), 4_000);
    assert_eq!(get_blend_factor(15, 1_000), ONE);
    assert_eq!(get_blend_factor(25, 0), 0);
}

#[test]
fn obstacle_then_clear_view() {
    let mut camera = rig_behind(5 * ONE);
    let mut transform = camera.current.eye;
    update_camera_transform(&mut camera, &mut transform, Some(2 * ONE), 160);
    // Closer: 0.4 of the way per 16 ms frame at rate 25.
    assert_eq!(transform.translation, v(0, 0, 5 * ONE - (5 * ONE - 19_900) * 4_000 / ONE));
    assert_eq!(transform.translation, v(0, 0, 37_960));
    update_camera_transform(&mut camera, &mut transform, Some(2 * ONE), ONE);
    assert_eq!(transform.translation, v(0, 0, 19_900));
    // The obstacle is gone: back out at rate 10, never past the maximum.
    let mut previous = transform.translation.z;
    for _ in 0..400 {
        update_camera_transform(&mut camera, &mut transform, None, 160);
        let z = transform.translation.z;
        assert!(z >= previous && z <= MAX_DISTANCE);
        previous = z;
    }
    let mut once = camera;
    let mut t = Transform { translation: v(0, 0, 19_900), forward: v(0, 0, -ONE) };
    update_camera_transform(&mut once, &mut t, None, 160);
    assert_eq!(t.translation, v(0, 0, 19_900 + (50_000 - 19_900) * 1_600 / ONE));
    assert_eq!(t.translation, v(0, 0, 24_716));
}

#[test]
fn smoothing_at_rest_is_idempotent() {
    let mut camera = rig_behind(5 * ONE);
    let mut transform = camera.current.eye;
    for _ in 0..5 {
        let before = (camera, transform);
        update_camera_transform(&mut camera, &mut transform, None, 160);
        assert_eq!((camera, transform), before);
    }
}

#[test]
fn smoothing_turns_view_and_commits_pending() {
    let mut camera = rig_behind(5 * ONE);
    camera.pending.eye.forward = v(-ONE, 0, 0);
    camera.set_target(v(0, 0, 10));
    let mut transform = camera.current.eye;
    update_camera_transform(&mut camera, &mut transform, None, 160);
    // Rotation rate 15 over 16 ms: 0.24 of the way, (-2400, 0, -7600),
    // scaled back by the ceiling of its length, 7970.
    assert_eq!(transform.forward, v(-3_011, 0, -9_535));
    assert_eq!(camera.current, camera.pending);
    assert_eq!(camera.current.target, v(0, 0, 10));
}

#[test]
fn cursor_gate() {
    let free = CursorState { grab_mode: CursorGrabMode::Free, visible: true };
    let locked = CursorState { grab_mode: CursorGrabMode::Locked, visible: false };
    let confined = CursorState { grab_mode: CursorGrabMode::Confined, visible: true };
    assert_eq!(cursor_grab(free, false, true), locked);
    assert_eq!(cursor_grab(locked, false, true), free);
    assert_eq!(cursor_grab(confined, false, true), free);
    assert_eq!(cursor_grab(locked, false, false), locked);
    assert_eq!(cursor_grab(locked, true, false), free);
    assert_eq!(cursor_grab(free, true, true), free);
}

#[test]
fn default_matches_new() {
    assert_eq!(MainCamera::default(), MainCamera::new());
}

#[test]
fn rigs_by_entity() {
    let mut rigs = CameraRigs::new();
    assert_eq!(rigs.get(7), None);
    let eye = Transform { translation: v(1, 2, 3), forward: v(0, -ONE, 0) };
    rigs.spawn(7, eye);
    let camera = rigs.get(7).unwrap();
    assert_eq!(camera.current.eye, eye);
    assert_eq!(camera.pending, MainCamera::new().pending);
    assert!(rigs.set_target(7, v(4, 5, 6)));
    assert_eq!(rigs.get(7).unwrap().pending.target, v(4, 5, 6));
    assert!(!rigs.set_target(8, v(4, 5, 6)));
    assert_eq!(rigs.get(8), None);
    let mut moved = rigs.get(7).unwrap();
    follow_target(&mut moved);
    assert!(rigs.put(7, moved));
    assert!(!rigs.put(9, moved));
    assert_eq!(rigs.get(7), Some(moved));
    assert!(rigs.despawn(7));
    assert!(!rigs.despawn(7));
    assert_eq!(rigs.get(7), None);
}

fn len2(a: Vec3) -> i128 {
    a.length_squared()
}

#[test]
fn normalized_direction_never_longer_than_one() {
    // floor(sqrt(120)) = 10 would give (10000, 4000, 2000); the ceiling, 11, does not.
    let d = v(10, 4, 2).normalize_or(v(0, 0, ONE));
    assert_eq!(d, v(9_090, 3_636, 1_818));
    assert!(len2(d) <= (ONE as i128) * (ONE as i128));
    for c in [v(1, 1, 10), v(7, 7, 7), v(123_457, -98_765, 4_321), v(-11, 0, 0)] {
        let d = c.normalize_or(v(0, 0, ONE));
        assert!(len2(d) <= (ONE as i128) * (ONE as i128), "{c:?}");
    }
}

#[test]
fn clear_view_stays_within_reach() {
    let mut camera = MainCamera::new();
    camera.pending.eye.translation = v(10, 4, 2);
    let sight = keep_line_of_sight(&camera, None);
    assert_eq!(sight.location, v(45_450, 18_180, 9_090));
    assert!(len2(sight.location) <= (MAX_DISTANCE as i128) * (MAX_DISTANCE as i128));
    let mut transform = Transform { translation: v(10, 4, 2), forward: v(0, 0, -ONE) };
    update_camera_transform(&mut camera, &mut transform, None, ONE);
    assert_eq!(transform.translation, sight.location);
    assert!(len2(transform.translation) <= (MAX_DISTANCE as i128) * (MAX_DISTANCE as i128));
}

#[test]
fn half_turn_view_stays_a_direction() {
    let mut camera = rig_behind(5 * ONE);
    camera.pending.eye.forward = v(0, 0, ONE);
    let start = Transform { translation: v(0, 0, 5 * ONE), forward: v(0, 0, -ONE) };
    // 15 * 333 = 4995 steps: the blend (0, 0, -10) scales back to a full direction.
    let mut transform = start;
    update_camera_transform(&mut camera.clone(), &mut transform, None, 333);
    assert_eq!(transform.forward, v(0, 0, -ONE));
    // 15 * 334 = 5010 steps: just past halfway, (0, 0, 20).
    let mut transform = start;
    update_camera_transform(&mut camera, &mut transform, None, 334);
    assert_eq!(transform.forward, v(0, 0, ONE));
}

#[test]
fn world_bounds_checked_per_stage() {
    let camera = rig_behind(5 * ONE);
    assert!(follow_stays_in_world(&camera));
    assert!(line_of_sight_in_world(&camera, None));
    let identity = Rotation { x_row: v(ONE, 0, 0), y_row: v(0, ONE, 0), z_row: v(0, 0, ONE) };
    assert!(orbit_stays_in_world(&camera, &identity));
    let mut far = MainCamera::new();
    far.current.eye.translation = v(WORLD_MAX, 0, 0);
    far.pending.target = v(WORLD_MAX, 0, 0);
    assert!(!follow_stays_in_world(&far));
}
