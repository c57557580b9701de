use engine_core::World;
use engine_core::fixed::Vec3Fx;
use engine_core::physics::aabb_mtv;

const ONE: i64 = 1_000_000;
const HALF: i64 = 500_000;

fn v(x: i64, y: i64, z: i64) -> Vec3Fx {
    Vec3Fx { x, y, z }
}

#[test]
fn mtv_none_when_separated() {
    assert_eq!(aabb_mtv(v(0, 0, 0), v(HALF, HALF, HALF), v(2 * ONE, 0, 0), v(HALF, HALF, HALF)), None);
    // touching exactly is not penetrating
    assert_eq!(aabb_mtv(v(0, 0, 0), v(HALF, HALF, HALF), v(ONE, 0, 0), v(HALF, HALF, HALF)), None);
}

#[test]
fn mtv_picks_minimal_axis_with_sign() {
    // B is slightly to the right: x overlap is smallest
    let m = aabb_mtv(v(0, 0, 0), v(HALF, HALF, HALF), v(900_000, 100_000, 0), v(HALF, HALF, HALF));
    assert_eq!(m, Some(v(100_000, 0, 0)));
    // B below: the correction is negative on y (subtracting pushes A up)
    let m = aabb_mtv(v(0, 0, 0), v(HALF, HALF, HALF), v(0, -900_000, 0), v(HALF, HALF, HALF));
    assert_eq!(m, Some(v(0, -100_000, 0)));
}

#[test]
fn mtv_tie_break_is_deterministic() {
    // equal overlap on x and y: the comparison chain yields the y axis
    let m = aabb_mtv(v(0, 0, 0), v(HALF, HALF, HALF), v(900_000, 900_000, 0), v(HALF, HALF, HALF));
    assert_eq!(m, Some(v(0, 100_000, 0)));
    // equal overlap on all three axes: the chain yields the z axis
    let m = aabb_mtv(v(0, 0, 0), v(HALF, HALF, HALF), v(900_000, 900_000, 900_000), v(HALF, HALF, HALF));
    assert_eq!(m, Some(v(0, 0, 100_000)));
}

fn world_with_body_on_floor() -> (World, usize, usize) {
    let mut w = World::new();
    let body = w.create_entity();
    w.add_transform(body, 0, 0, 0);
    w.add_rigid_body(body, false);
    w.add_collider_aabb(body, HALF, HALF, HALF);
    let floor = w.create_entity();
    w.add_transform(floor, 0, -ONE, 0);
    w.add_rigid_body(floor, true);
    w.add_collider_aabb(floor, HALF, HALF, HALF);
    (w, body, floor)
}

#[test]
fn falling_body_comes_to_rest_on_floor() {
    // one second of 16 ms steps over a static floor whose top face is at
    // the body's starting bottom face
    let (mut w, body, _floor) = world_with_body_on_floor();
    for _ in 0..63 {
        w.update(16);
    }
    let t = w.get_transform_array(body);
    assert_eq!(t[1], 0); // resting exactly on the floor top
    assert_eq!(w.get_velocity(body).y, 0);
}

#[test]
fn ground_detected_after_one_step() {
    let (mut w, body, floor) = world_with_body_on_floor();
    w.update(16);
    // on_ground shows through jump gating: the jump bit now works
    w.set_player(body);
    w.set_input(16, 0, 0);
    w.update(16);
    assert_eq!(w.get_velocity(body).y, 5_000_000);
    // and one step after the floor is removed, it no longer does
    let mut w2 = World::new();
    let b2 = w2.create_entity();
    w2.add_transform(b2, 0, 0, 0);
    w2.add_rigid_body(b2, false);
    w2.add_collider_aabb(b2, HALF, HALF, HALF);
    let f2 = w2.create_entity();
    w2.add_transform(f2, 0, -ONE, 0);
    w2.add_rigid_body(f2, true);
    w2.add_collider_aabb(f2, HALF, HALF, HALF);
    w2.set_player(b2);
    w2.update(16); // grounded now
    w2.remove_entity(f2);
    w2.update(16); // airborne: on_ground was reset and nothing restored it
    w2.set_input(16, 0, 0);
    w2.update(16);
    // jump ignored: only gravity acted on the vertical velocity
    assert!(w2.get_velocity(b2).y < 0);
}

#[test]
fn jump_ignored_while_airborne() {
    let mut w = World::new();
    let body = w.create_entity();
    w.add_transform(body, 0, 10 * ONE, 0);
    w.add_rigid_body(body, false);
    w.add_collider_aabb(body, HALF, HALF, HALF);
    w.set_player(body);
    w.set_input(16, 0, 0); // jump bit held, but not on the ground
    w.update(16);
    // exactly gravity's contribution: 9800 nano-units/ms per ms times 16 ms
    assert_eq!(w.get_velocity(body).y, -156_800);
}

#[test]
fn player_movement_forward_and_diagonal() {
    let mut w = World::new();
    let body = w.create_entity();
    w.add_transform(body, 0, 10 * ONE, 0);
    w.add_rigid_body(body, false);
    w.set_player(body);
    // forward at yaw zero: negative z at full speed
    w.set_input(1, 0, 0);
    w.update(16);
    let vel = w.get_velocity(body);
    assert_eq!(vel.x, 0);
    assert_eq!(vel.z, -5_000_000);
    // forward plus right: normalized diagonal
    w.set_input(1 | 8, 0, 0);
    w.update(16);
    let vel = w.get_velocity(body);
    assert_eq!(vel.x, 3_535_535);
    assert_eq!(vel.z, -3_535_535);
    // releasing all keys stops horizontal motion instantly
    w.set_input(0, 0, 0);
    w.update(16);
    let vel = w.get_velocity(body);
    assert_eq!(vel.x, 0);
    assert_eq!(vel.z, 0);
}

#[test]
fn static_resolution_does_not_penetrate() {
    // body sunk into the floor: after one step the boxes no longer overlap
    let mut w = World::new();
    let body = w.create_entity();
    w.add_transform(body, 0, -200_000, 0);
    w.add_rigid_body(body, false);
    w.add_collider_aabb(body, HALF, HALF, HALF);
    let floor = w.create_entity();
    w.add_transform(floor, 0, -ONE, 0);
    w.add_rigid_body(floor, true);
    w.add_collider_aabb(floor, HALF, HALF, HALF);
    w.update(16);
    let t = w.get_transform_array(body);
    let tf = w.get_transform_array(floor);
    assert_eq!(tf[1], -ONE); // the static body never moves
    // separated on the vertical axis: gap between faces is not negative
    assert!(t[1] - HALF >= tf[1] + HALF);
}

#[test]
fn dynamic_pair_splits_correction() {
    let mut w = World::new();
    let a = w.create_entity();
    w.add_transform(a, 0, 10 * ONE, 0);
    w.add_rigid_body(a, false);
    w.add_collider_aabb(a, HALF, HALF, HALF);
    let b = w.create_entity();
    w.add_transform(b, 800_000, 10 * ONE, 0);
    w.add_rigid_body(b, false);
    w.add_collider_aabb(b, HALF, HALF, HALF);
    // zero delta: no gravity or integration, only the resolution passes
    w.update(0);
    let ta = w.get_transform_array(a);
    let tb = w.get_transform_array(b);
    // overlap was 0.2 on x; each body moved half of it apart
    assert_eq!(ta[0], -100_000);
    assert_eq!(tb[0], 900_000);
}

#[test]
fn mouse_motion_rotates_camera_with_pitch_clamp() {
    let mut w = World::new();
    let body = w.create_entity();
    w.add_transform(body, 0, 0, 0);
    w.set_player(body);
    // 100.0 pixels right = 100000 milli-pixels
    w.set_input(0, 100_000, 0);
    w.update(16);
    assert_eq!(w.camera_yaw, 11_459_200);
    // a huge upward sweep pitches up but clamps at 89 degrees
    w.set_input(0, 0, -100_000_000);
    w.update(16);
    assert_eq!(w.camera_pitch, 89_000_000);
}

#[test]
fn camera_follows_player() {
    let mut w = World::new();
    let body = w.create_entity();
    w.add_transform(body, 2 * ONE, 0, 3 * ONE);
    w.set_player(body);
    w.update(0);
    // eye sits 1.6 units above the player
    assert_eq!(w.camera.eye, v(2 * ONE, 1_600_000, 3 * ONE));
    // at zero yaw and pitch the target is one unit toward negative z
    assert_eq!(w.camera.target, v(2 * ONE, 1_600_000, 2 * ONE));
}
