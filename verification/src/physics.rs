//! The per-frame physics and collision step, in the strict order: camera
//! rotation from mouse deltas, gravity and player input into velocities,
//! Euler integration of positions, dynamic-versus-static AABB resolution by
//! minimum translation vector, dynamic-versus-dynamic resolution with the
//! correction split in half, and finally the first-person camera pose.
//!
//! Every phase is specified as a function of the previous state; the step's
//! contract states the whole resulting world.

use vstd::prelude::*;
use crate::fixed::{
    Vec3Fx, FX_ONE, sadd, ssub, abs_sat, div_tr, muldiv, fxmul, sin_ud, cos_ud,
    isqrt_spec, add_sat, sub_sat, abs_fx, div_trunc, mul_div, mul_fx, sin_fx, cos_fx, isqrt64,
};
use vstd::arithmetic::div_mod::lemma_div_is_ordered;
use crate::components::{Transform, RigidBody, Collider, Camera};
use crate::world::World;
use crate::store::EMPTY;

verus! {

/// Longest time step integrated in one call, in milliseconds.
pub const MAX_STEP_MS: i64 = 50;

/// Gravity, nano-units per millisecond of velocity lost per millisecond
/// (9.8 units per second per second).
pub const GRAVITY: i64 = 9800;

/// Horizontal player speed, nano-units per millisecond (5 units per second).
pub const MOVE_SPEED: i64 = 5_000_000;

/// Vertical velocity set by a jump, nano-units per millisecond.
pub const JUMP_SPEED: i64 = 5_000_000;

/// Mouse sensitivity: micro-degrees of rotation per pixel of mouse motion
/// (0.002 radians per pixel).
pub const MOUSE_SENS_UDEG_PER_PX: i64 = 114_592;

/// Pitch is clamped to plus/minus 89 degrees.
pub const PITCH_LIMIT_UDEG: i64 = 89_000_000;

/// The first-person eye sits 1.6 units above the player position.
pub const EYE_HEIGHT: i64 = 1_600_000;

/// Key bitmask bits.
pub const KEY_FORWARD: u32 = 1;
pub const KEY_BACK: u32 = 2;
pub const KEY_LEFT: u32 = 4;
pub const KEY_RIGHT: u32 = 8;
pub const KEY_JUMP: u32 = 16;

/// Overlap of two intervals centered at `ca`, `cb` with half-widths `ha`,
/// `hb`; positive means penetration on that axis.
pub open spec fn overlap1(ca: int, ha: int, cb: int, hb: int) -> int {
    ssub(sadd(ha, hb), abs_sat(ssub(cb, ca)))
}

/// Collider half-extents scaled by the absolute value of the owning
/// entity's scale at collision time.
pub open spec fn spec_scaled_he(c: Collider, t: Transform) -> Vec3Fx {
    Vec3Fx {
        x: fxmul(c.half_extents.x as int, abs_sat(t.scale.x as int)) as i64,
        y: fxmul(c.half_extents.y as int, abs_sat(t.scale.y as int)) as i64,
        z: fxmul(c.half_extents.z as int, abs_sat(t.scale.z as int)) as i64,
    }
}

/// Minimum translation vector separating box A from box B, to be
/// subtracted from A's position; `None` when the boxes do not penetrate on
/// some axis. The strictly smallest positive overlap picks the axis; the
/// comparison chain resolves exact ties deterministically (an X-Y tie goes
/// to Y, a Y-Z tie to Z).
pub open spec fn mtv_spec(ca: Vec3Fx, ha: Vec3Fx, cb: Vec3Fx, hb: Vec3Fx) -> Option<Vec3Fx> {
    let ox = overlap1(ca.x as int, ha.x as int, cb.x as int, hb.x as int);
    let oy = overlap1(ca.y as int, ha.y as int, cb.y as int, hb.y as int);
    let oz = overlap1(ca.z as int, ha.z as int, cb.z as int, hb.z as int);
    if ox <= 0 || oy <= 0 || oz <= 0 {
        None
    } else if ox < oy && ox < oz {
        Some(Vec3Fx {
            x: (if ssub(cb.x as int, ca.x as int) > 0 { ox } else { -ox }) as i64,
            y: 0,
            z: 0,
        })
    } else if oy < oz {
        Some(Vec3Fx {
            x: 0,
            y: (if ssub(cb.y as int, ca.y as int) > 0 { oy } else { -oy }) as i64,
            z: 0,
        })
    } else {
        Some(Vec3Fx {
            x: 0,
            y: 0,
            z: (if ssub(cb.z as int, ca.z as int) > 0 { oz } else { -oz }) as i64,
        })
    }
}

fn overlap1_fx(ca: i64, ha: i64, cb: i64, hb: i64) -> (r: i64)
    ensures
        r as int == overlap1(ca as int, ha as int, cb as int, hb as int),
{
    sub_sat(add_sat(ha, hb), abs_fx(sub_sat(cb, ca)))
}

/// Computes the MTV separating box A (center `ca`, half-extents `ha`) from
/// box B, or `None` if they do not penetrate.
pub fn aabb_mtv(ca: Vec3Fx, ha: Vec3Fx, cb: Vec3Fx, hb: Vec3Fx) -> (r: Option<Vec3Fx>)
    ensures
        r == mtv_spec(ca, ha, cb, hb),
{
    let ox = overlap1_fx(ca.x, ha.x, cb.x, hb.x);
    let oy = overlap1_fx(ca.y, ha.y, cb.y, hb.y);
    let oz = overlap1_fx(ca.z, ha.z, cb.z, hb.z);
    if ox <= 0 || oy <= 0 || oz <= 0 {
        return None;
    }
    if ox < oy && ox < oz {
        Some(Vec3Fx { x: if sub_sat(cb.x, ca.x) > 0 { ox } else { -ox }, y: 0, z: 0 })
    } else if oy < oz {
        Some(Vec3Fx { x: 0, y: if sub_sat(cb.y, ca.y) > 0 { oy } else { -oy }, z: 0 })
    } else {
        Some(Vec3Fx { x: 0, y: 0, z: if sub_sat(cb.z, ca.z) > 0 { oz } else { -oz } })
    }
}

/// Scaled half-extents of an entity's box at collision time.
pub fn scaled_he(c: &Collider, t: &Transform) -> (r: Vec3Fx)
    ensures
        r == spec_scaled_he(*c, *t),
{
    Vec3Fx {
        x: mul_fx(c.half_extents.x, abs_fx(t.scale.x)),
        y: mul_fx(c.half_extents.y, abs_fx(t.scale.y)),
        z: mul_fx(c.half_extents.z, abs_fx(t.scale.z)),
    }
}

/// Horizontal velocity recomputed from scratch from the key bitmask,
/// relative to the camera yaw: the selected forward/back/left/right unit
/// vectors are summed, normalized, and scaled to the fixed move speed.
pub open spec fn move_velocity(keys: u32, yaw: int) -> (int, int) {
    let fx = sin_ud(yaw);
    let fz = -cos_ud(yaw);
    let rx = cos_ud(yaw);
    let rz = sin_ud(yaw);
    let mdx = (if keys & KEY_FORWARD != 0 { fx } else { 0 })
        - (if keys & KEY_BACK != 0 { fx } else { 0 })
        - (if keys & KEY_LEFT != 0 { rx } else { 0 })
        + (if keys & KEY_RIGHT != 0 { rx } else { 0 });
    let mdz = (if keys & KEY_FORWARD != 0 { fz } else { 0 })
        - (if keys & KEY_BACK != 0 { fz } else { 0 })
        - (if keys & KEY_LEFT != 0 { rz } else { 0 })
        + (if keys & KEY_RIGHT != 0 { rz } else { 0 });
    if mdx != 0 || mdz != 0 {
        let len = isqrt_spec((mdx * mdx + mdz * mdz) as nat) as int;
        let dx = div_tr(mdx * (FX_ONE as int), len);
        let dz = div_tr(mdz * (FX_ONE as int), len);
        (muldiv(dx, MOVE_SPEED as int, FX_ONE as int), muldiv(dz, MOVE_SPEED as int, FX_ONE as int))
    } else {
        (0, 0)
    }
}

/// One dynamic body through the gravity-and-input phase: gravity always
/// pulls the vertical velocity down by `GRAVITY * dt`; the player's
/// horizontal velocity is recomputed from the keys; the jump bit sets the
/// vertical velocity to `JUMP_SPEED` only if the body was on the ground in
/// the previous frame; `on_ground` is then reset for this frame.
pub open spec fn step_body(rb: RigidBody, is_player: bool, keys: u32, yaw: int, dt: int) -> RigidBody {
    let vy_grav = ssub(rb.velocity.y as int, (GRAVITY as int) * dt);
    let vy = if is_player && keys & KEY_JUMP != 0 && rb.on_ground {
        JUMP_SPEED as int
    } else {
        vy_grav
    };
    let (vx, vz) = if is_player {
        move_velocity(keys, yaw)
    } else {
        (rb.velocity.x as int, rb.velocity.z as int)
    };
    RigidBody {
        velocity: Vec3Fx { x: vx as i64, y: vy as i64, z: vz as i64 },
        is_static: rb.is_static,
        on_ground: false,
    }
}

fn step_body_exec(rb: RigidBody, is_player: bool, keys: u32, yaw: i64, dt: i64) -> (r: RigidBody)
    requires
        0 <= dt <= MAX_STEP_MS,
    ensures
        r == step_body(rb, is_player, keys, yaw as int, dt as int),
{
    let vy_grav = sub_sat(rb.velocity.y, GRAVITY * dt);
    let vy = if is_player && keys & KEY_JUMP != 0 && rb.on_ground {
        JUMP_SPEED
    } else {
        vy_grav
    };
    let mut vx = rb.velocity.x;
    let mut vz = rb.velocity.z;
    if is_player {
        let fx = sin_fx(yaw);
        let fz = -cos_fx(yaw);
        let rx = cos_fx(yaw);
        let rz = sin_fx(yaw);
        let mdx = (if keys & KEY_FORWARD != 0 { fx } else { 0 })
            - (if keys & KEY_BACK != 0 { fx } else { 0 })
            - (if keys & KEY_LEFT != 0 { rx } else { 0 })
            + (if keys & KEY_RIGHT != 0 { rx } else { 0 });
        let mdz = (if keys & KEY_FORWARD != 0 { fz } else { 0 })
            - (if keys & KEY_BACK != 0 { fz } else { 0 })
            - (if keys & KEY_LEFT != 0 { rz } else { 0 })
            + (if keys & KEY_RIGHT != 0 { rz } else { 0 });
        if mdx != 0 || mdz != 0 {
            proof {
                assert(mdx * mdx + mdz * mdz >= 1 && mdx * mdx <= 4_000_000_000_000
                    && mdz * mdz <= 4_000_000_000_000) by (nonlinear_arith)
                    requires
                        -2_000_000 <= mdx as int <= 2_000_000,
                        -2_000_000 <= mdz as int <= 2_000_000,
                        mdx != 0 || mdz != 0,
                ;
            }
            let sq = (mdx * mdx + mdz * mdz) as u64;
            let len_u = isqrt64(sq);
            let len = len_u as i64;
            proof {
                assert(1 <= len as int && len as int <= 4_000_000) by (nonlinear_arith)
                    requires
                        1 <= sq as int <= 8_000_000_000_000,
                        (len_u as int) * (len_u as int) <= sq as int,
                        (sq as int) < (len_u as int + 1) * (len_u as int + 1),
                        len as int == len_u as int,
                        len_u as int >= 0,
                ;
            }
            let dx = div_trunc(mdx * FX_ONE, len);
            let dz = div_trunc(mdz * FX_ONE, len);
            vx = mul_div(dx, MOVE_SPEED, FX_ONE);
            vz = mul_div(dz, MOVE_SPEED, FX_ONE);
        } else {
            vx = 0;
            vz = 0;
        }
    }
    RigidBody { velocity: Vec3Fx { x: vx, y: vy, z: vz }, is_static: rb.is_static, on_ground: false }
}

/// Ghost state threaded through the collision-resolution passes.
pub ghost struct SimState {
    pub transforms: Map<usize, Transform>,
    pub bodies: Map<usize, RigidBody>,
}

/// The ids from `ids[k..]` whose body's `is_static` flag equals
/// `want_static`, in order.
pub open spec fn filtered_ids(
    ids: Seq<usize>,
    bodies: Map<usize, RigidBody>,
    want_static: bool,
    k: int,
) -> Seq<usize>
    decreases ids.len() - k,
{
    if k < 0 || k >= ids.len() {
        Seq::empty()
    } else {
        let rest = filtered_ids(ids, bodies, want_static, k + 1);
        if bodies.contains_key(ids[k]) && bodies[ids[k]].is_static == want_static {
            seq![ids[k]] + rest
        } else {
            rest
        }
    }
}

/// Gravity-and-input phase over the bodies listed in `ids[k..]`.
pub open spec fn gravity_input_from(
    b: Map<usize, RigidBody>,
    ids: Seq<usize>,
    k: int,
    player: Option<usize>,
    keys: u32,
    yaw: int,
    dt: int,
) -> Map<usize, RigidBody>
    decreases ids.len() - k,
{
    if k < 0 || k >= ids.len() {
        b
    } else {
        let id = ids[k];
        let b2 = if b.contains_key(id) && !b[id].is_static {
            b.insert(id, step_body(b[id], player == Some(id), keys, yaw, dt))
        } else {
            b
        };
        gravity_input_from(b2, ids, k + 1, player, keys, yaw, dt)
    }
}

/// Euler integration of one transform: position moves by velocity times the
/// time step (nano-units per millisecond times milliseconds, truncated to
/// micro-units).
pub open spec fn integrate_pos(t: Transform, vel: Vec3Fx, dt: int) -> Transform {
    Transform {
        position: Vec3Fx {
            x: sadd(t.position.x as int, muldiv(vel.x as int, dt, 1000)) as i64,
            y: sadd(t.position.y as int, muldiv(vel.y as int, dt, 1000)) as i64,
            z: sadd(t.position.z as int, muldiv(vel.z as int, dt, 1000)) as i64,
        },
        ..t
    }
}

/// Integration phase over the bodies listed in `ids[k..]`.
pub open spec fn integrate_from(
    t: Map<usize, Transform>,
    b: Map<usize, RigidBody>,
    ids: Seq<usize>,
    k: int,
    dt: int,
) -> Map<usize, Transform>
    decreases ids.len() - k,
{
    if k < 0 || k >= ids.len() {
        t
    } else {
        let id = ids[k];
        let t2 = if b.contains_key(id) && t.contains_key(id) {
            t.insert(id, integrate_pos(t[id], b[id].velocity, dt))
        } else {
            t
        };
        integrate_from(t2, b, ids, k + 1, dt)
    }
}

/// Resolution of one (dynamic, static) pair: if both entities have a
/// transform and a collider and their scaled boxes penetrate, the MTV is
/// subtracted from the dynamic position, the velocity is zeroed along every
/// non-zero MTV axis, and an upward correction sets `on_ground`.
pub open spec fn resolve_static_pair(
    s: SimState,
    colliders: Map<usize, Collider>,
    d: usize,
    sid: usize,
) -> SimState {
    if s.transforms.contains_key(d) && colliders.contains_key(d)
        && s.transforms.contains_key(sid) && colliders.contains_key(sid) {
        let td = s.transforms[d];
        let ts = s.transforms[sid];
        let dhe = spec_scaled_he(colliders[d], td);
        let she = spec_scaled_he(colliders[sid], ts);
        match mtv_spec(td.position, dhe, ts.position, she) {
            None => s,
            Some(m) => {
                let t2 = s.transforms.insert(d, Transform {
                    position: td.position.spec_sub(m),
                    ..td
                });
                let b2 = if s.bodies.contains_key(d) {
                    let rb = s.bodies[d];
                    s.bodies.insert(d, RigidBody {
                        velocity: Vec3Fx {
                            x: if m.x != 0 { 0 } else { rb.velocity.x },
                            y: if m.y != 0 { 0 } else { rb.velocity.y },
                            z: if m.z != 0 { 0 } else { rb.velocity.z },
                        },
                        is_static: rb.is_static,
                        on_ground: if m.y != 0 && m.y < 0 { true } else { rb.on_ground },
                    })
                } else {
                    s.bodies
                };
                SimState { transforms: t2, bodies: b2 }
            },
        }
    } else {
        s
    }
}

/// One dynamic entity against the static entities listed in `stas[j..]`.
pub open spec fn resolve_static_row_from(
    s: SimState,
    colliders: Map<usize, Collider>,
    d: usize,
    stas: Seq<usize>,
    j: int,
) -> SimState
    decreases stas.len() - j,
{
    if j < 0 || j >= stas.len() {
        s
    } else {
        resolve_static_row_from(resolve_static_pair(s, colliders, d, stas[j]), colliders, d, stas, j + 1)
    }
}

/// The whole dynamic-versus-static pass, sequentially over the dynamic
/// entities listed in `dyns[i..]`.
pub open spec fn resolve_static_from(
    s: SimState,
    colliders: Map<usize, Collider>,
    dyns: Seq<usize>,
    stas: Seq<usize>,
    i: int,
) -> SimState
    decreases dyns.len() - i,
{
    if i < 0 || i >= dyns.len() {
        s
    } else {
        resolve_static_from(
            resolve_static_row_from(s, colliders, dyns[i], stas, 0),
            colliders, dyns, stas, i + 1,
        )
    }
}

/// Resolution of one unordered dynamic pair: the MTV is split in half and
/// applied in opposite directions; each body's velocity is zeroed along
/// every non-zero MTV axis; this pass never sets `on_ground`.
pub open spec fn resolve_dyn_pair(
    s: SimState,
    colliders: Map<usize, Collider>,
    a: usize,
    b: usize,
) -> SimState {
    if a != b && s.transforms.contains_key(a) && colliders.contains_key(a)
        && s.transforms.contains_key(b) && colliders.contains_key(b) {
        let ta = s.transforms[a];
        let tb = s.transforms[b];
        let ahe = spec_scaled_he(colliders[a], ta);
        let bhe = spec_scaled_he(colliders[b], tb);
        match mtv_spec(ta.position, ahe, tb.position, bhe) {
            None => s,
            Some(m) => {
                let half = Vec3Fx {
                    x: div_tr(m.x as int, 2) as i64,
                    y: div_tr(m.y as int, 2) as i64,
                    z: div_tr(m.z as int, 2) as i64,
                };
                let t2 = s.transforms
                    .insert(a, Transform { position: ta.position.spec_sub(half), ..ta })
                    .insert(b, Transform { position: tb.position.spec_add(half), ..tb });
                let b1 = if s.bodies.contains_key(a) {
                    let rb = s.bodies[a];
                    s.bodies.insert(a, RigidBody {
                        velocity: Vec3Fx {
                            x: if m.x != 0 { 0 } else { rb.velocity.x },
                            y: if m.y != 0 { 0 } else { rb.velocity.y },
                            z: if m.z != 0 { 0 } else { rb.velocity.z },
                        },
                        ..rb
                    })
                } else {
                    s.bodies
                };
                let b2 = if b1.contains_key(b) {
                    let rb = b1[b];
                    b1.insert(b, RigidBody {
                        velocity: Vec3Fx {
                            x: if m.x != 0 { 0 } else { rb.velocity.x },
                            y: if m.y != 0 { 0 } else { rb.velocity.y },
                            z: if m.z != 0 { 0 } else { rb.velocity.z },
                        },
                        ..rb
                    })
                } else {
                    b1
                };
                SimState { transforms: t2, bodies: b2 }
            },
        }
    } else {
        s
    }
}

/// One dynamic entity against the later dynamic entities `dyns[j..]`.
pub open spec fn resolve_dyn_row_from(
    s: SimState,
    colliders: Map<usize, Collider>,
    a: usize,
    dyns: Seq<usize>,
    j: int,
) -> SimState
    decreases dyns.len() - j,
{
    if j < 0 || j >= dyns.len() {
        s
    } else {
        resolve_dyn_row_from(resolve_dyn_pair(s, colliders, a, dyns[j]), colliders, a, dyns, j + 1)
    }
}

/// The whole dynamic-versus-dynamic pass over unordered pairs of
/// `dyns[i..]`.
pub open spec fn resolve_dyn_from(
    s: SimState,
    colliders: Map<usize, Collider>,
    dyns: Seq<usize>,
    i: int,
) -> SimState
    decreases dyns.len() - i,
{
    if i < 0 || i >= dyns.len() {
        s
    } else {
        resolve_dyn_from(
            resolve_dyn_row_from(s, colliders, dyns[i], dyns, i + 1),
            colliders, dyns, i + 1,
        )
    }
}

/// First-person camera pose: the eye sits a fixed height above the player,
/// and the look target is the eye plus the forward vector derived from yaw
/// and pitch (unit length by construction in fixed point).
pub open spec fn camera_after(
    cam: Camera,
    player: Option<usize>,
    t: Map<usize, Transform>,
    yaw: int,
    pitch: int,
) -> Camera {
    match player {
        Some(pid) => if t.contains_key(pid) {
            let eye = t[pid].position.spec_add(Vec3Fx { x: 0, y: EYE_HEIGHT, z: 0 });
            let fwd = Vec3Fx {
                x: fxmul(cos_ud(pitch), sin_ud(yaw)) as i64,
                y: sin_ud(pitch) as i64,
                z: ssub(0, fxmul(cos_ud(pitch), cos_ud(yaw))) as i64,
            };
            Camera { eye, target: eye.spec_add(fwd), ..cam }
        } else {
            cam
        },
        None => cam,
    }
}

/// Clamp to a closed interval.
pub open spec fn clamp_rng(v: int, lo: int, hi: int) -> int {
    if v < lo {
        lo
    } else if v > hi {
        hi
    } else {
        v
    }
}

/// Everything the physics step changes, as a function of the previous
/// world and the raw frame delta in milliseconds.
pub ghost struct StepResult {
    pub camera_yaw: i64,
    pub camera_pitch: i64,
    pub transforms: Map<usize, Transform>,
    pub bodies: Map<usize, RigidBody>,
    pub camera: Camera,
}

/// The full step: clamp the time delta, rotate the camera, apply gravity
/// and input, integrate, resolve dynamic-static then dynamic-dynamic
/// collisions, derive the camera pose.
pub open spec fn spec_update(w: World, delta_ms: u64) -> StepResult {
    let dt: int = if delta_ms > 50 { 50 } else { delta_ms as int };
    let yaw = sadd(w.camera_yaw as int,
        muldiv(w.input.mouse_dx as int, MOUSE_SENS_UDEG_PER_PX as int, 1000));
    let pitch = clamp_rng(
        ssub(w.camera_pitch as int,
            muldiv(w.input.mouse_dy as int, MOUSE_SENS_UDEG_PER_PX as int, 1000)),
        -(PITCH_LIMIT_UDEG as int),
        PITCH_LIMIT_UDEG as int,
    );
    let ids = w.rigid_bodies.ids_seq();
    let dyns = filtered_ids(ids, w.rigid_bodies@, false, 0);
    let stas = filtered_ids(ids, w.rigid_bodies@, true, 0);
    let b2 = gravity_input_from(w.rigid_bodies@, dyns, 0, w.player_entity, w.input.keys, yaw, dt);
    let t3 = integrate_from(w.transforms@, b2, dyns, 0, dt);
    let s4 = resolve_static_from(SimState { transforms: t3, bodies: b2 }, w.colliders@, dyns, stas, 0);
    let s5 = resolve_dyn_from(s4, w.colliders@, dyns, 0);
    let cam = camera_after(w.camera, w.player_entity, s5.transforms, yaw, pitch);
    StepResult {
        camera_yaw: yaw as i64,
        camera_pitch: pitch as i64,
        transforms: s5.transforms,
        bodies: s5.bodies,
        camera: cam,
    }
}

impl World {
    /// Resolves one (dynamic, static) pair in place, exactly as
    /// `resolve_static_pair` describes.
    fn do_static_pair(&mut self, d: usize, sid: usize)
        requires
            old(self).wf(),
            d != EMPTY,
            sid != EMPTY,
        ensures
            final(self).wf(),
            final(self).transforms.ids_seq() == old(self).transforms.ids_seq(),
            final(self).rigid_bodies.ids_seq() == old(self).rigid_bodies.ids_seq(),
            (SimState { transforms: final(self).transforms@, bodies: final(self).rigid_bodies@ })
                == resolve_static_pair(
                    (SimState { transforms: old(self).transforms@, bodies: old(self).rigid_bodies@ }),
                    old(self).colliders@, d, sid,
                ),
            *final(self) == (World {
                transforms: final(self).transforms,
                rigid_bodies: final(self).rigid_bodies,
                ..*old(self)
            }),
    {
        let ghost prev = SimState { transforms: self.transforms@, bodies: self.rigid_bodies@ };
        let dyn_box = match (self.transforms.get(d), self.colliders.get(d)) {
            (Some(t), Some(c)) => Some((t.position, scaled_he(c, t))),
            _ => None,
        };
        let sta_box = match (self.transforms.get(sid), self.colliders.get(sid)) {
            (Some(t), Some(c)) => Some((t.position, scaled_he(c, t))),
            _ => None,
        };
        if let (Some((dp, dh)), Some((sp, sh))) = (dyn_box, sta_box) {
            if let Some(m) = aabb_mtv(dp, dh, sp, sh) {
                match self.transforms.get_mut(d) {
                    Some(t) => {
                        let cur = *t;
                        *t = Transform { position: cur.position.sub(m), ..cur };
                    },
                    None => {},
                }
                match self.rigid_bodies.get_mut(d) {
                    Some(rb) => {
                        let cur = *rb;
                        *rb = RigidBody {
                            velocity: Vec3Fx {
                                x: if m.x != 0 { 0 } else { cur.velocity.x },
                                y: if m.y != 0 { 0 } else { cur.velocity.y },
                                z: if m.z != 0 { 0 } else { cur.velocity.z },
                            },
                            is_static: cur.is_static,
                            on_ground: if m.y != 0 && m.y < 0 { true } else { cur.on_ground },
                        };
                    },
                    None => {},
                }
            }
        }
        proof {
            let now = SimState { transforms: self.transforms@, bodies: self.rigid_bodies@ };
            let goal = resolve_static_pair(prev, old(self).colliders@, d, sid);
            assert(now.transforms =~= goal.transforms);
            assert(now.bodies =~= goal.bodies);
            assert(now == goal);
        }
    }

    /// Resolves one unordered dynamic pair in place, exactly as
    /// `resolve_dyn_pair` describes.
    fn do_dyn_pair(&mut self, a: usize, b: usize)
        requires
            old(self).wf(),
            a != EMPTY,
            b != EMPTY,
        ensures
            final(self).wf(),
            final(self).transforms.ids_seq() == old(self).transforms.ids_seq(),
            final(self).rigid_bodies.ids_seq() == old(self).rigid_bodies.ids_seq(),
            (SimState { transforms: final(self).transforms@, bodies: final(self).rigid_bodies@ })
                == resolve_dyn_pair(
                    (SimState { transforms: old(self).transforms@, bodies: old(self).rigid_bodies@ }),
                    old(self).colliders@, a, b,
                ),
            *final(self) == (World {
                transforms: final(self).transforms,
                rigid_bodies: final(self).rigid_bodies,
                ..*old(self)
            }),
    {
        let ghost prev = SimState { transforms: self.transforms@, bodies: self.rigid_bodies@ };
        let a_box = if b == a {
            None
        } else {
            match (self.transforms.get(a), self.colliders.get(a)) {
                (Some(t), Some(c)) => Some((t.position, scaled_he(c, t))),
                _ => None,
            }
        };
        let b_box = match (self.transforms.get(b), self.colliders.get(b)) {
            (Some(t), Some(c)) => Some((t.position, scaled_he(c, t))),
            _ => None,
        };
        if let (Some((ap, ah)), Some((bp, bh))) = (a_box, b_box) {
            if let Some(m) = aabb_mtv(ap, ah, bp, bh) {
                let half = Vec3Fx {
                    x: div_trunc(m.x, 2),
                    y: div_trunc(m.y, 2),
                    z: div_trunc(m.z, 2),
                };
                match self.transforms.get_mut(a) {
                    Some(t) => {
                        let cur = *t;
                        *t = Transform { position: cur.position.sub(half), ..cur };
                    },
                    None => {},
                }
                match self.transforms.get_mut(b) {
                    Some(t) => {
                        let cur = *t;
                        *t = Transform { position: cur.position.add(half), ..cur };
                    },
                    None => {},
                }
                match self.rigid_bodies.get_mut(a) {
                    Some(rb) => {
                        let cur = *rb;
                        *rb = RigidBody {
                            velocity: Vec3Fx {
                                x: if m.x != 0 { 0 } else { cur.velocity.x },
                                y: if m.y != 0 { 0 } else { cur.velocity.y },
                                z: if m.z != 0 { 0 } else { cur.velocity.z },
                            },
                            ..cur
                        };
                    },
                    None => {},
                }
                match self.rigid_bodies.get_mut(b) {
                    Some(rb) => {
                        let cur = *rb;
                        *rb = RigidBody {
                            velocity: Vec3Fx {
                                x: if m.x != 0 { 0 } else { cur.velocity.x },
                                y: if m.y != 0 { 0 } else { cur.velocity.y },
                                z: if m.z != 0 { 0 } else { cur.velocity.z },
                            },
                            ..cur
                        };
                    },
                    None => {},
                }
            }
        }
        proof {
            let now = SimState { transforms: self.transforms@, bodies: self.rigid_bodies@ };
            let goal = resolve_dyn_pair(prev, old(self).colliders@, a, b);
            assert(now.transforms =~= goal.transforms);
            assert(now.bodies =~= goal.bodies);
            assert(now == goal);
        }
    }

    /// Advances the simulation by one frame of `delta_ms` milliseconds
    /// (clamped to `MAX_STEP_MS`), in the strict phase order described by
    /// `spec_update`, which pins every resulting component value.
    pub fn update(&mut self, delta_ms: u64)
        requires
            old(self).wf(),
        ensures
            final(self).wf(),
            final(self).camera_yaw == spec_update(*old(self), delta_ms).camera_yaw,
            final(self).camera_pitch == spec_update(*old(self), delta_ms).camera_pitch,
            final(self).transforms@ == spec_update(*old(self), delta_ms).transforms,
            final(self).rigid_bodies@ == spec_update(*old(self), delta_ms).bodies,
            final(self).camera == spec_update(*old(self), delta_ms).camera,
            final(self).transforms.ids_seq() == old(self).transforms.ids_seq(),
            final(self).rigid_bodies.ids_seq() == old(self).rigid_bodies.ids_seq(),
            *final(self) == (World {
                camera_yaw: final(self).camera_yaw,
                camera_pitch: final(self).camera_pitch,
                transforms: final(self).transforms,
                rigid_bodies: final(self).rigid_bodies,
                camera: final(self).camera,
                ..*old(self)
            }),
    {
        let ghost w0 = *old(self);
        let ghost r = spec_update(w0, delta_ms);
        let dt: i64 = if delta_ms > 50 { 50 } else { delta_ms as i64 };
        let player = self.player_entity;
        let keys = self.input.keys;

        // Phase 1: accumulate yaw and pitch from the mouse deltas, clamp
        // the pitch.
        let yaw = add_sat(self.camera_yaw, mul_div(self.input.mouse_dx, MOUSE_SENS_UDEG_PER_PX, 1000));
        let p0 = sub_sat(self.camera_pitch, mul_div(self.input.mouse_dy, MOUSE_SENS_UDEG_PER_PX, 1000));
        let pitch = if p0 < -PITCH_LIMIT_UDEG {
            -PITCH_LIMIT_UDEG
        } else if p0 > PITCH_LIMIT_UDEG {
            PITCH_LIMIT_UDEG
        } else {
            p0
        };
        self.camera_yaw = yaw;
        self.camera_pitch = pitch;
        let ghost w1 = *self;

        // Collect dynamic and static ids; iterating one store while
        // mutating another is fine, iterating and mutating the same store
        // is not, so the ids are collected up front.
        let all_ids = self.rigid_bodies.iter();
        proof {
            self.rigid_bodies.lemma_model();
        }
        let ghost dyns = filtered_ids(all_ids@, w0.rigid_bodies@, false, 0);
        let ghost stas = filtered_ids(all_ids@, w0.rigid_bodies@, true, 0);
        let mut dyn_ids: Vec<usize> = Vec::new();
        let mut sta_ids: Vec<usize> = Vec::new();
        let mut k: usize = 0;
        while k < all_ids.len()
            invariant
                *self == w1,
                self.rigid_bodies.wf(),
                k <= all_ids@.len(),
                all_ids@ == w0.rigid_bodies.ids_seq(),
                self.rigid_bodies == w0.rigid_bodies,
                forall|q: int| 0 <= q < all_ids@.len() ==> (#[trigger] all_ids@[q]) != EMPTY,
                dyn_ids@ + filtered_ids(all_ids@, w0.rigid_bodies@, false, k as int) == dyns,
                sta_ids@ + filtered_ids(all_ids@, w0.rigid_bodies@, true, k as int) == stas,
            decreases all_ids@.len() - k,
        {
            let id = all_ids[k];
            let ghost prev_dyn = dyn_ids@;
            let ghost prev_sta = sta_ids@;
            match self.rigid_bodies.get(id) {
                Some(rb) => {
                    if rb.is_static {
                        sta_ids.push(id);
                    } else {
                        dyn_ids.push(id);
                    }
                },
                None => {},
            }
            proof {
                assert(prev_dyn + filtered_ids(all_ids@, w0.rigid_bodies@, false, k as int)
                    == dyns);
                if w0.rigid_bodies@.contains_key(id) && !w0.rigid_bodies@[id].is_static {
                    assert(prev_dyn.push(id)
                        + filtered_ids(all_ids@, w0.rigid_bodies@, false, k + 1)
                        =~= prev_dyn + filtered_ids(all_ids@, w0.rigid_bodies@, false, k as int));
                } else {
                    assert(filtered_ids(all_ids@, w0.rigid_bodies@, false, k + 1)
                        == filtered_ids(all_ids@, w0.rigid_bodies@, false, k as int));
                }
                if w0.rigid_bodies@.contains_key(id) && w0.rigid_bodies@[id].is_static {
                    assert(prev_sta.push(id)
                        + filtered_ids(all_ids@, w0.rigid_bodies@, true, k + 1)
                        =~= prev_sta + filtered_ids(all_ids@, w0.rigid_bodies@, true, k as int));
                } else {
                    assert(filtered_ids(all_ids@, w0.rigid_bodies@, true, k + 1)
                        == filtered_ids(all_ids@, w0.rigid_bodies@, true, k as int));
                }
            }
            k = k + 1;
        }
        proof {
            assert(dyn_ids@ + Seq::<usize>::empty() =~= dyn_ids@);
            assert(sta_ids@ + Seq::<usize>::empty() =~= sta_ids@);
            assert(dyn_ids@ == dyns);
            assert(sta_ids@ == stas);
            lemma_filtered_subset(all_ids@, w0.rigid_bodies@, false, 0);
            lemma_filtered_subset(all_ids@, w0.rigid_bodies@, true, 0);
        }

        // Phase 2: gravity and input into velocities.
        let ghost b_total = gravity_input_from(w0.rigid_bodies@, dyns, 0, player, keys,
            yaw as int, dt as int);
        let mut i: usize = 0;
        while i < dyn_ids.len()
            invariant
                self.wf(),
                0 <= dt <= MAX_STEP_MS,
                i <= dyn_ids@.len(),
                dyn_ids@ == dyns,
                player == w0.player_entity,
                keys == w0.input.keys,
                forall|q: int| 0 <= q < dyns.len() ==> (#[trigger] dyns[q]) != EMPTY,
                self.rigid_bodies.ids_seq() == w0.rigid_bodies.ids_seq(),
                gravity_input_from(self.rigid_bodies@, dyns, i as int, player, keys,
                    yaw as int, dt as int) == b_total,
                *self == (World { rigid_bodies: self.rigid_bodies, ..w1 }),
            decreases dyn_ids@.len() - i,
        {
            let id = dyn_ids[i];
            let ghost prev = self.rigid_bodies;
            let is_player = match player {
                Some(p) => p == id,
                None => false,
            };
            match self.rigid_bodies.get_mut(id) {
                Some(rb) => {
                    if !rb.is_static {
                        let nb = step_body_exec(*rb, is_player, keys, yaw, dt);
                        *rb = nb;
                    }
                },
                None => {},
            }
            proof {
                if prev@.contains_key(id) && !prev@[id].is_static {
                    assert(self.rigid_bodies@
                        == prev@.insert(id, step_body(prev@[id], player == Some(id), keys,
                            yaw as int, dt as int)));
                } else {
                    assert(self.rigid_bodies@ =~= prev@);
                }
                assert(gravity_input_from(self.rigid_bodies@, dyns, i + 1, player, keys,
                    yaw as int, dt as int) == b_total);
            }
            i = i + 1;
        }
        proof {
            assert(self.rigid_bodies@ == b_total);
        }
        let ghost w2 = *self;

        // Phase 3: Euler integration of positions.
        let ghost t_total = integrate_from(w0.transforms@, b_total, dyns, 0, dt as int);
        let mut i: usize = 0;
        while i < dyn_ids.len()
            invariant
                self.wf(),
                0 <= dt <= MAX_STEP_MS,
                i <= dyn_ids@.len(),
                dyn_ids@ == dyns,
                forall|q: int| 0 <= q < dyns.len() ==> (#[trigger] dyns[q]) != EMPTY,
                self.rigid_bodies@ == b_total,
                self.transforms.ids_seq() == w0.transforms.ids_seq(),
                integrate_from(self.transforms@, b_total, dyns, i as int, dt as int) == t_total,
                *self == (World { transforms: self.transforms, ..w2 }),
            decreases dyn_ids@.len() - i,
        {
            let id = dyn_ids[i];
            let ghost prev = self.transforms;
            let vel_opt = match self.rigid_bodies.get(id) {
                Some(rb) => Some(rb.velocity),
                None => None,
            };
            if let Some(vel) = vel_opt {
                match self.transforms.get_mut(id) {
                    Some(t) => {
                        let cur = *t;
                        *t = Transform {
                            position: Vec3Fx {
                                x: add_sat(cur.position.x, mul_div(vel.x, dt, 1000)),
                                y: add_sat(cur.position.y, mul_div(vel.y, dt, 1000)),
                                z: add_sat(cur.position.z, mul_div(vel.z, dt, 1000)),
                            },
                            ..cur
                        };
                    },
                    None => {},
                }
            }
            proof {
                if b_total.contains_key(id) && prev@.contains_key(id) {
                    assert(self.transforms@
                        == prev@.insert(id, integrate_pos(prev@[id], b_total[id].velocity,
                            dt as int)));
                } else {
                    assert(self.transforms@ =~= prev@);
                }
                assert(integrate_from(self.transforms@, b_total, dyns, i + 1, dt as int)
                    == t_total);
            }
            i = i + 1;
        }
        let ghost w3 = *self;

        // Phase 4: dynamic-versus-static MTV resolution, sequentially.
        let ghost s4 = resolve_static_from(SimState { transforms: t_total, bodies: b_total },
            w0.colliders@, dyns, stas, 0);
        let mut i: usize = 0;
        while i < dyn_ids.len()
            invariant
                self.wf(),
                i <= dyn_ids@.len(),
                dyn_ids@ == dyns,
                sta_ids@ == stas,
                forall|q: int| 0 <= q < dyns.len() ==> (#[trigger] dyns[q]) != EMPTY,
                forall|q: int| 0 <= q < stas.len() ==> (#[trigger] stas[q]) != EMPTY,
                self.transforms.ids_seq() == w0.transforms.ids_seq(),
                self.rigid_bodies.ids_seq() == w0.rigid_bodies.ids_seq(),
                self.colliders == w0.colliders,
                resolve_static_from(SimState { transforms: self.transforms@, bodies: self.rigid_bodies@ },
                    w0.colliders@, dyns, stas, i as int) == s4,
                *self == (World {
                    transforms: self.transforms,
                    rigid_bodies: self.rigid_bodies,
                    ..w3
                }),
            decreases dyn_ids@.len() - i,
        {
            let d = dyn_ids[i];
            let mut j: usize = 0;
            while j < sta_ids.len()
                invariant
                    self.wf(),
                    i < dyn_ids@.len(),
                    j <= sta_ids@.len(),
                    dyn_ids@ == dyns,
                    sta_ids@ == stas,
                    d == dyns[i as int],
                    d != EMPTY,
                    forall|q: int| 0 <= q < stas.len() ==> (#[trigger] stas[q]) != EMPTY,
                    self.transforms.ids_seq() == w0.transforms.ids_seq(),
                    self.rigid_bodies.ids_seq() == w0.rigid_bodies.ids_seq(),
                    self.colliders == w0.colliders,
                    resolve_static_from(
                        resolve_static_row_from(
                            SimState { transforms: self.transforms@, bodies: self.rigid_bodies@ },
                            w0.colliders@, d, stas, j as int),
                        w0.colliders@, dyns, stas, i + 1) == s4,
                    *self == (World {
                        transforms: self.transforms,
                        rigid_bodies: self.rigid_bodies,
                        ..w3
                    }),
                decreases sta_ids@.len() - j,
            {
                let sid = sta_ids[j];
                let ghost before = SimState { transforms: self.transforms@, bodies: self.rigid_bodies@ };
                self.do_static_pair(d, sid);
                proof {
                    let now = SimState { transforms: self.transforms@, bodies: self.rigid_bodies@ };
                    assert(now == resolve_static_pair(before, w0.colliders@, d, sid));
                    assert(resolve_static_row_from(before, w0.colliders@, d, stas, j as int)
                        == resolve_static_row_from(now, w0.colliders@, d, stas, j + 1));
                }
                j = j + 1;
            }
            i = i + 1;
        }
        proof {
            assert(SimState { transforms: self.transforms@, bodies: self.rigid_bodies@ } == s4);
        }
        let ghost w4 = *self;

        // Phase 5: dynamic-versus-dynamic resolution over unordered pairs.
        let ghost s5 = resolve_dyn_from(s4, w0.colliders@, dyns, 0);
        let mut i: usize = 0;
        while i < dyn_ids.len()
            invariant
                self.wf(),
                i <= dyn_ids@.len(),
                dyn_ids@ == dyns,
                forall|q: int| 0 <= q < dyns.len() ==> (#[trigger] dyns[q]) != EMPTY,
                self.transforms.ids_seq() == w0.transforms.ids_seq(),
                self.rigid_bodies.ids_seq() == w0.rigid_bodies.ids_seq(),
                self.colliders == w0.colliders,
                resolve_dyn_from(SimState { transforms: self.transforms@, bodies: self.rigid_bodies@ },
                    w0.colliders@, dyns, i as int) == s5,
                *self == (World {
                    transforms: self.transforms,
                    rigid_bodies: self.rigid_bodies,
                    ..w4
                }),
            decreases dyn_ids@.len() - i,
        {
            let a = dyn_ids[i];
            let mut j: usize = i + 1;
            while j < dyn_ids.len()
                invariant
                    self.wf(),
                    i < dyn_ids@.len(),
                    i + 1 <= j <= dyn_ids@.len(),
                    dyn_ids@ == dyns,
                    a == dyns[i as int],
                    a != EMPTY,
                    forall|q: int| 0 <= q < dyns.len() ==> (#[trigger] dyns[q]) != EMPTY,
                    self.transforms.ids_seq() == w0.transforms.ids_seq(),
                    self.rigid_bodies.ids_seq() == w0.rigid_bodies.ids_seq(),
                    self.colliders == w0.colliders,
                    resolve_dyn_from(
                        resolve_dyn_row_from(
                            SimState { transforms: self.transforms@, bodies: self.rigid_bodies@ },
                            w0.colliders@, a, dyns, j as int),
                        w0.colliders@, dyns, i + 1) == s5,
                    *self == (World {
                        transforms: self.transforms,
                        rigid_bodies: self.rigid_bodies,
                        ..w4
                    }),
                decreases dyn_ids@.len() - j,
            {
                let b = dyn_ids[j];
                let ghost before = SimState { transforms: self.transforms@, bodies: self.rigid_bodies@ };
                self.do_dyn_pair(a, b);
                proof {
                    let now = SimState { transforms: self.transforms@, bodies: self.rigid_bodies@ };
                    assert(now == resolve_dyn_pair(before, w0.colliders@, a, b));
                    assert(resolve_dyn_row_from(before, w0.colliders@, a, dyns, j as int)
                        == resolve_dyn_row_from(now, w0.colliders@, a, dyns, j + 1));
                }
                j = j + 1;
            }
            i = i + 1;
        }
        proof {
            assert(SimState { transforms: self.transforms@, bodies: self.rigid_bodies@ } == s5);
        }

        // Phase 6: first-person camera pose.
        if let Some(pid) = player {
            if pid != EMPTY {
                let pose = match self.transforms.get(pid) {
                    Some(t) => Some(t.position),
                    None => None,
                };
                if let Some(pos) = pose {
                    let eye = pos.add(Vec3Fx { x: 0, y: EYE_HEIGHT, z: 0 });
                    let cp = cos_fx(pitch);
                    let sp = sin_fx(pitch);
                    let sy = sin_fx(yaw);
                    let cy = cos_fx(yaw);
                    let fwd = Vec3Fx {
                        x: mul_fx(cp, sy),
                        y: sp,
                        z: sub_sat(0, mul_fx(cp, cy)),
                    };
                    self.camera.eye = eye;
                    self.camera.target = eye.add(fwd);
                }
            } else {
                proof {
                    self.transforms.lemma_sentinel_absent();
                }
            }
        }
        proof {
            assert(self.camera == camera_after(w0.camera, player, s5.transforms, yaw as int,
                pitch as int));
        }
    }
}

/// Coordinates far from the saturation boundary, where fixed-point
/// arithmetic is exact.
pub open spec fn in_range(v: int) -> bool {
    -1_000_000_000_000_000 <= v <= 1_000_000_000_000_000
}

/// Non-penetration after static resolution: once the MTV of a (dynamic,
/// static) pair has been applied, the two boxes no longer penetrate — the
/// chosen axis's overlap is exactly zero, so the pair's MTV is `None`.
/// Stated away from the saturation boundary, where the arithmetic is
/// exact.
pub proof fn lemma_static_resolution_separates(
    s: SimState,
    colliders: Map<usize, Collider>,
    d: usize,
    sid: usize,
)
    requires
        d != sid,
        s.transforms.contains_key(d),
        s.transforms.contains_key(sid),
        colliders.contains_key(d),
        colliders.contains_key(sid),
        in_range(s.transforms[d].position.x as int),
        in_range(s.transforms[d].position.y as int),
        in_range(s.transforms[d].position.z as int),
        in_range(s.transforms[sid].position.x as int),
        in_range(s.transforms[sid].position.y as int),
        in_range(s.transforms[sid].position.z as int),
        0 <= spec_scaled_he(colliders[d], s.transforms[d]).x as int <= 1_000_000_000_000_000,
        0 <= spec_scaled_he(colliders[d], s.transforms[d]).y as int <= 1_000_000_000_000_000,
        0 <= spec_scaled_he(colliders[d], s.transforms[d]).z as int <= 1_000_000_000_000_000,
        0 <= spec_scaled_he(colliders[sid], s.transforms[sid]).x as int <= 1_000_000_000_000_000,
        0 <= spec_scaled_he(colliders[sid], s.transforms[sid]).y as int <= 1_000_000_000_000_000,
        0 <= spec_scaled_he(colliders[sid], s.transforms[sid]).z as int <= 1_000_000_000_000_000,
    ensures
        ({
            let s2 = resolve_static_pair(s, colliders, d, sid);
            mtv_spec(
                s2.transforms[d].position,
                spec_scaled_he(colliders[d], s2.transforms[d]),
                s2.transforms[sid].position,
                spec_scaled_he(colliders[sid], s2.transforms[sid]),
            ) is None
        }),
{
    let td = s.transforms[d];
    let ts = s.transforms[sid];
    let dhe = spec_scaled_he(colliders[d], td);
    let she = spec_scaled_he(colliders[sid], ts);
    let s2 = resolve_static_pair(s, colliders, d, sid);
    match mtv_spec(td.position, dhe, ts.position, she) {
        None => {
            assert(s2 == s);
        },
        Some(m) => {
            let td2 = s2.transforms[d];
            assert(td2.scale == td.scale);
            assert(s2.transforms[sid] == ts);
            assert(spec_scaled_he(colliders[d], td2) == dhe);
            if m.x != 0 {
                assert(overlap1(td2.position.x as int, dhe.x as int, ts.position.x as int,
                    she.x as int) == 0);
            } else if m.y != 0 {
                assert(overlap1(td2.position.y as int, dhe.y as int, ts.position.y as int,
                    she.y as int) == 0);
            } else {
                assert(overlap1(td2.position.z as int, dhe.z as int, ts.position.z as int,
                    she.z as int) == 0);
            }
        },
    }
}

/// Jump gating: while airborne the jump bit changes nothing — the vertical
/// velocity moves exactly by gravity's contribution; on the ground the
/// jump bit sets the vertical velocity to exactly the fixed jump speed.
pub proof fn lemma_jump_gating(rb: RigidBody, keys: u32, yaw: int, dt: int)
    ensures
        !rb.on_ground ==> step_body(rb, true, keys, yaw, dt).velocity.y as int
            == ssub(rb.velocity.y as int, (GRAVITY as int) * dt),
        keys & KEY_JUMP == 0 ==> step_body(rb, true, keys, yaw, dt).velocity.y as int
            == ssub(rb.velocity.y as int, (GRAVITY as int) * dt),
        rb.on_ground && keys & KEY_JUMP != 0 ==> step_body(rb, true, keys, yaw, dt).velocity.y
            == JUMP_SPEED,
{
}

/// How deep a resting body sinks in one step of `dt` milliseconds after
/// gravity acts from rest (micro-units).
pub open spec fn fall_penetration(dt: int) -> int {
    ((GRAVITY as int) * dt * dt) / 1000
}

/// Interval overlap without saturation, for stating geometric hypotheses.
pub open spec fn touch_overlap(cd: int, hd: int, cs: int, hs: int) -> int {
    hd + hs - (if cs - cd >= 0 { cs - cd } else { -(cs - cd) })
}

/// Ground detection: a dynamic body resting exactly on top of a static
/// floor — zero velocity, vertical faces touching, horizontal overlap
/// wider than one step's sinking depth — comes out of one physics step
/// with `on_ground` set, zero vertical velocity, and its position restored
/// to exact touch.
pub proof fn lemma_ground_detection(w: World, delta_ms: u64, d: usize, s: usize)
    requires
        w.wf(),
        d != s,
        d != EMPTY,
        s != EMPTY,
        w.player_entity is None,
        1 <= delta_ms <= 50,
        w.rigid_bodies.ids_seq() == seq![d, s] || w.rigid_bodies.ids_seq() == seq![s, d],
        w.rigid_bodies@.contains_key(d),
        w.rigid_bodies@.contains_key(s),
        !w.rigid_bodies@[d].is_static,
        w.rigid_bodies@[s].is_static,
        w.rigid_bodies@[d].velocity == Vec3Fx::spec_zero(),
        w.transforms@.contains_key(d),
        w.transforms@.contains_key(s),
        w.colliders@.contains_key(d),
        w.colliders@.contains_key(s),
        w.transforms@[d].scale == Vec3Fx::spec_one(),
        w.transforms@[s].scale == Vec3Fx::spec_one(),
        in_range(w.transforms@[d].position.x as int),
        in_range(w.transforms@[d].position.y as int),
        in_range(w.transforms@[d].position.z as int),
        in_range(w.transforms@[s].position.x as int),
        in_range(w.transforms@[s].position.y as int),
        in_range(w.transforms@[s].position.z as int),
        1 <= w.colliders@[d].half_extents.x as int <= 1_000_000_000_000_000,
        1 <= w.colliders@[d].half_extents.y as int <= 1_000_000_000_000_000,
        1 <= w.colliders@[d].half_extents.z as int <= 1_000_000_000_000_000,
        1 <= w.colliders@[s].half_extents.x as int <= 1_000_000_000_000_000,
        1 <= w.colliders@[s].half_extents.y as int <= 1_000_000_000_000_000,
        1 <= w.colliders@[s].half_extents.z as int <= 1_000_000_000_000_000,
        // resting exactly on top: bottom face of the body on the top face
        // of the floor
        w.transforms@[d].position.y - w.colliders@[d].half_extents.y
            == w.transforms@[s].position.y + w.colliders@[s].half_extents.y,
        // horizontally overlapping, wider than one step's sinking depth
        fall_penetration(delta_ms as int) < touch_overlap(
            w.transforms@[d].position.x as int, w.colliders@[d].half_extents.x as int,
            w.transforms@[s].position.x as int, w.colliders@[s].half_extents.x as int),
        fall_penetration(delta_ms as int) < touch_overlap(
            w.transforms@[d].position.z as int, w.colliders@[d].half_extents.z as int,
            w.transforms@[s].position.z as int, w.colliders@[s].half_extents.z as int),
        fall_penetration(delta_ms as int)
            < w.colliders@[d].half_extents.y + w.colliders@[s].half_extents.y,
    ensures
        spec_update(w, delta_ms).bodies[d].on_ground,
        spec_update(w, delta_ms).bodies[d].velocity.y == 0,
        spec_update(w, delta_ms).transforms[d].position == w.transforms@[d].position,
{
    let dt = delta_ms as int;
    let g = GRAVITY as int;
    let pen = fall_penetration(dt);
    assert(g * dt * dt >= 9800 && g * dt * dt <= 24_500_000) by (nonlinear_arith)
        requires 1 <= dt <= 50, g == 9800;
    assert(pen >= 9 && pen <= 24500) by {
        assert(9800int / 1000 <= (g * dt * dt) / 1000 <= 24_500_000int / 1000) by {
            lemma_div_is_ordered(9800, g * dt * dt, 1000);
            lemma_div_is_ordered(g * dt * dt, 24_500_000, 1000);
        }
    }
    let ids = w.rigid_bodies.ids_seq();
    let b = w.rigid_bodies@;
    let yaw = sadd(w.camera_yaw as int,
        muldiv(w.input.mouse_dx as int, MOUSE_SENS_UDEG_PER_PX as int, 1000));
    let dyns = filtered_ids(ids, b, false, 0);
    let stas = filtered_ids(ids, b, true, 0);
    assert(filtered_ids(ids, b, false, 2) == Seq::<usize>::empty());
    assert(filtered_ids(ids, b, true, 2) == Seq::<usize>::empty());
    if ids == seq![d, s] {
        assert(ids[0] == d && ids[1] == s);
        assert(filtered_ids(ids, b, false, 1) == filtered_ids(ids, b, false, 2));
        assert(filtered_ids(ids, b, false, 0)
            == seq![d] + filtered_ids(ids, b, false, 1));
        assert(dyns =~= seq![d]);
        assert(filtered_ids(ids, b, true, 1) == seq![s] + filtered_ids(ids, b, true, 2));
        assert(filtered_ids(ids, b, true, 0) == filtered_ids(ids, b, true, 1));
        assert(stas =~= seq![s]);
    } else {
        assert(ids[0] == s && ids[1] == d);
        assert(filtered_ids(ids, b, false, 1)
            == seq![d] + filtered_ids(ids, b, false, 2));
        assert(filtered_ids(ids, b, false, 0) == filtered_ids(ids, b, false, 1));
        assert(dyns =~= seq![d]);
        assert(filtered_ids(ids, b, true, 1) == filtered_ids(ids, b, true, 2));
        assert(filtered_ids(ids, b, true, 0) == seq![s] + filtered_ids(ids, b, true, 1));
        assert(stas =~= seq![s]);
    }

    // Gravity from rest: velocity becomes (0, -g*dt, 0), on_ground resets.
    let rb1 = step_body(b[d], w.player_entity == Some(d), w.input.keys, yaw, dt);
    let b2 = gravity_input_from(b, dyns, 0, w.player_entity, w.input.keys, yaw, dt);
    assert(gravity_input_from(b.insert(d, rb1), dyns, 1, w.player_entity, w.input.keys, yaw, dt)
        == b.insert(d, rb1));
    assert(b2 == b.insert(d, rb1));
    assert(rb1.velocity.x == 0 && rb1.velocity.z == 0);
    assert(rb1.velocity.y as int == -(g * dt));
    assert(!rb1.on_ground);

    // Integration sinks the body by exactly the penetration depth.
    let t = w.transforms@;
    let t3 = integrate_from(t, b2, dyns, 0, dt);
    let td3 = integrate_pos(t[d], rb1.velocity, dt);
    assert(integrate_from(t.insert(d, td3), b2, dyns, 1, dt) == t.insert(d, td3));
    assert(t3 == t.insert(d, td3));
    assert((-(g * dt)) * dt == -(g * dt * dt)) by (nonlinear_arith);
    assert(muldiv(rb1.velocity.y as int, dt, 1000) == -pen);
    assert(muldiv(0, dt, 1000) == 0) by {
        vstd::arithmetic::div_mod::lemma_div_of0(1000);
    }
    assert(td3.position.x == t[d].position.x);
    assert(td3.position.z == t[d].position.z);
    assert(td3.position.y as int == t[d].position.y - pen);

    // Static resolution: the minimal overlap is the vertical one, the MTV
    // points down, and subtracting it restores exact touch.
    let s3 = SimState { transforms: t3, bodies: b2 };
    let s4 = resolve_static_from(s3, w.colliders@, dyns, stas, 0);
    let hd = w.colliders@[d].half_extents;
    let hs = w.colliders@[s].half_extents;
    assert(fxmul(hd.x as int, abs_sat(Vec3Fx::spec_one().x as int)) == hd.x as int) by {
        lemma_one_scale(hd.x as int);
    }
    assert(fxmul(hd.y as int, abs_sat(Vec3Fx::spec_one().y as int)) == hd.y as int) by {
        lemma_one_scale(hd.y as int);
    }
    assert(fxmul(hd.z as int, abs_sat(Vec3Fx::spec_one().z as int)) == hd.z as int) by {
        lemma_one_scale(hd.z as int);
    }
    assert(fxmul(hs.x as int, abs_sat(Vec3Fx::spec_one().x as int)) == hs.x as int) by {
        lemma_one_scale(hs.x as int);
    }
    assert(fxmul(hs.y as int, abs_sat(Vec3Fx::spec_one().y as int)) == hs.y as int) by {
        lemma_one_scale(hs.y as int);
    }
    assert(fxmul(hs.z as int, abs_sat(Vec3Fx::spec_one().z as int)) == hs.z as int) by {
        lemma_one_scale(hs.z as int);
    }
    assert(spec_scaled_he(w.colliders@[d], t3[d]) == hd);
    assert(spec_scaled_he(w.colliders@[s], t3[s]) == hs);
    let m = mtv_spec(t3[d].position, hd, t3[s].position, hs);
    let ox = overlap1(t3[d].position.x as int, hd.x as int, t3[s].position.x as int, hs.x as int);
    let oy = overlap1(t3[d].position.y as int, hd.y as int, t3[s].position.y as int, hs.y as int);
    let oz = overlap1(t3[d].position.z as int, hd.z as int, t3[s].position.z as int, hs.z as int);
    assert(ox == touch_overlap(t[d].position.x as int, hd.x as int, t[s].position.x as int,
        hs.x as int));
    assert(oz == touch_overlap(t[d].position.z as int, hd.z as int, t[s].position.z as int,
        hs.z as int));
    assert(oy == pen);
    assert(ssub(t3[s].position.y as int, t3[d].position.y as int) == pen - (hd.y + hs.y));
    assert(m == Some(Vec3Fx { x: 0, y: (-pen) as i64, z: 0 }));
    let pair = resolve_static_pair(s3, w.colliders@, d, s);
    assert(pair.transforms[d].position == t[d].position);
    assert(pair.bodies[d].on_ground);
    assert(pair.bodies[d].velocity.y == 0);
    assert(resolve_static_row_from(pair, w.colliders@, d, stas, 1) == pair);
    assert(resolve_static_row_from(s3, w.colliders@, d, stas, 0) == pair);
    assert(resolve_static_from(pair, w.colliders@, dyns, stas, 1) == pair);
    assert(s4 == pair);

    // No other dynamic body: the dynamic-dynamic pass is the identity.
    let s5 = resolve_dyn_from(s4, w.colliders@, dyns, 0);
    assert(resolve_dyn_row_from(s4, w.colliders@, d, dyns, 1) == s4);
    assert(resolve_dyn_from(s4, w.colliders@, dyns, 1) == s4);
    assert(s5 == s4);
}

/// A product with the unit scale factor is exact: scaling half-extents by
/// a unit scale leaves them unchanged.
pub proof fn lemma_one_scale(a: int)
    requires
        0 <= a <= 1_000_000_000_000_000,
    ensures
        fxmul(a, 1_000_000) == a,
{
    assert(a * 1_000_000 == 1_000_000 * a) by (nonlinear_arith);
    vstd::arithmetic::div_mod::lemma_div_multiples_vanish(a, 1_000_000);
    assert(a * 1_000_000 >= 0) by (nonlinear_arith)
        requires a >= 0;
}

/// One step after the floor is gone: with no static body in the world, a
/// dynamic body ends the step with `on_ground` false.
pub proof fn lemma_airborne_without_floor(w: World, delta_ms: u64, d: usize)
    requires
        w.wf(),
        w.rigid_bodies.ids_seq() == seq![d],
        d != EMPTY,
        w.rigid_bodies@.contains_key(d),
        !w.rigid_bodies@[d].is_static,
    ensures
        spec_update(w, delta_ms).bodies.contains_key(d),
        !spec_update(w, delta_ms).bodies[d].on_ground,
{
    let dt: int = if delta_ms > 50 { 50 } else { delta_ms as int };
    let ids = w.rigid_bodies.ids_seq();
    let b = w.rigid_bodies@;
    let yaw = sadd(w.camera_yaw as int,
        muldiv(w.input.mouse_dx as int, MOUSE_SENS_UDEG_PER_PX as int, 1000));
    let dyns = filtered_ids(ids, b, false, 0);
    let stas = filtered_ids(ids, b, true, 0);
    assert(filtered_ids(ids, b, false, 1) == Seq::<usize>::empty());
    assert(filtered_ids(ids, b, true, 1) == Seq::<usize>::empty());
    assert(ids[0] == d);
    assert(dyns =~= seq![d]);
    assert(stas =~= Seq::<usize>::empty());
    let rb1 = step_body(b[d], w.player_entity == Some(d), w.input.keys, yaw, dt);
    let b2 = gravity_input_from(b, dyns, 0, w.player_entity, w.input.keys, yaw, dt);
    assert(gravity_input_from(b.insert(d, rb1), dyns, 1, w.player_entity, w.input.keys, yaw, dt)
        == b.insert(d, rb1));
    assert(b2 == b.insert(d, rb1));
    assert(!rb1.on_ground);
    let t3 = integrate_from(w.transforms@, b2, dyns, 0, dt);
    let s3 = SimState { transforms: t3, bodies: b2 };
    let s4 = resolve_static_from(s3, w.colliders@, dyns, stas, 0);
    assert(resolve_static_row_from(s3, w.colliders@, d, stas, 0) == s3);
    assert(resolve_static_from(s3, w.colliders@, dyns, stas, 1) == s3);
    assert(s4 == s3);
    let s5 = resolve_dyn_from(s4, w.colliders@, dyns, 0);
    assert(resolve_dyn_row_from(s4, w.colliders@, d, dyns, 1) == s4);
    assert(resolve_dyn_from(s4, w.colliders@, dyns, 1) == s4);
    assert(s5 == s4);
}

/// The filtered id lists never contain the sentinel when the source list
/// does not.
pub proof fn lemma_filtered_subset(
    ids: Seq<usize>,
    bodies: Map<usize, RigidBody>,
    want_static: bool,
    k: int,
)
    requires
        forall|q: int| 0 <= q < ids.len() ==> (#[trigger] ids[q]) != EMPTY,
    ensures
        forall|q: int|
            0 <= q < filtered_ids(ids, bodies, want_static, k).len()
                ==> (#[trigger] filtered_ids(ids, bodies, want_static, k)[q]) != EMPTY,
    decreases ids.len() - k,
{
    if 0 <= k < ids.len() {
        lemma_filtered_subset(ids, bodies, want_static, k + 1);
        let rest = filtered_ids(ids, bodies, want_static, k + 1);
        let whole = filtered_ids(ids, bodies, want_static, k);
        assert forall|q: int| 0 <= q < whole.len() implies (#[trigger] whole[q]) != EMPTY by {
            if bodies.contains_key(ids[k]) && bodies[ids[k]].is_static == want_static {
                assert(whole == seq![ids[k]] + rest);
                if q > 0 {
                    assert(whole[q] == rest[q - 1]);
                }
            } else {
                assert(whole == rest);
            }
        }
    }
}

} // verus!
