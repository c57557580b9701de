//! Plain data records attached to entities, and the process-scoped camera
//! state. All quantities are fixed-point integers (see `fixed`).

use vstd::prelude::*;
use crate::fixed::{Vec3Fx, FX_ONE};

verus! {

/// Texture id meaning "no texture registered under that name".
pub const MISSING_TEXTURE: u32 = u32::MAX;

/// Local transform: position in micro-units, rotation as Euler XYZ angles
/// in micro-degrees, scale in micro-scale (`FX_ONE` = 1.0).
#[derive(Clone, Copy, PartialEq, Eq, Structural, Debug)]
pub struct Transform {
    pub position: Vec3Fx,
    pub rotation: Vec3Fx,
    pub scale: Vec3Fx,
}

impl Transform {
    pub open spec fn spec_default() -> Transform {
        Transform {
            position: Vec3Fx::spec_zero(),
            rotation: Vec3Fx::spec_zero(),
            scale: Vec3Fx::spec_one(),
        }
    }
}

impl Default for Transform {
    /// Identity transform: zero position and rotation, unit scale.
    fn default() -> (t: Transform)
        ensures
            t == Transform::spec_default(),
    {
        Transform { position: Vec3Fx::zero(), rotation: Vec3Fx::zero(), scale: Vec3Fx::one() }
    }
}

/// Mesh selector: a primitive kind, or an index into the externally managed
/// custom-mesh table.
#[derive(Clone, Copy, PartialEq, Eq, Structural, Debug)]
pub enum MeshType {
    Cube,
    Plane,
    Custom(usize),
    Sphere,
    Cylinder,
}

#[derive(Clone, Copy, PartialEq, Eq, Structural, Debug)]
pub struct MeshRenderer {
    pub mesh_type: MeshType,
}

/// Material parameters: texture ids plus micro-scale metallic/roughness
/// factors and an emissive color.
#[derive(Clone, Copy, PartialEq, Eq, Structural, Debug)]
pub struct Material {
    pub albedo_tex: u32,
    pub normal_tex: u32,
    pub metallic: i64,
    pub roughness: i64,
    pub emissive: Vec3Fx,
}

/// Rigid body: velocity in nano-units per millisecond; static bodies are
/// immovable obstacles; `on_ground` is recomputed by every physics step.
#[derive(Clone, Copy, PartialEq, Eq, Structural, Debug)]
pub struct RigidBody {
    pub velocity: Vec3Fx,
    pub is_static: bool,
    pub on_ground: bool,
}

impl RigidBody {
    pub open spec fn spec_default() -> RigidBody {
        RigidBody { velocity: Vec3Fx::spec_zero(), is_static: false, on_ground: false }
    }
}

impl Default for RigidBody {
    /// At rest, dynamic, not on the ground.
    fn default() -> (rb: RigidBody)
        ensures
            rb == RigidBody::spec_default(),
    {
        RigidBody { velocity: Vec3Fx::zero(), is_static: false, on_ground: false }
    }
}

/// Axis-aligned box collider: half-extents in micro-units, centered on the
/// owning entity's position and scaled by the absolute value of its scale.
#[derive(Clone, Copy, PartialEq, Eq, Structural, Debug)]
pub struct Collider {
    pub half_extents: Vec3Fx,
}

#[derive(Clone, Copy, PartialEq, Eq, Structural, Debug)]
pub struct PointLight {
    pub color: Vec3Fx,
    pub intensity: i64,
}

/// Single optional directed edge to a parent entity.
#[derive(Clone, Copy, PartialEq, Eq, Structural, Debug)]
pub struct Parent {
    pub parent_id: usize,
}

/// Per-entity camera parameters: field of view in micro-degrees, clip planes
/// in micro-units.
#[derive(Clone, Copy, PartialEq, Eq, Structural, Debug)]
pub struct CameraComponent {
    pub fov: i64,
    pub near: i64,
    pub far: i64,
    pub follow_entity: bool,
}

impl CameraComponent {
    pub open spec fn spec_default() -> CameraComponent {
        CameraComponent { fov: 60_000_000, near: 100_000, far: 1_000_000_000, follow_entity: true }
    }
}

impl Default for CameraComponent {
    /// 60 degree field of view, clip planes at 0.1 and 1000 units, following
    /// its entity.
    fn default() -> (c: CameraComponent)
        ensures
            c == CameraComponent::spec_default(),
    {
        CameraComponent { fov: 60_000_000, near: 100_000, far: 1_000_000_000, follow_entity: true }
    }
}

/// Process-scoped orbital/free camera state: eye and look target in
/// micro-units, vertical field of view in micro-degrees.
#[derive(Clone, Copy, PartialEq, Eq, Structural, Debug)]
pub struct Camera {
    pub eye: Vec3Fx,
    pub target: Vec3Fx,
    pub up: Vec3Fx,
    pub fov_y: i64,
}

impl Camera {
    pub open spec fn spec_default() -> Camera {
        Camera {
            eye: Vec3Fx { x: 3_000_000, y: 2_000_000, z: 5_000_000 },
            target: Vec3Fx::spec_zero(),
            up: Vec3Fx { x: 0, y: FX_ONE, z: 0 },
            fov_y: 45_000_000,
        }
    }
}

impl Default for Camera {
    /// Eye at (3, 2, 5) units looking at the origin, Y up, 45 degree fov.
    fn default() -> (c: Camera)
        ensures
            c == Camera::spec_default(),
    {
        Camera {
            eye: Vec3Fx { x: 3_000_000, y: 2_000_000, z: 5_000_000 },
            target: Vec3Fx::zero(),
            up: Vec3Fx { x: 0, y: FX_ONE, z: 0 },
            fov_y: 45_000_000,
        }
    }
}

/// The single directional light of a scene.
#[derive(Clone, Copy, PartialEq, Eq, Structural, Debug)]
pub struct DirectionalLightData {
    pub direction: Vec3Fx,
    pub color: Vec3Fx,
    pub intensity: i64,
}

/// Decoded per-frame input: movement-key bitmask (bit 0 forward, 1 back,
/// 2 left, 3 right, 4 jump) and mouse deltas in milli-pixels.
#[derive(Clone, Copy, PartialEq, Eq, Structural, Debug)]
pub struct InputState {
    pub keys: u32,
    pub mouse_dx: i64,
    pub mouse_dy: i64,
}

impl InputState {
    pub open spec fn spec_default() -> InputState {
        InputState { keys: 0, mouse_dx: 0, mouse_dy: 0 }
    }
}

impl Default for InputState {
    /// No keys held, no mouse motion.
    fn default() -> (i: InputState)
        ensures
            i == InputState::spec_default(),
    {
        InputState { keys: 0, mouse_dx: 0, mouse_dy: 0 }
    }
}

} // verus!
