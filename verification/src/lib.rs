//! Simulation core of a small real-time 3D engine: an entity-component
//! store, a fixed-point deterministic physics and collision step, a
//! hierarchical transform resolver, and the scene load/save bridge.
//!
//! All simulation quantities are exact fixed-point integers:
//! - lengths and positions in micro-units (1_000_000 = one world unit),
//! - velocities in nano-units per millisecond (1_000_000 = one unit per second),
//! - angles in micro-degrees (1_000_000 = one degree),
//! - dimensionless factors (trig values, scales, material parameters) in
//!   micro-scale (1_000_000 = 1.0).
//!
//! The rendering backend is an external consumer: it converts these plain
//! integer values to its own floating-point types outside this crate.

pub mod components;
pub mod fixed;
pub mod text;
pub mod physics;
pub mod scene;
pub mod scene_graph;
pub mod store;
pub mod world;

pub use components::{
    Transform, MeshType, MeshRenderer, Material, RigidBody, Collider, PointLight, Parent,
    CameraComponent, Camera, DirectionalLightData, InputState,
};
pub use store::SparseSet;
pub use world::World;
