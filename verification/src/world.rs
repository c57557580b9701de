//! The mutable simulation context: every component store, the entity id
//! allocator, input and camera state, and scene-wide lights. Constructed
//! once, mutated every frame by the physics step, torn down at shutdown.

use vstd::prelude::*;
use vstd::string::StrSliceExecFns;
use vstd::string::StringExecFns;
use crate::store::{SparseSet, EMPTY};
use crate::text::{dec_digits, parse_usize_spec, fmt_u64, str_eq, parse_usize};
use crate::fixed::Vec3Fx;
use crate::components::{
    Transform, MeshType, MeshRenderer, Material, RigidBody, Collider, PointLight, Parent,
    CameraComponent, Camera, DirectionalLightData, InputState, MISSING_TEXTURE,
};

verus! {

pub struct World {
    /// Next entity id to hand out; ids are never reused within a session.
    pub next_id: usize,
    pub transforms: SparseSet<Transform>,
    pub mesh_renderers: SparseSet<MeshRenderer>,
    pub materials: SparseSet<Material>,
    pub rigid_bodies: SparseSet<RigidBody>,
    pub colliders: SparseSet<Collider>,
    pub point_lights: SparseSet<PointLight>,
    pub parents: SparseSet<Parent>,
    pub cameras: SparseSet<CameraComponent>,
    /// Orbital/free camera, also the first-person pose sink.
    pub camera: Camera,
    pub input: InputState,
    pub player_entity: Option<usize>,
    /// First-person yaw, micro-degrees.
    pub camera_yaw: i64,
    /// First-person pitch, micro-degrees, clamped to plus/minus 89 degrees.
    pub camera_pitch: i64,
    pub directional_light: Option<DirectionalLightData>,
    pub ambient_color: Vec3Fx,
    pub ambient_intensity: i64,
    /// Entities that survive a scene load.
    pub persistent_entities: SparseSet<bool>,
    /// Registered texture names; names are unique, values are texture ids.
    pub texture_registry: Vec<(String, u32)>,
    /// Number of texture ids handed out to the rendering backend.
    pub texture_count: u32,
    /// Half-extents of custom meshes registered by the rendering backend.
    pub custom_mesh_half_extents: Vec<Vec3Fx>,
    pub entity_names: SparseSet<String>,
    pub tags: SparseSet<String>,
    pub active_camera: Option<usize>,
    /// Play mode if true; editor (orbital camera) mode if false.
    pub is_game_mode: bool,
}

impl World {
    /// Every store is well formed and registered texture names are unique.
    pub open spec fn wf(self) -> bool {
        &&& self.transforms.wf()
        &&& self.mesh_renderers.wf()
        &&& self.materials.wf()
        &&& self.rigid_bodies.wf()
        &&& self.colliders.wf()
        &&& self.point_lights.wf()
        &&& self.parents.wf()
        &&& self.cameras.wf()
        &&& self.persistent_entities.wf()
        &&& self.entity_names.wf()
        &&& self.tags.wf()
        &&& forall|i: int, j: int|
            0 <= i < j < self.texture_registry@.len()
                ==> (#[trigger] self.texture_registry@[i]).0@
                    != (#[trigger] self.texture_registry@[j]).0@
    }

    /// An empty world: no entities, no components, default camera and input,
    /// editor mode.
    pub fn new() -> (w: World)
        ensures
            w.wf(),
            w.next_id == 0,
            w.transforms@ == Map::<usize, Transform>::empty(),
            w.mesh_renderers@ == Map::<usize, MeshRenderer>::empty(),
            w.materials@ == Map::<usize, Material>::empty(),
            w.rigid_bodies@ == Map::<usize, RigidBody>::empty(),
            w.colliders@ == Map::<usize, Collider>::empty(),
            w.point_lights@ == Map::<usize, PointLight>::empty(),
            w.parents@ == Map::<usize, Parent>::empty(),
            w.cameras@ == Map::<usize, CameraComponent>::empty(),
            w.persistent_entities@ == Map::<usize, bool>::empty(),
            w.entity_names@ == Map::<usize, String>::empty(),
            w.tags@ == Map::<usize, String>::empty(),
            w.camera == Camera::spec_default(),
            w.input == InputState::spec_default(),
            w.player_entity is None,
            w.camera_yaw == 0 && w.camera_pitch == 0,
            w.directional_light is None,
            w.ambient_color == (Vec3Fx { x: 1_000_000, y: 1_000_000, z: 1_000_000 }),
            w.ambient_intensity == 30_000,
            w.texture_registry@ == Seq::<(String, u32)>::empty(),
            w.texture_count == 0,
            w.custom_mesh_half_extents@ == Seq::<Vec3Fx>::empty(),
            w.active_camera is None,
            !w.is_game_mode,
    {
        World {
            next_id: 0,
            transforms: SparseSet::new(),
            mesh_renderers: SparseSet::new(),
            materials: SparseSet::new(),
            rigid_bodies: SparseSet::new(),
            colliders: SparseSet::new(),
            point_lights: SparseSet::new(),
            parents: SparseSet::new(),
            cameras: SparseSet::new(),
            camera: Camera::default(),
            input: InputState::default(),
            player_entity: None,
            camera_yaw: 0,
            camera_pitch: 0,
            directional_light: None,
            ambient_color: Vec3Fx { x: 1_000_000, y: 1_000_000, z: 1_000_000 },
            ambient_intensity: 30_000,
            persistent_entities: SparseSet::new(),
            texture_registry: Vec::new(),
            texture_count: 0,
            custom_mesh_half_extents: Vec::new(),
            entity_names: SparseSet::new(),
            tags: SparseSet::new(),
            active_camera: None,
            is_game_mode: false,
        }
    }

    /// Creates a fresh entity handle. Handles grow monotonically and are
    /// never reused; the sentinel id is never handed out.
    pub fn create_entity(&mut self) -> (id: usize)
        requires
            old(self).next_id < EMPTY,
        ensures
            id == old(self).next_id,
            id != EMPTY,
            final(self).next_id == old(self).next_id + 1,
            *final(self) == (World { next_id: final(self).next_id, ..*old(self) }),
    {
        let id = self.next_id;
        self.next_id = self.next_id + 1;
        id
    }

    /// Removes an entity: clears every component store, its name, tag and
    /// persistence mark, and drops it as the active camera if it was.
    pub fn remove_entity(&mut self, id: usize)
        requires
            old(self).wf(),
            id != EMPTY,
        ensures
            final(self).wf(),
            final(self).transforms@ == old(self).transforms@.remove(id),
            final(self).mesh_renderers@ == old(self).mesh_renderers@.remove(id),
            final(self).materials@ == old(self).materials@.remove(id),
            final(self).rigid_bodies@ == old(self).rigid_bodies@.remove(id),
            final(self).colliders@ == old(self).colliders@.remove(id),
            final(self).point_lights@ == old(self).point_lights@.remove(id),
            final(self).parents@ == old(self).parents@.remove(id),
            final(self).cameras@ == old(self).cameras@.remove(id),
            final(self).persistent_entities@ == old(self).persistent_entities@.remove(id),
            final(self).entity_names@ == old(self).entity_names@.remove(id),
            final(self).tags@ == old(self).tags@.remove(id),
            final(self).active_camera == if old(self).active_camera == Some(id) {
                None::<usize>
            } else {
                old(self).active_camera
            },
            *final(self) == (World {
                transforms: final(self).transforms,
                mesh_renderers: final(self).mesh_renderers,
                materials: final(self).materials,
                rigid_bodies: final(self).rigid_bodies,
                colliders: final(self).colliders,
                point_lights: final(self).point_lights,
                parents: final(self).parents,
                cameras: final(self).cameras,
                persistent_entities: final(self).persistent_entities,
                entity_names: final(self).entity_names,
                tags: final(self).tags,
                active_camera: final(self).active_camera,
                ..*old(self)
            }),
    {
        self.transforms.remove(id);
        self.mesh_renderers.remove(id);
        self.materials.remove(id);
        self.rigid_bodies.remove(id);
        self.colliders.remove(id);
        self.point_lights.remove(id);
        self.parents.remove(id);
        self.cameras.remove(id);
        self.persistent_entities.remove(id);
        self.entity_names.remove(id);
        self.tags.remove(id);
        if self.active_camera == Some(id) {
            self.active_camera = None;
        }
    }

    /// Ids of all entities that currently hold a `Transform`, in dense order.
    pub fn get_entity_ids(&self) -> (r: Vec<usize>)
        requires
            self.wf(),
        ensures
            r@ == self.transforms.ids_seq(),
    {
        self.transforms.iter()
    }

    /// Adds a transform at position (x, y, z) with zero rotation and unit
    /// scale, overwriting any present transform.
    pub fn add_transform(&mut self, id: usize, x: i64, y: i64, z: i64)
        requires
            old(self).wf(),
            id != EMPTY,
        ensures
            final(self).wf(),
            final(self).transforms@ == old(self).transforms@.insert(id, Transform {
                position: Vec3Fx { x, y, z },
                rotation: Vec3Fx::spec_zero(),
                scale: Vec3Fx::spec_one(),
            }),
            *final(self) == (World { transforms: final(self).transforms, ..*old(self) }),
    {
        let mut t = Transform::default();
        t.position = Vec3Fx { x, y, z };
        self.transforms.insert(id, t);
    }

    /// Overwrites the position of an entity's transform; no effect if the
    /// entity has no transform.
    pub fn set_position(&mut self, id: usize, x: i64, y: i64, z: i64)
        requires
            old(self).wf(),
            id != EMPTY,
        ensures
            final(self).wf(),
            old(self).transforms@.contains_key(id) ==> final(self).transforms@
                == old(self).transforms@.insert(id, Transform {
                    position: Vec3Fx { x, y, z },
                    ..old(self).transforms@[id]
                }),
            !old(self).transforms@.contains_key(id) ==> final(self).transforms@
                == old(self).transforms@,
            *final(self) == (World { transforms: final(self).transforms, ..*old(self) }),
    {
        if let Some(t) = self.transforms.get_mut(id) {
            t.position = Vec3Fx { x, y, z };
        }
    }

    /// Overwrites the rotation (Euler XYZ, micro-degrees); no effect if the
    /// entity has no transform.
    pub fn set_rotation(&mut self, id: usize, x: i64, y: i64, z: i64)
        requires
            old(self).wf(),
            id != EMPTY,
        ensures
            final(self).wf(),
            old(self).transforms@.contains_key(id) ==> final(self).transforms@
                == old(self).transforms@.insert(id, Transform {
                    rotation: Vec3Fx { x, y, z },
                    ..old(self).transforms@[id]
                }),
            !old(self).transforms@.contains_key(id) ==> final(self).transforms@
                == old(self).transforms@,
            *final(self) == (World { transforms: final(self).transforms, ..*old(self) }),
    {
        if let Some(t) = self.transforms.get_mut(id) {
            t.rotation = Vec3Fx { x, y, z };
        }
    }

    /// Overwrites the scale (micro-scale); no effect if the entity has no
    /// transform.
    pub fn set_scale(&mut self, id: usize, x: i64, y: i64, z: i64)
        requires
            old(self).wf(),
            id != EMPTY,
        ensures
            final(self).wf(),
            old(self).transforms@.contains_key(id) ==> final(self).transforms@
                == old(self).transforms@.insert(id, Transform {
                    scale: Vec3Fx { x, y, z },
                    ..old(self).transforms@[id]
                }),
            !old(self).transforms@.contains_key(id) ==> final(self).transforms@
                == old(self).transforms@,
            *final(self) == (World { transforms: final(self).transforms, ..*old(self) }),
    {
        if let Some(t) = self.transforms.get_mut(id) {
            t.scale = Vec3Fx { x, y, z };
        }
    }

    /// The nine transform numbers `[px, py, pz, rx, ry, rz, sx, sy, sz]`,
    /// or nine zeros if the entity has no transform.
    pub fn get_transform_array(&self, id: usize) -> (r: [i64; 9])
        requires
            self.wf(),
            id != EMPTY,
        ensures
            self.transforms@.contains_key(id) ==> r@ == seq![
                self.transforms@[id].position.x,
                self.transforms@[id].position.y,
                self.transforms@[id].position.z,
                self.transforms@[id].rotation.x,
                self.transforms@[id].rotation.y,
                self.transforms@[id].rotation.z,
                self.transforms@[id].scale.x,
                self.transforms@[id].scale.y,
                self.transforms@[id].scale.z,
            ],
            !self.transforms@.contains_key(id) ==> r@ == seq![0i64, 0, 0, 0, 0, 0, 0, 0, 0],
    {
        if let Some(t) = self.transforms.get(id) {
            let r = [
                t.position.x, t.position.y, t.position.z,
                t.rotation.x, t.rotation.y, t.rotation.z,
                t.scale.x, t.scale.y, t.scale.z,
            ];
            proof {
                assert(r@ =~= seq![
                    self.transforms@[id].position.x,
                    self.transforms@[id].position.y,
                    self.transforms@[id].position.z,
                    self.transforms@[id].rotation.x,
                    self.transforms@[id].rotation.y,
                    self.transforms@[id].rotation.z,
                    self.transforms@[id].scale.x,
                    self.transforms@[id].scale.y,
                    self.transforms@[id].scale.z,
                ]);
            }
            r
        } else {
            let r = [0i64, 0, 0, 0, 0, 0, 0, 0, 0];
            proof {
                assert(r@ =~= seq![0i64, 0, 0, 0, 0, 0, 0, 0, 0]);
            }
            r
        }
    }

    /// Attaches a mesh renderer, initially a cube.
    pub fn add_mesh_renderer(&mut self, id: usize)
        requires
            old(self).wf(),
            id != EMPTY,
        ensures
            final(self).wf(),
            final(self).mesh_renderers@ == old(self).mesh_renderers@.insert(id, MeshRenderer {
                mesh_type: MeshType::Cube,
            }),
            *final(self) == (World { mesh_renderers: final(self).mesh_renderers, ..*old(self) }),
    {
        self.mesh_renderers.insert(id, MeshRenderer { mesh_type: MeshType::Cube });
    }

    /// Records the half-extents of a custom mesh uploaded by the rendering
    /// backend; returns its index in the custom-mesh table.
    pub fn register_custom_mesh(&mut self, half_extents: Vec3Fx) -> (idx: usize)
        requires
            old(self).wf(),
            old(self).custom_mesh_half_extents@.len() < usize::MAX,
        ensures
            final(self).wf(),
            idx == old(self).custom_mesh_half_extents@.len(),
            final(self).custom_mesh_half_extents@
                == old(self).custom_mesh_half_extents@.push(half_extents),
            *final(self) == (World {
                custom_mesh_half_extents: final(self).custom_mesh_half_extents,
                ..*old(self)
            }),
    {
        let idx = self.custom_mesh_half_extents.len();
        self.custom_mesh_half_extents.push(half_extents);
        idx
    }

    /// Designates the player entity for input-driven movement and the
    /// first-person camera.
    pub fn set_player(&mut self, id: usize)
        ensures
            final(self).player_entity == Some(id),
            *final(self) == (World { player_entity: Some(id), ..*old(self) }),
    {
        self.player_entity = Some(id);
    }

    /// Adds a rigid body at rest; static bodies are immovable obstacles.
    pub fn add_rigid_body(&mut self, id: usize, is_static: bool)
        requires
            old(self).wf(),
            id != EMPTY,
        ensures
            final(self).wf(),
            final(self).rigid_bodies@ == old(self).rigid_bodies@.insert(id, RigidBody {
                velocity: Vec3Fx::spec_zero(),
                is_static,
                on_ground: false,
            }),
            *final(self) == (World { rigid_bodies: final(self).rigid_bodies, ..*old(self) }),
    {
        self.rigid_bodies.insert(id, RigidBody {
            velocity: Vec3Fx::zero(),
            is_static,
            on_ground: false,
        });
    }

    /// Attaches an axis-aligned box collider with the given half-extents
    /// (micro-units).
    pub fn add_collider_aabb(&mut self, id: usize, hx: i64, hy: i64, hz: i64)
        requires
            old(self).wf(),
            id != EMPTY,
        ensures
            final(self).wf(),
            final(self).colliders@ == old(self).colliders@.insert(id, Collider {
                half_extents: Vec3Fx { x: hx, y: hy, z: hz },
            }),
            *final(self) == (World { colliders: final(self).colliders, ..*old(self) }),
    {
        self.colliders.insert(id, Collider { half_extents: Vec3Fx { x: hx, y: hy, z: hz } });
    }

    /// The collider half-extents, or zeros if the entity has no collider.
    pub fn get_collider_array(&self, id: usize) -> (r: Vec3Fx)
        requires
            self.wf(),
            id != EMPTY,
        ensures
            r == if self.colliders@.contains_key(id) {
                self.colliders@[id].half_extents
            } else {
                Vec3Fx::spec_zero()
            },
    {
        if let Some(c) = self.colliders.get(id) {
            c.half_extents
        } else {
            Vec3Fx::zero()
        }
    }

    /// The velocity of an entity's rigid body, or zero if it has none.
    pub fn get_velocity(&self, id: usize) -> (r: Vec3Fx)
        requires
            self.wf(),
            id != EMPTY,
        ensures
            r == if self.rigid_bodies@.contains_key(id) {
                self.rigid_bodies@[id].velocity
            } else {
                Vec3Fx::spec_zero()
            },
    {
        if let Some(rb) = self.rigid_bodies.get(id) {
            rb.velocity
        } else {
            Vec3Fx::zero()
        }
    }

    /// Overwrites the velocity of an entity's rigid body; no effect if the
    /// entity has none.
    pub fn set_velocity(&mut self, id: usize, x: i64, y: i64, z: i64)
        requires
            old(self).wf(),
            id != EMPTY,
        ensures
            final(self).wf(),
            old(self).rigid_bodies@.contains_key(id) ==> final(self).rigid_bodies@
                == old(self).rigid_bodies@.insert(id, RigidBody {
                    velocity: Vec3Fx { x, y, z },
                    ..old(self).rigid_bodies@[id]
                }),
            !old(self).rigid_bodies@.contains_key(id) ==> final(self).rigid_bodies@
                == old(self).rigid_bodies@,
            *final(self) == (World { rigid_bodies: final(self).rigid_bodies, ..*old(self) }),
    {
        if let Some(rb) = self.rigid_bodies.get_mut(id) {
            rb.velocity = Vec3Fx { x, y, z };
        }
    }

    /// Stores the decoded input of the current frame.
    pub fn set_input(&mut self, keys: u32, mouse_dx: i64, mouse_dy: i64)
        ensures
            final(self).input == (InputState { keys, mouse_dx, mouse_dy }),
            *final(self) == (World { input: final(self).input, ..*old(self) }),
    {
        self.input = InputState { keys, mouse_dx, mouse_dy };
    }

    /// Places the orbital camera.
    pub fn set_camera(&mut self, ex: i64, ey: i64, ez: i64, tx: i64, ty: i64, tz: i64)
        ensures
            final(self).camera == (Camera {
                eye: Vec3Fx { x: ex, y: ey, z: ez },
                target: Vec3Fx { x: tx, y: ty, z: tz },
                ..old(self).camera
            }),
            *final(self) == (World { camera: final(self).camera, ..*old(self) }),
    {
        self.camera.eye = Vec3Fx { x: ex, y: ey, z: ez };
        self.camera.target = Vec3Fx { x: tx, y: ty, z: tz };
    }

    /// Attaches camera parameters to an entity (fov in micro-degrees, clip
    /// planes in micro-units), following its entity.
    pub fn add_camera(&mut self, id: usize, fov: i64, near: i64, far: i64)
        requires
            old(self).wf(),
            id != EMPTY,
        ensures
            final(self).wf(),
            final(self).cameras@ == old(self).cameras@.insert(id, CameraComponent {
                fov, near, far, follow_entity: true,
            }),
            *final(self) == (World { cameras: final(self).cameras, ..*old(self) }),
    {
        self.cameras.insert(id, CameraComponent { fov, near, far, follow_entity: true });
    }

    /// Switches an entity camera between following its entity and acting as
    /// an independent free camera; no effect if the entity has no camera.
    pub fn set_camera_follow_entity(&mut self, id: usize, follow_entity: bool)
        requires
            old(self).wf(),
            id != EMPTY,
        ensures
            final(self).wf(),
            old(self).cameras@.contains_key(id) ==> final(self).cameras@
                == old(self).cameras@.insert(id, CameraComponent {
                    follow_entity,
                    ..old(self).cameras@[id]
                }),
            !old(self).cameras@.contains_key(id) ==> final(self).cameras@ == old(self).cameras@,
            *final(self) == (World { cameras: final(self).cameras, ..*old(self) }),
    {
        if let Some(cam) = self.cameras.get_mut(id) {
            cam.follow_entity = follow_entity;
        }
    }

    /// Selects the active camera entity.
    pub fn set_active_camera(&mut self, id: usize)
        ensures
            *final(self) == (World { active_camera: Some(id), ..*old(self) }),
    {
        self.active_camera = Some(id);
    }

    /// Clears the active camera selection.
    pub fn remove_active_camera(&mut self)
        ensures
            *final(self) == (World { active_camera: None::<usize>, ..*old(self) }),
    {
        self.active_camera = None;
    }

    /// Switches between play mode and editor mode.
    pub fn set_game_mode(&mut self, enabled: bool)
        ensures
            *final(self) == (World { is_game_mode: enabled, ..*old(self) }),
    {
        self.is_game_mode = enabled;
    }

    /// Hands out the next texture id for a texture the rendering backend
    /// has uploaded.
    pub fn alloc_texture_id(&mut self) -> (id: u32)
        requires
            old(self).texture_count < MISSING_TEXTURE,
        ensures
            id == old(self).texture_count,
            final(self).texture_count == old(self).texture_count + 1,
            *final(self) == (World { texture_count: final(self).texture_count, ..*old(self) }),
    {
        let id = self.texture_count;
        self.texture_count = self.texture_count + 1;
        id
    }

    /// Associates a simple material: albedo texture, no normal map,
    /// dielectric, half rough, no emission.
    pub fn add_material(&mut self, entity_id: usize, texture_id: u32)
        requires
            old(self).wf(),
            entity_id != EMPTY,
        ensures
            final(self).wf(),
            final(self).materials@ == old(self).materials@.insert(entity_id, Material {
                albedo_tex: texture_id,
                normal_tex: MISSING_TEXTURE,
                metallic: 0,
                roughness: 500_000,
                emissive: Vec3Fx::spec_zero(),
            }),
            *final(self) == (World { materials: final(self).materials, ..*old(self) }),
    {
        self.materials.insert(entity_id, Material {
            albedo_tex: texture_id,
            normal_tex: MISSING_TEXTURE,
            metallic: 0,
            roughness: 500_000,
            emissive: Vec3Fx::zero(),
        });
    }

    /// Associates a full material (metallic and roughness in micro-scale).
    pub fn add_pbr_material(&mut self, entity_id: usize, albedo_tex: u32, metallic: i64, roughness: i64)
        requires
            old(self).wf(),
            entity_id != EMPTY,
        ensures
            final(self).wf(),
            final(self).materials@ == old(self).materials@.insert(entity_id, Material {
                albedo_tex,
                normal_tex: MISSING_TEXTURE,
                metallic,
                roughness,
                emissive: Vec3Fx::spec_zero(),
            }),
            *final(self) == (World { materials: final(self).materials, ..*old(self) }),
    {
        self.materials.insert(entity_id, Material {
            albedo_tex,
            normal_tex: MISSING_TEXTURE,
            metallic,
            roughness,
            emissive: Vec3Fx::zero(),
        });
    }

    /// Sets the emissive color of an entity's material (micro-scale); no
    /// effect if the entity has no material.
    pub fn set_emissive(&mut self, entity_id: usize, r: i64, g: i64, b: i64)
        requires
            old(self).wf(),
            entity_id != EMPTY,
        ensures
            final(self).wf(),
            old(self).materials@.contains_key(entity_id) ==> final(self).materials@
                == old(self).materials@.insert(entity_id, Material {
                    emissive: Vec3Fx { x: r, y: g, z: b },
                    ..old(self).materials@[entity_id]
                }),
            !old(self).materials@.contains_key(entity_id) ==> final(self).materials@
                == old(self).materials@,
            *final(self) == (World { materials: final(self).materials, ..*old(self) }),
    {
        if let Some(mat) = self.materials.get_mut(entity_id) {
            mat.emissive = Vec3Fx { x: r, y: g, z: b };
        }
    }

    /// Applies a normal-map texture to an entity's material; no effect if
    /// the entity has no material.
    pub fn set_normal_map(&mut self, entity_id: usize, normal_tex_id: u32)
        requires
            old(self).wf(),
            entity_id != EMPTY,
        ensures
            final(self).wf(),
            old(self).materials@.contains_key(entity_id) ==> final(self).materials@
                == old(self).materials@.insert(entity_id, Material {
                    normal_tex: normal_tex_id,
                    ..old(self).materials@[entity_id]
                }),
            !old(self).materials@.contains_key(entity_id) ==> final(self).materials@
                == old(self).materials@,
            *final(self) == (World { materials: final(self).materials, ..*old(self) }),
    {
        if let Some(mat) = self.materials.get_mut(entity_id) {
            mat.normal_tex = normal_tex_id;
        }
    }

    /// Attaches a point light (color micro-scale, intensity micro-scale).
    pub fn add_point_light(&mut self, id: usize, r: i64, g: i64, b: i64, intensity: i64)
        requires
            old(self).wf(),
            id != EMPTY,
        ensures
            final(self).wf(),
            final(self).point_lights@ == old(self).point_lights@.insert(id, PointLight {
                color: Vec3Fx { x: r, y: g, z: b },
                intensity,
            }),
            *final(self) == (World { point_lights: final(self).point_lights, ..*old(self) }),
    {
        self.point_lights.insert(id, PointLight { color: Vec3Fx { x: r, y: g, z: b }, intensity });
    }

    /// Sets the single directional light.
    pub fn add_directional_light(&mut self, dx: i64, dy: i64, dz: i64, r: i64, g: i64, b: i64, intensity: i64)
        ensures
            final(self).directional_light == Some(DirectionalLightData {
                direction: Vec3Fx { x: dx, y: dy, z: dz },
                color: Vec3Fx { x: r, y: g, z: b },
                intensity,
            }),
            *final(self) == (World { directional_light: final(self).directional_light, ..*old(self) }),
    {
        self.directional_light = Some(DirectionalLightData {
            direction: Vec3Fx { x: dx, y: dy, z: dz },
            color: Vec3Fx { x: r, y: g, z: b },
            intensity,
        });
    }

    /// Sets the global ambient light.
    pub fn set_ambient_light(&mut self, r: i64, g: i64, b: i64, intensity: i64)
        ensures
            final(self).ambient_color == (Vec3Fx { x: r, y: g, z: b }),
            final(self).ambient_intensity == intensity,
            *final(self) == (World {
                ambient_color: final(self).ambient_color,
                ambient_intensity: intensity,
                ..*old(self)
            }),
    {
        self.ambient_color = Vec3Fx { x: r, y: g, z: b };
        self.ambient_intensity = intensity;
    }

    /// Marks or unmarks an entity as surviving scene loads.
    pub fn set_persistent(&mut self, id: usize, persistent: bool)
        requires
            old(self).wf(),
            id != EMPTY,
        ensures
            final(self).wf(),
            final(self).persistent_entities@ == if persistent {
                old(self).persistent_entities@.insert(id, true)
            } else {
                old(self).persistent_entities@.remove(id)
            },
            *final(self) == (World {
                persistent_entities: final(self).persistent_entities,
                ..*old(self)
            }),
    {
        if persistent {
            self.persistent_entities.insert(id, true);
        } else {
            self.persistent_entities.remove(id);
        }
    }
}

/// The name an entity reports: its stored name, or "Entity " followed by
/// its id.
pub open spec fn entity_name_spec(names: Map<usize, String>, id: usize) -> Seq<char> {
    if names.contains_key(id) {
        names[id]@
    } else {
        "Entity "@ + dec_digits(id as nat)
    }
}

/// First entity in store order whose tag equals `tag`, scanning from `k`.
pub open spec fn first_with_tag(
    ids: Seq<usize>,
    tags: Map<usize, String>,
    tag: Seq<char>,
    k: int,
) -> Option<usize>
    decreases ids.len() - k,
{
    if k < 0 || k >= ids.len() {
        None
    } else if tags.contains_key(ids[k]) && tags[ids[k]]@ == tag {
        Some(ids[k])
    } else {
        first_with_tag(ids, tags, tag, k + 1)
    }
}

/// The mesh selector a string denotes: "custom:" followed by a decimal
/// index, one of the primitive names, or a cube for anything else.
pub open spec fn mesh_type_of_string(s: Seq<char>) -> MeshType {
    if s.len() >= 7 && s.take(7) == "custom:"@ {
        MeshType::Custom(parse_usize_spec(s.skip(7)))
    } else if s == "plane"@ {
        MeshType::Plane
    } else if s == "sphere"@ {
        MeshType::Sphere
    } else if s == "cylinder"@ {
        MeshType::Cylinder
    } else {
        MeshType::Cube
    }
}

/// The canonical string for a mesh selector.
pub open spec fn string_of_mesh_type(mt: MeshType) -> Seq<char> {
    match mt {
        MeshType::Cube => "cube"@,
        MeshType::Plane => "plane"@,
        MeshType::Sphere => "sphere"@,
        MeshType::Cylinder => "cylinder"@,
        MeshType::Custom(n) => "custom:"@ + dec_digits(n as nat),
    }
}

/// The registry after binding `name` to `tid`: the first entry with that
/// name is replaced, or a new entry is appended.
pub open spec fn reg_set(
    reg: Seq<(String, u32)>,
    name: String,
    tid: u32,
    k: int,
) -> Seq<(String, u32)>
    decreases reg.len() - k,
{
    if k < 0 || k >= reg.len() {
        reg.push((name, tid))
    } else if reg[k].0@ == name@ {
        reg.update(k, (name, tid))
    } else {
        reg_set(reg, name, tid, k + 1)
    }
}

/// The texture id registered under `name`, scanning from `k`.
pub open spec fn tex_lookup(reg: Seq<(String, u32)>, name: Seq<char>, k: int) -> Option<u32>
    decreases reg.len() - k,
{
    if k < 0 || k >= reg.len() {
        None
    } else if reg[k].0@ == name {
        Some(reg[k].1)
    } else {
        tex_lookup(reg, name, k + 1)
    }
}

/// The first registered name bound to texture id `tid`, scanning from `k`.
pub open spec fn tex_name_of(reg: Seq<(String, u32)>, tid: u32, k: int) -> Option<Seq<char>>
    decreases reg.len() - k,
{
    if k < 0 || k >= reg.len() {
        None
    } else if reg[k].1 == tid {
        Some(reg[k].0@)
    } else {
        tex_name_of(reg, tid, k + 1)
    }
}

/// The half-extents that fit the visual mesh: primitives are half-unit
/// boxes, planes take the minimum height, custom meshes use their recorded
/// extents clamped below.
pub open spec fn fit_he_spec(mt: MeshType, min_y: i64, table: Seq<Vec3Fx>) -> Vec3Fx {
    match mt {
        MeshType::Plane => Vec3Fx { x: 500_000, y: min_y, z: 500_000 },
        MeshType::Custom(n) => if n < table.len() {
            Vec3Fx {
                x: if table[n as int].x < 1000 { 1000 } else { table[n as int].x },
                y: if table[n as int].y < min_y { min_y } else { table[n as int].y },
                z: if table[n as int].z < 1000 { 1000 } else { table[n as int].z },
            }
        } else {
            Vec3Fx { x: 500_000, y: 500_000, z: 500_000 }
        },
        _ => Vec3Fx { x: 500_000, y: 500_000, z: 500_000 },
    }
}

/// Parses a mesh selector string.
pub fn parse_mesh_type(s: &str) -> (mt: MeshType)
    ensures
        mt == mesh_type_of_string(s@),
{
    let len = s.unicode_len();
    if len >= 7 {
        let pre = s.substring_char(0, 7);
        if str_eq(pre, "custom:") {
            let rest = s.substring_char(7, len);
            proof {
                assert(s@.take(7) =~= s@.subrange(0, 7));
                assert(rest@ =~= s@.skip(7));
            }
            return MeshType::Custom(parse_usize(rest));
        }
        proof {
            assert(s@.take(7) =~= s@.subrange(0, 7));
        }
    }
    if str_eq(s, "plane") {
        MeshType::Plane
    } else if str_eq(s, "sphere") {
        MeshType::Sphere
    } else if str_eq(s, "cylinder") {
        MeshType::Cylinder
    } else {
        MeshType::Cube
    }
}

/// Formats a mesh selector canonically.
pub fn mesh_type_string(mt: &MeshType) -> (r: String)
    ensures
        r@ == string_of_mesh_type(*mt),
{
    match mt {
        MeshType::Cube => "cube".to_owned(),
        MeshType::Plane => "plane".to_owned(),
        MeshType::Sphere => "sphere".to_owned(),
        MeshType::Cylinder => "cylinder".to_owned(),
        MeshType::Custom(n) => {
            let mut s = "custom:".to_owned();
            s.append(fmt_u64(*n as u64).as_str());
            s
        },
    }
}

impl World {
    /// The entity's stored name, or "Entity " followed by its id.
    pub fn get_entity_name(&self, id: usize) -> (r: String)
        requires
            self.wf(),
            id != EMPTY,
        ensures
            r@ == entity_name_spec(self.entity_names@, id),
    {
        match self.entity_names.get(id) {
            Some(n) => n.clone(),
            None => {
                let mut s = "Entity ".to_owned();
                s.append(fmt_u64(id as u64).as_str());
                s
            },
        }
    }

    /// Names an entity, replacing any previous name.
    pub fn set_entity_name(&mut self, id: usize, name: String)
        requires
            old(self).wf(),
            id != EMPTY,
        ensures
            final(self).wf(),
            final(self).entity_names@ == old(self).entity_names@.insert(id, name),
            *final(self) == (World { entity_names: final(self).entity_names, ..*old(self) }),
    {
        self.entity_names.insert(id, name);
    }

    /// Tags an entity, replacing any previous tag.
    pub fn set_tag(&mut self, id: usize, tag: &str)
        requires
            old(self).wf(),
            id != EMPTY,
        ensures
            final(self).wf(),
            final(self).tags@.contains_key(id),
            final(self).tags@[id]@ == tag@,
            final(self).tags@.remove(id) == old(self).tags@.remove(id),
            *final(self) == (World { tags: final(self).tags, ..*old(self) }),
    {
        self.tags.insert(id, tag.to_owned());
        proof {
            assert(final(self).tags@.remove(id) =~= old(self).tags@.remove(id));
        }
    }

    /// The entity's tag, or the empty string.
    pub fn get_tag(&self, id: usize) -> (r: String)
        requires
            self.wf(),
            id != EMPTY,
        ensures
            self.tags@.contains_key(id) ==> r@ == self.tags@[id]@,
            !self.tags@.contains_key(id) ==> r@ == Seq::<char>::empty(),
    {
        match self.tags.get(id) {
            Some(t) => t.clone(),
            None => {
                let s = String::new();
                s
            },
        }
    }

    /// The first entity (in tag-store order) carrying this tag, or the
    /// sentinel `u32::MAX` if none does.
    pub fn get_entity_by_tag(&self, tag: &str) -> (r: u32)
        requires
            self.wf(),
        ensures
            r == match first_with_tag(self.tags.ids_seq(), self.tags@, tag@, 0) {
                Some(id) => id as u32,
                None => u32::MAX,
            },
    {
        let ids = self.tags.iter();
        proof {
            self.tags.lemma_model();
        }
        let mut k: usize = 0;
        while k < ids.len()
            invariant
                self.wf(),
                k <= ids@.len(),
                ids@ == self.tags.ids_seq(),
                forall|q: int| 0 <= q < ids@.len() ==> (#[trigger] ids@[q]) != EMPTY,
                first_with_tag(self.tags.ids_seq(), self.tags@, tag@, k as int)
                    == first_with_tag(self.tags.ids_seq(), self.tags@, tag@, 0),
            decreases ids@.len() - k,
        {
            let id = ids[k];
            match self.tags.get(id) {
                Some(t) => {
                    if str_eq(t.as_str(), tag) {
                        return #[verifier::truncate] (id as u32);
                    }
                },
                None => {},
            }
            k = k + 1;
        }
        u32::MAX
    }

    /// Changes the mesh selector of an entity's renderer; no effect if the
    /// entity has no renderer. The string forms are "cube", "plane",
    /// "sphere", "cylinder" and "custom:" with a decimal index; anything
    /// else selects a cube.
    pub fn set_mesh_type(&mut self, id: usize, mesh_type: &str)
        requires
            old(self).wf(),
            id != EMPTY,
        ensures
            final(self).wf(),
            old(self).mesh_renderers@.contains_key(id) ==> final(self).mesh_renderers@
                == old(self).mesh_renderers@.insert(id, MeshRenderer {
                    mesh_type: mesh_type_of_string(mesh_type@),
                }),
            !old(self).mesh_renderers@.contains_key(id) ==> final(self).mesh_renderers@
                == old(self).mesh_renderers@,
            *final(self) == (World { mesh_renderers: final(self).mesh_renderers, ..*old(self) }),
    {
        let mt = parse_mesh_type(mesh_type);
        if let Some(mr) = self.mesh_renderers.get_mut(id) {
            mr.mesh_type = mt;
        }
    }

    /// The canonical string of the entity's mesh selector; "cube" if the
    /// entity has no renderer.
    pub fn get_mesh_type(&self, id: usize) -> (r: String)
        requires
            self.wf(),
            id != EMPTY,
        ensures
            self.mesh_renderers@.contains_key(id) ==> r@
                == string_of_mesh_type(self.mesh_renderers@[id].mesh_type),
            !self.mesh_renderers@.contains_key(id) ==> r@ == "cube"@,
    {
        match self.mesh_renderers.get(id) {
            Some(mr) => mesh_type_string(&mr.mesh_type),
            None => "cube".to_owned(),
        }
    }

    /// Registers a texture id under a name, replacing a previous binding of
    /// the same name.
    pub fn register_texture(&mut self, name: String, texture_id: u32)
        requires
            old(self).wf(),
        ensures
            final(self).wf(),
            final(self).texture_registry@
                == reg_set(old(self).texture_registry@, name, texture_id, 0),
            *final(self) == (World {
                texture_registry: final(self).texture_registry,
                ..*old(self)
            }),
    {
        let n = self.texture_registry.len();
        let mut k: usize = 0;
        while k < n
            invariant
                self.wf(),
                k <= n,
                n == self.texture_registry@.len(),
                *self == *old(self),
                forall|q: int|
                    0 <= q < k ==> (#[trigger] self.texture_registry@[q]).0@ != name@,
                reg_set(self.texture_registry@, name, texture_id, k as int)
                    == reg_set(self.texture_registry@, name, texture_id, 0),
            decreases n - k,
        {
            if str_eq(self.texture_registry[k].0.as_str(), name.as_str()) {
                let slot = &mut self.texture_registry[k];
                *slot = (name, texture_id);
                proof {
                    assert forall|i: int, j: int|
                        0 <= i < j < self.texture_registry@.len() implies
                        (#[trigger] self.texture_registry@[i]).0@
                            != (#[trigger] self.texture_registry@[j]).0@ by {
                        assert(old(self).texture_registry@[i].0@
                            != old(self).texture_registry@[j].0@);
                    }
                }
                return;
            }
            k = k + 1;
        }
        self.texture_registry.push((name, texture_id));
        proof {
            assert forall|i: int, j: int|
                0 <= i < j < self.texture_registry@.len() implies
                (#[trigger] self.texture_registry@[i]).0@
                    != (#[trigger] self.texture_registry@[j]).0@ by {
                if j < self.texture_registry@.len() - 1 {
                    assert(old(self).texture_registry@[i].0@
                        != old(self).texture_registry@[j].0@);
                }
            }
        }
    }

    /// Fits the entity's box collider to its visual mesh; `min_half_y`
    /// (clamped up to one thousandth of a unit) keeps flat meshes from
    /// getting a degenerate collider. No effect without a mesh renderer.
    pub fn fit_collider_to_mesh(&mut self, id: usize, min_half_y: i64)
        requires
            old(self).wf(),
            id != EMPTY,
        ensures
            final(self).wf(),
            old(self).mesh_renderers@.contains_key(id) ==> final(self).colliders@
                == old(self).colliders@.insert(id, Collider {
                    half_extents: fit_he_spec(
                        old(self).mesh_renderers@[id].mesh_type,
                        if min_half_y < 1000 { 1000 } else { min_half_y },
                        old(self).custom_mesh_half_extents@,
                    ),
                }),
            !old(self).mesh_renderers@.contains_key(id) ==> final(self).colliders@
                == old(self).colliders@,
            *final(self) == (World { colliders: final(self).colliders, ..*old(self) }),
    {
        let mt = match self.mesh_renderers.get(id) {
            Some(mr) => mr.mesh_type,
            None => {
                return;
            },
        };
        let min_y = if min_half_y < 1000 { 1000 } else { min_half_y };
        let he = match mt {
            MeshType::Plane => Vec3Fx { x: 500_000, y: min_y, z: 500_000 },
            MeshType::Custom(n) => {
                if n < self.custom_mesh_half_extents.len() {
                    let t = self.custom_mesh_half_extents[n];
                    Vec3Fx {
                        x: if t.x < 1000 { 1000 } else { t.x },
                        y: if t.y < min_y { min_y } else { t.y },
                        z: if t.z < 1000 { 1000 } else { t.z },
                    }
                } else {
                    Vec3Fx { x: 500_000, y: 500_000, z: 500_000 }
                }
            },
            _ => Vec3Fx { x: 500_000, y: 500_000, z: 500_000 },
        };
        self.colliders.insert(id, Collider { half_extents: he });
    }
}

} // verus!
