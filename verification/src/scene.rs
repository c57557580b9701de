//! The scene persistence bridge: the entity/component shapes exchanged
//! with the external persistence format, loading them into the world and
//! saving the world back out. The format itself (JSON) is external; this
//! module works on the decoded records.

use vstd::prelude::*;
use crate::store::{SparseSet, EMPTY};
use crate::fixed::Vec3Fx;
use crate::components::{
    Transform, MeshRenderer, Material, RigidBody, Collider, PointLight,
    CameraComponent, DirectionalLightData, MISSING_TEXTURE,
};
use crate::world::{
    World, tex_lookup, tex_name_of, mesh_type_of_string, string_of_mesh_type, parse_mesh_type,
    mesh_type_string,
};
use crate::components::MeshType;

verus! {

/// Transform block of a persisted entity.
#[derive(Clone, Copy, PartialEq, Eq, Structural, Debug)]
pub struct SceneTransform {
    pub position: Vec3Fx,
    pub rotation: Vec3Fx,
    pub scale: Vec3Fx,
}

/// Material block: texture names are resolved against the registered
/// name-to-id table at load time.
#[derive(Clone, Debug)]
pub struct SceneMaterial {
    pub texture: String,
    pub normal_texture: String,
    pub metallic: i64,
    pub roughness: i64,
    pub emissive: Option<Vec3Fx>,
}

#[derive(Clone, Copy, PartialEq, Eq, Structural, Debug)]
pub struct SceneRigidBody {
    pub is_static: bool,
}

#[derive(Clone, Copy, PartialEq, Eq, Structural, Debug)]
pub struct ScenePointLight {
    pub color: Vec3Fx,
    pub intensity: i64,
}

#[derive(Clone, Copy, PartialEq, Eq, Structural, Debug)]
pub struct SceneDirectionalLight {
    pub direction: Vec3Fx,
    pub color: Vec3Fx,
    pub intensity: i64,
}

#[derive(Clone, Copy, PartialEq, Eq, Structural, Debug)]
pub struct SceneCameraComponent {
    pub fov: i64,
    pub near: i64,
    pub far: i64,
    pub follow_entity: bool,
    pub is_active: bool,
}

/// One persisted entity: an ordered list of optional component blocks.
/// The parent reference is carried for external editing tools; the loader
/// does not apply it.
#[derive(Clone, Debug)]
pub struct SceneEntityData {
    pub transform: Option<SceneTransform>,
    pub mesh_renderer: Option<bool>,
    pub material: Option<SceneMaterial>,
    pub rigid_body: Option<SceneRigidBody>,
    pub collider_aabb: Option<Vec3Fx>,
    pub point_light: Option<ScenePointLight>,
    pub mesh_type: Option<String>,
    pub name: Option<String>,
    pub tag: Option<String>,
    pub camera: Option<SceneCameraComponent>,
    pub parent_index: Option<usize>,
}

/// A whole persisted scene: at most one directional light, entities in
/// list order.
#[derive(Clone, Debug)]
pub struct SceneData {
    pub directional_light: Option<SceneDirectionalLight>,
    pub entities: Vec<SceneEntityData>,
}

/// A map restricted to the keys the keep-set holds.
pub open spec fn restrict_map<T>(m: Map<usize, T>, keep: Map<usize, bool>) -> Map<usize, T> {
    Map::new(|id: usize| m.contains_key(id) && keep.contains_key(id), |id: usize| m[id])
}

/// One past the largest id in `ids[k..]`, at least `acc`.
pub open spec fn alloc_watermark(ids: Seq<usize>, k: int, acc: int) -> int
    decreases ids.len() - k,
{
    if k < 0 || k >= ids.len() {
        acc
    } else {
        alloc_watermark(ids, k + 1, if ids[k] + 1 > acc { ids[k] + 1 } else { acc })
    }
}

/// Drops every component whose owner the keep-set does not hold.
fn retain_kept<T>(s: &mut SparseSet<T>, keep: &SparseSet<bool>)
    requires
        old(s).wf(),
        keep.wf(),
    ensures
        final(s).wf(),
        final(s)@ == restrict_map(old(s)@, keep@),
{
    let ids = s.iter();
    proof {
        s.lemma_model();
    }
    let mut k: usize = 0;
    while k < ids.len()
        invariant
            s.wf(),
            keep.wf(),
            k <= ids@.len(),
            ids@ == old(s).ids_seq(),
            forall|q: int| 0 <= q < ids@.len() ==> (#[trigger] ids@[q]) != EMPTY,
            forall|id: usize|
                #[trigger] s@.contains_key(id) <==> old(s)@.contains_key(id)
                    && (keep@.contains_key(id) || !ids@.take(k as int).contains(id)),
            forall|id: usize| #[trigger] s@.contains_key(id) ==> s@[id] == old(s)@[id],
        decreases ids@.len() - k,
    {
        let id = ids[k];
        proof {
            assert(ids@.take(k as int + 1) =~= ids@.take(k as int).push(ids@[k as int]));
        }
        let ghost prev = *s;
        if keep.get(id).is_none() {
            s.remove(id);
        }
        proof {
            assert forall|x: usize| #[trigger] s@.contains_key(x) <==>
                old(s)@.contains_key(x)
                    && (keep@.contains_key(x) || !ids@.take(k as int + 1).contains(x)) by {
                if ids@.take(k as int + 1).contains(x) {
                    let q = choose|q: int|
                        0 <= q < ids@.take(k as int + 1).len()
                            && (#[trigger] ids@.take(k as int + 1)[q]) == x;
                    if q < k as int {
                        assert(ids@.take(k as int).contains(x));
                    } else {
                        assert(x == id);
                    }
                }
                if ids@.take(k as int).contains(x) {
                    assert(ids@.take(k as int + 1).contains(x));
                }
                if x == id {
                    assert(ids@.take(k as int + 1)[k as int] == id);
                }
            }
        }
        k = k + 1;
    }
    proof {
        old(s).lemma_model();
        assert forall|id: usize| true implies
            (s@.contains_key(id) == restrict_map(old(s)@, keep@).contains_key(id)
                && (s@.contains_key(id)
                    ==> s@[id] == restrict_map(old(s)@, keep@)[id])) by {
            assert(ids@.take(ids@.len() as int) =~= ids@);
            if old(s)@.contains_key(id) {
                assert(old(s).ids_seq().contains(id));
            }
        }
        assert(s@ =~= restrict_map(old(s)@, keep@));
    }
}

impl World {
    /// Removes every component of every non-persistent entity, clears the
    /// directional light and active camera, drops names and tags of
    /// non-persistent entities, and resets the id allocator to one past
    /// the highest persistent id.
    pub fn clear_scene(&mut self)
        requires
            old(self).wf(),
        ensures
            final(self).wf(),
            final(self).transforms@
                == restrict_map(old(self).transforms@, old(self).persistent_entities@),
            final(self).mesh_renderers@
                == restrict_map(old(self).mesh_renderers@, old(self).persistent_entities@),
            final(self).materials@
                == restrict_map(old(self).materials@, old(self).persistent_entities@),
            final(self).rigid_bodies@
                == restrict_map(old(self).rigid_bodies@, old(self).persistent_entities@),
            final(self).colliders@
                == restrict_map(old(self).colliders@, old(self).persistent_entities@),
            final(self).point_lights@
                == restrict_map(old(self).point_lights@, old(self).persistent_entities@),
            final(self).cameras@
                == restrict_map(old(self).cameras@, old(self).persistent_entities@),
            final(self).entity_names@
                == restrict_map(old(self).entity_names@, old(self).persistent_entities@),
            final(self).tags@
                == restrict_map(old(self).tags@, old(self).persistent_entities@),
            final(self).active_camera is None,
            final(self).directional_light is None,
            final(self).next_id as int
                == alloc_watermark(old(self).persistent_entities.ids_seq(), 0, 0),
            *final(self) == (World {
                transforms: final(self).transforms,
                mesh_renderers: final(self).mesh_renderers,
                materials: final(self).materials,
                rigid_bodies: final(self).rigid_bodies,
                colliders: final(self).colliders,
                point_lights: final(self).point_lights,
                cameras: final(self).cameras,
                entity_names: final(self).entity_names,
                tags: final(self).tags,
                active_camera: None::<usize>,
                directional_light: None::<DirectionalLightData>,
                next_id: final(self).next_id,
                ..*old(self)
            }),
    {
        retain_kept(&mut self.transforms, &self.persistent_entities);
        retain_kept(&mut self.mesh_renderers, &self.persistent_entities);
        retain_kept(&mut self.materials, &self.persistent_entities);
        retain_kept(&mut self.rigid_bodies, &self.persistent_entities);
        retain_kept(&mut self.colliders, &self.persistent_entities);
        retain_kept(&mut self.point_lights, &self.persistent_entities);
        retain_kept(&mut self.cameras, &self.persistent_entities);
        retain_kept(&mut self.entity_names, &self.persistent_entities);
        retain_kept(&mut self.tags, &self.persistent_entities);
        self.active_camera = None;
        self.directional_light = None;
        let pids = self.persistent_entities.iter();
        proof {
            self.persistent_entities.lemma_model();
        }
        let mut next: usize = 0;
        let mut k: usize = 0;
        while k < pids.len()
            invariant
                k <= pids@.len(),
                pids@ == old(self).persistent_entities.ids_seq(),
                forall|q: int| 0 <= q < pids@.len() ==> (#[trigger] pids@[q]) != EMPTY,
                alloc_watermark(pids@, k as int, next as int) == alloc_watermark(pids@, 0, 0),
            decreases pids@.len() - k,
        {
            let id = pids[k];
            if id >= next {
                next = id + 1;
            }
            k = k + 1;
        }
        self.next_id = next;
    }
}

/// The component maps of a world, with names and tags abstracted to their
/// character sequences: the state the load fold runs over.
pub ghost struct LoadState {
    pub next_id: int,
    pub transforms: Map<usize, Transform>,
    pub mesh_renderers: Map<usize, MeshRenderer>,
    pub materials: Map<usize, Material>,
    pub rigid_bodies: Map<usize, RigidBody>,
    pub colliders: Map<usize, Collider>,
    pub point_lights: Map<usize, PointLight>,
    pub cameras: Map<usize, CameraComponent>,
    pub names: Map<usize, Seq<char>>,
    pub tags: Map<usize, Seq<char>>,
    pub active_camera: Option<usize>,
}

pub open spec fn view_names(m: Map<usize, String>) -> Map<usize, Seq<char>> {
    Map::new(|id: usize| m.contains_key(id), |id: usize| m[id]@)
}

pub open spec fn load_state_of(w: World) -> LoadState {
    LoadState {
        next_id: w.next_id as int,
        transforms: w.transforms@,
        mesh_renderers: w.mesh_renderers@,
        materials: w.materials@,
        rigid_bodies: w.rigid_bodies@,
        colliders: w.colliders@,
        point_lights: w.point_lights@,
        cameras: w.cameras@,
        names: view_names(w.entity_names@),
        tags: view_names(w.tags@),
        active_camera: w.active_camera,
    }
}

/// The state `clear_scene` leaves behind.
pub open spec fn cleared_state(w: World) -> LoadState {
    LoadState {
        next_id: alloc_watermark(w.persistent_entities.ids_seq(), 0, 0),
        transforms: restrict_map(w.transforms@, w.persistent_entities@),
        mesh_renderers: restrict_map(w.mesh_renderers@, w.persistent_entities@),
        materials: restrict_map(w.materials@, w.persistent_entities@),
        rigid_bodies: restrict_map(w.rigid_bodies@, w.persistent_entities@),
        colliders: restrict_map(w.colliders@, w.persistent_entities@),
        point_lights: restrict_map(w.point_lights@, w.persistent_entities@),
        cameras: restrict_map(w.cameras@, w.persistent_entities@),
        names: view_names(restrict_map(w.entity_names@, w.persistent_entities@)),
        tags: view_names(restrict_map(w.tags@, w.persistent_entities@)),
        active_camera: None,
    }
}

/// A texture name resolved against the registry; unresolvable names fall
/// back to the missing-texture sentinel.
pub open spec fn resolve_texture(reg: Seq<(String, u32)>, name: Seq<char>) -> u32 {
    match tex_lookup(reg, name, 0) {
        Some(t) => t,
        None => MISSING_TEXTURE,
    }
}

/// Instantiating one persisted entity: it gets the next id, and each
/// present component block becomes the corresponding component, texture
/// names resolved through the registry; an active camera block selects the
/// entity as the active camera.
pub open spec fn load_entity_spec(
    m: LoadState,
    e: SceneEntityData,
    reg: Seq<(String, u32)>,
) -> LoadState {
    let id = m.next_id as usize;
    let transforms = match e.transform {
        Some(t) => m.transforms.insert(id, Transform {
            position: t.position,
            rotation: t.rotation,
            scale: t.scale,
        }),
        None => m.transforms,
    };
    let renderers1 = if e.mesh_renderer == Some(true) {
        m.mesh_renderers.insert(id, MeshRenderer { mesh_type: MeshType::Cube })
    } else {
        m.mesh_renderers
    };
    let materials = match e.material {
        Some(mat) => m.materials.insert(id, Material {
            albedo_tex: resolve_texture(reg, mat.texture@),
            normal_tex: if mat.normal_texture@.len() == 0 {
                MISSING_TEXTURE
            } else {
                resolve_texture(reg, mat.normal_texture@)
            },
            metallic: mat.metallic,
            roughness: mat.roughness,
            emissive: match mat.emissive {
                Some(v) => v,
                None => Vec3Fx::spec_zero(),
            },
        }),
        None => m.materials,
    };
    let rigid_bodies = match e.rigid_body {
        Some(rb) => m.rigid_bodies.insert(id, RigidBody {
            velocity: Vec3Fx::spec_zero(),
            is_static: rb.is_static,
            on_ground: false,
        }),
        None => m.rigid_bodies,
    };
    let colliders = match e.collider_aabb {
        Some(he) => m.colliders.insert(id, Collider { half_extents: he }),
        None => m.colliders,
    };
    let point_lights = match e.point_light {
        Some(pl) => m.point_lights.insert(id, PointLight {
            color: pl.color,
            intensity: pl.intensity,
        }),
        None => m.point_lights,
    };
    let renderers2 = match e.mesh_type {
        Some(mt) => if renderers1.contains_key(id) {
            renderers1.insert(id, MeshRenderer { mesh_type: mesh_type_of_string(mt@) })
        } else {
            renderers1
        },
        None => renderers1,
    };
    let names = match e.name {
        Some(n) => m.names.insert(id, n@),
        None => m.names,
    };
    let tags = match e.tag {
        Some(t) => m.tags.insert(id, t@),
        None => m.tags,
    };
    let cameras = match e.camera {
        Some(c) => m.cameras.insert(id, CameraComponent {
            fov: c.fov,
            near: c.near,
            far: c.far,
            follow_entity: c.follow_entity,
        }),
        None => m.cameras,
    };
    let active_camera = match e.camera {
        Some(c) => if c.is_active {
            Some(id)
        } else {
            m.active_camera
        },
        None => m.active_camera,
    };
    LoadState {
        next_id: m.next_id + 1,
        transforms,
        mesh_renderers: renderers2,
        materials,
        rigid_bodies,
        colliders,
        point_lights,
        cameras,
        names,
        tags,
        active_camera,
    }
}

/// Instantiation of the entities `es[k..]`, in list order.
pub open spec fn load_from(
    m: LoadState,
    es: Seq<SceneEntityData>,
    reg: Seq<(String, u32)>,
    k: int,
) -> LoadState
    decreases es.len() - k,
{
    if k < 0 || k >= es.len() {
        m
    } else {
        load_from(load_entity_spec(m, es[k], reg), es, reg, k + 1)
    }
}

impl World {
    /// The texture id registered under `name`, or the missing-texture
    /// sentinel.
    pub fn lookup_texture(&self, name: &str) -> (r: u32)
        ensures
            r == resolve_texture(self.texture_registry@, name@),
    {
        let n = self.texture_registry.len();
        let mut k: usize = 0;
        while k < n
            invariant
                k <= n,
                n == self.texture_registry@.len(),
                tex_lookup(self.texture_registry@, name@, k as int)
                    == tex_lookup(self.texture_registry@, name@, 0),
            decreases n - k,
        {
            if crate::text::str_eq(self.texture_registry[k].0.as_str(), name) {
                return self.texture_registry[k].1;
            }
            k = k + 1;
        }
        MISSING_TEXTURE
    }

    /// Instantiates one persisted entity under the next fresh id, exactly
    /// as `load_entity_spec` describes.
    #[verifier::rlimit(100)]
    fn load_one_entity(&mut self, e: &SceneEntityData) -> (id: usize)
        requires
            old(self).wf(),
            old(self).next_id < EMPTY,
        ensures
            final(self).wf(),
            id == old(self).next_id,
            load_state_of(*final(self)) == load_entity_spec(load_state_of(*old(self)), *e,
                old(self).texture_registry@),
            *final(self) == (World {
                next_id: final(self).next_id,
                transforms: final(self).transforms,
                mesh_renderers: final(self).mesh_renderers,
                materials: final(self).materials,
                rigid_bodies: final(self).rigid_bodies,
                colliders: final(self).colliders,
                point_lights: final(self).point_lights,
                cameras: final(self).cameras,
                entity_names: final(self).entity_names,
                tags: final(self).tags,
                active_camera: final(self).active_camera,
                ..*old(self)
            }),
    {
        let ghost prev = load_state_of(*self);
        let id = self.create_entity();
            match &e.transform {
            Some(t) => {
                self.transforms.insert(id, Transform {
                    position: t.position,
                    rotation: t.rotation,
                    scale: t.scale,
                });
            },
            None => {},
        }
        match &e.mesh_renderer {
            Some(b) => {
                if *b {
                    self.mesh_renderers.insert(id, MeshRenderer { mesh_type: MeshType::Cube });
                }
            },
            None => {},
        }
        match &e.material {
            Some(mat) => {
                let tex_id = self.lookup_texture(mat.texture.as_str());
                let normal_id = if mat.normal_texture.as_str().is_empty() {
                    MISSING_TEXTURE
                } else {
                    self.lookup_texture(mat.normal_texture.as_str())
                };
                let emis = match mat.emissive {
                    Some(v) => v,
                    None => Vec3Fx::zero(),
                };
                self.materials.insert(id, Material {
                    albedo_tex: tex_id,
                    normal_tex: normal_id,
                    metallic: mat.metallic,
                    roughness: mat.roughness,
                    emissive: emis,
                });
            },
            None => {},
        }
        match &e.rigid_body {
            Some(rb) => {
                self.rigid_bodies.insert(id, RigidBody {
                    velocity: Vec3Fx::zero(),
                    is_static: rb.is_static,
                    on_ground: false,
                });
            },
            None => {},
        }
        match &e.collider_aabb {
            Some(he) => {
                self.colliders.insert(id, Collider { half_extents: *he });
            },
            None => {},
        }
        match &e.point_light {
            Some(pl) => {
                self.point_lights.insert(id, PointLight {
                    color: pl.color,
                    intensity: pl.intensity,
                });
            },
            None => {},
        }
        match &e.mesh_type {
            Some(mt) => {
                let parsed = parse_mesh_type(mt.as_str());
                if let Some(mr) = self.mesh_renderers.get_mut(id) {
                    mr.mesh_type = parsed;
                }
            },
            None => {},
        }
        match &e.name {
            Some(nm) => {
                self.entity_names.insert(id, nm.clone());
            },
            None => {},
        }
        match &e.tag {
            Some(t) => {
                self.tags.insert(id, t.clone());
            },
            None => {},
        }
        match &e.camera {
            Some(c) => {
                self.cameras.insert(id, CameraComponent {
                    fov: c.fov,
                    near: c.near,
                    far: c.far,
                    follow_entity: c.follow_entity,
                });
                if c.is_active {
                    self.active_camera = Some(id);
                }
            },
            None => {},
        }
        proof {
            let stepped = load_entity_spec(prev, *e, old(self).texture_registry@);
            assert(load_state_of(*self).names =~= stepped.names);
            assert(load_state_of(*self).tags =~= stepped.tags);
            assert(load_state_of(*self) == stepped);
        }
        id
    }

    /// Loads a decoded scene: clears all non-persistent entities, installs
    /// the directional light, then instantiates the entities in list
    /// order, handing out consecutive fresh ids; returns those ids.
    /// Malformed persisted input never reaches this function: the external
    /// decoder rejects it and leaves the world untouched.
    #[verifier::rlimit(80)]
    pub fn load_scene(&mut self, scene: &SceneData) -> (new_ids: Vec<usize>)
        requires
            old(self).wf(),
            alloc_watermark(old(self).persistent_entities.ids_seq(), 0, 0)
                + scene.entities@.len() < EMPTY as int,
        ensures
            final(self).wf(),
            load_state_of(*final(self)) == load_from(cleared_state(*old(self)),
                scene.entities@, old(self).texture_registry@, 0),
            final(self).directional_light == (match scene.directional_light {
                Some(dl) => Some(DirectionalLightData {
                    direction: dl.direction,
                    color: dl.color,
                    intensity: dl.intensity,
                }),
                None => None::<DirectionalLightData>,
            }),
            new_ids@.len() == scene.entities@.len(),
            forall|k: int|
                0 <= k < new_ids@.len() ==> (#[trigger] new_ids@[k]) as int
                    == cleared_state(*old(self)).next_id + k,
            *final(self) == (World {
                next_id: final(self).next_id,
                transforms: final(self).transforms,
                mesh_renderers: final(self).mesh_renderers,
                materials: final(self).materials,
                rigid_bodies: final(self).rigid_bodies,
                colliders: final(self).colliders,
                point_lights: final(self).point_lights,
                cameras: final(self).cameras,
                entity_names: final(self).entity_names,
                tags: final(self).tags,
                active_camera: final(self).active_camera,
                directional_light: final(self).directional_light,
                ..*old(self)
            }),
    {
        let ghost w0 = *old(self);
        let ghost target = load_from(cleared_state(w0), scene.entities@, w0.texture_registry@, 0);
        let ghost base = cleared_state(w0).next_id;
        self.clear_scene();
        match &scene.directional_light {
            Some(dl) => {
                self.directional_light = Some(DirectionalLightData {
                    direction: dl.direction,
                    color: dl.color,
                    intensity: dl.intensity,
                });
            },
            None => {},
        }
        let ghost wc = *self;
        proof {
            assert(load_state_of(wc) == cleared_state(w0)) by {
                assert(view_names(wc.entity_names@)
                    =~= view_names(restrict_map(w0.entity_names@, w0.persistent_entities@)));
                assert(view_names(wc.tags@)
                    =~= view_names(restrict_map(w0.tags@, w0.persistent_entities@)));
            }
        }
        let mut new_ids: Vec<usize> = Vec::new();
        let n = scene.entities.len();
        let mut k: usize = 0;
        while k < n
            invariant
                self.wf(),
                k <= n,
                n == scene.entities@.len(),
                base == cleared_state(w0).next_id,
                0 <= base,
                base + n < EMPTY as int,
                self.next_id as int == base + k,
                new_ids@.len() == k,
                forall|q: int|
                    0 <= q < k ==> (#[trigger] new_ids@[q]) as int == base + q,
                self.texture_registry == w0.texture_registry,
                load_from(load_state_of(*self), scene.entities@, w0.texture_registry@, k as int)
                    == target,
                *self == (World {
                    next_id: self.next_id,
                    transforms: self.transforms,
                    mesh_renderers: self.mesh_renderers,
                    materials: self.materials,
                    rigid_bodies: self.rigid_bodies,
                    colliders: self.colliders,
                    point_lights: self.point_lights,
                    cameras: self.cameras,
                    entity_names: self.entity_names,
                    tags: self.tags,
                    active_camera: self.active_camera,
                    ..wc
                }),
            decreases n - k,
        {
            let ghost prev = load_state_of(*self);
            let e = &scene.entities[k];
            let id = self.load_one_entity(e);
            new_ids.push(id);
            proof {
                assert(load_state_of(*self)
                    == load_entity_spec(prev, scene.entities@[k as int], w0.texture_registry@));
            }
            k = k + 1;
        }
        new_ids
    }
}

/// An entity that holds any component, and so appears in a saved scene.
pub open spec fn is_component_id(w: World, id: usize) -> bool {
    ||| w.transforms@.contains_key(id)
    ||| w.mesh_renderers@.contains_key(id)
    ||| w.materials@.contains_key(id)
    ||| w.rigid_bodies@.contains_key(id)
    ||| w.colliders@.contains_key(id)
    ||| w.point_lights@.contains_key(id)
    ||| w.cameras@.contains_key(id)
}

pub open spec fn strictly_sorted(s: Seq<usize>) -> bool {
    forall|i: int, j: int| 0 <= i < j < s.len() ==> s[i] < s[j]
}

/// The ascending list of entities that hold any component: strict sorting
/// plus exact membership pin it uniquely.
pub open spec fn sorted_ids_of(w: World) -> Seq<usize> {
    choose|s: Seq<usize>|
        strictly_sorted(s) && (forall|id: usize|
            #[trigger] s.contains(id) <==> is_component_id(w, id))
}

/// Two strictly sorted sequences with the same members are equal.
pub proof fn lemma_sorted_unique(a: Seq<usize>, b: Seq<usize>)
    requires
        strictly_sorted(a),
        strictly_sorted(b),
        forall|id: usize| #[trigger] a.contains(id) <==> b.contains(id),
    ensures
        a == b,
    decreases a.len(),
{
    if a.len() == 0 {
        if b.len() > 0 {
            assert(b.contains(b[0]));
            assert(a.contains(b[0]));
            let q = choose|q: int| 0 <= q < a.len() && (#[trigger] a[q]) == b[0];
            assert(false);
        }
        assert(a =~= b);
    } else {
        assert(a.contains(a[0]));
        assert(b.contains(b[0]));
        assert(a.contains(b[0]));
        assert(b.contains(a[0]));
        let i = choose|i: int| 0 <= i < a.len() && (#[trigger] a[i]) == b[0];
        let j = choose|j: int| 0 <= j < b.len() && (#[trigger] b[j]) == a[0];
        assert(a[i] == b[0] && b[j] == a[0]);
        assert(a[0] <= a[i]);
        assert(b[0] <= b[j]);
        assert(a[0] == b[0]);
        let at = a.skip(1);
        let bt = b.skip(1);
        assert forall|id: usize| #[trigger] at.contains(id) <==> bt.contains(id) by {
            assert(at.contains(id) <==> (a.contains(id) && id != a[0])) by {
                if at.contains(id) {
                    let q = choose|q: int| 0 <= q < at.len() && (#[trigger] at[q]) == id;
                    assert(a[q + 1] == id);
                    assert(a[0] < a[q + 1]);
                }
                if a.contains(id) && id != a[0] {
                    let q = choose|q: int| 0 <= q < a.len() && (#[trigger] a[q]) == id;
                    assert(q >= 1);
                    assert(at[q - 1] == id);
                }
            }
            assert(bt.contains(id) <==> (b.contains(id) && id != b[0])) by {
                if bt.contains(id) {
                    let q = choose|q: int| 0 <= q < bt.len() && (#[trigger] bt[q]) == id;
                    assert(b[q + 1] == id);
                    assert(b[0] < b[q + 1]);
                }
                if b.contains(id) && id != b[0] {
                    let q = choose|q: int| 0 <= q < b.len() && (#[trigger] b[q]) == id;
                    assert(q >= 1);
                    assert(bt[q - 1] == id);
                }
            }
        }
        lemma_sorted_unique(at, bt);
        assert(a.len() == b.len());
        assert forall|q: int| 0 <= q < a.len() implies a[q] == b[q] by {
            if q >= 1 {
                assert(at[q - 1] == bt[q - 1]);
            }
        }
        assert(a =~= b);
    }
}

/// The saved record of one entity corresponds field by field to the
/// world's components for `id`: each block present exactly when the
/// component is, texture ids mapped back to their registered names (empty
/// when unregistered), the mesh selector in canonical string form, and the
/// camera block carrying whether this entity is the active camera.
pub open spec fn entity_matches(w: World, id: usize, e: SceneEntityData) -> bool {
    &&& e.transform == (if w.transforms@.contains_key(id) {
        Some(SceneTransform {
            position: w.transforms@[id].position,
            rotation: w.transforms@[id].rotation,
            scale: w.transforms@[id].scale,
        })
    } else {
        None::<SceneTransform>
    })
    &&& e.mesh_renderer == (if w.mesh_renderers@.contains_key(id) {
        Some(true)
    } else {
        None::<bool>
    })
    &&& (match e.material {
        Some(sm) => w.materials@.contains_key(id) && {
            let m = w.materials@[id];
            &&& sm.texture@ == saved_tex_name(w.texture_registry@, m.albedo_tex)
            &&& sm.normal_texture@ == saved_tex_name(w.texture_registry@, m.normal_tex)
            &&& sm.metallic == m.metallic
            &&& sm.roughness == m.roughness
            &&& sm.emissive == Some(m.emissive)
        },
        None => !w.materials@.contains_key(id),
    })
    &&& e.rigid_body == (if w.rigid_bodies@.contains_key(id) {
        Some(SceneRigidBody { is_static: w.rigid_bodies@[id].is_static })
    } else {
        None::<SceneRigidBody>
    })
    &&& e.collider_aabb == (if w.colliders@.contains_key(id) {
        Some(w.colliders@[id].half_extents)
    } else {
        None::<Vec3Fx>
    })
    &&& e.point_light == (if w.point_lights@.contains_key(id) {
        Some(ScenePointLight {
            color: w.point_lights@[id].color,
            intensity: w.point_lights@[id].intensity,
        })
    } else {
        None::<ScenePointLight>
    })
    &&& (match e.mesh_type {
        Some(s) => w.mesh_renderers@.contains_key(id)
            && s@ == string_of_mesh_type(w.mesh_renderers@[id].mesh_type),
        None => !w.mesh_renderers@.contains_key(id),
    })
    &&& (match e.name {
        Some(s) => w.entity_names@.contains_key(id) && s@ == w.entity_names@[id]@,
        None => !w.entity_names@.contains_key(id),
    })
    &&& (match e.tag {
        Some(s) => w.tags@.contains_key(id) && s@ == w.tags@[id]@,
        None => !w.tags@.contains_key(id),
    })
    &&& e.camera == (if w.cameras@.contains_key(id) {
        Some(SceneCameraComponent {
            fov: w.cameras@[id].fov,
            near: w.cameras@[id].near,
            far: w.cameras@[id].far,
            follow_entity: w.cameras@[id].follow_entity,
            is_active: w.active_camera == Some(id),
        })
    } else {
        None::<SceneCameraComponent>
    })
    &&& e.parent_index is None
}

/// The name a texture id is saved under: the first registered name bound
/// to it, or the empty string.
pub open spec fn saved_tex_name(reg: Seq<(String, u32)>, tid: u32) -> Seq<char> {
    match tex_name_of(reg, tid, 0) {
        Some(n) => n,
        None => Seq::<char>::empty(),
    }
}

/// Inserts an id into a strictly sorted list, keeping it sorted and
/// duplicate-free.
fn insert_sorted(v: &mut Vec<usize>, id: usize)
    requires
        strictly_sorted(old(v)@),
    ensures
        strictly_sorted(final(v)@),
        forall|x: usize|
            #[trigger] final(v)@.contains(x) <==> (old(v)@.contains(x) || x == id),
{
    let n = v.len();
    let mut j: usize = 0;
    while j < n && v[j] < id
        invariant
            j <= n,
            n == v@.len(),
            *v == *old(v),
            forall|q: int| 0 <= q < j ==> (#[trigger] v@[q]) < id,
        decreases n - j,
    {
        j = j + 1;
    }
    if j < n && v[j] == id {
        proof {
            assert(v@.contains(id));
            assert(final(v)@ =~= old(v)@);
        }
        return;
    }
    proof {
        assert forall|q: int| j <= q < v@.len() implies (#[trigger] v@[q]) > id by {
            if j < v@.len() {
                assert(v@[j as int] > id);
                if q > j {
                    assert(v@[j as int] < v@[q]);
                }
            }
        }
    }
    v.insert(j, id);
    proof {
        assert forall|i1: int, i2: int| 0 <= i1 < i2 < v@.len() implies v@[i1] < v@[i2] by {
            assert(v@ == old(v)@.insert(j as int, id));
        }
        assert forall|x: usize|
            #[trigger] v@.contains(x) <==> (old(v)@.contains(x) || x == id) by {
            if v@.contains(x) {
                let q = choose|q: int| 0 <= q < v@.len() && (#[trigger] v@[q]) == x;
                if q < j {
                    assert(old(v)@[q] == x);
                } else if q > j {
                    assert(old(v)@[q - 1] == x);
                }
            }
            if old(v)@.contains(x) {
                let q = choose|q: int| 0 <= q < old(v)@.len() && (#[trigger] old(v)@[q]) == x;
                if q < j {
                    assert(v@[q] == x);
                } else {
                    assert(v@[q + 1] == x);
                }
            }
            assert(v@[j as int] == id);
        }
    }
}

/// Merges a store's live ids into a sorted id list.
fn merge_store_ids<T>(v: &mut Vec<usize>, s: &SparseSet<T>)
    requires
        strictly_sorted(old(v)@),
        s.wf(),
    ensures
        strictly_sorted(final(v)@),
        forall|x: usize|
            #[trigger] final(v)@.contains(x) <==> (old(v)@.contains(x) || s@.contains_key(x)),
{
    let ids = s.iter();
    proof {
        s.lemma_model();
    }
    let mut k: usize = 0;
    while k < ids.len()
        invariant
            strictly_sorted(v@),
            k <= ids@.len(),
            ids@ == s.ids_seq(),
            forall|x: usize|
                #[trigger] v@.contains(x)
                    <==> (old(v)@.contains(x) || ids@.take(k as int).contains(x)),
        decreases ids@.len() - k,
    {
        let id = ids[k];
        let ghost prev = v@;
        insert_sorted(v, id);
        proof {
            assert(ids@.take(k as int + 1) =~= ids@.take(k as int).push(ids@[k as int]));
            assert forall|x: usize|
                #[trigger] v@.contains(x)
                    <==> (old(v)@.contains(x) || ids@.take(k as int + 1).contains(x)) by {
                assert(v@.contains(x) <==> (prev.contains(x) || x == id));
                if ids@.take(k as int + 1).contains(x) {
                    let q = choose|q: int|
                        0 <= q < ids@.take(k as int + 1).len()
                            && (#[trigger] ids@.take(k as int + 1)[q]) == x;
                    if q < k as int {
                        assert(ids@.take(k as int).contains(x));
                    }
                }
                if ids@.take(k as int).contains(x) {
                    assert(ids@.take(k as int + 1).contains(x));
                }
                if x == id {
                    assert(ids@.take(k as int + 1)[k as int] == x);
                }
            }
        }
        k = k + 1;
    }
    proof {
        s.lemma_model();
        assert(ids@.take(ids@.len() as int) =~= ids@);
    }
}

impl World {
    /// The first name the registry binds to a texture id, or the empty
    /// string for an unregistered id.
    pub fn texture_name_of(&self, tid: u32) -> (r: String)
        ensures
            r@ == saved_tex_name(self.texture_registry@, tid),
    {
        let n = self.texture_registry.len();
        let mut k: usize = 0;
        while k < n
            invariant
                k <= n,
                n == self.texture_registry@.len(),
                tex_name_of(self.texture_registry@, tid, k as int)
                    == tex_name_of(self.texture_registry@, tid, 0),
            decreases n - k,
        {
            if self.texture_registry[k].1 == tid {
                return self.texture_registry[k].0.clone();
            }
            k = k + 1;
        }
        String::new()
    }

    /// The ascending list of entities holding any component.
    pub fn component_ids_sorted(&self) -> (r: Vec<usize>)
        requires
            self.wf(),
        ensures
            r@ == sorted_ids_of(*self),
            strictly_sorted(r@),
            forall|id: usize| #[trigger] r@.contains(id) <==> is_component_id(*self, id),
    {
        let mut v: Vec<usize> = Vec::new();
        merge_store_ids(&mut v, &self.transforms);
        merge_store_ids(&mut v, &self.mesh_renderers);
        merge_store_ids(&mut v, &self.materials);
        merge_store_ids(&mut v, &self.rigid_bodies);
        merge_store_ids(&mut v, &self.colliders);
        merge_store_ids(&mut v, &self.point_lights);
        merge_store_ids(&mut v, &self.cameras);
        proof {
            let picked = sorted_ids_of(*self);
            assert(strictly_sorted(v@) && (forall|id: usize|
                #[trigger] v@.contains(id) <==> is_component_id(*self, id)));
            assert(strictly_sorted(picked) && (forall|id: usize|
                #[trigger] picked.contains(id) <==> is_component_id(*self, id)));
            lemma_sorted_unique(v@, picked);
        }
        v
    }

    /// Saves the scene: every entity that holds any component, in
    /// ascending id order, with texture ids mapped back to their
    /// registered names.
    pub fn save_scene(&self) -> (r: SceneData)
        requires
            self.wf(),
        ensures
            r.directional_light == (match self.directional_light {
                Some(dl) => Some(SceneDirectionalLight {
                    direction: dl.direction,
                    color: dl.color,
                    intensity: dl.intensity,
                }),
                None => None::<SceneDirectionalLight>,
            }),
            r.entities@.len() == sorted_ids_of(*self).len(),
            forall|k: int|
                0 <= k < r.entities@.len()
                    ==> entity_matches(*self, sorted_ids_of(*self)[k], #[trigger] r.entities@[k]),
    {
        let directional_light = match &self.directional_light {
            Some(dl) => Some(SceneDirectionalLight {
                direction: dl.direction,
                color: dl.color,
                intensity: dl.intensity,
            }),
            None => None,
        };
        let ids = self.component_ids_sorted();
        proof {
            self.transforms.lemma_sentinel_absent();
            self.mesh_renderers.lemma_sentinel_absent();
            self.materials.lemma_sentinel_absent();
            self.rigid_bodies.lemma_sentinel_absent();
            self.colliders.lemma_sentinel_absent();
            self.point_lights.lemma_sentinel_absent();
            self.cameras.lemma_sentinel_absent();
            assert forall|q: int| 0 <= q < ids@.len() implies (#[trigger] ids@[q]) != EMPTY by {
                assert(ids@.contains(ids@[q]));
            }
        }
        let mut entities: Vec<SceneEntityData> = Vec::new();
        let mut k: usize = 0;
        while k < ids.len()
            invariant
                self.wf(),
                k <= ids@.len(),
                ids@ == sorted_ids_of(*self),
                forall|q: int| 0 <= q < ids@.len() ==> (#[trigger] ids@[q]) != EMPTY,
                entities@.len() == k,
                forall|q: int|
                    0 <= q < k
                        ==> entity_matches(*self, ids@[q], #[trigger] entities@[q]),
            decreases ids@.len() - k,
        {
            let id = ids[k];
            let transform = match self.transforms.get(id) {
                Some(t) => Some(SceneTransform {
                    position: t.position,
                    rotation: t.rotation,
                    scale: t.scale,
                }),
                None => None,
            };
            let mesh_renderer = match self.mesh_renderers.get(id) {
                Some(_) => Some(true),
                None => None,
            };
            let material = match self.materials.get(id) {
                Some(m) => Some(SceneMaterial {
                    texture: self.texture_name_of(m.albedo_tex),
                    normal_texture: self.texture_name_of(m.normal_tex),
                    metallic: m.metallic,
                    roughness: m.roughness,
                    emissive: Some(m.emissive),
                }),
                None => None,
            };
            let rigid_body = match self.rigid_bodies.get(id) {
                Some(rb) => Some(SceneRigidBody { is_static: rb.is_static }),
                None => None,
            };
            let collider_aabb = match self.colliders.get(id) {
                Some(c) => Some(c.half_extents),
                None => None,
            };
            let point_light = match self.point_lights.get(id) {
                Some(pl) => Some(ScenePointLight { color: pl.color, intensity: pl.intensity }),
                None => None,
            };
            let mesh_type = match self.mesh_renderers.get(id) {
                Some(mr) => Some(mesh_type_string(&mr.mesh_type)),
                None => None,
            };
            let name = match self.entity_names.get(id) {
                Some(n) => Some(n.clone()),
                None => None,
            };
            let tag = match self.tags.get(id) {
                Some(t) => Some(t.clone()),
                None => None,
            };
            let is_active = match self.active_camera {
                Some(a) => a == id,
                None => false,
            };
            let camera = match self.cameras.get(id) {
                Some(c) => Some(SceneCameraComponent {
                    fov: c.fov,
                    near: c.near,
                    far: c.far,
                    follow_entity: c.follow_entity,
                    is_active,
                }),
                None => None,
            };
            let e = SceneEntityData {
                transform,
                mesh_renderer,
                material,
                rigid_body,
                collider_aabb,
                point_light,
                mesh_type,
                name,
                tag,
                camera,
                parent_index: None,
            };
            proof {
                assert(entity_matches(*self, id, e));
            }
            entities.push(e);
            k = k + 1;
        }
        SceneData { directional_light, entities }
    }
}

/// The load state of a world with nothing in it.
pub open spec fn empty_load_state() -> LoadState {
    LoadState {
        next_id: 0,
        transforms: Map::empty(),
        mesh_renderers: Map::empty(),
        materials: Map::empty(),
        rigid_bodies: Map::empty(),
        colliders: Map::empty(),
        point_lights: Map::empty(),
        cameras: Map::empty(),
        names: Map::empty(),
        tags: Map::empty(),
        active_camera: None,
    }
}

/// A persisted entity in the canonical shape the saver itself produces:
/// it has a transform, the renderer flag is never a literal false, the
/// mesh selector string is present exactly when the renderer is and is in
/// canonical form, a material carries an explicit emissive color and
/// texture names that survive the registry round trip, and no parent
/// reference.
pub open spec fn entity_canonical(e: SceneEntityData, reg: Seq<(String, u32)>) -> bool {
    &&& e.transform is Some
    &&& e.mesh_renderer != Some(false)
    &&& (e.mesh_type is Some <==> e.mesh_renderer == Some(true))
    &&& (match e.mesh_type {
        Some(s) => s@ == string_of_mesh_type(mesh_type_of_string(s@)),
        None => true,
    })
    &&& (match e.material {
        Some(m) => {
            &&& m.emissive is Some
            &&& saved_tex_name(reg, resolve_texture(reg, m.texture@)) == m.texture@
            &&& (m.normal_texture@.len() == 0 ==> tex_name_of(reg, MISSING_TEXTURE, 0) is None)
            &&& (m.normal_texture@.len() != 0 ==> saved_tex_name(reg,
                resolve_texture(reg, m.normal_texture@)) == m.normal_texture@)
        },
        None => true,
    })
    &&& e.parent_index is None
}

/// Scene round trip, one record: a world loaded from a canonical
/// single-entity scene (over an empty world) saves back to exactly that
/// scene — the saved entity list has exactly the loaded entity, matching
/// it field for field.
pub proof fn lemma_scene_round_trip_single(w1: World, e: SceneEntityData)
    requires
        w1.wf(),
        load_state_of(w1) == load_from(empty_load_state(), seq![e], w1.texture_registry@, 0),
        entity_canonical(e, w1.texture_registry@),
    ensures
        sorted_ids_of(w1) == seq![0usize],
        entity_matches(w1, 0, e),
{
    let reg = w1.texture_registry@;
    let es = seq![e];
    let m1 = load_entity_spec(empty_load_state(), es[0], reg);
    assert(load_from(m1, es, reg, 1) == m1);
    assert(load_from(empty_load_state(), es, reg, 0) == m1);
    assert(load_state_of(w1) == m1);

    // every component map holds exactly the key zero (or nothing)
    assert(w1.transforms@.contains_key(0));
    assert forall|id: usize| #[trigger] is_component_id(w1, id) <==> id == 0 by {}

    // the sorted component id list is exactly [0]
    let ids = seq![0usize];
    assert(strictly_sorted(ids));
    assert forall|id: usize| #[trigger] ids.contains(id) <==> is_component_id(w1, id) by {
        if is_component_id(w1, id) {
            assert(ids[0] == id);
        }
        if ids.contains(id) {
            let q = choose|q: int| 0 <= q < ids.len() && (#[trigger] ids[q]) == id;
            assert(id == 0);
        }
    }
    let picked = sorted_ids_of(w1);
    assert(strictly_sorted(picked) && (forall|id: usize|
        #[trigger] picked.contains(id) <==> is_component_id(w1, id)));
    lemma_sorted_unique(picked, ids);

    // the saved record of entity zero is the loaded record, field by field
    match e.transform {
        Some(t) => {
            assert(w1.transforms@[0] == (Transform {
                position: t.position,
                rotation: t.rotation,
                scale: t.scale,
            }));
            assert(t == (SceneTransform {
                position: w1.transforms@[0].position,
                rotation: w1.transforms@[0].rotation,
                scale: w1.transforms@[0].scale,
            }));
        },
        None => {},
    }
    match e.mesh_type {
        Some(s) => {
            assert(w1.mesh_renderers@.contains_key(0));
            assert(w1.mesh_renderers@[0].mesh_type == mesh_type_of_string(s@));
        },
        None => {
            match e.mesh_renderer {
                Some(b) => {
                    assert(b != true && b != false);
                },
                None => {},
            }
            assert(e.mesh_renderer is None);
            assert(!w1.mesh_renderers@.contains_key(0));
        },
    }
    match e.material {
        Some(m) => {
            assert(w1.materials@.contains_key(0));
            assert(w1.materials@[0].albedo_tex == resolve_texture(reg, m.texture@));
            assert(saved_tex_name(reg, w1.materials@[0].albedo_tex) == m.texture@);
            if m.normal_texture@.len() == 0 {
                assert(w1.materials@[0].normal_tex == MISSING_TEXTURE);
                assert(saved_tex_name(reg, MISSING_TEXTURE) =~= m.normal_texture@);
            } else {
                assert(saved_tex_name(reg, w1.materials@[0].normal_tex) == m.normal_texture@);
            }
        },
        None => {},
    }
    match e.name {
        Some(n) => {
            assert(view_names(w1.entity_names@).contains_key(0));
            assert(view_names(w1.entity_names@)[0] == n@);
            assert(w1.entity_names@[0]@ == n@);
        },
        None => {
            assert(!view_names(w1.entity_names@).contains_key(0));
        },
    }
    match e.tag {
        Some(t) => {
            assert(view_names(w1.tags@).contains_key(0));
            assert(view_names(w1.tags@)[0] == t@);
            assert(w1.tags@[0]@ == t@);
        },
        None => {
            assert(!view_names(w1.tags@).contains_key(0));
        },
    }
    match e.camera {
        Some(c) => {
            assert(w1.active_camera == (if c.is_active { Some(0usize) } else { None::<usize> }));
            assert(c == (SceneCameraComponent {
                fov: w1.cameras@[0].fov,
                near: w1.cameras@[0].near,
                far: w1.cameras@[0].far,
                follow_entity: w1.cameras@[0].follow_entity,
                is_active: w1.active_camera == Some(0usize),
            }));
        },
        None => {},
    }
    match e.rigid_body {
        Some(rb) => {
            assert(w1.rigid_bodies@.contains_key(0));
            assert(rb == (SceneRigidBody { is_static: w1.rigid_bodies@[0].is_static }));
        },
        None => {},
    }
    match e.collider_aabb {
        Some(he) => {
            assert(w1.colliders@.contains_key(0));
            assert(w1.colliders@[0].half_extents == he);
        },
        None => {},
    }
    match e.point_light {
        Some(pl) => {
            assert(w1.point_lights@.contains_key(0));
            assert(pl == (ScenePointLight {
                color: w1.point_lights@[0].color,
                intensity: w1.point_lights@[0].intensity,
            }));
        },
        None => {},
    }
    assert(entity_matches(w1, 0, e));
}

/// `entity_matches` pins a saved record: two records matching the same
/// entity agree on every field (strings at the level of their characters).
pub proof fn lemma_entity_matches_functional(
    w: World,
    id: usize,
    e1: SceneEntityData,
    e2: SceneEntityData,
)
    requires
        entity_matches(w, id, e1),
        entity_matches(w, id, e2),
    ensures
        e1.transform == e2.transform,
        e1.mesh_renderer == e2.mesh_renderer,
        e1.rigid_body == e2.rigid_body,
        e1.collider_aabb == e2.collider_aabb,
        e1.point_light == e2.point_light,
        e1.camera == e2.camera,
        e1.parent_index == e2.parent_index,
        (match (e1.material, e2.material) {
            (Some(m1), Some(m2)) => m1.texture@ == m2.texture@
                && m1.normal_texture@ == m2.normal_texture@
                && m1.metallic == m2.metallic
                && m1.roughness == m2.roughness
                && m1.emissive == m2.emissive,
            (None, None) => true,
            _ => false,
        }),
        (match (e1.mesh_type, e2.mesh_type) {
            (Some(s1), Some(s2)) => s1@ == s2@,
            (None, None) => true,
            _ => false,
        }),
        (match (e1.name, e2.name) {
            (Some(s1), Some(s2)) => s1@ == s2@,
            (None, None) => true,
            _ => false,
        }),
        (match (e1.tag, e2.tag) {
            (Some(s1), Some(s2)) => s1@ == s2@,
            (None, None) => true,
            _ => false,
        }),
{
}

} // verus!
