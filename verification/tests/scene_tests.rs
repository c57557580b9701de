use engine_core::World;
use engine_core::fixed::Vec3Fx;
use engine_core::scene::{
    SceneData, SceneEntityData, SceneTransform, SceneMaterial, SceneRigidBody, ScenePointLight,
    SceneDirectionalLight, SceneCameraComponent,
};

const ONE: i64 = 1_000_000;

fn v(x: i64, y: i64, z: i64) -> Vec3Fx {
    Vec3Fx { x, y, z }
}

fn empty_entity() -> SceneEntityData {
    SceneEntityData {
        transform: None,
        mesh_renderer: None,
        material: None,
        rigid_body: None,
        collider_aabb: None,
        point_light: None,
        mesh_type: None,
        name: None,
        tag: None,
        camera: None,
        parent_index: None,
    }
}

fn sample_scene() -> SceneData {
    let mut player = empty_entity();
    player.transform = Some(SceneTransform {
        position: v(ONE, 2 * ONE, 3 * ONE),
        rotation: v(0, 0, 0),
        scale: v(ONE, ONE, ONE),
    });
    player.mesh_renderer = Some(true);
    player.mesh_type = Some("sphere".to_string());
    player.material = Some(SceneMaterial {
        texture: "bricks".to_string(),
        normal_texture: "".to_string(),
        metallic: 100_000,
        roughness: 400_000,
        emissive: Some(v(0, 0, 0)),
    });
    player.rigid_body = Some(SceneRigidBody { is_static: false });
    player.collider_aabb = Some(v(500_000, 500_000, 500_000));
    player.name = Some("hero".to_string());
    player.tag = Some("player".to_string());

    let mut lamp = empty_entity();
    lamp.transform = Some(SceneTransform {
        position: v(0, 5 * ONE, 0),
        rotation: v(0, 0, 0),
        scale: v(ONE, ONE, ONE),
    });
    lamp.point_light = Some(ScenePointLight { color: v(ONE, ONE, 0), intensity: 10 * ONE });
    lamp.camera = Some(SceneCameraComponent {
        fov: 60 * ONE,
        near: 100_000,
        far: 1000 * ONE,
        follow_entity: true,
        is_active: true,
    });

    SceneData {
        directional_light: Some(SceneDirectionalLight {
            direction: v(0, -ONE, 0),
            color: v(ONE, ONE, ONE),
            intensity: 2 * ONE,
        }),
        entities: vec![player, lamp],
    }
}

#[test]
fn load_assigns_consecutive_ids_and_components() {
    let mut w = World::new();
    w.register_texture("bricks".to_string(), 7);
    let ids = w.load_scene(&sample_scene());
    assert_eq!(ids, vec![0, 1]);
    let t = w.get_transform_array(0);
    assert_eq!(&t[0..3], &[ONE, 2 * ONE, 3 * ONE]);
    assert_eq!(w.get_mesh_type(0), "sphere");
    assert_eq!(w.get_entity_name(0), "hero");
    assert_eq!(w.get_entity_by_tag("player"), 0);
    assert_eq!(w.active_camera, Some(1));
    assert!(w.directional_light.is_some());
    // the texture name resolved through the registry
    let saved = w.save_scene();
    assert_eq!(saved.entities[0].material.as_ref().unwrap().texture, "bricks");
}

#[test]
fn unresolvable_texture_name_maps_to_missing_sentinel() {
    let mut w = World::new();
    let ids = w.load_scene(&sample_scene());
    assert_eq!(ids.len(), 2);
    // not registered: the saved name falls back to the empty string
    let saved = w.save_scene();
    assert_eq!(saved.entities[0].material.as_ref().unwrap().texture, "");
}

#[test]
fn load_clears_non_persistent_entities() {
    let mut w = World::new();
    let stale = w.create_entity();
    w.add_transform(stale, 9, 9, 9);
    let keeper = w.create_entity();
    w.add_transform(keeper, 1, 1, 1);
    w.set_persistent(keeper, true);
    let ids = w.load_scene(&sample_scene());
    // allocator resets to one past the highest persistent id
    assert_eq!(ids, vec![2, 3]);
    assert_eq!(w.get_transform_array(stale), [0i64; 9]);
    assert_eq!(w.get_transform_array(keeper)[0], 1);
}

#[test]
fn save_after_load_round_trips_component_values() {
    let mut w = World::new();
    w.register_texture("bricks".to_string(), 7);
    let original = sample_scene();
    w.load_scene(&original);
    let saved = w.save_scene();
    assert_eq!(saved.entities.len(), original.entities.len());
    for (a, b) in original.entities.iter().zip(saved.entities.iter()) {
        assert_eq!(a.transform, b.transform);
        assert_eq!(a.mesh_renderer, b.mesh_renderer);
        assert_eq!(a.rigid_body, b.rigid_body);
        assert_eq!(a.collider_aabb, b.collider_aabb);
        assert_eq!(a.point_light, b.point_light);
        assert_eq!(a.mesh_type, b.mesh_type);
        assert_eq!(a.name, b.name);
        assert_eq!(a.tag, b.tag);
        assert_eq!(a.camera, b.camera);
        match (&a.material, &b.material) {
            (None, None) => {}
            (Some(ma), Some(mb)) => {
                assert_eq!(ma.texture, mb.texture);
                assert_eq!(ma.normal_texture, mb.normal_texture);
                assert_eq!(ma.metallic, mb.metallic);
                assert_eq!(ma.roughness, mb.roughness);
                assert_eq!(ma.emissive, mb.emissive);
            }
            _ => panic!("material presence differs"),
        }
    }
    let dl = saved.directional_light.unwrap();
    assert_eq!(dl.direction, v(0, -ONE, 0));
    assert_eq!(dl.intensity, 2 * ONE);
    // reloading the saved scene reproduces it again
    let mut w2 = World::new();
    w2.register_texture("bricks".to_string(), 7);
    w2.load_scene(&saved);
    let saved2 = w2.save_scene();
    assert_eq!(saved2.entities.len(), saved.entities.len());
    assert_eq!(saved2.entities[0].name, saved.entities[0].name);
}

#[test]
fn save_orders_entities_by_ascending_id() {
    let mut w = World::new();
    let a = w.create_entity();
    let b = w.create_entity();
    let c = w.create_entity();
    // insert components in scrambled order
    w.add_transform(c, 3, 0, 0);
    w.add_transform(a, 1, 0, 0);
    w.add_rigid_body(b, true);
    let saved = w.save_scene();
    assert_eq!(saved.entities.len(), 3);
    assert_eq!(saved.entities[0].transform.unwrap().position.x, 1);
    assert!(saved.entities[1].rigid_body.is_some());
    assert_eq!(saved.entities[2].transform.unwrap().position.x, 3);
}

#[test]
fn clear_scene_resets_allocator_and_lights() {
    let mut w = World::new();
    let a = w.create_entity();
    w.add_transform(a, 1, 1, 1);
    let b = w.create_entity();
    w.add_transform(b, 2, 2, 2);
    w.set_persistent(b, true);
    w.add_directional_light(0, -ONE, 0, ONE, ONE, ONE, ONE);
    w.set_active_camera(a);
    w.clear_scene();
    assert_eq!(w.get_transform_array(a), [0i64; 9]);
    assert_eq!(w.get_transform_array(b)[0], 2);
    assert!(w.directional_light.is_none());
    assert!(w.active_camera.is_none());
    assert_eq!(w.create_entity(), 2);
}
