use engine_core::World;
use engine_core::MeshType;

const ONE: i64 = 1_000_000;

#[test]
fn entity_ids_are_monotonic_and_never_reused() {
    let mut w = World::new();
    let a = w.create_entity();
    let b = w.create_entity();
    assert_eq!(a, 0);
    assert_eq!(b, 1);
    w.remove_entity(a);
    let c = w.create_entity();
    assert_eq!(c, 2);
}

#[test]
fn remove_entity_clears_every_component() {
    let mut w = World::new();
    let e = w.create_entity();
    w.add_transform(e, 1, 2, 3);
    w.add_rigid_body(e, false);
    w.add_collider_aabb(e, 1, 1, 1);
    w.add_mesh_renderer(e);
    w.add_material(e, 0);
    w.add_point_light(e, ONE, ONE, ONE, ONE);
    w.add_camera(e, 60 * ONE, 100_000, 1000 * ONE);
    w.set_active_camera(e);
    w.set_entity_name(e, "hero".to_string());
    w.set_tag(e, "player");
    w.remove_entity(e);
    assert_eq!(w.get_transform_array(e), [0i64; 9]);
    assert_eq!(w.get_velocity(e).y, 0);
    assert_eq!(w.get_mesh_type(e), "cube");
    assert_eq!(w.get_entity_name(e), "Entity 0");
    assert_eq!(w.get_tag(e), "");
    assert!(w.active_camera.is_none());
}

#[test]
fn default_entity_name_formats_id() {
    let w = World::new();
    assert_eq!(w.get_entity_name(17), "Entity 17");
    assert_eq!(w.get_entity_name(0), "Entity 0");
    assert_eq!(w.get_entity_name(1234567), "Entity 1234567");
}

#[test]
fn tags_find_first_match() {
    let mut w = World::new();
    let a = w.create_entity();
    let b = w.create_entity();
    w.set_tag(a, "enemy");
    w.set_tag(b, "enemy");
    assert_eq!(w.get_entity_by_tag("enemy"), a as u32);
    assert_eq!(w.get_entity_by_tag("friend"), u32::MAX);
    w.set_tag(a, "boss");
    assert_eq!(w.get_entity_by_tag("enemy"), b as u32);
    assert_eq!(w.get_tag(a), "boss");
}

#[test]
fn mesh_type_strings_round_trip() {
    let mut w = World::new();
    let e = w.create_entity();
    w.add_mesh_renderer(e);
    assert_eq!(w.get_mesh_type(e), "cube");
    w.set_mesh_type(e, "plane");
    assert_eq!(w.get_mesh_type(e), "plane");
    w.set_mesh_type(e, "sphere");
    assert_eq!(w.get_mesh_type(e), "sphere");
    w.set_mesh_type(e, "cylinder");
    assert_eq!(w.get_mesh_type(e), "cylinder");
    w.set_mesh_type(e, "custom:7");
    assert_eq!(w.get_mesh_type(e), "custom:7");
    // malformed index parses to zero, unknown names select a cube
    w.set_mesh_type(e, "custom:abc");
    assert_eq!(w.get_mesh_type(e), "custom:0");
    w.set_mesh_type(e, "pyramid");
    assert_eq!(w.get_mesh_type(e), "cube");
}

#[test]
fn texture_registry_resolves_and_reverses() {
    let mut w = World::new();
    let t0 = w.alloc_texture_id();
    let t1 = w.alloc_texture_id();
    assert_eq!((t0, t1), (0, 1));
    w.register_texture("bricks".to_string(), t0);
    w.register_texture("moss".to_string(), t1);
    assert_eq!(w.lookup_texture("bricks"), 0);
    assert_eq!(w.lookup_texture("moss"), 1);
    assert_eq!(w.lookup_texture("missing"), u32::MAX);
    assert_eq!(w.texture_name_of(1), "moss");
    assert_eq!(w.texture_name_of(9), "");
    // re-registering a name replaces its binding
    w.register_texture("bricks".to_string(), t1);
    assert_eq!(w.lookup_texture("bricks"), 1);
}

#[test]
fn fit_collider_uses_mesh_shape() {
    let mut w = World::new();
    let e = w.create_entity();
    // no renderer: nothing happens
    w.fit_collider_to_mesh(e, 0);
    assert_eq!(w.get_collider_array(e).x, 0);
    w.add_mesh_renderer(e);
    w.fit_collider_to_mesh(e, 0);
    assert_eq!(w.get_collider_array(e).x, 500_000);
    w.set_mesh_type(e, "plane");
    w.fit_collider_to_mesh(e, 50_000);
    let he = w.get_collider_array(e);
    assert_eq!((he.x, he.y, he.z), (500_000, 50_000, 500_000));
    // the minimum height keeps flat meshes from a degenerate collider
    w.fit_collider_to_mesh(e, 0);
    assert_eq!(w.get_collider_array(e).y, 1000);
    // a registered custom mesh uses its recorded extents
    let idx = w.register_custom_mesh(engine_core::fixed::Vec3Fx { x: 2 * ONE, y: 300, z: ONE });
    w.set_mesh_type(e, "custom:0");
    assert_eq!(idx, 0);
    w.fit_collider_to_mesh(e, 0);
    let he = w.get_collider_array(e);
    assert_eq!((he.x, he.y, he.z), (2 * ONE, 1000, ONE));
}

#[test]
fn material_parameters_are_stored() {
    let mut w = World::new();
    let e = w.create_entity();
    w.add_pbr_material(e, 3, 250_000, 750_000);
    w.set_emissive(e, ONE, 0, 0);
    w.set_normal_map(e, 4);
    let scene = w.save_scene();
    let m = scene.entities[0].material.as_ref().unwrap();
    assert_eq!(m.metallic, 250_000);
    assert_eq!(m.roughness, 750_000);
    assert_eq!(m.emissive.unwrap().x, ONE);
}

#[test]
fn velocity_getter_and_setter() {
    let mut w = World::new();
    let e = w.create_entity();
    w.add_rigid_body(e, false);
    w.set_velocity(e, 1, 2, 3);
    let v = w.get_velocity(e);
    assert_eq!((v.x, v.y, v.z), (1, 2, 3));
    // no rigid body: zero velocity, setter has no effect
    let f = w.create_entity();
    w.set_velocity(f, 9, 9, 9);
    assert_eq!(w.get_velocity(f).x, 0);
}

#[test]
fn entity_ids_lists_transform_holders() {
    let mut w = World::new();
    let a = w.create_entity();
    let b = w.create_entity();
    let _c = w.create_entity();
    w.add_transform(a, 0, 0, 0);
    w.add_transform(b, 0, 0, 0);
    let ids = w.get_entity_ids();
    assert_eq!(ids, vec![a, b]);
}
