use engine_core::World;
use engine_core::fixed::Vec3Fx;

const ONE: i64 = 1_000_000;

fn v(x: i64, y: i64, z: i64) -> Vec3Fx {
    Vec3Fx { x, y, z }
}

#[test]
fn world_matrix_of_root_is_its_local_transform() {
    let mut w = World::new();
    let e = w.create_entity();
    w.add_transform(e, 3 * ONE, 2 * ONE, ONE);
    let a = w.compute_world_matrix(e);
    assert_eq!(a.translation, v(3 * ONE, 2 * ONE, ONE));
    assert_eq!(a.linear.x, v(ONE, 0, 0));
    assert_eq!(a.linear.y, v(0, ONE, 0));
    assert_eq!(a.linear.z, v(0, 0, ONE));
}

#[test]
fn quarter_turn_rotation_is_exact() {
    let mut w = World::new();
    let e = w.create_entity();
    w.add_transform(e, 0, 0, 0);
    w.set_rotation(e, 0, 90 * ONE, 0);
    let a = w.compute_world_matrix(e);
    // ninety degrees about Y: the x axis maps to negative z
    assert_eq!(a.linear.x, v(0, 0, ONE));
    assert_eq!(a.linear.y, v(0, ONE, 0));
    assert_eq!(a.linear.z, v(-ONE, 0, 0));
}

#[test]
fn child_composes_under_parent() {
    let mut w = World::new();
    let parent = w.create_entity();
    w.add_transform(parent, 10 * ONE, 0, 0);
    let child = w.create_entity();
    w.add_transform(child, ONE, 2 * ONE, 0);
    w.set_parent(child, parent);
    // attaching preserved the child's world pose
    let a = w.compute_world_matrix(child);
    assert_eq!(a.translation, v(ONE, 2 * ONE, 0));
    // and its stored transform became parent-relative
    let t = w.get_transform_array(child);
    assert_eq!(&t[0..3], &[-9 * ONE, 2 * ONE, 0]);
    // moving the parent now carries the child
    w.set_position(parent, 11 * ONE, 0, 0);
    let a = w.compute_world_matrix(child);
    assert_eq!(a.translation, v(2 * ONE, 2 * ONE, 0));
}

#[test]
fn reparent_round_trip_preserves_world_pose() {
    let mut w = World::new();
    let parent = w.create_entity();
    w.add_transform(parent, 5 * ONE, -ONE, 2 * ONE);
    let child = w.create_entity();
    w.add_transform(child, -3 * ONE, 4 * ONE, 7 * ONE);
    let before = w.compute_world_matrix(child);
    w.set_parent(child, parent);
    let attached = w.compute_world_matrix(child);
    assert_eq!(attached, before);
    w.remove_parent(child);
    let detached = w.compute_world_matrix(child);
    assert_eq!(detached, before);
    // after detaching, the stored transform is the world pose again
    let t = w.get_transform_array(child);
    assert_eq!(&t[0..3], &[-3 * ONE, 4 * ONE, 7 * ONE]);
    assert_eq!(&t[3..6], &[0, 0, 0]);
    assert_eq!(&t[6..9], &[ONE, ONE, ONE]);
}

#[test]
fn parent_and_children_queries() {
    let mut w = World::new();
    let parent = w.create_entity();
    w.add_transform(parent, 0, 0, 0);
    let a = w.create_entity();
    w.add_transform(a, ONE, 0, 0);
    let b = w.create_entity();
    w.add_transform(b, 0, ONE, 0);
    assert_eq!(w.get_parent(a), u32::MAX);
    w.set_parent(a, parent);
    w.set_parent(b, parent);
    assert_eq!(w.get_parent(a), parent as u32);
    let kids = w.get_children(parent);
    assert_eq!(kids.len(), 2);
    assert!(kids.contains(&a) && kids.contains(&b));
    w.remove_parent(a);
    assert_eq!(w.get_parent(a), u32::MAX);
    assert_eq!(w.get_children(parent), vec![b]);
}

#[test]
fn world_transform_array_decomposes_pose() {
    let mut w = World::new();
    let parent = w.create_entity();
    w.add_transform(parent, ONE, ONE, ONE);
    let child = w.create_entity();
    w.add_transform(child, 2 * ONE, 0, 0);
    w.set_parent(child, parent);
    w.set_position(child, 4 * ONE, 0, 0);
    let t = w.get_world_transform_array(child);
    assert_eq!(&t[0..3], &[5 * ONE, ONE, ONE]);
    assert_eq!(&t[3..6], &[0, 0, 0]);
    assert_eq!(&t[6..9], &[ONE, ONE, ONE]);
}
