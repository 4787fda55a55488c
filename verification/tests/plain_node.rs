use octree::octree::Octree;

#[test]
fn octree_test_get_child_out_of_bounds_initial() {
    let o = Octree::<Vec<(f32, f32, f32)>>::new();
    assert!(o.get_child(999).is_none());
}

#[test]
fn octree_test_get_child_initial() {
    let o = Octree::<Vec<(f32, f32, f32)>>::new();
    assert!(o.get_child(0).is_none());
}

#[test]
fn octree_test_get_child_pos_initial() {
    let o = Octree::<Vec<(f32, f32, f32)>>::new();
    assert!(o.get_child_at_pos(false, false, false).is_none());
}

#[test]
fn octree_test_add_child() {
    let mut o = Octree::<Vec<(f32, f32, f32)>>::new();
    let result = o.add_child(0);
    assert!(result.is_ok());
}

#[test]
fn octree_test_add_child_at_pos() {
    let mut o = Octree::<Vec<(f32, f32, f32)>>::new();
    let result = o.add_child_at_pos(false, false, false);
    assert!(result.is_ok());
}

#[test]
fn octree_test_remove_child() {
    let mut o = Octree::<Vec<(f32, f32, f32)>>::new();
    o.add_child(0).unwrap();
    let result = o.remove_child(0);
    assert!(result.is_some());
    assert!(o.get_child(0).is_none());
}

#[test]
fn octree_test_remove_child_at_pos() {
    let mut o = Octree::<Vec<(f32, f32, f32)>>::new();
    o.add_child_at_pos(false, false, false).unwrap();
    let result = o.remove_child_at_pos(false, false, false);
    assert!(result.is_some());
    assert!(o.get_child_at_pos(false, false, false).is_none());
}
