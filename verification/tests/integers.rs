use octree::buckets::sort_bucket_sizes;
use octree::collection::OctreeCollection;
use octree::managed_octree::ManagedHashMapOctree;
use octree::managed_octree::ManagedVecOctree;
use octree::AddChildError;
use octree::Octree;
use std::collections::HashMap;

type Point = (i64, i64, i64);

fn count_points(node: &ManagedVecOctree<Point, i64>) -> usize {
    let mut total = node.get_data().get_data().len();
    for idx in 0..8 {
        if let Some(child) = node.get_child(idx) {
            total += count_points(child);
        }
    }
    total
}

fn collect_keys(node: &ManagedHashMapOctree<u64, Point, i64>, into: &mut Vec<(u64, Point)>) {
    for (key, value) in node.get_data().get_data() {
        into.push((*key, *value));
    }
    for idx in 0..8 {
        if let Some(child) = node.get_child(idx) {
            collect_keys(child, into);
        }
    }
}

#[test]
fn octant_index_is_a_bijection() {
    let mut seen = [false; 8];
    for x in [false, true] {
        for y in [false, true] {
            for z in [false, true] {
                let idx = Octree::<Vec<u8>>::get_child_idx_at_pos(x, y, z);
                assert_eq!(
                    idx,
                    4 * usize::from(x) + 2 * usize::from(y) + usize::from(z)
                );
                assert!(!seen[idx]);
                seen[idx] = true;
                assert_eq!(Octree::<Vec<u8>>::get_child_pos_at_idx(idx), (x, y, z));
            }
        }
    }
    assert_eq!(Octree::<Vec<u8>>::get_child_idx_at_pos(false, false, false), 0);
    assert_eq!(Octree::<Vec<u8>>::get_child_idx_at_pos(true, true, true), 7);
}

#[test]
fn add_child_reports_each_error() {
    let mut o = Octree::<Vec<u8>>::new();
    assert!(matches!(
        o.add_child(8, Octree::new()),
        Err(AddChildError::OutOfBoundsIdx)
    ));
    assert!(o.add_child(3, Octree::new_with_data(vec![7])).is_ok());
    assert!(matches!(
        o.add_child(3, Octree::new()),
        Err(AddChildError::AlreadyAdded)
    ));
    assert_eq!(o.get_child(3).unwrap().get_data(), &vec![7]);
    assert!(o.remove_child(8).is_none());
    assert!(o.get_child_mut(8).is_none());
}

#[test]
fn plain_octree_add_child_reports_each_error() {
    let mut o = octree::octree::Octree::<Vec<u8>>::new();
    assert!(matches!(
        o.add_child(8),
        Err(octree::octree::AddChildError::OutOfBoundsIdx)
    ));
    o.add_child(5).unwrap().get_objects_mut().push(9);
    assert!(matches!(
        o.add_child(5),
        Err(octree::octree::AddChildError::AlreadyAdded)
    ));
    assert_eq!(o.get_child(5).unwrap().get_objects(), &vec![9]);
    assert!(o.get_child_mut_at_pos(true, false, true).is_some());
}

#[test]
fn removing_a_child_leaves_the_slot_empty() {
    let mut o = Octree::<Vec<u8>>::new();
    for idx in 0..8 {
        o.add_child(idx, Octree::new_with_data(vec![idx as u8])).unwrap();
    }
    for idx in 0..8 {
        let removed = o.remove_child(idx).unwrap();
        assert_eq!(removed.get_data(), &vec![idx as u8]);
        assert!(o.get_child(idx).is_none());
        assert!(o.remove_child(idx).is_none());
    }
}

#[test]
fn payload_and_child_can_be_changed_in_place() {
    let mut o = Octree::<Vec<u8>>::new_with_data(vec![1]);
    o.get_data_mut().push(2);
    assert_eq!(o.get_data(), &vec![1, 2]);
    o.add_child_at_pos(true, false, false, Octree::new()).unwrap().get_data_mut().push(3);
    o.get_child_mut(4).unwrap().get_data_mut().push(4);
    o.get_child_mut_at_pos(true, false, false).unwrap().get_data_mut().push(5);
    assert_eq!(o.get_child(4).unwrap().get_data(), &vec![3, 4, 5]);
}

#[test]
fn integer_child_geometry_is_exact() {
    let o = ManagedVecOctree::<Point, i64>::new_managed((100, 200, 300), 1000);
    assert_eq!(
        o.get_child_centre_and_half_length_at_pos(true, false, true),
        ((600, -300, 800), 500)
    );
    assert_eq!(
        o.get_child_centre_and_half_length_at_pos(false, false, false),
        ((-400, -300, -200), 500)
    );
    let small = ManagedVecOctree::<(i32, i32, i32), i32>::new_managed((0, 0, 0), 7);
    assert_eq!(
        small.get_child_centre_and_half_length_at_pos(true, true, false),
        ((3, 3, -3), 3)
    );
}

#[test]
fn half_extent_halves_at_every_depth() {
    let mut half: i64 = 1000;
    let mut centre: Point = (0, 0, 0);
    let expected = [500, 250, 125, 62, 31, 15, 7, 3, 1, 0];
    for (depth, want) in expected.iter().enumerate() {
        let node = ManagedVecOctree::<Point, i64>::new_managed(centre, half);
        let (next_centre, next_half) = node.get_child_centre_and_half_length_at_pos(true, true, true);
        assert_eq!(next_half, *want);
        assert_eq!(next_half, 1000 / (1i64 << (depth + 1)));
        assert_eq!(next_centre.0, centre.0 + next_half);
        centre = next_centre;
        half = next_half;
    }
}

#[test]
fn new_managed_uses_the_default_policy() {
    let o = ManagedVecOctree::<Point, i64>::new_managed((1, 2, 3), 4);
    assert_eq!(o.get_data().get_centre(), (1, 2, 3));
    assert_eq!(o.get_data().get_half_length(), 4);
    assert_eq!(o.get_data().get_max_size(), 1);
    assert_eq!(o.get_data().get_drop_below_size(), 1);
    assert_eq!(o.get_data().get_len(), 0);
    assert!(o.is_empty());
    assert!(o.get_data().get_data().is_empty());
}

#[test]
fn rebalance_scenario_with_integers() {
    let mut o = ManagedVecOctree::<Point, i64>::new_managed((0, 0, 0), 1000).with_max_size(2);
    o.add((1, 1, 1));
    o.add((2, 2, 1));
    o.add((-1, -1, -1));
    o.rebalance();
    assert_eq!(o.get_data().get_data(), &vec![(-1, -1, -1)]);
    assert_eq!(o.len(), 1);
    let child = o.get_child_at_pos(true, true, true).unwrap();
    assert_eq!(child.get_data().get_data(), &vec![(1, 1, 1), (2, 2, 1)]);
    assert_eq!(child.len(), 2);
    assert_eq!(child.get_data().get_centre(), (500, 500, 500));
    assert_eq!(child.get_data().get_half_length(), 500);
    assert_eq!(child.get_data().get_max_size(), 2);
    assert_eq!(child.get_data().get_drop_below_size(), 1);
    assert!(o.get_child_at_pos(false, false, false).is_none());
    for idx in 0..7 {
        assert!(o.get_child(idx).is_none());
    }
}

#[test]
fn rebalance_within_capacity_changes_nothing() {
    let mut o = ManagedVecOctree::<Point, i64>::new_managed((0, 0, 0), 16).with_max_size(3);
    o.add((1, 1, 1));
    o.add((-1, 1, 1));
    o.add((5, -5, 5));
    o.rebalance();
    assert_eq!(o.get_data().get_data(), &vec![(1, 1, 1), (-1, 1, 1), (5, -5, 5)]);
    assert_eq!(o.len(), 3);
    for idx in 0..8 {
        assert!(o.get_child(idx).is_none());
    }
}

#[test]
fn rebalance_brings_the_node_within_capacity_and_loses_nothing() {
    let mut o = ManagedVecOctree::<Point, i64>::new_managed((0, 0, 0), 64)
        .with_max_size(4)
        .with_drop_below_size(2);
    let mut n = 0;
    for x in [-9i64, -3, 2, 7] {
        for y in [-8i64, 4, 11] {
            for z in [-5i64, 6] {
                o.add((x, y, z));
                n += 1;
            }
        }
    }
    assert_eq!(o.len(), n);
    o.rebalance();
    assert!(o.get_data().get_data().len() <= 4);
    assert_eq!(o.len(), o.get_data().get_data().len());
    assert_eq!(count_points(&o), n);
    for idx in 0..8 {
        if let Some(child) = o.get_child(idx) {
            let signs = Octree::<Vec<u8>>::get_child_pos_at_idx(idx);
            assert_eq!(child.get_data().get_half_length(), 32);
            assert_eq!(child.get_data().get_max_size(), 4);
            assert_eq!(child.get_data().get_drop_below_size(), 2);
            assert_eq!(child.len(), child.get_data().get_data().len());
            for point in child.get_data().get_data() {
                assert_eq!((point.0 > 0, point.1 > 0, point.2 > 0), signs);
            }
            for grandchild in 0..8 {
                assert!(child.get_child(grandchild).is_none());
            }
        }
    }
}

#[test]
fn rebalance_with_equal_octants_creates_only_what_is_needed() {
    let mut o = ManagedVecOctree::<Point, i64>::new_managed((0, 0, 0), 8).with_max_size(2);
    o.add((1, 1, 1));
    o.add((2, 2, 2));
    o.add((-1, -1, -1));
    o.add((-2, -2, -2));
    o.rebalance();
    let created = (0..8).filter(|idx| o.get_child(*idx).is_some()).count();
    assert_eq!(created, 1);
    assert_eq!(o.get_data().get_data().len(), 2);
    assert_eq!(count_points(&o), 4);
}

#[test]
fn second_rebalance_hands_items_to_the_children_that_exist() {
    let mut o = ManagedVecOctree::<Point, i64>::new_managed((0, 0, 0), 1000).with_max_size(2);
    o.add((1, 1, 1));
    o.add((2, 2, 1));
    o.add((-1, -1, -1));
    o.rebalance();
    o.add((3, 3, 3));
    o.add((4, 4, 4));
    o.add((5, 5, 5));
    o.rebalance();
    assert_eq!(o.get_data().get_data(), &vec![(-1, -1, -1)]);
    let child = o.get_child(7).unwrap();
    assert_eq!(child.get_data().get_data().len(), 5);
    assert_eq!(child.len(), 5);
    assert!(child.get_child(7).is_none());
    assert_eq!(count_points(&o), 6);
}

#[test]
fn clear_data_empties_the_node_only() {
    let mut o = ManagedVecOctree::<Point, i64>::new_managed((0, 0, 0), 1000).with_max_size(1);
    o.add((1, 1, 1));
    o.add((2, 2, 1));
    o.add((-1, -1, -1));
    o.rebalance();
    let local = o.len();
    assert!(local <= 1);
    o.clear_data();
    assert_eq!(o.len(), 0);
    assert!(o.get_data().get_data().is_empty());
    assert_eq!(count_points(&o), 3 - local);
}

#[test]
fn hash_store_rejects_a_key_that_is_present() {
    let mut store: HashMap<u64, Point> = HashMap::new();
    assert_eq!(OctreeCollection::add(&mut store, (123, (1, 2, 3))), Some(()));
    assert_eq!(OctreeCollection::add(&mut store, (123, (4, 5, 6))), None);
    assert_eq!(OctreeCollection::add(&mut store, (124, (4, 5, 6))), Some(()));
    assert_eq!(OctreeCollection::len(&store), 2);
    assert_eq!(store.get(&123), Some(&(1, 2, 3)));
    let mut taken = OctreeCollection::take_items(&mut store);
    taken.sort();
    assert_eq!(taken, vec![(123, (1, 2, 3)), (124, (4, 5, 6))]);
    assert_eq!(OctreeCollection::len(&store), 0);
    OctreeCollection::add(&mut store, (1, (0, 0, 0)));
    OctreeCollection::clear(&mut store);
    assert!(store.is_empty());
}

#[test]
fn vec_store_appends_and_keeps_order() {
    let mut store: Vec<Point> = Vec::new();
    assert_eq!(OctreeCollection::add(&mut store, (3, 3, 3)), Some(()));
    assert_eq!(OctreeCollection::add(&mut store, (1, 1, 1)), Some(()));
    assert_eq!(OctreeCollection::add(&mut store, (3, 3, 3)), Some(()));
    assert_eq!(OctreeCollection::len(&store), 3);
    let taken = OctreeCollection::take_items(&mut store);
    assert_eq!(taken, vec![(3, 3, 3), (1, 1, 1), (3, 3, 3)]);
    assert_eq!(OctreeCollection::len(&store), 0);
    OctreeCollection::add(&mut store, (0, 0, 0));
    OctreeCollection::clear(&mut store);
    assert!(store.is_empty());
}

#[test]
fn hash_rebalance_drops_exactly_the_keys_that_the_child_holds() {
    let mut o = ManagedHashMapOctree::<u64, Point, i64>::new_managed((0, 0, 0), 1000)
        .with_max_size(1);
    o.add((1, (10, 10, 10)));
    o.add((2, (20, 20, 20)));
    o.add((3, (-5, -5, -5)));
    o.rebalance();
    assert!(o.len() <= 1);
    let child = o.get_child(7).unwrap();
    assert_eq!(child.len(), 2);
    assert_eq!(child.get_data().get_data().get(&1), Some(&(10, 10, 10)));
    // Key 1 is held by the child in octant 7 already: the new pair is dropped.
    o.add((1, (30, 30, 30)));
    o.add((4, (40, 40, 40)));
    o.add((5, (-6, -6, 7)));
    o.rebalance();
    assert!(o.get_data().get_data().len() <= 1);
    assert_eq!(o.len(), o.get_data().get_data().len());
    let child = o.get_child(7).unwrap();
    assert_eq!(child.len(), 3);
    assert_eq!(child.get_data().get_data().get(&1), Some(&(10, 10, 10)));
    assert_eq!(child.get_data().get_data().get(&4), Some(&(40, 40, 40)));
    let mut all = Vec::new();
    collect_keys(&o, &mut all);
    all.sort();
    assert_eq!(
        all,
        vec![
            (1, (10, 10, 10)),
            (2, (20, 20, 20)),
            (3, (-5, -5, -5)),
            (4, (40, 40, 40)),
            (5, (-6, -6, 7)),
        ]
    );
}

#[test]
fn buckets_are_ordered_largest_first() {
    let order = sort_bucket_sizes([0, 3, 1, 0, 2, 0, 0, 5]);
    let counts: Vec<usize> = order.iter().map(|pair| pair.1).collect();
    assert_eq!(counts, vec![5, 3, 2, 1, 0, 0, 0, 0]);
    assert_eq!(&order[..4], &[(7, 5), (1, 3), (4, 2), (2, 1)]);
    let mut octants: Vec<usize> = order.iter().map(|pair| pair.0).collect();
    octants.sort();
    assert_eq!(octants, vec![0, 1, 2, 3, 4, 5, 6, 7]);
}

#[test]
fn redistribution_counts_the_items_that_stay() {
    let mut o = ManagedVecOctree::<Point, i64>::new_managed((0, 0, 0), 100);
    o.add_child(7, ManagedVecOctree::<Point, i64>::new_managed((50, 50, 50), 50)).unwrap();
    o.add((1, 1, 1));
    o.add((-1, 1, 1));
    o.add((-2, 2, 2));
    o.add((-1, -1, -1));
    o.add((0, 0, 0));
    let counts = o.move_to_existing_children();
    assert_eq!(counts, [2, 0, 0, 2, 0, 0, 0, 0]);
    assert_eq!(o.get_data().get_data(), &vec![(-1, 1, 1), (-2, 2, 2), (-1, -1, -1), (0, 0, 0)]);
    assert_eq!(o.len(), 4);
    assert_eq!(o.get_child(7).unwrap().get_data().get_data(), &vec![(1, 1, 1)]);
}

#[test]
fn subdivision_follows_the_given_order() {
    let mut o = ManagedVecOctree::<Point, i64>::new_managed((0, 0, 0), 8).with_max_size(2);
    o.add((1, 1, 1));
    o.add((2, 2, 2));
    o.add((-1, -1, -1));
    o.add((-2, -2, -2));
    o.add((-1, 1, 1));
    let counts = o.move_to_existing_children();
    assert_eq!(counts, [2, 0, 0, 1, 0, 0, 0, 2]);
    let order = vec![(0, 2), (7, 2), (3, 1), (1, 0), (2, 0), (4, 0), (5, 0), (6, 0)];
    o.subdivide(&order);
    assert!(o.get_child(0).is_some());
    assert!(o.get_child(7).is_some());
    assert!(o.get_child(3).is_none());
    let child = o.get_child(0).unwrap();
    assert_eq!(child.get_data().get_centre(), (-4, -4, -4));
    assert_eq!(child.get_data().get_half_length(), 4);
    assert_eq!(child.get_data().get_max_size(), 2);
    assert!(child.get_data().get_data().is_empty());
    // The items have not moved yet.
    assert_eq!(o.get_data().get_data().len(), 5);
    o.move_to_existing_children();
    assert_eq!(o.get_data().get_data(), &vec![(-1, 1, 1)]);
    assert_eq!(o.get_child(0).unwrap().get_data().get_data().len(), 2);
    assert_eq!(o.get_child(7).unwrap().get_data().get_data().len(), 2);
}
