use approx::Relative;
use octree::managed_octree::ManagedHashMapOctree;
use octree::managed_octree::ManagedVecOctree;
use octree::scalar::Scalar;
use std::ops::Add;
use std::ops::Div;
use std::ops::Sub;

/// A single-precision coordinate.
#[derive(Clone, Copy, Debug, Default, PartialEq, PartialOrd)]
struct Real(f32);

impl Add for Real {
    type Output = Real;

    fn add(self, rhs: Real) -> Real {
        Real(self.0 + rhs.0)
    }
}

impl Sub for Real {
    type Output = Real;

    fn sub(self, rhs: Real) -> Real {
        Real(self.0 - rhs.0)
    }
}

impl Div for Real {
    type Output = Real;

    fn div(self, rhs: Real) -> Real {
        Real(self.0 / rhs.0)
    }
}

impl Scalar for Real {
    fn one_spec() -> Real {
        Real(1.0)
    }

    fn one() -> Real {
        Real(num::One::one())
    }

    fn lemma_exact() {}
}

fn point(x: f32, y: f32, z: f32) -> (Real, Real, Real) {
    (Real(x), Real(y), Real(z))
}

fn close(given: Real, expected: f32) -> bool {
    Relative::default().eq(&given.0, &expected)
}

#[test]
fn test_with_drop_below_size() {
    let o = ManagedVecOctree::<(Real, Real, Real), Real>::new_managed(
        point(0.0, 0.0, 0.0),
        Real(1000.0),
    )
    .with_drop_below_size(3);
    assert_eq!(o.get_data().get_drop_below_size(), 3);
}

#[test]
fn test_with_max_size() {
    let o = ManagedVecOctree::<(Real, Real, Real), Real>::new_managed(
        point(0.0, 0.0, 0.0),
        Real(1000.0),
    )
    .with_max_size(3);
    assert_eq!(o.get_data().get_max_size(), 3);
}

#[test]
fn test_get_child_centre_and_half_length_neg() {
    let o = ManagedVecOctree::<(Real, Real, Real), Real>::new_managed(
        point(0.0, 0.0, 0.0),
        Real(1000.0),
    );
    let ((cx, cy, cz), half_length) =
        o.get_child_centre_and_half_length_at_pos(false, false, false);
    assert!(close(cx, -500.0));
    assert!(close(cy, -500.0));
    assert!(close(cz, -500.0));
    assert!(close(half_length, 500.0));
}

#[test]
fn test_get_child_centre_and_half_length_pos() {
    let o = ManagedVecOctree::<(Real, Real, Real), Real>::new_managed(
        point(0.0, 0.0, 0.0),
        Real(1000.0),
    );
    let ((cx, cy, cz), half_length) =
        o.get_child_centre_and_half_length_at_pos(true, true, true);
    assert!(close(cx, 500.0));
    assert!(close(cy, 500.0));
    assert!(close(cz, 500.0));
    assert!(close(half_length, 500.0));
}

#[test]
fn test_get_child_centre_and_half_length_partial_pos_off_centre() {
    let o = ManagedVecOctree::<(Real, Real, Real), Real>::new_managed(
        point(100.0, 200.0, 300.0),
        Real(1000.0),
    );
    let ((cx, cy, cz), half_length) =
        o.get_child_centre_and_half_length_at_pos(true, false, true);
    assert!(close(cx, 600.0));
    assert!(close(cy, -300.0));
    assert!(close(cz, 800.0));
    assert!(close(half_length, 500.0));
}

#[test]
fn test_vec_add() {
    let mut o = ManagedVecOctree::<(Real, Real, Real), Real>::new_managed(
        point(0.0, 0.0, 0.0),
        Real(1000.0),
    );
    assert_eq!(o.len(), 0);
    o.add(point(123.45, 234.567, 345.678));
    assert_eq!(o.len(), 1);
}

#[test]
fn test_hash_add() {
    let mut o = ManagedHashMapOctree::<u32, (Real, Real, Real), Real>::new_managed(
        point(0.0, 0.0, 0.0),
        Real(1000.0),
    );
    assert_eq!(o.len(), 0);
    o.add((123, point(123.45, 234.567, 345.678)));
    assert_eq!(o.len(), 1);
}

#[test]
fn test_rebalance_max_2() {
    let mut o = ManagedVecOctree::<(Real, Real, Real), Real>::new_managed(
        point(0.0, 0.0, 0.0),
        Real(1000.0),
    )
    .with_max_size(2);
    o.add(point(1.0, 1.0, 1.0));
    o.add(point(2.0, 2.0, 1.0));
    o.add(point(-1.0, -1.0, -1.0));
    o.rebalance();
    assert_eq!(o.get_data().get_data().len(), 1);
    assert!(o.get_child_at_pos(true, true, true).is_some());
    assert!(o.get_child_at_pos(false, false, false).is_none());
    assert_eq!(
        o.get_child_at_pos(true, true, true)
            .unwrap()
            .get_data()
            .get_data()
            .len(),
        2
    );
}

#[test]
fn hash_add_same_key_twice_keeps_first_value() {
    let mut o = ManagedHashMapOctree::<u32, (Real, Real, Real), Real>::new_managed(
        point(0.0, 0.0, 0.0),
        Real(1000.0),
    );
    o.add((123, point(1.0, 2.0, 3.0)));
    o.add((123, point(4.0, 5.0, 6.0)));
    assert_eq!(o.len(), 1);
    assert_eq!(o.get_data().get_data().len(), 1);
    assert_eq!(o.get_data().get_data().get(&123), Some(&point(1.0, 2.0, 3.0)));
}

#[test]
fn item_on_a_centre_plane_counts_as_negative() {
    let mut o = ManagedVecOctree::<(Real, Real, Real), Real>::new_managed(
        point(0.0, 0.0, 0.0),
        Real(8.0),
    );
    o.add(point(0.0, 5.0, 0.0));
    o.add(point(0.0, 6.0, 0.0));
    o.rebalance();
    assert_eq!(o.get_data().get_data().len(), 0);
    let child = o.get_child_at_pos(false, true, false).unwrap();
    assert_eq!(child.get_data().get_data().len(), 2);
    assert!(close(child.get_data().get_centre().0, -4.0));
    assert!(close(child.get_data().get_centre().1, 4.0));
    assert!(close(child.get_data().get_centre().2, -4.0));
    assert!(close(child.get_data().get_half_length(), 4.0));
}
