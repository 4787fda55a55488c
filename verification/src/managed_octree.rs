//! The managed, capacity-aware node: a cube, a capacity policy and a local
//! item store, and the pass that hands local items to the children of their
//! octants.

use crate::collection::admits;
use crate::collection::CentredItem;
use crate::collection::OctreeCollection;
use crate::octant_index;
use crate::scalar::can_halve;
use crate::scalar::can_shift;
use crate::scalar::halved;
use crate::scalar::order_is_exact;
use crate::scalar::shifted;
use crate::scalar::Scalar;
use crate::Octree;
use std::collections::HashMap;
use vstd::multiset::Multiset;
use vstd::prelude::*;
use vstd::std_specs::cmp::PartialOrdIs;

verus! {

/// A managed tree over the store `D` and the scalar `S`.
pub type ManagedOctree<D, S> = Octree<ManagedOctreeData<D, S>>;

/// A managed tree whose nodes keep their items in a list.
pub type ManagedVecOctree<T, S> = ManagedOctree<Vec<T>, S>;

/// A managed tree whose nodes keep their items under unique keys.
pub type ManagedHashMapOctree<K, V, S> = ManagedOctree<HashMap<K, V>, S>;

/// The payload of a managed node: the cube it covers, its capacity policy, a
/// cached count of its local items, and the store that holds them.
pub struct ManagedOctreeData<D, S> where D: Default, S: Scalar {
    centre: (S, S, S),
    half_length: S,
    max_size: usize,
    drop_below_size: usize,
    len: usize,
    data: D,
}

/// The centre and half-extent of the child cube in the octant with the given
/// signs: half the parent's half-extent, and the parent's centre moved by
/// that much along each axis, to the side the sign names.
pub open spec fn child_geometry<S: Scalar>(
    centre: (S, S, S),
    half_length: S,
    pos_x: bool,
    pos_y: bool,
    pos_z: bool,
) -> ((S, S, S), S) {
    let hhl = halved(half_length);
    ((shifted(centre.0, hhl, pos_x), shifted(centre.1, hhl, pos_y), shifted(centre.2, hhl, pos_z)), hhl)
}

/// The arithmetic of [`child_geometry`] can be carried out in `S`.
pub open spec fn child_geometry_defined<S: Scalar>(
    centre: (S, S, S),
    half_length: S,
    pos_x: bool,
    pos_y: bool,
    pos_z: bool,
) -> bool {
    let hhl = halved(half_length);
    &&& can_halve(half_length)
    &&& can_shift(centre.0, hhl, pos_x)
    &&& can_shift(centre.1, hhl, pos_y)
    &&& can_shift(centre.2, hhl, pos_z)
}

impl<D, S> Default for ManagedOctreeData<D, S> where D: Default, S: Scalar {
    fn default() -> (r: Self)
        ensures
            S::default.ensures((), r.centre().0),
            S::default.ensures((), r.centre().1),
            S::default.ensures((), r.centre().2),
            r.half_length() == S::one_spec(),
            r.max_size() == 1,
            r.drop_below_size() == 1,
            r.local_count() == 0,
            D::default.ensures((), r.collection()),
            r.valid(),
    {
        Self {
            centre: (S::default(), S::default(), S::default()),
            half_length: S::one(),
            max_size: 1,
            drop_below_size: 1,
            len: 0,
            data: D::default(),
        }
    }
}

impl<D, S> ManagedOctreeData<D, S> where D: Default, S: Scalar {
    /// The configuration is valid: the merge threshold is not zero. Every
    /// constructor establishes this and no operation changes the threshold.
    pub open spec fn valid(&self) -> bool {
        self.drop_below_size() > 0
    }

    /// The centre of the cube.
    pub closed spec fn centre(&self) -> (S, S, S) {
        self.centre
    }

    /// Half the side length of the cube.
    pub closed spec fn half_length(&self) -> S {
        self.half_length
    }

    /// The local item count above which the node subdivides.
    pub closed spec fn max_size(&self) -> usize {
        self.max_size
    }

    /// The count below which a subdivision is meant to be undone. It is kept
    /// and handed to children; no operation reads it.
    pub closed spec fn drop_below_size(&self) -> usize {
        self.drop_below_size
    }

    /// The cached count of local items.
    pub closed spec fn local_count(&self) -> usize {
        self.len
    }

    /// The store of local items.
    pub closed spec fn collection(&self) -> D {
        self.data
    }

    /// Same cube and same capacity policy.
    pub open spec fn same_setup(&self, other: &Self) -> bool {
        &&& self.centre() == other.centre()
        &&& self.half_length() == other.half_length()
        &&& self.max_size() == other.max_size()
        &&& self.drop_below_size() == other.drop_below_size()
    }

    /// The store of local items.
    #[must_use]
    pub fn get_data(&self) -> (r: &D)
        ensures
            *r == self.collection(),
    {
        &self.data
    }

    /// Mutable access to the store of local items. The cube, the policy and
    /// the cached count stay as they are.
    #[must_use]
    pub fn get_data_mut(&mut self) -> (r: &mut D)
        ensures
            *r == old(self).collection(),
            final(self).collection() == *final(r),
            final(self).same_setup(old(self)),
            final(self).local_count() == old(self).local_count(),
    {
        &mut self.data
    }

    /// The centre of the cube.
    pub fn get_centre(&self) -> (r: (S, S, S))
        ensures
            r == self.centre(),
    {
        self.centre
    }

    /// Half the side length of the cube.
    pub fn get_half_length(&self) -> (r: S)
        ensures
            r == self.half_length(),
    {
        self.half_length
    }

    /// The local item count above which the node subdivides.
    pub fn get_max_size(&self) -> (r: usize)
        ensures
            r == self.max_size(),
    {
        self.max_size
    }

    /// The stored merge threshold.
    pub fn get_drop_below_size(&self) -> (r: usize)
        ensures
            r == self.drop_below_size(),
    {
        self.drop_below_size
    }

    /// The cached count of local items.
    pub fn get_len(&self) -> (r: usize)
        ensures
            r == self.local_count(),
    {
        self.len
    }
}

/// The octant of the cube centred at `centre` in which `point` lies. An axis
/// counts as positive only where the point is strictly beyond the centre: a
/// point on a centre plane belongs to the negative side.
pub open spec fn octant_of_point<S: Scalar>(centre: (S, S, S), point: (S, S, S)) -> int {
    octant_index(point.0.is_gt(&centre.0), point.1.is_gt(&centre.1), point.2.is_gt(&centre.2))
}

impl<D, S> Octree<ManagedOctreeData<D, S>> where
    D: Default + OctreeCollection,
    D::Item: CentredItem<S>,
    S: Scalar,
 {
    /// The items held directly by this node.
    pub open spec fn local_items(&self) -> Multiset<D::Item> {
        self.data().collection().items()
    }

    /// Whether this node's store would accept `item`.
    pub open spec fn admits(&self, item: D::Item) -> bool {
        admits::<D>(self.local_items(), item)
    }

    /// The octant of this node's cube in which `item` lies.
    pub open spec fn octant_of(&self, item: D::Item) -> int {
        octant_of_point(self.data().centre(), item.centre_spec())
    }

    /// The same eight children.
    pub open spec fn same_children(&self, other: &Self) -> bool {
        forall|i: int| self.child_at(i) == other.child_at(i)
    }

    /// A root node for the cube with the given centre and half-extent, with
    /// the default policy (`max_size` 1, `drop_below_size` 1) and no items.
    #[must_use]
    pub fn new_managed(centre: (S, S, S), half_length: S) -> (r: Self)
        ensures
            r.is_leaf(),
            r.data().centre() == centre,
            r.data().half_length() == half_length,
            r.data().max_size() == 1,
            r.data().drop_below_size() == 1,
            r.data().local_count() == 0,
            r.local_items() == Multiset::<D::Item>::empty(),
    {
        let mut payload: ManagedOctreeData<D, S> = ManagedOctreeData::default();
        proof {
            D::lemma_default_is_empty(payload.data);
        }
        payload.centre = centre;
        payload.half_length = half_length;
        Self::new_with_data(payload)
    }

    /// Sets `max_size`.
    #[must_use]
    pub fn with_max_size(self, max_size: usize) -> (r: Self)
        ensures
            r.same_children(&self),
            r.data().max_size() == max_size,
            r.data().centre() == self.data().centre(),
            r.data().half_length() == self.data().half_length(),
            r.data().drop_below_size() == self.data().drop_below_size(),
            r.data().local_count() == self.data().local_count(),
            r.data().collection() == self.data().collection(),
    {
        let mut node = self;
        let payload = node.get_data_mut();
        payload.max_size = max_size;
        proof {
            broadcast use crate::group_octree;

        }
        node
    }

    /// Sets `drop_below_size`, which must not be zero.
    #[must_use]
    pub fn with_drop_below_size(self, drop_below_size: usize) -> (r: Self)
        requires
            drop_below_size > 0,
        ensures
            r.same_children(&self),
            r.data().drop_below_size() == drop_below_size,
            r.data().centre() == self.data().centre(),
            r.data().half_length() == self.data().half_length(),
            r.data().max_size() == self.data().max_size(),
            r.data().local_count() == self.data().local_count(),
            r.data().collection() == self.data().collection(),
    {
        let mut node = self;
        let payload = node.get_data_mut();
        payload.drop_below_size = drop_below_size;
        proof {
            broadcast use crate::group_octree;

        }
        node
    }

    /// Adds an item to this node without rebalancing the tree. An item that
    /// the store does not admit (a key already present) is dropped silently
    /// and the node stays as it was.
    pub fn add(&mut self, item: D::Item)
        requires
            old(self).admits(item) ==> old(self).data().local_count() < usize::MAX,
        ensures
            final(self).same_children(old(self)),
            final(self).data().same_setup(&old(self).data()),
            old(self).admits(item) ==> {
                &&& final(self).local_items() == old(self).local_items().insert(item)
                &&& final(self).data().collection().extends(&old(self).data().collection(), item)
                &&& final(self).data().local_count() == old(self).data().local_count() + 1
            },
            !old(self).admits(item) ==> *final(self) == *old(self),
    {
        let payload = self.get_data_mut();
        if payload.data.add(item).is_some() {
            payload.len += 1;
        }
        proof {
            broadcast use crate::group_octree;

        }
    }

    /// Empties this node's own store (not the whole tree) and takes the
    /// number of items removed off the cached count.
    pub fn clear_data(&mut self)
        requires
            old(self).data().local_count() >= old(self).local_items().len(),
        ensures
            final(self).same_children(old(self)),
            final(self).data().same_setup(&old(self).data()),
            final(self).local_items() == Multiset::<D::Item>::empty(),
            final(self).data().local_count() == old(self).data().local_count() - old(
                self,
            ).local_items().len(),
    {
        let payload = self.get_data_mut();
        payload.len -= payload.data.len();
        payload.data.clear();
        proof {
            broadcast use crate::group_octree;

        }
    }

    /// The cached count of local items.
    pub fn len(&self) -> (n: usize)
        ensures
            n == self.data().local_count(),
    {
        self.get_data().len
    }

    /// Whether the cached count of local items is zero.
    pub fn is_empty(&self) -> (b: bool)
        ensures
            b == (self.data().local_count() == 0),
    {
        self.get_data().len == 0
    }

    /// The centre and half-extent of the child cube in the octant with the
    /// given signs.
    pub fn get_child_centre_and_half_length_at_pos(
        &self,
        pos_x: bool,
        pos_y: bool,
        pos_z: bool,
    ) -> (r: ((S, S, S), S))
        requires
            child_geometry_defined(
                self.data().centre(),
                self.data().half_length(),
                pos_x,
                pos_y,
                pos_z,
            ),
        ensures
            r == child_geometry(
                self.data().centre(),
                self.data().half_length(),
                pos_x,
                pos_y,
                pos_z,
            ),
    {
        proof {
            S::lemma_exact();
        }
        let (cx, cy, cz) = self.get_data().centre;
        let hhl = self.get_data().half_length / (S::one() + S::one());
        match (pos_x, pos_y, pos_z) {
            (false, false, false) => ((cx - hhl, cy - hhl, cz - hhl), (hhl)),
            (false, false, true) => ((cx - hhl, cy - hhl, cz + hhl), (hhl)),
            (false, true, false) => ((cx - hhl, cy + hhl, cz - hhl), (hhl)),
            (false, true, true) => ((cx - hhl, cy + hhl, cz + hhl), (hhl)),
            (true, false, false) => ((cx + hhl, cy - hhl, cz - hhl), (hhl)),
            (true, false, true) => ((cx + hhl, cy - hhl, cz + hhl), (hhl)),
            (true, true, false) => ((cx + hhl, cy + hhl, cz - hhl), (hhl)),
            (true, true, true) => ((cx + hhl, cy + hhl, cz + hhl), (hhl)),
        }
    }

    /// The condition "`item` lies in octant `o` of this node's cube".
    pub open spec fn lies_in(&self, o: int) -> spec_fn(D::Item) -> bool {
        |x: D::Item| self.octant_of(x) == o
    }

    /// The condition "this node has no child in the octant of `item`".
    pub open spec fn stays(&self) -> spec_fn(D::Item) -> bool {
        |x: D::Item| self.child_at(self.octant_of(x)) is None
    }

    /// The condition "a store that holds `held` would accept `item`".
    pub open spec fn accepted_into(held: Multiset<D::Item>) -> spec_fn(D::Item) -> bool {
        |x: D::Item| admits::<D>(held, x)
    }

    /// The local items that lie in octant `o`.
    pub open spec fn routed(&self, o: int) -> Multiset<D::Item> {
        self.local_items().filter(self.lies_in(o))
    }

    /// The local items whose octant has no child: those that a
    /// redistribution leaves in this node.
    pub open spec fn kept(&self) -> Multiset<D::Item> {
        self.local_items().filter(self.stays())
    }

    /// This node, a child, has taken in `incoming`: its store holds what it
    /// held plus each incoming item that it accepts, its count has grown by
    /// as many, and nothing else about it has changed.
    pub open spec fn absorbed(&self, after: &Self, incoming: Multiset<D::Item>) -> bool {
        let taken = incoming.filter(Self::accepted_into(self.local_items()));
        &&& after.same_children(self)
        &&& after.data().same_setup(&self.data())
        &&& after.local_items() == self.local_items().add(taken)
        &&& after.data().local_count() == self.data().local_count() + taken.len()
    }

    /// `after` is this node after one redistribution pass: every local item
    /// whose octant holds a child has gone to that child, and the others are
    /// still here.
    pub open spec fn redistributed(&self, after: &Self) -> bool {
        &&& after.data().same_setup(&self.data())
        &&& after.local_items() == self.kept()
        &&& after.data().local_count() == self.data().local_count() - self.local_items().len()
            + self.kept().len()
        &&& forall|o: int|
            0 <= o < 8 ==> match #[trigger] self.child_at(o) {
                Some(before) => after.child_at(o) matches Some(child) && before.absorbed(
                    &child,
                    self.routed(o),
                ),
                None => after.child_at(o) is None,
            }
    }

    /// The counts involved in a redistribution pass fit: the cached count
    /// covers the local items, and no child's count can overflow by what may
    /// reach it.
    pub open spec fn can_redistribute(&self) -> bool {
        &&& self.data().local_count() >= self.local_items().len()
        &&& forall|o: int|
            0 <= o < 8 ==> (#[trigger] self.child_at(o) matches Some(child)
                ==> child.data().local_count() + self.routed(o).len() <= usize::MAX)
    }

    /// Empties the local store, hands its items out and takes their number
    /// off the cached count.
    fn take_local(&mut self) -> (v: Vec<D::Item>)
        requires
            old(self).data().local_count() >= old(self).local_items().len(),
        ensures
            v@.to_multiset() == old(self).local_items(),
            v@.len() == old(self).local_items().len(),
            v@.len() <= usize::MAX,
            forall|i: int, j: int|
                0 <= i < v@.len() && 0 <= j < v@.len() && i != j ==> !D::clashes(v@[i], v@[j]),
            final(self).same_children(old(self)),
            final(self).data().same_setup(&old(self).data()),
            final(self).local_items() == Multiset::<D::Item>::empty(),
            final(self).data().local_count() == old(self).data().local_count() - v@.len(),
    {
        let payload = self.get_data_mut();
        let items = payload.data.take_items();
        proof {
            items@.to_multiset_ensures();
        }
        payload.len -= items.len();
        proof {
            broadcast use crate::group_octree;

        }
        items
    }

    /// Moves every local item whose octant holds a child to that child, and
    /// leaves the others. Returns, for each octant, how many items stayed that
    /// lie in it.
    ///
    /// A child drops an item that its store does not admit. The cached counts
    /// follow the stores: this node's falls by the number of items that left
    /// it, and a child's grows by the number of items that it accepted.
    pub fn move_to_existing_children(&mut self) -> (counts: [usize; 8])
        requires
            old(self).can_redistribute(),
        ensures
            old(self).redistributed(final(self)),
            forall|o: int| 0 <= o < 8 ==> counts@[o] == final(self).routed(o).len(),
    {
        proof {
            S::lemma_exact();
        }
        let ghost pre = *self;
        let (cx, cy, cz) = self.get_data().centre;
        let mut result = [0usize;8];
        let items = self.take_local();
        let ghost all = items@;
        let ghost n = all.len();
        proof {
            broadcast use vstd::multiset::group_multiset_axioms;

            all.take(0).to_multiset_ensures();
            let done = all.take(0).to_multiset();
            assert(done =~= Multiset::<D::Item>::empty());
            assert forall|o: int| 0 <= o < 8 implies result@[o] == self.local_items().filter(
                pre.lies_in(o),
            ).len() by {
                crate::counting::lemma_filter_empty(pre.lies_in(o));
            }
            assert forall|o: int| 0 <= o < 8 implies match #[trigger] pre.child_at(o) {
                Some(before) => self.child_at(o) matches Some(child) && before.absorbed(
                    &child,
                    done.filter(pre.lies_in(o)),
                ),
                None => self.child_at(o) is None,
            } by {
                if let Some(before) = pre.child_at(o) {
                    crate::counting::lemma_filter_empty(pre.lies_in(o));
                    crate::counting::lemma_filter_empty(
                        Self::accepted_into(before.local_items()),
                    );
                    assert(before.local_items().add(Multiset::<D::Item>::empty())
                        =~= before.local_items());
                }
            }
        }
        for item in it: items
            invariant
                it.seq() == all,
                n == all.len(),
                n <= usize::MAX,
                all.to_multiset() == pre.local_items(),
                forall|i: int, j: int|
                    0 <= i < all.len() && 0 <= j < all.len() && i != j ==> !D::clashes(
                        all[i],
                        all[j],
                    ),
                pre.can_redistribute(),
                order_is_exact::<S>(),
                (cx, cy, cz) == pre.data().centre(),
                self.data().same_setup(&pre.data()),
                self.local_items() == all.take(it.index() as int).to_multiset().filter(
                    pre.stays(),
                ),
                self.data().local_count() == pre.data().local_count() - n
                    + self.local_items().len(),
                forall|o: int|
                    0 <= o < 8 ==> match #[trigger] pre.child_at(o) {
                        Some(before) => self.child_at(o) matches Some(child) && before.absorbed(
                            &child,
                            all.take(it.index() as int).to_multiset().filter(pre.lies_in(o)),
                        ),
                        None => self.child_at(o) is None,
                    },
                forall|o: int|
                    0 <= o < 8 ==> result@[o] == self.local_items().filter(pre.lies_in(o)).len(),
        {
            let ghost k = it.index() as int;
            let ghost done = all.take(k).to_multiset();
            let ghost cur = *self;
            let ghost x = item;
            let (ix, iy, iz) = item.centre();
            let idx = Self::get_child_idx_at_pos(ix > cx, iy > cy, iz > cz);
            let ghost o = idx as int;
            proof {
                broadcast use vstd::multiset::group_multiset_axioms;

                crate::counting::lemma_take_next(all, k);
                crate::counting::lemma_take_subset(all, k + 1);
                all.take(k).to_multiset_ensures();
                crate::counting::lemma_filter_len_le(done, pre.stays());
                crate::counting::lemma_filter_insert(done, pre.lies_in(o), x);
                crate::counting::lemma_filter_len_mono(
                    done.insert(x),
                    all.to_multiset(),
                    pre.lies_in(o),
                );
                match pre.child_at(o) {
                    Some(before) => {
                        let incoming = done.filter(pre.lies_in(o));
                        crate::counting::lemma_filter_len_le(
                            incoming,
                            Self::accepted_into(before.local_items()),
                        );
                        crate::counting::lemma_filter_insert(
                            incoming,
                            Self::accepted_into(before.local_items()),
                            x,
                        );
                    },
                    None => {
                        crate::counting::lemma_filter_len_le(self.local_items(), pre.lies_in(o));
                    },
                }
            }
            match self.get_child_mut(idx) {
                Some(child) => {
                    child.add(item);
                },
                None => {
                    self.add(item);
                    result[idx] = result[idx] + 1;
                },
            }
            proof {
                broadcast use vstd::multiset::group_multiset_axioms;
                broadcast use crate::group_octree;

                if let Some(before) = pre.child_at(o) {
                    let child_new = self.child_at(o)->0;
                    let incoming = done.filter(pre.lies_in(o));
                    let taken = incoming.filter(Self::accepted_into(before.local_items()));
                    if admits::<D>(before.local_items(), x) {
                        assert(child_new.local_items() =~= before.local_items().add(
                            taken.insert(x),
                        ));
                    }
                }
                assert forall|p: int| 0 <= p < 8 implies match #[trigger] pre.child_at(p) {
                    Some(before) => self.child_at(p) matches Some(child) && before.absorbed(
                        &child,
                        done.insert(x).filter(pre.lies_in(p)),
                    ),
                    None => self.child_at(p) is None,
                } by {
                    if p != o {
                        crate::counting::lemma_filter_insert(done, pre.lies_in(p), x);
                    }
                }
                assert forall|p: int| 0 <= p < 8 implies result@[p]
                    == self.local_items().filter(pre.lies_in(p)).len() by {
                    crate::counting::lemma_filter_insert(cur.local_items(), pre.lies_in(p), x);
                }
            }
        }
        proof {
            assert(all.take(n as int) =~= all);
            assert forall|o: int| 0 <= o < 8 implies result@[o] == self.routed(o).len() by {
                crate::counting::lemma_filter_agree(
                    self.local_items(),
                    self.lies_in(o),
                    pre.lies_in(o),
                );
            }
        }
        result
    }
}

} // verus!
