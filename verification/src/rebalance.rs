//! Rebalancing: a node over capacity hands its items to its children, and
//! creates children for its fullest octants until it is within capacity.

use crate::buckets::lists;
use crate::buckets::sort_bucket_sizes;
use crate::collection::admits;
use crate::collection::CentredItem;
use crate::collection::OctreeCollection;
use crate::managed_octree::child_geometry;
use crate::managed_octree::child_geometry_defined;
use crate::managed_octree::ManagedOctreeData;
use crate::octant_signs;
use crate::scalar::Scalar;
use crate::Octree;
use vstd::multiset::Multiset;
use vstd::prelude::*;

verus! {

impl<D, S> Octree<ManagedOctreeData<D, S>> where
    D: Default + OctreeCollection,
    D::Item: CentredItem<S>,
    S: Scalar,
 {
    /// `child` is a child as a subdivision creates it in octant `o` of this
    /// node: it covers that octant's cube, has this node's policy, and holds
    /// neither children nor items.
    pub open spec fn is_new_child(&self, child: &Self, o: int) -> bool {
        let signs = octant_signs(o);
        let geometry = child_geometry(
            self.data().centre(),
            self.data().half_length(),
            signs.0,
            signs.1,
            signs.2,
        );
        &&& child.is_leaf()
        &&& child.data().centre() == geometry.0
        &&& child.data().half_length() == geometry.1
        &&& child.data().max_size() == self.data().max_size()
        &&& child.data().drop_below_size() == self.data().drop_below_size()
        &&& child.data().local_count() == 0
        &&& child.local_items() == Multiset::<D::Item>::empty()
    }

    /// The cube of octant `o` can be computed.
    pub open spec fn can_create_child(&self, o: int) -> bool {
        let signs = octant_signs(o);
        child_geometry_defined(
            self.data().centre(),
            self.data().half_length(),
            signs.0,
            signs.1,
            signs.2,
        )
    }

    /// `after` has a child in octant `o` that this node does not have.
    pub open spec fn gained_child(&self, after: &Self, o: int) -> bool {
        self.child_at(o) is None && after.child_at(o) is Some
    }

    /// `order` lists the eight octants, each once, with the number of local
    /// items that lie in it, and these numbers do not grow along the list.
    pub open spec fn ranks(&self, order: Seq<(usize, usize)>) -> bool {
        &&& order.len() == 8
        &&& forall|j: int|
            0 <= j < 8 ==> (#[trigger] order[j]).0 < 8 && order[j].1 == self.routed(
                order[j].0 as int,
            ).len()
        &&& forall|i: int, j: int|
            0 <= i < 8 && 0 <= j < 8 && i != j ==> (#[trigger] order[i]).0 != (
            #[trigger] order[j]).0
        &&& forall|i: int, j: int|
            0 <= i <= j < 8 ==> (#[trigger] order[i]).1 >= (#[trigger] order[j]).1
        &&& forall|o: int| 0 <= o < 8 ==> #[trigger] lists(order, o)
    }

    /// The children that `after` has and this node lacks were chosen greedily
    /// for a node over capacity: what `after` still keeps of this node's local
    /// items is within capacity; without any one of the new children it would
    /// not be; and no octant left without a child holds more items than one
    /// that got a child.
    pub open spec fn chose_fullest_octants(&self, after: &Self) -> bool {
        let rest = self.local_items().filter(after.stays());
        &&& rest.len() <= self.data().max_size()
        &&& forall|a: int|
            0 <= a < 8 && #[trigger] self.gained_child(after, a) ==> rest.len() + self.routed(
                a,
            ).len() > self.data().max_size()
        &&& forall|a: int, b: int|
            0 <= a < 8 && 0 <= b < 8 && #[trigger] self.gained_child(after, a)
                && #[trigger] after.child_at(b) is None ==> self.routed(a).len() >= self.routed(
                b,
            ).len()
    }

    /// `after` is this node after a subdivision: the payload and the children
    /// it had are untouched, and each child it gained is new and empty.
    pub open spec fn subdivided(&self, after: &Self) -> bool {
        &&& after.data() == self.data()
        &&& forall|o: int|
            0 <= o < 8 ==> match #[trigger] self.child_at(o) {
                Some(before) => after.child_at(o) == Some(before),
                None => after.child_at(o) matches Some(child) ==> self.is_new_child(&child, o),
            }
    }

    /// While some octant without a child holds a local item, the fullest of
    /// them is open: its counter is positive and it has no child yet.
    proof fn lemma_next_octant_is_open(
        &self,
        now: &Self,
        order: Seq<(usize, usize)>,
        j: int,
    )
        requires
            self.ranks(order),
            self.kept() == self.local_items(),
            now.data() == self.data(),
            0 <= j <= 8,
            forall|i: int| 0 <= i < j ==> now.child_at((#[trigger] order[i]).0 as int) is Some,
            forall|i: int|
                j <= i < 8 ==> now.child_at((#[trigger] order[i]).0 as int) == self.child_at(
                    order[i].0 as int,
                ),
            self.local_items().filter(now.stays()).len() > 0,
        ensures
            j < 8,
            order[j].1 > 0,
            self.child_at(order[j].0 as int) is None,
            now.child_at(order[j].0 as int) is None,
    {
        broadcast use vstd::multiset::group_multiset_axioms;

        let open_items = self.local_items().filter(now.stays());
        crate::counting::lemma_nonempty_has_item(open_items);
        let x = open_items.choose();
        let t = self.octant_of(x);
        assert(lists(order, t));
        assert(self.routed(t).contains(x));
        let o = order[j].0 as int;
        crate::counting::lemma_nonempty_has_item(self.routed(o));
    }

    /// Giving octant `o` a child takes the items that lie in `o` out of what
    /// the node keeps.
    proof fn lemma_child_takes_its_octant(&self, now: &Self, next: &Self, o: int)
        requires
            0 <= o < 8,
            now.data() == self.data(),
            next.data() == self.data(),
            now.child_at(o) is None,
            next.child_at(o) is Some,
            forall|p: int| 0 <= p < 8 && p != o ==> next.child_at(p) == now.child_at(p),
        ensures
            self.local_items().filter(now.stays()).len() == self.local_items().filter(
                next.stays(),
            ).len() + self.routed(o).len(),
    {
        crate::counting::lemma_filter_split(
            self.local_items(),
            now.stays(),
            next.stays(),
            self.lies_in(o),
        );
    }

    /// Creates children for the fullest octants, in the given order, until
    /// what the node would keep is within capacity. The items themselves are
    /// not moved.
    pub fn subdivide(&mut self, order: &Vec<(usize, usize)>)
        requires
            old(self).ranks(order@),
            old(self).kept() == old(self).local_items(),
            old(self).data().valid(),
            forall|o: int|
                0 <= o < 8 && old(self).routed(o).len() > 0 ==> #[trigger] old(
                    self,
                ).can_create_child(o),
        ensures
            old(self).subdivided(final(self)),
            old(self).chose_fullest_octants(final(self)),
    {
        let ghost pre = *self;
        let max_size = self.get_data().get_max_size();
        let drop_below_size = self.get_data().get_drop_below_size();
        let mut new_size = self.get_data().get_data().len();
        let mut j: usize = 0;
        while j < order.len() && new_size > max_size
            invariant
                0 <= j <= 8,
                pre.ranks(order@),
                pre.kept() == pre.local_items(),
                pre.data().valid(),
                forall|o: int|
                    0 <= o < 8 && pre.routed(o).len() > 0 ==> #[trigger] pre.can_create_child(o),
                max_size == pre.data().max_size(),
                drop_below_size == pre.data().drop_below_size(),
                self.data() == pre.data(),
                forall|i: int|
                    0 <= i < j ==> pre.child_at((#[trigger] order@[i]).0 as int) is None
                        && self.child_at(order@[i].0 as int) is Some && pre.is_new_child(
                        &self.child_at(order@[i].0 as int)->0,
                        order@[i].0 as int,
                    ),
                forall|i: int|
                    j <= i < 8 ==> self.child_at((#[trigger] order@[i]).0 as int) == pre.child_at(
                        order@[i].0 as int,
                    ),
                new_size == pre.local_items().filter(self.stays()).len(),
                j > 0 ==> new_size + order@[j - 1].1 > max_size,
            decreases 8 - j,
        {
            let ghost now = *self;
            let (max_idx, max_val) = order[j];
            let ghost o = max_idx as int;
            proof {
                pre.lemma_next_octant_is_open(&now, order@, j as int);
                assert(pre.can_create_child(o));
            }
            let (pos_x, pos_y, pos_z) = Self::get_child_pos_at_idx(max_idx);
            let (centre, half_length) = self.get_child_centre_and_half_length_at_pos(
                pos_x,
                pos_y,
                pos_z,
            );
            let child = Self::new_managed(centre, half_length).with_max_size(
                max_size,
            ).with_drop_below_size(drop_below_size);
            let _ = self.add_child(max_idx, child).unwrap();
            proof {
                broadcast use crate::group_octree;

                pre.lemma_child_takes_its_octant(&now, self, o);
            }
            new_size -= max_val;
            j += 1;
        }
        proof {
            let rest = pre.local_items().filter(self.stays());
            if j == 8 && new_size > max_size {
                pre.lemma_next_octant_is_open(self, order@, 8);
            }
            assert forall|p: int| 0 <= p < 8 implies match #[trigger] pre.child_at(p) {
                Some(before) => self.child_at(p) == Some(before),
                None => self.child_at(p) matches Some(child) ==> pre.is_new_child(&child, p),
            } by {
                assert(lists(order@, p));
            }
            assert forall|a: int| 0 <= a < 8 && #[trigger] pre.gained_child(self, a) implies rest.len()
                + pre.routed(a).len() > max_size by {
                assert(lists(order@, a));
            }
            assert forall|a: int, b: int|
                0 <= a < 8 && 0 <= b < 8 && #[trigger] pre.gained_child(self, a)
                    && #[trigger] self.child_at(b) is None implies pre.routed(a).len()
                >= pre.routed(b).len() by {
                assert(lists(order@, a));
                assert(lists(order@, b));
            }
        }
    }

    /// `child` is a child that a rebalancing created in octant `o` of this
    /// node and filled: it covers that octant's cube, has this node's policy
    /// and no children, and holds exactly this node's items that lie in `o`.
    pub open spec fn is_filled_new_child(&self, child: &Self, o: int) -> bool {
        let signs = octant_signs(o);
        let geometry = child_geometry(
            self.data().centre(),
            self.data().half_length(),
            signs.0,
            signs.1,
            signs.2,
        );
        &&& child.is_leaf()
        &&& child.data().centre() == geometry.0
        &&& child.data().half_length() == geometry.1
        &&& child.data().max_size() == self.data().max_size()
        &&& child.data().drop_below_size() == self.data().drop_below_size()
        &&& child.data().local_count() == self.routed(o).len()
        &&& child.local_items() == self.routed(o)
    }

    /// `after` is this node after a rebalancing.
    ///
    /// Every local item whose octant holds a child in `after` has gone to that
    /// child, and the others are still local. A child that was there before
    /// has only taken in the items of its octant that it accepts. Other
    /// children are new, and were chosen greedily: only if the node was still
    /// over capacity after handing items to the children it had, and then the
    /// fullest octants first, until the node was within capacity.
    pub open spec fn rebalanced(&self, after: &Self) -> bool {
        &&& after.data().same_setup(&self.data())
        &&& after.local_items() == self.local_items().filter(after.stays())
        &&& after.data().local_count() == self.data().local_count() - self.local_items().len()
            + after.local_items().len()
        &&& forall|o: int|
            0 <= o < 8 ==> match #[trigger] self.child_at(o) {
                Some(before) => after.child_at(o) matches Some(child) && before.absorbed(
                    &child,
                    self.routed(o),
                ),
                None => after.child_at(o) matches Some(child) ==> self.is_filled_new_child(
                    &child,
                    o,
                ),
            }
        &&& self.kept().len() <= self.data().max_size() ==> forall|o: int|
            0 <= o < 8 ==> !#[trigger] self.gained_child(after, o)
        &&& self.chose_fullest_octants(after)
    }

    /// What a rebalancing needs: the counts of a redistribution pass fit, the
    /// configuration is valid, and, if the node will have to subdivide, the
    /// cube of each octant that holds an item and has no child can be
    /// computed.
    pub open spec fn can_rebalance(&self) -> bool {
        &&& self.can_redistribute()
        &&& self.data().valid()
        &&& self.kept().len() > self.data().max_size() ==> forall|o: int|
            0 <= o < 8 && self.child_at(o) is None && self.routed(o).len() > 0
                ==> #[trigger] self.can_create_child(o)
    }

    /// After a pass, the node's items in an octant without a child are those
    /// it had there, and it has none in an octant with a child.
    proof fn lemma_routed_after_pass(&self, after: &Self, o: int)
        requires
            0 <= o < 8,
            after.data().same_setup(&self.data()),
            after.local_items() == self.kept(),
        ensures
            self.child_at(o) is None ==> after.routed(o) == self.routed(o),
            self.child_at(o) is Some ==> after.routed(o) == Multiset::<D::Item>::empty(),
    {
        broadcast use vstd::multiset::group_multiset_axioms;

    }

    /// A pass that leaves the node within capacity is a whole rebalancing.
    proof fn lemma_pass_is_rebalancing(&self, after: &Self)
        requires
            self.redistributed(after),
            after.local_items().len() <= self.data().max_size(),
        ensures
            self.rebalanced(after),
    {
        broadcast use vstd::multiset::group_multiset_axioms;

        crate::counting::lemma_filter_agree(self.local_items(), self.stays(), after.stays());
    }

    /// A pass, a subdivision and a second pass make a rebalancing.
    proof fn lemma_passes_make_rebalancing(&self, first: &Self, split: &Self, after: &Self)
        requires
            self.redistributed(first),
            first.subdivided(split),
            first.chose_fullest_octants(split),
            first.local_items().len() > self.data().max_size(),
            split.redistributed(after),
        ensures
            self.rebalanced(after),
    {
        broadcast use vstd::multiset::group_multiset_axioms;

        crate::counting::lemma_filter_twice(
            self.local_items(),
            self.stays(),
            split.stays(),
            after.stays(),
        );
        assert forall|o: int| 0 <= o < 8 implies match #[trigger] self.child_at(o) {
            Some(before) => after.child_at(o) matches Some(child) && before.absorbed(
                &child,
                self.routed(o),
            ),
            None => after.child_at(o) matches Some(child) ==> self.is_filled_new_child(&child, o),
        } by {
            self.lemma_routed_after_pass(first, o);
            assert(split.routed(o) == first.routed(o));
            match self.child_at(o) {
                Some(before) => {
                    let mid = first.child_at(o)->0;
                    let child = after.child_at(o)->0;
                    crate::counting::lemma_filter_empty(Self::accepted_into(mid.local_items()));
                    assert(child.local_items() =~= mid.local_items());
                },
                None => {
                    if split.child_at(o) is Some {
                        let child = after.child_at(o)->0;
                        assert(child.local_items() =~= self.routed(o));
                    }
                },
            }
        }
        assert forall|a: int| 0 <= a < 8 implies self.gained_child(after, a) == first.gained_child(
            split,
            a,
        ) by {}
        assert forall|a: int|
            0 <= a < 8 && #[trigger] self.gained_child(after, a) implies after.local_items().len()
            + self.routed(a).len() > self.data().max_size() by {
            self.lemma_routed_after_pass(first, a);
        }
        assert forall|a: int, b: int|
            0 <= a < 8 && 0 <= b < 8 && #[trigger] self.gained_child(after, a)
                && #[trigger] after.child_at(b) is None implies self.routed(a).len()
            >= self.routed(b).len() by {
            self.lemma_routed_after_pass(first, a);
            self.lemma_routed_after_pass(first, b);
        }
    }

    /// The items held in the subtree of the child in octant `o`; none where
    /// there is no such child.
    pub open spec fn items_in_child(&self, o: int) -> Multiset<D::Item>
        decreases self, 0int,
    {
        match self.child_at(o) {
            Some(child) => child.subtree_items(),
            None => Multiset::empty(),
        }
    }

    /// The items held in the subtree of this node: its local items and those
    /// of the subtrees of its children.
    pub open spec fn subtree_items(&self) -> Multiset<D::Item>
        decreases self, 1int,
    {
        self.local_items().add(self.items_in_child(0)).add(self.items_in_child(1)).add(
            self.items_in_child(2),
        ).add(self.items_in_child(3)).add(self.items_in_child(4)).add(self.items_in_child(5)).add(
            self.items_in_child(6),
        ).add(self.items_in_child(7))
    }

    /// The local items that lie in octant `o` and that the child there turns
    /// away, because it holds an item that clashes with them (the same key);
    /// none where there is no child.
    pub open spec fn turned_away(&self, o: int) -> Multiset<D::Item> {
        match self.child_at(o) {
            Some(child) => self.routed(o).filter(
                |x: D::Item| !admits::<D>(child.local_items(), x),
            ),
            None => Multiset::empty(),
        }
    }

    /// The local items that a rebalancing drops: those that the child of
    /// their octant turns away.
    pub open spec fn dropped(&self) -> Multiset<D::Item> {
        self.turned_away(0).add(self.turned_away(1)).add(self.turned_away(2)).add(
            self.turned_away(3),
        ).add(self.turned_away(4)).add(self.turned_away(5)).add(self.turned_away(6)).add(
            self.turned_away(7),
        )
    }

    /// What a rebalancing puts under octant `o`: the subtree there holds what
    /// it held, and the node's items of that octant where it has a child
    /// afterwards, but for those turned away.
    proof fn lemma_octant_keeps_items(&self, after: &Self, o: int)
        requires
            self.rebalanced(after),
            0 <= o < 8,
        ensures
            after.items_in_child(o).add(self.turned_away(o)) == self.items_in_child(o).add(
                if after.child_at(o) is Some {
                    self.routed(o)
                } else {
                    Multiset::empty()
                },
            ),
    {
        broadcast use vstd::multiset::group_multiset_axioms;

        match self.child_at(o) {
            Some(before) => {
                let child = after.child_at(o)->0;
                let accepts = Self::accepted_into(before.local_items());
                let taken = self.routed(o).filter(accepts);
                assert(child.subtree_items() =~= before.subtree_items().add(taken));
            },
            None => {
                if let Some(child) = after.child_at(o) {
                    assert(child.subtree_items() =~= self.routed(o));
                }
            },
        }
    }

    /// How often `x` is among the local items that a rebalancing moved into
    /// octant `o`.
    pub open spec fn moved_count(&self, after: &Self, o: int, x: D::Item) -> nat {
        if after.child_at(o) is Some {
            self.routed(o).count(x)
        } else {
            0
        }
    }

    /// [`Self::lemma_octant_keeps_items`], counted for one item.
    proof fn lemma_octant_keeps_count(&self, after: &Self, o: int, x: D::Item)
        requires
            self.rebalanced(after),
            0 <= o < 8,
        ensures
            after.items_in_child(o).count(x) + self.turned_away(o).count(x)
                == self.items_in_child(o).count(x) + self.moved_count(after, o, x),
    {
        broadcast use vstd::multiset::group_multiset_axioms;

        self.lemma_octant_keeps_items(after, o);
        let moved = if after.child_at(o) is Some {
            self.routed(o)
        } else {
            Multiset::empty()
        };
        assert(after.items_in_child(o).add(self.turned_away(o)).count(x) == self.items_in_child(
            o,
        ).add(moved).count(x));
    }

    /// Each local item is, after a rebalancing, either still local or moved
    /// into the octant in which it lies.
    proof fn lemma_local_items_stay_or_move(&self, after: &Self, x: D::Item)
        requires
            self.rebalanced(after),
        ensures
            self.local_items().count(x) == after.local_items().count(x) + self.moved_count(
                after,
                0,
                x,
            ) + self.moved_count(after, 1, x) + self.moved_count(after, 2, x) + self.moved_count(
                after,
                3,
                x,
            ) + self.moved_count(after, 4, x) + self.moved_count(after, 5, x) + self.moved_count(
                after,
                6,
                x,
            ) + self.moved_count(after, 7, x),
    {
        broadcast use vstd::multiset::group_multiset_axioms;

    }

    /// A rebalancing loses no item but those it drops: the items in the
    /// subtree afterwards, together with the dropped ones, are the items in
    /// the subtree before. A sequential store turns nothing away, so there
    /// the items are simply the same.
    pub proof fn lemma_rebalancing_loses_nothing(&self, after: &Self)
        requires
            self.rebalanced(after),
        ensures
            after.subtree_items().add(self.dropped()) == self.subtree_items(),
    {
        assert forall|x: D::Item|
            after.subtree_items().add(self.dropped()).count(x) == self.subtree_items().count(
                x,
            ) by {
            self.lemma_octant_keeps_count(after, 0, x);
            self.lemma_octant_keeps_count(after, 1, x);
            self.lemma_octant_keeps_count(after, 2, x);
            self.lemma_octant_keeps_count(after, 3, x);
            self.lemma_octant_keeps_count(after, 4, x);
            self.lemma_octant_keeps_count(after, 5, x);
            self.lemma_octant_keeps_count(after, 6, x);
            self.lemma_octant_keeps_count(after, 7, x);
            self.lemma_local_items_stay_or_move(after, x);
        }
    }

    /// A store in which no two items clash (a sequential store) turns nothing
    /// away, so a rebalancing of it drops nothing.
    pub proof fn lemma_nothing_dropped_without_clashes(&self)
        requires
            forall|a: D::Item, b: D::Item| !D::clashes(a, b),
        ensures
            self.dropped() == Multiset::<D::Item>::empty(),
    {
        broadcast use vstd::multiset::group_multiset_axioms;

    }

    /// Hands local items to the children and, if the node is still over
    /// capacity, subdivides: one level, never recursing into the children.
    ///
    /// Afterwards the node is within capacity. A child that now holds more
    /// than `max_size` items is not subdivided; rebalance it in turn.
    pub fn rebalance(&mut self)
        requires
            old(self).can_rebalance(),
        ensures
            old(self).rebalanced(final(self)),
            final(self).local_items().len() <= final(self).data().max_size(),
            final(self).subtree_items().add(old(self).dropped()) == old(self).subtree_items(),
    {
        let ghost pre = *self;
        let bucket_counts = self.move_to_existing_children();
        let ghost first = *self;
        if self.get_data().get_data().len() <= self.get_data().get_max_size() {
            proof {
                pre.lemma_pass_is_rebalancing(&first);
                pre.lemma_rebalancing_loses_nothing(&first);
            }
            return ;
        }
        let bucket_sizes = sort_bucket_sizes(bucket_counts);
        proof {
            broadcast use vstd::multiset::group_multiset_axioms;

            crate::counting::lemma_filter_all(first.local_items(), first.stays());
            assert forall|o: int| 0 <= o < 8 && first.routed(o).len() > 0 implies #[trigger] first.can_create_child(
                o,
            ) by {
                pre.lemma_routed_after_pass(&first, o);
                assert(pre.can_create_child(o));
            }
        }
        self.subdivide(&bucket_sizes);
        let ghost split = *self;
        proof {
            broadcast use vstd::multiset::group_multiset_axioms;

            assert forall|o: int| 0 <= o < 8 implies (#[trigger] split.child_at(o) matches Some(
                child,
            ) ==> child.data().local_count() + split.routed(o).len() <= usize::MAX) by {
                pre.lemma_routed_after_pass(&first, o);
                crate::counting::lemma_filter_agree(
                    first.local_items(),
                    split.lies_in(o),
                    first.lies_in(o),
                );
                crate::counting::lemma_filter_len_le(first.local_items(), first.lies_in(o));
            }
        }
        self.move_to_existing_children();
        proof {
            pre.lemma_passes_make_rebalancing(&first, &split, self);
            pre.lemma_rebalancing_loses_nothing(self);
        }
    }
}

} // verus!
