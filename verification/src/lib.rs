//! An octree: a tree in which every node owns up to eight children, one per
//! octant of 3-D space, and one payload.
//!
//! The crate root holds the bare branching node, [`Octree`]. The managed,
//! capacity-aware node built on it lives in [`managed_octree`]: its payload
//! is a cube, a capacity policy and a store of items ([`collection`],
//! [`hash_store`]) over a scalar type ([`scalar`]). [`rebalance`] moves the
//! items of a node over capacity into child octants; [`geometry`] holds the
//! laws of the cubes so created.

use vstd::prelude::*;

pub mod buckets;
pub mod collection;
mod counting;
pub mod geometry;
pub mod hash_store;
pub mod managed_octree;
pub mod octree;
pub mod rebalance;
pub mod scalar;
mod slots;

pub use crate::managed_octree::ManagedHashMapOctree;
pub use crate::managed_octree::ManagedOctree;
pub use crate::managed_octree::ManagedOctreeData;
pub use crate::managed_octree::ManagedVecOctree;
use crate::slots::Slots;

verus! {

/// The index of the octant with the given signs: `4·x + 2·y + z`, where a
/// positive axis counts 1 and a negative one 0.
pub open spec fn octant_index(pos_x: bool, pos_y: bool, pos_z: bool) -> int {
    (if pos_x { 4int } else { 0int }) + (if pos_y { 2int } else { 0int }) + (if pos_z {
        1int
    } else {
        0int
    })
}

/// The signs of the octant with index `idx`: the inverse of [`octant_index`]
/// on 0–7.
pub open spec fn octant_signs(idx: int) -> (bool, bool, bool) {
    (idx / 4 % 2 == 1, idx / 2 % 2 == 1, idx % 2 == 1)
}

/// The octant index is a bijection between the eight sign triples and 0–7,
/// and [`octant_signs`] is its inverse.
pub proof fn lemma_octant_index_bijective()
    ensures
        forall|x: bool, y: bool, z: bool| 0 <= #[trigger] octant_index(x, y, z) < 8,
        forall|x: bool, y: bool, z: bool|
            octant_signs(#[trigger] octant_index(x, y, z)) == (x, y, z),
        forall|i: int|
            0 <= i < 8 ==> {
                let s = #[trigger] octant_signs(i);
                octant_index(s.0, s.1, s.2) == i
            },
        forall|x1: bool, y1: bool, z1: bool, x2: bool, y2: bool, z2: bool|
            #[trigger] octant_index(x1, y1, z1) == #[trigger] octant_index(x2, y2, z2) ==> x1 == x2
                && y1 == y2 && z1 == z2,
{
}

/// A barebones octree node: eight optional, exclusively owned children and
/// one payload.
///
/// Other management structures are needed to make this useful for querying;
/// see [`managed_octree`].
pub struct Octree<D: Default> {
    children: Slots<Option<Box<Octree<D>>>>,
    data: D,
}

/// Why a child could not be attached.
#[derive(Debug)]
pub enum AddChildError {
    /// The slot already holds a child.
    AlreadyAdded,
    /// The index is not one of 0–7.
    OutOfBoundsIdx,
}

impl<D: Default> Default for Octree<D> {
    fn default() -> (r: Self)
        ensures
            r.is_leaf(),
            D::default.ensures((), r.data()),
    {
        Octree {
            children: Slots {
                s0: None,
                s1: None,
                s2: None,
                s3: None,
                s4: None,
                s5: None,
                s6: None,
                s7: None,
            },
            data: D::default(),
        }
    }
}

impl<D: Default> Octree<D> {
    /// The child in slot `idx`, if there is one. Nothing for an index outside
    /// 0–7.
    pub closed spec fn child_at(&self, idx: int) -> Option<Self> {
        if 0 <= idx < 8 {
            match self.children.at(idx) {
                Some(b) => Some(*b),
                None => None,
            }
        } else {
            None
        }
    }

    /// The payload of this node.
    pub closed spec fn data(&self) -> D {
        self.data
    }

    /// This node with slot `idx` set to `child`, or emptied where `child` is
    /// `None`. The node itself for an index outside 0–7.
    pub closed spec fn with_child(&self, idx: int, child: Option<Self>) -> Self {
        if 0 <= idx < 8 {
            Octree {
                children: self.children.with(
                    idx,
                    match child {
                        Some(c) => Some(Box::new(c)),
                        None => None,
                    },
                ),
                data: self.data,
            }
        } else {
            *self
        }
    }

    /// This node with its payload replaced.
    pub closed spec fn with_data(&self, data: D) -> Self {
        Octree { children: self.children, data }
    }

    /// No slot holds a child.
    pub open spec fn is_leaf(&self) -> bool {
        forall|i: int| self.child_at(i) is None
    }

    /// What [`Octree::with_child`] changes and what it leaves.
    pub broadcast proof fn lemma_with_child(&self, idx: int, child: Option<Self>, i: int)
        ensures
            #[trigger] self.with_child(idx, child).child_at(i) == if i == idx && 0 <= idx < 8 {
                child
            } else {
                self.child_at(i)
            },
            self.with_child(idx, child).data() == self.data(),
    {
    }

    /// What [`Octree::with_data`] changes and what it leaves.
    pub broadcast proof fn lemma_with_data(&self, data: D, i: int)
        ensures
            #[trigger] self.with_data(data).child_at(i) == self.child_at(i),
            self.with_data(data).data() == data,
    {
    }

    /// A child is smaller than its parent, so a function over the tree may
    /// descend into it.
    pub proof fn lemma_child_decreases(&self, idx: int)
        ensures
            self.child_at(idx) matches Some(c) ==> decreases_to!(self => c),
    {
    }

    /// Two nodes with the same payload and the same eight children are the
    /// same node.
    pub proof fn lemma_ext_equal(&self, other: &Self)
        requires
            self.data() == other.data(),
            forall|i: int| 0 <= i < 8 ==> self.child_at(i) == other.child_at(i),
        ensures
            *self == *other,
    {
        assert(self.child_at(0) == other.child_at(0));
        assert(self.child_at(1) == other.child_at(1));
        assert(self.child_at(2) == other.child_at(2));
        assert(self.child_at(3) == other.child_at(3));
        assert(self.child_at(4) == other.child_at(4));
        assert(self.child_at(5) == other.child_at(5));
        assert(self.child_at(6) == other.child_at(6));
        assert(self.child_at(7) == other.child_at(7));
    }

    /// A node without children whose payload is `D`'s default.
    #[must_use]
    pub fn new() -> (r: Self)
        ensures
            r.is_leaf(),
            D::default.ensures((), r.data()),
    {
        Self::default()
    }

    /// A node without children that holds `data`.
    #[must_use]
    pub fn new_with_data(data: D) -> (r: Self)
        ensures
            r.is_leaf(),
            r.data() == data,
    {
        Octree {
            children: Slots {
                s0: None,
                s1: None,
                s2: None,
                s3: None,
                s4: None,
                s5: None,
                s6: None,
                s7: None,
            },
            data,
        }
    }

    /// Adds a child at a particular index and returns a reference to it.
    ///
    /// # Errors
    /// `OutOfBoundsIdx` if `idx >= 8`, `AlreadyAdded` if the slot is taken.
    /// The node is then left as it was and `child` is dropped.
    pub fn add_child(&mut self, idx: usize, child: Self) -> (r: Result<&mut Self, AddChildError>)
        ensures
            match r {
                Ok(c) => {
                    &&& idx < 8
                    &&& old(self).child_at(idx as int) is None
                    &&& *c == child
                    &&& *final(self) == old(self).with_child(idx as int, Some(*final(c)))
                },
                Err(AddChildError::OutOfBoundsIdx) => idx >= 8 && *final(self) == *old(self),
                Err(AddChildError::AlreadyAdded) => {
                    &&& idx < 8
                    &&& old(self).child_at(idx as int) is Some
                    &&& *final(self) == *old(self)
                },
            },
    {
        if idx >= 8 {
            Err(AddChildError::OutOfBoundsIdx)
        } else if self.children.get(idx).is_some() {
            Err(AddChildError::AlreadyAdded)
        } else {
            let slot = self.children.get_mut(idx);
            *slot = Some(Box::new(child));
            match slot {
                Some(b) => Ok(&mut **b),
                None => Err(AddChildError::OutOfBoundsIdx),
            }
        }
    }

    /// Adds a child at the octant with the given signs (`true` for the
    /// positive side of an axis) and returns a reference to it.
    ///
    /// # Errors
    /// `AlreadyAdded` if the octant already holds a child.
    pub fn add_child_at_pos(&mut self, pos_x: bool, pos_y: bool, pos_z: bool, child: Self) -> (r:
        Result<&mut Self, AddChildError>)
        ensures
            match r {
                Ok(c) => {
                    &&& old(self).child_at(octant_index(pos_x, pos_y, pos_z)) is None
                    &&& *c == child
                    &&& *final(self) == old(self).with_child(
                        octant_index(pos_x, pos_y, pos_z),
                        Some(*final(c)),
                    )
                },
                Err(AddChildError::OutOfBoundsIdx) => false,
                Err(AddChildError::AlreadyAdded) => {
                    &&& old(self).child_at(octant_index(pos_x, pos_y, pos_z)) is Some
                    &&& *final(self) == *old(self)
                },
            },
    {
        self.add_child(Self::get_child_idx_at_pos(pos_x, pos_y, pos_z), child)
    }

    /// Detaches the child at `idx` and returns it. Nothing where the slot is
    /// empty or `idx` is out of range; the node is then unchanged.
    pub fn remove_child(&mut self, idx: usize) -> (r: Option<Self>)
        ensures
            r == old(self).child_at(idx as int),
            *final(self) == old(self).with_child(idx as int, None),
    {
        if idx >= 8 {
            None
        } else {
            match self.children.get_mut(idx).take() {
                Some(b) => Some(*b),
                None => None,
            }
        }
    }

    /// Detaches the child at the octant with the given signs and returns it,
    /// if there is one.
    pub fn remove_child_at_pos(&mut self, pos_x: bool, pos_y: bool, pos_z: bool) -> (r: Option<
        Self,
    >)
        ensures
            r == old(self).child_at(octant_index(pos_x, pos_y, pos_z)),
            *final(self) == old(self).with_child(octant_index(pos_x, pos_y, pos_z), None),
    {
        self.remove_child(Self::get_child_idx_at_pos(pos_x, pos_y, pos_z))
    }

    /// The child at `idx`, if there is one and `idx` is in range.
    #[must_use]
    pub fn get_child(&self, idx: usize) -> (r: Option<&Self>)
        ensures
            match r {
                Some(c) => self.child_at(idx as int) == Some(*c),
                None => self.child_at(idx as int) is None,
            },
    {
        if idx >= 8 {
            None
        } else {
            match self.children.get(idx) {
                Some(b) => Some(&**b),
                None => None,
            }
        }
    }

    /// Mutable access to the child at `idx`, if there is one and `idx` is in
    /// range. What the caller leaves in the child is what the node then holds
    /// in that slot.
    #[must_use]
    pub fn get_child_mut(&mut self, idx: usize) -> (r: Option<&mut Self>)
        ensures
            match r {
                Some(c) => {
                    &&& old(self).child_at(idx as int) == Some(*c)
                    &&& *final(self) == old(self).with_child(idx as int, Some(*final(c)))
                },
                None => old(self).child_at(idx as int) is None && *final(self) == *old(self),
            },
    {
        if idx >= 8 {
            return None;
        }
        if self.children.get(idx).is_none() {
            return None;
        }
        match self.children.get_mut(idx) {
            Some(b) => Some(&mut **b),
            None => None,
        }
    }

    /// The index of the octant with the given signs.
    pub fn get_child_idx_at_pos(pos_x: bool, pos_y: bool, pos_z: bool) -> (idx: usize)
        ensures
            idx == octant_index(pos_x, pos_y, pos_z),
            idx < 8,
    {
        match (pos_x, pos_y, pos_z) {
            (false, false, false) => 0,
            (false, false, true) => 1,
            (false, true, false) => 2,
            (false, true, true) => 3,
            (true, false, false) => 4,
            (true, false, true) => 5,
            (true, true, false) => 6,
            (true, true, true) => 7,
        }
    }

    /// The signs of the octant with index `idx`.
    pub fn get_child_pos_at_idx(idx: usize) -> (pos: (bool, bool, bool))
        requires
            idx <= 7,
        ensures
            pos == octant_signs(idx as int),
            octant_index(pos.0, pos.1, pos.2) == idx,
    {
        match idx {
            0 => (false, false, false),
            1 => (false, false, true),
            2 => (false, true, false),
            3 => (false, true, true),
            4 => (true, false, false),
            5 => (true, false, true),
            6 => (true, true, false),
            _ => (true, true, true),
        }
    }

    /// The child at the octant with the given signs, if there is one.
    #[must_use]
    pub fn get_child_at_pos(&self, pos_x: bool, pos_y: bool, pos_z: bool) -> (r: Option<&Self>)
        ensures
            match r {
                Some(c) => self.child_at(octant_index(pos_x, pos_y, pos_z)) == Some(*c),
                None => self.child_at(octant_index(pos_x, pos_y, pos_z)) is None,
            },
    {
        self.get_child(Self::get_child_idx_at_pos(pos_x, pos_y, pos_z))
    }

    /// Mutable access to the child at the octant with the given signs, if
    /// there is one.
    #[must_use]
    pub fn get_child_mut_at_pos(&mut self, pos_x: bool, pos_y: bool, pos_z: bool) -> (r: Option<
        &mut Self,
    >)
        ensures
            match r {
                Some(c) => {
                    &&& old(self).child_at(octant_index(pos_x, pos_y, pos_z)) == Some(*c)
                    &&& *final(self) == old(self).with_child(
                        octant_index(pos_x, pos_y, pos_z),
                        Some(*final(c)),
                    )
                },
                None => {
                    &&& old(self).child_at(octant_index(pos_x, pos_y, pos_z)) is None
                    &&& *final(self) == *old(self)
                },
            },
    {
        self.get_child_mut(Self::get_child_idx_at_pos(pos_x, pos_y, pos_z))
    }

    /// The payload of this node.
    #[must_use]
    pub fn get_data(&self) -> (r: &D)
        ensures
            *r == self.data(),
    {
        &self.data
    }

    /// Mutable access to the payload of this node. The children stay as they
    /// are.
    #[must_use]
    pub fn get_data_mut(&mut self) -> (r: &mut D)
        ensures
            *r == old(self).data(),
            *final(self) == old(self).with_data(*final(r)),
    {
        &mut self.data
    }
}

/// Removing a child and then asking for it finds nothing: the slot is empty
/// in the node that `remove_child` leaves, whatever it held before.
pub proof fn lemma_removed_child_is_absent<D: Default>(node: Octree<D>, idx: usize)
    ensures
        node.with_child(idx as int, None).child_at(idx as int) is None,
{
    node.lemma_with_child(idx as int, None, idx as int);
}

pub broadcast group group_octree {
    Octree::lemma_with_child,
    Octree::lemma_with_data,
}

} // verus!
