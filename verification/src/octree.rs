//! The bare branching node in its simplest form: a child is created in
//! place, empty, rather than handed in.

use crate::octant_index;
use crate::slots::Slots;
use vstd::prelude::*;

verus! {

/// A barebones octree node: eight optional, exclusively owned children and
/// one payload.
///
/// A child is always created empty, with `C`'s default as its payload.
pub struct Octree<C: Default> {
    children: Slots<Option<Box<Octree<C>>>>,
    objects: C,
}

/// Why a child could not be attached.
#[derive(Debug)]
pub enum AddChildError {
    /// The slot already holds a child.
    AlreadyAdded,
    /// The index is not one of 0–7.
    OutOfBoundsIdx,
}

impl<C: Default> Default for Octree<C> {
    fn default() -> (r: Self)
        ensures
            r.is_leaf(),
            C::default.ensures((), r.objects()),
    {
        Octree {
            children: Slots {
                s0: None,
                s1: None,
                s2: None,
                s3: None,
                s4: None,
                s5: None,
                s6: None,
                s7: None,
            },
            objects: C::default(),
        }
    }
}

impl<C: Default> Octree<C> {
    /// The child in slot `idx`, if there is one. Nothing for an index outside
    /// 0–7.
    pub closed spec fn child_at(&self, idx: int) -> Option<Self> {
        if 0 <= idx < 8 {
            match self.children.at(idx) {
                Some(b) => Some(*b),
                None => None,
            }
        } else {
            None
        }
    }

    /// The payload of this node.
    pub closed spec fn objects(&self) -> C {
        self.objects
    }

    /// This node with slot `idx` set to `child`, or emptied where `child` is
    /// `None`. The node itself for an index outside 0–7.
    pub closed spec fn with_child(&self, idx: int, child: Option<Self>) -> Self {
        if 0 <= idx < 8 {
            Octree {
                children: self.children.with(
                    idx,
                    match child {
                        Some(c) => Some(Box::new(c)),
                        None => None,
                    },
                ),
                objects: self.objects,
            }
        } else {
            *self
        }
    }

    /// This node with its payload replaced.
    pub closed spec fn with_objects(&self, objects: C) -> Self {
        Octree { children: self.children, objects }
    }

    /// No slot holds a child.
    pub open spec fn is_leaf(&self) -> bool {
        forall|i: int| self.child_at(i) is None
    }

    /// What [`Octree::with_child`] changes and what it leaves.
    pub broadcast proof fn lemma_with_child(&self, idx: int, child: Option<Self>, i: int)
        ensures
            #[trigger] self.with_child(idx, child).child_at(i) == if i == idx && 0 <= idx < 8 {
                child
            } else {
                self.child_at(i)
            },
            self.with_child(idx, child).objects() == self.objects(),
    {
    }

    /// What [`Octree::with_objects`] changes and what it leaves.
    pub broadcast proof fn lemma_with_objects(&self, objects: C, i: int)
        ensures
            #[trigger] self.with_objects(objects).child_at(i) == self.child_at(i),
            self.with_objects(objects).objects() == objects,
    {
    }

    /// A child is smaller than its parent, so a function over the tree may
    /// descend into it.
    pub proof fn lemma_child_decreases(&self, idx: int)
        ensures
            self.child_at(idx) matches Some(c) ==> decreases_to!(self => c),
    {
    }

    /// Two nodes with the same payload and the same eight children are the
    /// same node.
    pub proof fn lemma_ext_equal(&self, other: &Self)
        requires
            self.objects() == other.objects(),
            forall|i: int| 0 <= i < 8 ==> self.child_at(i) == other.child_at(i),
        ensures
            *self == *other,
    {
        assert(self.child_at(0) == other.child_at(0));
        assert(self.child_at(1) == other.child_at(1));
        assert(self.child_at(2) == other.child_at(2));
        assert(self.child_at(3) == other.child_at(3));
        assert(self.child_at(4) == other.child_at(4));
        assert(self.child_at(5) == other.child_at(5));
        assert(self.child_at(6) == other.child_at(6));
        assert(self.child_at(7) == other.child_at(7));
    }

    /// A node without children whose payload is `C`'s default.
    #[must_use]
    pub fn new() -> (r: Self)
        ensures
            r.is_leaf(),
            C::default.ensures((), r.objects()),
    {
        Self::default()
    }

    /// Adds a new, empty child at a particular index and returns a reference
    /// to it.
    ///
    /// # Errors
    /// `OutOfBoundsIdx` if `idx >= 8`, `AlreadyAdded` if the slot is taken.
    /// The node is then left as it was.
    pub fn add_child(&mut self, idx: usize) -> (r: Result<&mut Self, AddChildError>)
        ensures
            match r {
                Ok(c) => {
                    &&& idx < 8
                    &&& old(self).child_at(idx as int) is None
                    &&& c.is_leaf()
                    &&& C::default.ensures((), c.objects())
                    &&& *final(self) == old(self).with_child(idx as int, Some(*final(c)))
                },
                Err(AddChildError::OutOfBoundsIdx) => idx >= 8 && *final(self) == *old(self),
                Err(AddChildError::AlreadyAdded) => {
                    &&& idx < 8
                    &&& old(self).child_at(idx as int) is Some
                    &&& *final(self) == *old(self)
                },
            },
    {
        if idx >= 8 {
            Err(AddChildError::OutOfBoundsIdx)
        } else if self.children.get(idx).is_some() {
            Err(AddChildError::AlreadyAdded)
        } else {
            let slot = self.children.get_mut(idx);
            *slot = Some(Box::new(Self::default()));
            match slot {
                Some(b) => Ok(&mut **b),
                None => Err(AddChildError::OutOfBoundsIdx),
            }
        }
    }

    /// Adds a new, empty child at the octant with the given signs (`true` for
    /// the positive side of an axis) and returns a reference to it.
    ///
    /// # Errors
    /// `AlreadyAdded` if the octant already holds a child.
    pub fn add_child_at_pos(&mut self, pos_x: bool, pos_y: bool, pos_z: bool) -> (r: Result<
        &mut Self,
        AddChildError,
    >)
        ensures
            match r {
                Ok(c) => {
                    &&& old(self).child_at(octant_index(pos_x, pos_y, pos_z)) is None
                    &&& c.is_leaf()
                    &&& C::default.ensures((), c.objects())
                    &&& *final(self) == old(self).with_child(
                        octant_index(pos_x, pos_y, pos_z),
                        Some(*final(c)),
                    )
                },
                Err(AddChildError::OutOfBoundsIdx) => false,
                Err(AddChildError::AlreadyAdded) => {
                    &&& old(self).child_at(octant_index(pos_x, pos_y, pos_z)) is Some
                    &&& *final(self) == *old(self)
                },
            },
    {
        self.add_child(Self::get_child_idx_at_pos(pos_x, pos_y, pos_z))
    }

    /// Detaches the child at `idx` and returns it. Nothing where the slot is
    /// empty or `idx` is out of range; the node is then unchanged.
    pub fn remove_child(&mut self, idx: usize) -> (r: Option<Self>)
        ensures
            r == old(self).child_at(idx as int),
            *final(self) == old(self).with_child(idx as int, None),
    {
        if idx >= 8 {
            None
        } else {
            match self.children.get_mut(idx).take() {
                Some(b) => Some(*b),
                None => None,
            }
        }
    }

    /// Detaches the child at the octant with the given signs and returns it,
    /// if there is one.
    pub fn remove_child_at_pos(&mut self, pos_x: bool, pos_y: bool, pos_z: bool) -> (r: Option<
        Self,
    >)
        ensures
            r == old(self).child_at(octant_index(pos_x, pos_y, pos_z)),
            *final(self) == old(self).with_child(octant_index(pos_x, pos_y, pos_z), None),
    {
        self.remove_child(Self::get_child_idx_at_pos(pos_x, pos_y, pos_z))
    }

    /// The child at `idx`, if there is one and `idx` is in range.
    #[must_use]
    pub fn get_child(&self, idx: usize) -> (r: Option<&Self>)
        ensures
            match r {
                Some(c) => self.child_at(idx as int) == Some(*c),
                None => self.child_at(idx as int) is None,
            },
    {
        if idx >= 8 {
            None
        } else {
            match self.children.get(idx) {
                Some(b) => Some(&**b),
                None => None,
            }
        }
    }

    /// Mutable access to the child at `idx`, if there is one and `idx` is in
    /// range. What the caller leaves in the child is what the node then holds
    /// in that slot.
    #[must_use]
    pub fn get_child_mut(&mut self, idx: usize) -> (r: Option<&mut Self>)
        ensures
            match r {
                Some(c) => {
                    &&& old(self).child_at(idx as int) == Some(*c)
                    &&& *final(self) == old(self).with_child(idx as int, Some(*final(c)))
                },
                None => old(self).child_at(idx as int) is None && *final(self) == *old(self),
            },
    {
        if idx >= 8 {
            return None;
        }
        if self.children.get(idx).is_none() {
            return None;
        }
        match self.children.get_mut(idx) {
            Some(b) => Some(&mut **b),
            None => None,
        }
    }

    /// The index of the octant with the given signs.
    pub fn get_child_idx_at_pos(pos_x: bool, pos_y: bool, pos_z: bool) -> (idx: usize)
        ensures
            idx == octant_index(pos_x, pos_y, pos_z),
            idx < 8,
    {
        match (pos_x, pos_y, pos_z) {
            (false, false, false) => 0,
            (false, false, true) => 1,
            (false, true, false) => 2,
            (false, true, true) => 3,
            (true, false, false) => 4,
            (true, false, true) => 5,
            (true, true, false) => 6,
            (true, true, true) => 7,
        }
    }

    /// The child at the octant with the given signs, if there is one.
    #[must_use]
    pub fn get_child_at_pos(&self, pos_x: bool, pos_y: bool, pos_z: bool) -> (r: Option<&Self>)
        ensures
            match r {
                Some(c) => self.child_at(octant_index(pos_x, pos_y, pos_z)) == Some(*c),
                None => self.child_at(octant_index(pos_x, pos_y, pos_z)) is None,
            },
    {
        self.get_child(Self::get_child_idx_at_pos(pos_x, pos_y, pos_z))
    }

    /// Mutable access to the child at the octant with the given signs, if
    /// there is one.
    #[must_use]
    pub fn get_child_mut_at_pos(&mut self, pos_x: bool, pos_y: bool, pos_z: bool) -> (r: Option<
        &mut Self,
    >)
        ensures
            match r {
                Some(c) => {
                    &&& old(self).child_at(octant_index(pos_x, pos_y, pos_z)) == Some(*c)
                    &&& *final(self) == old(self).with_child(
                        octant_index(pos_x, pos_y, pos_z),
                        Some(*final(c)),
                    )
                },
                None => {
                    &&& old(self).child_at(octant_index(pos_x, pos_y, pos_z)) is None
                    &&& *final(self) == *old(self)
                },
            },
    {
        self.get_child_mut(Self::get_child_idx_at_pos(pos_x, pos_y, pos_z))
    }

    /// The payload of this node.
    #[must_use]
    pub fn get_objects(&self) -> (r: &C)
        ensures
            *r == self.objects(),
    {
        &self.objects
    }

    /// Mutable access to the payload of this node. The children stay as they
    /// are.
    #[must_use]
    pub fn get_objects_mut(&mut self) -> (r: &mut C)
        ensures
            *r == old(self).objects(),
            *final(self) == old(self).with_objects(*final(r)),
    {
        &mut self.objects
    }
}

/// Removing a child and then asking for it finds nothing: the slot is empty
/// in the node that `remove_child` leaves, whatever it held before.
pub proof fn lemma_removed_child_is_absent<C: Default>(node: Octree<C>, idx: usize)
    ensures
        node.with_child(idx as int, None).child_at(idx as int) is None,
{
    node.lemma_with_child(idx as int, None, idx as int);
}

pub broadcast group group_objects_octree {
    Octree::lemma_with_child,
    Octree::lemma_with_objects,
}

} // verus!
