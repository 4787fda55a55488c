//! The item-collection capability: what a node's item store must offer, and
//! the stores the library provides.

use crate::scalar::Scalar;
use vstd::multiset::Multiset;
use vstd::prelude::*;

verus! {

/// An item that has a position in space.
pub trait CentredItem<S> {
    /// The spatial centre of the item.
    spec fn centre_spec(&self) -> (S, S, S);

    /// The spatial centre of the item.
    fn centre(&self) -> (r: (S, S, S))
        ensures
            r == self.centre_spec(),
    ;
}

/// A bare coordinate triple is its own centre.
impl<S: Copy> CentredItem<S> for (S, S, S) {
    open spec fn centre_spec(&self) -> (S, S, S) {
        *self
    }

    fn centre(&self) -> (r: (S, S, S)) {
        *self
    }
}

/// A key paired with a coordinate triple has the triple as its centre.
impl<S: Copy, K> CentredItem<S> for (K, (S, S, S)) {
    open spec fn centre_spec(&self) -> (S, S, S) {
        self.1
    }

    fn centre(&self) -> (r: (S, S, S)) {
        self.1
    }
}

/// A store of items that a node holds locally.
///
/// The store is modelled by the multiset of its items. Two items may clash
/// (an associative store: they have the same key); a store admits an item
/// unless an item it holds clashes with it, and never holds two that clash.
pub trait OctreeCollection: Sized + Default {
    /// What the store holds.
    type Item;

    /// The items held.
    spec fn items(&self) -> Multiset<Self::Item>;

    /// Whether the store can hold at most one of `a` and `b`.
    spec fn clashes(a: Self::Item, b: Self::Item) -> bool;

    /// How this store, after it has accepted `item`, stands to the store
    /// `before`: what an accepted insertion promises beyond the items held
    /// (a sequential store: the item stands at the end).
    spec fn extends(&self, before: &Self, item: Self::Item) -> bool;

    /// A default-constructed store is empty.
    proof fn lemma_default_is_empty(fresh: Self)
        requires
            Self::default.ensures((), fresh),
        ensures
            fresh.items() == Multiset::<Self::Item>::empty(),
    ;

    /// Inserts `item` and returns `Some(())`, or drops it and returns `None`
    /// where an item already held clashes with it. It never overwrites.
    fn add(&mut self, item: Self::Item) -> (r: Option<()>)
        ensures
            r is Some <==> (forall|y: Self::Item|
                old(self).items().contains(y) ==> !Self::clashes(item, y)),
            r is Some ==> final(self).items() == old(self).items().insert(item),
            r is Some ==> final(self).extends(old(self), item),
            r is None ==> *final(self) == *old(self),
    ;

    /// The number of items held.
    fn len(&self) -> (n: usize)
        ensures
            n == self.items().len(),
    ;

    /// Drops every item.
    fn clear(&mut self)
        ensures
            final(self).items() == Multiset::<Self::Item>::empty(),
    ;

    /// Empties the store and hands its items out, each once, in the order in
    /// which the store walks them. No two of them clash.
    fn take_items(&mut self) -> (v: Vec<Self::Item>)
        ensures
            v@.to_multiset() == old(self).items(),
            forall|i: int, j: int|
                0 <= i < v@.len() && 0 <= j < v@.len() && i != j ==> !Self::clashes(v@[i], v@[j]),
            final(self).items() == Multiset::<Self::Item>::empty(),
    ;
}

/// Whether a store of kind `C` that holds `held` would store `item`: no item
/// it holds clashes with it.
pub open spec fn admits<C: OctreeCollection>(held: Multiset<C::Item>, item: C::Item) -> bool {
    forall|y: C::Item| held.contains(y) ==> !C::clashes(item, y)
}

/// `len_trait::Len::len` on a `Vec`: the crate forwards to `Vec::len`.
#[verifier::external_body]
fn vec_len<T>(v: &Vec<T>) -> (n: usize)
    ensures
        n == v@.len(),
{
    len_trait::Len::len(v)
}

/// `len_trait::Clear::clear` on a `Vec`: the crate forwards to `Vec::clear`,
/// which leaves the vector empty.
#[verifier::external_body]
fn vec_clear<T>(v: &mut Vec<T>)
    ensures
        final(v)@ == Seq::<T>::empty(),
{
    len_trait::Clear::clear(v)
}

/// A sequential store: insertion appends and always succeeds, and the items
/// keep their order.
impl<I> OctreeCollection for Vec<I> {
    type Item = I;

    open spec fn items(&self) -> Multiset<I> {
        self@.to_multiset()
    }

    open spec fn clashes(a: I, b: I) -> bool {
        false
    }

    open spec fn extends(&self, before: &Self, item: I) -> bool {
        self@ == before@.push(item)
    }

    proof fn lemma_default_is_empty(fresh: Self) {
        assert(fresh@ =~= Seq::<I>::empty());
        fresh@.to_multiset_ensures();
    }

    fn add(&mut self, item: I) -> (r: Option<()>)
        ensures
            r is Some,
            final(self)@ == old(self)@.push(item),
    {
        proof {
            self@.to_multiset_ensures();
        }
        self.push(item);
        Some(())
    }

    fn len(&self) -> (n: usize)
        ensures
            n == self@.len(),
    {
        proof {
            self@.to_multiset_ensures();
        }
        vec_len(self)
    }

    fn clear(&mut self)
        ensures
            final(self)@ == Seq::<I>::empty(),
    {
        vec_clear(self);
        proof {
            self@.to_multiset_ensures();
        }
    }

    fn take_items(&mut self) -> (v: Vec<I>)
        ensures
            v@ == old(self)@,
            final(self)@ == Seq::<I>::empty(),
    {
        let mut out: Vec<I> = Vec::new();
        core::mem::swap(self, &mut out);
        proof {
            self@.to_multiset_ensures();
        }
        out
    }
}

} // verus!
