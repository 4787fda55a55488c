//! The associative store: a hash map from a key to a value. A key is held at
//! most once, and an insertion under a key already present is rejected.

use crate::collection::OctreeCollection;
use core::hash::Hash;
use std::collections::HashMap;
use vstd::multiset::Multiset;
use vstd::prelude::*;
use vstd::std_specs::hash::obeys_key_model;

verus! {

/// A key type whose equality and hashing are those that the model of a hash
/// map as a mathematical map relies on.
pub trait OctreeKey: Eq + Hash + Sized {
    /// The key type obeys the hash map's key model.
    proof fn lemma_key_model()
        ensures
            obeys_key_model::<Self>(),
    ;
}

impl OctreeKey for u32 {
    proof fn lemma_key_model() {
        broadcast use vstd::std_specs::hash::group_hash_axioms;

    }
}

impl OctreeKey for u64 {
    proof fn lemma_key_model() {
        broadcast use vstd::std_specs::hash::group_hash_axioms;

    }
}

impl OctreeKey for usize {
    proof fn lemma_key_model() {
        broadcast use vstd::std_specs::hash::group_hash_axioms;

    }
}

impl OctreeKey for i32 {
    proof fn lemma_key_model() {
        broadcast use vstd::std_specs::hash::group_hash_axioms;

    }
}

impl OctreeKey for i64 {
    proof fn lemma_key_model() {
        broadcast use vstd::std_specs::hash::group_hash_axioms;

    }
}

/// The (key, value) pairs of a map, each once.
pub open spec fn pairs<K, V>(m: Map<K, V>) -> Multiset<(K, V)> {
    Multiset::from_set(m.kv_pairs())
}

/// `listed` holds the pairs of `m`: every item is a pair of the map, no key
/// comes twice, and every key of the map comes.
pub open spec fn is_listing<K, V>(listed: Seq<(K, V)>, m: Map<K, V>) -> bool {
    &&& forall|i: int| 0 <= i < listed.len() ==> m.contains_pair(listed[i].0, listed[i].1)
    &&& forall|i: int, j: int|
        0 <= i < listed.len() && 0 <= j < listed.len() && i != j ==> listed[i].0 != listed[j].0
    &&& forall|k: K| m.contains_key(k) ==> exists|i: int| 0 <= i < listed.len() && listed[i].0 == k
}

/// `len_trait::Len::len` on a `HashMap`: the crate forwards to `HashMap::len`,
/// the number of keys.
#[verifier::external_body]
fn map_len<K: Eq + Hash, V>(m: &HashMap<K, V>) -> (n: usize)
    ensures
        obeys_key_model::<K>() ==> n == m@.len(),
{
    len_trait::Len::len(m)
}

/// `len_trait::Clear::clear` on a `HashMap`: the crate forwards to
/// `HashMap::clear`, which leaves the map empty.
#[verifier::external_body]
fn map_clear<K: Eq + Hash, V>(m: &mut HashMap<K, V>)
    ensures
        forall|k: K| !final(m)@.contains_key(k),
{
    len_trait::Clear::clear(m)
}

/// `Vec::from_iter` on a `HashMap` taken by value: the map is walked once, in
/// an order that is not fixed, and each of its pairs is moved out into the
/// vector.
#[verifier::external_body]
fn into_pairs<K: Eq + Hash, V>(m: HashMap<K, V>) -> (v: Vec<(K, V)>)
    ensures
        obeys_key_model::<K>() ==> is_listing(v@, m@),
{
    Vec::from_iter(m)
}

/// A pair counts once in the pairs of a map that maps its key to its value,
/// and not at all otherwise.
pub proof fn lemma_pairs_count<K, V>(m: Map<K, V>, k: K, v: V)
    requires
        m.dom().finite(),
    ensures
        pairs(m).count((k, v)) == if m.contains_pair(k, v) {
            1nat
        } else {
            0nat
        },
{
    broadcast use vstd::multiset::group_multiset_axioms;

    lemma_pairs_finite(m);
    let counted = Map::new(|kv: (K, V)| m.kv_pairs().contains(kv), |kv: (K, V)| 1nat);
    assert(counted.dom() =~= m.kv_pairs());
}

/// A finite map has finitely many pairs, as many as keys.
proof fn lemma_pairs_finite<K, V>(m: Map<K, V>)
    requires
        m.dom().finite(),
    ensures
        m.kv_pairs().finite(),
        m.kv_pairs().len() == m.dom().len(),
{
    let f = |k: K| (k, m[k]);
    assert(m.dom().map(f) =~= m.kv_pairs());
    vstd::set_lib::lemma_map_size(m.dom(), m.kv_pairs(), f);
}

/// A finite set taken as a multiset has as many items as the set.
proof fn lemma_from_set_len<A>(s: Set<A>)
    requires
        s.finite(),
    ensures
        Multiset::from_set(s).len() == s.len(),
    decreases s.len(),
{
    broadcast use vstd::multiset::group_multiset_axioms;
    broadcast use vstd::set::group_set_axioms;

    let whole = Map::new(|a: A| s.contains(a), |a: A| 1nat);
    assert(whole.dom() =~= s);
    if s.len() == 0 {
        assert(Multiset::from_set(s) =~= Multiset::<A>::empty());
    } else {
        let x = s.choose();
        let rest = s.remove(x);
        let part = Map::new(|a: A| rest.contains(a), |a: A| 1nat);
        assert(part.dom() =~= rest);
        lemma_from_set_len(rest);
        assert(Multiset::from_set(s) =~= Multiset::from_set(rest).insert(x));
    }
}

/// The pairs of a finite map are as many as its keys.
pub proof fn lemma_pairs_len<K, V>(m: Map<K, V>)
    requires
        m.dom().finite(),
    ensures
        pairs(m).len() == m.len(),
{
    lemma_pairs_finite(m);
    lemma_from_set_len(m.kv_pairs());
}

/// A listing of a finite map holds, as a multiset, the pairs of the map.
proof fn lemma_listing_holds_pairs<K, V>(listed: Seq<(K, V)>, m: Map<K, V>)
    requires
        m.dom().finite(),
        is_listing(listed, m),
    ensures
        listed.to_multiset() == pairs(m),
{
    broadcast use vstd::multiset::group_multiset_axioms;

    listed.to_multiset_ensures();
    listed.lemma_multiset_has_no_duplicates();
    assert forall|kv: (K, V)| listed.to_multiset().count(kv) == pairs(m).count(kv) by {
        lemma_pairs_count(m, kv.0, kv.1);
    }
}

/// An associative store: a pair is rejected where its key is already
/// present, and the value stored under that key stays.
impl<K: OctreeKey, V> OctreeCollection for HashMap<K, V> {
    type Item = (K, V);

    open spec fn items(&self) -> Multiset<(K, V)> {
        pairs(self@)
    }

    open spec fn clashes(a: (K, V), b: (K, V)) -> bool {
        a.0 == b.0
    }

    open spec fn extends(&self, before: &Self, item: (K, V)) -> bool {
        self@ == before@.insert(item.0, item.1)
    }

    proof fn lemma_default_is_empty(fresh: Self) {
        broadcast use vstd::multiset::group_multiset_axioms;

        assert forall|kv: (K, V)| pairs(fresh@).count(kv) == 0 by {
            lemma_pairs_count(fresh@, kv.0, kv.1);
        }
    }

    fn add(&mut self, item: (K, V)) -> (r: Option<()>)
        ensures
            r is Some <==> !old(self)@.contains_key(item.0),
            r is Some ==> final(self)@ == old(self)@.insert(item.0, item.1),
    {
        broadcast use vstd::std_specs::hash::group_hash_axioms;
        broadcast use vstd::multiset::group_multiset_axioms;

        proof {
            K::lemma_key_model();
        }
        let (key, val) = item;
        let ghost before = self@;
        proof {
            if before.contains_key(key) {
                lemma_pairs_count(before, key, before[key]);
            } else {
                assert forall|y: (K, V)| pairs(before).contains(y) implies !Self::clashes(
                    item,
                    y,
                ) by {
                    lemma_pairs_count(before, y.0, y.1);
                }
            }
        }
        if self.contains_key(&key) {
            proof {
                let held = (key, before[key]);
                assert(pairs(before).contains(held) && Self::clashes(item, held));
            }
            return None;
        }
        self.insert(key, val);
        proof {
            assert forall|kv: (K, V)| pairs(self@).count(kv) == pairs(before).insert(item).count(
                kv,
            ) by {
                lemma_pairs_count(self@, kv.0, kv.1);
                lemma_pairs_count(before, kv.0, kv.1);
            }
        }
        Some(())
    }

    fn len(&self) -> (n: usize)
        ensures
            n == self@.len(),
    {
        broadcast use vstd::std_specs::hash::group_hash_axioms;

        proof {
            K::lemma_key_model();
            lemma_pairs_len(self@);
        }
        map_len(self)
    }

    fn clear(&mut self)
        ensures
            final(self)@ == Map::<K, V>::empty(),
    {
        broadcast use vstd::multiset::group_multiset_axioms;

        map_clear(self);
        proof {
            assert forall|kv: (K, V)| pairs(self@).count(kv) == 0 by {
                lemma_pairs_count(self@, kv.0, kv.1);
            }
        }
    }

    fn take_items(&mut self) -> (v: Vec<(K, V)>)
        ensures
            is_listing(v@, old(self)@),
            final(self)@ == Map::<K, V>::empty(),
    {
        broadcast use vstd::std_specs::hash::group_hash_axioms;
        broadcast use vstd::multiset::group_multiset_axioms;

        proof {
            K::lemma_key_model();
        }
        let mut held: HashMap<K, V> = HashMap::new();
        core::mem::swap(self, &mut held);
        let ghost before = held@;
        let listed = into_pairs(held);
        proof {
            lemma_listing_holds_pairs(listed@, before);
            assert forall|kv: (K, V)| pairs(self@).count(kv) == 0 by {
                lemma_pairs_count(self@, kv.0, kv.1);
            }
        }
        listed
    }
}

} // verus!
