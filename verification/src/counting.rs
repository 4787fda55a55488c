//! Facts about filtered multisets that the rebalancing proofs count with.

use vstd::multiset::Multiset;
use vstd::prelude::*;

verus! {

/// Filtering after inserting `x` inserts `x` into the filtered multiset, or
/// changes nothing, as `x` passes the filter or not.
pub proof fn lemma_filter_insert<T>(m: Multiset<T>, p: spec_fn(T) -> bool, x: T)
    ensures
        m.insert(x).filter(p) == if p(x) {
            m.filter(p).insert(x)
        } else {
            m.filter(p)
        },
        m.insert(x).filter(p).len() == m.filter(p).len() + if p(x) {
            1int
        } else {
            0int
        },
{
    broadcast use vstd::multiset::group_multiset_axioms;

    if p(x) {
        assert(m.insert(x).filter(p) =~= m.filter(p).insert(x));
    } else {
        assert(m.insert(x).filter(p) =~= m.filter(p));
    }
}

/// Nothing passes a filter on the empty multiset.
pub proof fn lemma_filter_empty<T>(p: spec_fn(T) -> bool)
    ensures
        Multiset::<T>::empty().filter(p) == Multiset::<T>::empty(),
        Multiset::<T>::empty().filter(p).len() == 0,
{
    broadcast use vstd::multiset::group_multiset_axioms;

    assert(Multiset::<T>::empty().filter(p) =~= Multiset::<T>::empty());
}

/// Two filters that agree on every item of `m` select the same.
pub proof fn lemma_filter_agree<T>(m: Multiset<T>, p: spec_fn(T) -> bool, q: spec_fn(T) -> bool)
    requires
        forall|x: T| m.contains(x) ==> p(x) == q(x),
    ensures
        m.filter(p) == m.filter(q),
{
    broadcast use vstd::multiset::group_multiset_axioms;

    assert forall|x: T| m.filter(p).count(x) == m.filter(q).count(x) by {
        if m.contains(x) {
        } else {
            assert(m.count(x) == 0);
        }
    }
    assert(m.filter(p) =~= m.filter(q));
}

/// A multiset splits into what passes a filter and what does not.
pub proof fn lemma_filter_partition<T>(
    m: Multiset<T>,
    p: spec_fn(T) -> bool,
    q: spec_fn(T) -> bool,
)
    requires
        forall|x: T| m.contains(x) ==> p(x) != q(x),
    ensures
        m == m.filter(p).add(m.filter(q)),
        m.len() == m.filter(p).len() + m.filter(q).len(),
{
    broadcast use vstd::multiset::group_multiset_axioms;

    assert forall|x: T| m.count(x) == m.filter(p).add(m.filter(q)).count(x) by {
        if m.contains(x) {
        } else {
            assert(m.count(x) == 0);
        }
    }
    assert(m =~= m.filter(p).add(m.filter(q)));
}

/// Where a condition is the disjunction of two that exclude each other, what
/// passes it is what passes either.
pub proof fn lemma_filter_split<T>(
    m: Multiset<T>,
    p: spec_fn(T) -> bool,
    one: spec_fn(T) -> bool,
    other: spec_fn(T) -> bool,
)
    requires
        forall|x: T| m.contains(x) ==> p(x) == (one(x) || other(x)),
        forall|x: T| m.contains(x) ==> !(one(x) && other(x)),
    ensures
        m.filter(p) == m.filter(one).add(m.filter(other)),
        m.filter(p).len() == m.filter(one).len() + m.filter(other).len(),
{
    broadcast use vstd::multiset::group_multiset_axioms;

    assert forall|x: T| m.filter(p).count(x) == m.filter(one).add(m.filter(other)).count(x) by {
        if m.contains(x) {
        } else {
            assert(m.count(x) == 0);
        }
    }
    assert(m.filter(p) =~= m.filter(one).add(m.filter(other)));
}

/// A multiset that is not empty holds an item.
pub proof fn lemma_nonempty_has_item<T>(m: Multiset<T>)
    requires
        m.len() > 0,
    ensures
        m.contains(m.choose()),
{
    broadcast use vstd::multiset::group_multiset_axioms;

}

/// A filter that every item passes selects everything.
pub proof fn lemma_filter_all<T>(m: Multiset<T>, p: spec_fn(T) -> bool)
    requires
        forall|x: T| m.contains(x) ==> p(x),
    ensures
        m.filter(p) == m,
{
    broadcast use vstd::multiset::group_multiset_axioms;

    assert forall|x: T| m.filter(p).count(x) == m.count(x) by {
        if m.contains(x) {
        } else {
            assert(m.count(x) == 0);
        }
    }
    assert(m.filter(p) =~= m);
}

/// Filtering twice is filtering by both conditions.
pub proof fn lemma_filter_twice<T>(
    m: Multiset<T>,
    p: spec_fn(T) -> bool,
    q: spec_fn(T) -> bool,
    both: spec_fn(T) -> bool,
)
    requires
        forall|x: T| m.contains(x) ==> both(x) == (p(x) && q(x)),
    ensures
        m.filter(p).filter(q) == m.filter(both),
{
    broadcast use vstd::multiset::group_multiset_axioms;

    assert forall|x: T| m.filter(p).filter(q).count(x) == m.filter(both).count(x) by {
        if m.contains(x) {
        } else {
            assert(m.count(x) == 0);
        }
    }
    assert(m.filter(p).filter(q) =~= m.filter(both));
}

/// What passes a filter is part of the whole, so it is no longer.
pub proof fn lemma_filter_len_le<T>(m: Multiset<T>, p: spec_fn(T) -> bool)
    ensures
        m.filter(p).len() <= m.len(),
{
    let q = |x: T| !p(x);
    lemma_filter_partition(m, p, q);
}

/// A part of a multiset has no more items passing a filter than the whole.
pub proof fn lemma_filter_len_mono<T>(a: Multiset<T>, b: Multiset<T>, p: spec_fn(T) -> bool)
    requires
        a.subset_of(b),
    ensures
        a.filter(p).len() <= b.filter(p).len(),
{
    broadcast use vstd::multiset::group_multiset_axioms;

    let rest = b.sub(a);
    assert(b =~= a.add(rest));
    assert(b.filter(p) =~= a.filter(p).add(rest.filter(p)));
}

/// The items of a prefix of a sequence are among the items of the sequence.
pub proof fn lemma_take_subset<T>(s: Seq<T>, k: int)
    requires
        0 <= k <= s.len(),
    ensures
        s.take(k).to_multiset().subset_of(s.to_multiset()),
{
    broadcast use vstd::multiset::group_multiset_axioms;

    vstd::seq_lib::lemma_multiset_commutative(s.take(k), s.skip(k));
    assert(s.take(k) + s.skip(k) =~= s);
}

/// One more item of a sequence taken is that item inserted.
pub proof fn lemma_take_next<T>(s: Seq<T>, k: int)
    requires
        0 <= k < s.len(),
    ensures
        s.take(k + 1).to_multiset() == s.take(k).to_multiset().insert(s[k]),
{
    assert(s.take(k + 1) =~= s.take(k).push(s[k]));
    s.take(k).to_multiset_ensures();
}

} // verus!
