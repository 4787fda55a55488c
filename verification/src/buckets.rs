//! The per-octant counters of a redistribution pass, and their order of
//! subdivision: largest first.

use core::cmp::Ordering;
use vstd::prelude::*;

verus! {

/// `order` lists the eight octants, each once and each with its counter from
/// `counts`, so that the counters do not grow along the list. Octants with
/// equal counters may stand in any order.
pub open spec fn is_descending_order(order: Seq<(usize, usize)>, counts: Seq<usize>) -> bool {
    &&& order.len() == 8
    &&& counts.len() == 8
    &&& forall|j: int|
        0 <= j < 8 ==> (#[trigger] order[j]).0 < 8 && order[j].1 == counts[order[j].0 as int]
    &&& forall|i: int, j: int|
        0 <= i < 8 && 0 <= j < 8 && i != j ==> (#[trigger] order[i]).0 != (#[trigger] order[j]).0
    &&& forall|i: int, j: int|
        0 <= i <= j < 8 ==> (#[trigger] order[i]).1 >= (#[trigger] order[j]).1
    &&& forall|o: int| 0 <= o < 8 ==> #[trigger] lists(order, o)
}

/// Octant `o` stands somewhere in `order`.
pub open spec fn lists(order: Seq<(usize, usize)>, o: int) -> bool {
    exists|j: int| 0 <= j < order.len() && (#[trigger] order[j]).0 == o
}

/// Orders two (octant, counter) pairs so that the larger counter comes first.
pub fn count_descending(a: &(usize, usize), b: &(usize, usize)) -> (r: Ordering)
    ensures
        match r {
            Ordering::Less => b.1 < a.1,
            Ordering::Equal => b.1 == a.1,
            Ordering::Greater => b.1 > a.1,
        },
{
    if b.1 < a.1 {
        Ordering::Less
    } else if b.1 == a.1 {
        Ordering::Equal
    } else {
        Ordering::Greater
    }
}

/// `<[T]>::sort_unstable_by` with [`count_descending`]: the slice is
/// rearranged in place, it holds the same pairs afterwards, and a pair never
/// stands before one with a larger counter. The order of pairs with equal
/// counters is not fixed.
#[verifier::external_body]
fn sort_by_count(buckets: &mut Vec<(usize, usize)>)
    ensures
        final(buckets)@.to_multiset() == old(buckets)@.to_multiset(),
        forall|i: int, j: int|
            0 <= i <= j < final(buckets)@.len() ==> final(buckets)@[i].1 >= final(buckets)@[j].1,
{
    buckets.sort_unstable_by(|a, b| count_descending(a, b));
}

/// The eight octants with their counters, largest counter first.
pub fn sort_bucket_sizes(sizes: [usize; 8]) -> (order: Vec<(usize, usize)>)
    ensures
        is_descending_order(order@, sizes@),
{
    let mut bucket_sizes: Vec<(usize, usize)> = Vec::new();
    let mut i: usize = 0;
    while i < 8
        invariant
            i <= 8,
            bucket_sizes@.len() == i,
            forall|k: int| 0 <= k < i ==> bucket_sizes@[k] == (k as usize, sizes@[k]),
        decreases 8 - i,
    {
        bucket_sizes.push((i, sizes[i]));
        i += 1;
    }
    let ghost listed = bucket_sizes@;
    sort_by_count(&mut bucket_sizes);
    proof {
        let order = bucket_sizes@;
        listed.to_multiset_ensures();
        order.to_multiset_ensures();
        listed.lemma_multiset_has_no_duplicates();
        order.lemma_multiset_has_no_duplicates_conv();
        assert forall|j: int| 0 <= j < 8 implies (#[trigger] order[j]).0 < 8 && order[j].1
            == sizes@[order[j].0 as int] by {
            assert(listed.to_multiset().count(order[j]) > 0);
        }
        assert forall|o: int| 0 <= o < 8 implies #[trigger] lists(order, o) by {
            assert(order.to_multiset().count(listed[o]) > 0);
        }
    }
    bucket_sizes
}

} // verus!
