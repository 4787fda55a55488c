//! The scalar capability: what a coordinate type must offer for a cube to be
//! halved and an item to be sorted into an octant.

use core::ops::Add;
use core::ops::Div;
use core::ops::Sub;
use vstd::prelude::*;
use vstd::std_specs::cmp::PartialOrdSpec;
use vstd::std_specs::ops::AddSpec;
use vstd::std_specs::ops::DivSpec;
use vstd::std_specs::ops::SubSpec;

verus! {

/// An ordered, copyable numeric type with addition, subtraction, division and
/// a multiplicative identity.
///
/// The operators are the standard ones. An implementor promises that they are
/// exact: each returns what its specification function says, so that the
/// geometry of a node is a function of its parent's.
pub trait Scalar: Copy + Default + PartialOrd + Add<Output = Self> + Sub<Output = Self> + Div<
    Output = Self,
> {
    /// The multiplicative identity.
    spec fn one_spec() -> Self;

    /// The multiplicative identity.
    fn one() -> (r: Self)
        ensures
            r == Self::one_spec(),
    ;

    /// `+`, `-`, `/` and the comparisons follow their specification functions.
    proof fn lemma_exact()
        ensures
            Self::obeys_add_spec(),
            Self::obeys_sub_spec(),
            Self::obeys_div_spec(),
            Self::obeys_partial_cmp_spec(),
    ;
}

/// `num::One::one` on `i32`: the crate defines it as the literal `1`.
#[verifier::external_body]
fn one_i32() -> (r: i32)
    ensures
        r == 1,
{
    <i32 as num::One>::one()
}

/// `num::One::one` on `i64`: the crate defines it as the literal `1`.
#[verifier::external_body]
fn one_i64() -> (r: i64)
    ensures
        r == 1,
{
    <i64 as num::One>::one()
}

impl Scalar for i32 {
    open spec fn one_spec() -> i32 {
        1
    }

    fn one() -> (r: i32) {
        one_i32()
    }

    proof fn lemma_exact() {
    }
}

impl Scalar for i64 {
    open spec fn one_spec() -> i64 {
        1
    }

    fn one() -> (r: i64) {
        one_i64()
    }

    proof fn lemma_exact() {
    }
}

/// The comparisons of `S` follow their specification functions.
pub open spec fn order_is_exact<S: Scalar>() -> bool {
    S::obeys_partial_cmp_spec()
}

/// One plus one, in `S`'s arithmetic.
pub open spec fn two<S: Scalar>() -> S {
    S::one_spec().add_spec(S::one_spec())
}

/// Half of `h`, in `S`'s arithmetic: `h / (1 + 1)`.
pub open spec fn halved<S: Scalar>(h: S) -> S {
    h.div_spec(two::<S>())
}

/// `h / (1 + 1)` can be computed in `S`.
pub open spec fn can_halve<S: Scalar>(h: S) -> bool {
    S::one_spec().add_req(S::one_spec()) && h.div_req(two::<S>())
}

/// A coordinate moved by `step` to the positive or the negative side.
pub open spec fn shifted<S: Scalar>(coord: S, step: S, positive: bool) -> S {
    if positive {
        coord.add_spec(step)
    } else {
        coord.sub_spec(step)
    }
}

/// `coord ± step` can be computed in `S`.
pub open spec fn can_shift<S: Scalar>(coord: S, step: S, positive: bool) -> bool {
    if positive {
        coord.add_req(step)
    } else {
        coord.sub_req(step)
    }
}

} // verus!
