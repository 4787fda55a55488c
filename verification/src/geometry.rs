//! Laws of the subdivision geometry: every level halves the cube.

use crate::managed_octree::child_geometry;
use crate::managed_octree::child_geometry_defined;
use crate::scalar::can_halve;
use crate::scalar::halved;
use crate::scalar::shifted;
use crate::scalar::Scalar;
use vstd::arithmetic::power2::lemma_pow2_pos;
use vstd::arithmetic::power2::lemma_pow2_unfold;
use vstd::arithmetic::power2::pow2;
use vstd::prelude::*;

verus! {

/// `h` halved `n` times, in `S`'s arithmetic.
pub open spec fn halved_times<S: Scalar>(h: S, n: nat) -> S
    decreases n,
{
    if n == 0 {
        h
    } else {
        halved(halved_times(h, (n - 1) as nat))
    }
}

/// The cube reached from the cube with the given centre and half-extent by
/// descending into one octant after the other, as `path` names them by their
/// signs.
pub open spec fn geometry_along<S: Scalar>(
    centre: (S, S, S),
    half_length: S,
    path: Seq<(bool, bool, bool)>,
) -> ((S, S, S), S)
    decreases path.len(),
{
    if path.len() == 0 {
        (centre, half_length)
    } else {
        let parent = geometry_along(centre, half_length, path.drop_last());
        child_geometry(parent.0, parent.1, path.last().0, path.last().1, path.last().2)
    }
}

/// The quotient of `a` by a positive `b`, rounded towards zero.
pub open spec fn truncated_quotient(a: int, b: int) -> int {
    if a >= 0 {
        a / b
    } else {
        -((-a) / b)
    }
}

/// All eight children of a cube have half its half-extent, and each has its
/// centre at the parent's centre moved by that half-extent along every axis,
/// to the side that the octant's sign names.
pub proof fn lemma_children_halve_the_cube<S: Scalar>(
    centre: (S, S, S),
    half_length: S,
    pos_x: bool,
    pos_y: bool,
    pos_z: bool,
)
    ensures
        child_geometry(centre, half_length, pos_x, pos_y, pos_z).1 == halved(half_length),
        child_geometry(centre, half_length, pos_x, pos_y, pos_z).0.0 == shifted(
            centre.0,
            halved(half_length),
            pos_x,
        ),
        child_geometry(centre, half_length, pos_x, pos_y, pos_z).0.1 == shifted(
            centre.1,
            halved(half_length),
            pos_y,
        ),
        child_geometry(centre, half_length, pos_x, pos_y, pos_z).0.2 == shifted(
            centre.2,
            halved(half_length),
            pos_z,
        ),
{
}

/// A cube `n` levels below a cube of half-extent `h` has half-extent `h`
/// halved `n` times, whichever octants lead to it.
pub proof fn lemma_half_length_at_depth<S: Scalar>(
    centre: (S, S, S),
    half_length: S,
    path: Seq<(bool, bool, bool)>,
)
    ensures
        geometry_along(centre, half_length, path).1 == halved_times(half_length, path.len()),
    decreases path.len(),
{
    if path.len() > 0 {
        lemma_half_length_at_depth(centre, half_length, path.drop_last());
    }
}

/// In `i64`, halving is division by two, rounded towards zero, and is always
/// possible.
pub proof fn lemma_halved_i64(h: i64)
    ensures
        can_halve::<i64>(h),
        halved::<i64>(h) == truncated_quotient(h as int, 2),
{
}

/// In `i32`, halving is division by two, rounded towards zero, and is always
/// possible.
pub proof fn lemma_halved_i32(h: i32)
    ensures
        can_halve::<i32>(h),
        halved::<i32>(h) == truncated_quotient(h as int, 2),
{
}

/// Dividing by `2^n` and then by two, both rounded towards zero, is dividing
/// by `2^(n+1)`.
proof fn lemma_truncated_quotient_step(a: int, n: nat)
    ensures
        truncated_quotient(truncated_quotient(a, pow2(n) as int), 2) == truncated_quotient(
            a,
            pow2(n + 1) as int,
        ),
{
    lemma_pow2_pos(n);
    lemma_pow2_unfold(n + 1);
    let b = pow2(n) as int;
    if a >= 0 {
        vstd::arithmetic::div_mod::lemma_div_denominator(a, b, 2);
    } else {
        vstd::arithmetic::div_mod::lemma_div_denominator(-a, b, 2);
    }
}

/// In `i64`, a cube `n` levels below a root of half-extent `h` has
/// half-extent `h / 2^n`, rounded towards zero.
pub proof fn lemma_halved_times_i64(h: i64, n: nat)
    ensures
        halved_times::<i64>(h, n) == truncated_quotient(h as int, pow2(n) as int),
    decreases n,
{
    if n == 0 {
        vstd::arithmetic::power2::lemma2_to64();
    } else {
        lemma_halved_times_i64(h, (n - 1) as nat);
        lemma_truncated_quotient_step(h as int, (n - 1) as nat);
    }
}

/// In `i32`, a cube `n` levels below a root of half-extent `h` has
/// half-extent `h / 2^n`, rounded towards zero.
pub proof fn lemma_halved_times_i32(h: i32, n: nat)
    ensures
        halved_times::<i32>(h, n) == truncated_quotient(h as int, pow2(n) as int),
    decreases n,
{
    if n == 0 {
        vstd::arithmetic::power2::lemma2_to64();
    } else {
        lemma_halved_times_i32(h, (n - 1) as nat);
        lemma_truncated_quotient_step(h as int, (n - 1) as nat);
    }
}

/// In `i64`, the cube of a child can be computed exactly if each coordinate
/// of its centre fits, and then that coordinate is the parent's plus or minus
/// half the half-extent.
pub proof fn lemma_child_geometry_i64(
    centre: (i64, i64, i64),
    half_length: i64,
    pos_x: bool,
    pos_y: bool,
    pos_z: bool,
)
    ensures
        ({
            let q = truncated_quotient(half_length as int, 2);
            let x = centre.0 + if pos_x { q } else { -q };
            let y = centre.1 + if pos_y { q } else { -q };
            let z = centre.2 + if pos_z { q } else { -q };
            let child = child_geometry(centre, half_length, pos_x, pos_y, pos_z);
            &&& child_geometry_defined(centre, half_length, pos_x, pos_y, pos_z) <==> (i64::MIN
                <= x <= i64::MAX && i64::MIN <= y <= i64::MAX && i64::MIN <= z <= i64::MAX)
            &&& child_geometry_defined(centre, half_length, pos_x, pos_y, pos_z) ==> child.0.0
                == x && child.0.1 == y && child.0.2 == z && child.1 == q
        }),
{
}

/// In `i32`, the cube of a child can be computed exactly if each coordinate
/// of its centre fits, and then that coordinate is the parent's plus or minus
/// half the half-extent.
pub proof fn lemma_child_geometry_i32(
    centre: (i32, i32, i32),
    half_length: i32,
    pos_x: bool,
    pos_y: bool,
    pos_z: bool,
)
    ensures
        ({
            let q = truncated_quotient(half_length as int, 2);
            let x = centre.0 + if pos_x { q } else { -q };
            let y = centre.1 + if pos_y { q } else { -q };
            let z = centre.2 + if pos_z { q } else { -q };
            let child = child_geometry(centre, half_length, pos_x, pos_y, pos_z);
            &&& child_geometry_defined(centre, half_length, pos_x, pos_y, pos_z) <==> (i32::MIN
                <= x <= i32::MAX && i32::MIN <= y <= i32::MAX && i32::MIN <= z <= i32::MAX)
            &&& child_geometry_defined(centre, half_length, pos_x, pos_y, pos_z) ==> child.0.0
                == x && child.0.1 == y && child.0.2 == z && child.1 == q
        }),
{
}

} // verus!
