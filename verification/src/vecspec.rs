//! Wrappers for the few `Vec` methods the pools use that `vstd` gives no
//! contract for.

use vstd::prelude::*;

verus! {

/// Relies on `Vec::capacity`: the number of elements the vector can hold
/// without reallocating, never below its length.
#[verifier::external_body]
pub(crate) fn vec_capacity<T>(v: &Vec<T>) -> (r: usize)
    ensures
        r >= v@.len(),
{
    v.capacity()
}

/// Relies on `Vec::shrink_to_fit`: drops excess capacity; the elements are
/// unchanged.
#[verifier::external_body]
pub(crate) fn vec_shrink_to_fit<T>(v: &mut Vec<T>)
    ensures
        final(v)@ == old(v)@,
{
    v.shrink_to_fit()
}

/// Relies on `VecDeque::capacity`: the number of elements the deque can
/// hold without reallocating, never below its length.
#[verifier::external_body]
pub(crate) fn vecdeque_capacity<T>(v: &std::collections::VecDeque<T>) -> (r: usize)
    ensures
        r >= v@.len(),
{
    v.capacity()
}

/// Relies on range indexing of a vector's element buffer
/// (`IndexMut<Range<usize>>` on slices): borrows `v[b..e]` mutably; the
/// elements outside the range are untouched, and writes through the
/// returned slice land at `b..e`.
#[verifier::external_body]
pub(crate) fn slice_range_mut<T>(v: &mut Vec<T>, b: usize, e: usize) -> (r: &mut [T])
    requires
        b <= e,
        e <= old(v)@.len(),
    ensures
        r@ == old(v)@.subrange(b as int, e as int),
        final(r)@.len() == e - b,
        final(v)@ == old(v)@.subrange(0, b as int) + final(r)@ + old(v)@.subrange(
            e as int,
            old(v)@.len() as int,
        ),
{
    &mut v[b..e]
}

} // verus!
