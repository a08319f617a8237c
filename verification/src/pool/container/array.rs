//! Traits for pools whose containers behave like arrays and contiguous
//! slices.

use vstd::prelude::*;

use super::map::{GetIndex, GetIndexMut};
use super::stack::StackPool;
use super::{Container, ContainerPool, LenPool};

verus! {

/// A container whose elements sit in one contiguous slice.
pub trait SliceContainer: Container {
    /// Borrow the elements as a slice.
    fn elem_slice(&self) -> (r: &[Self::Elem])
        ensures
            r@ == self.elems(),
    ;

    /// Borrow the elements as a mutable slice.
    fn elem_slice_mut(&mut self) -> (r: &mut [Self::Elem])
        ensures
            r@ == old(self).elems(),
            final(self).elems() == final(r)@,
    ;

    /// Borrow one element mutably.
    fn elem_at_mut(&mut self, i: usize) -> (r: &mut Self::Elem)
        requires
            i < old(self).elems().len(),
        ensures
            *r == old(self).elems()[i as int],
            final(self).elems() == old(self).elems().update(i as int, *final(r)),
    ;
}

impl<V> SliceContainer for Vec<V> {
    fn elem_slice(&self) -> &[V] {
        self.as_slice()
    }

    fn elem_slice_mut(&mut self) -> &mut [V] {
        self.as_mut_slice()
    }

    fn elem_at_mut(&mut self, i: usize) -> &mut V {
        &mut self[i]
    }
}

/// A pool allocating immutable arrays containing elements of type
/// `Self::Elem`.
///
/// Automatically implemented for any [`ContainerPool`] implementing
/// [`LenPool`] and [`GetIndex`].
pub trait ArrayRefPool<K>: ContainerPool<K> + LenPool<K> + GetIndex<K> {

}

impl<P, K> ArrayRefPool<K> for P where P: ContainerPool<K> + LenPool<K> + GetIndex<K> {

}

/// A pool allocating mutable arrays containing elements of type
/// `Self::Elem`.
///
/// Automatically implemented for any [`ContainerPool`] implementing
/// [`LenPool`] and [`GetIndexMut`].
pub trait ArrayMutPool<K>: ContainerPool<K> + LenPool<K> + GetIndexMut<K> {

}

impl<P, K> ArrayMutPool<K> for P where P: ContainerPool<K> + LenPool<K> + GetIndexMut<K> {

}

/// A pool allocating arrays containing elements of type `Self::Elem`.
///
/// Automatically implemented for any pool implementing [`ArrayRefPool`] and
/// [`ArrayMutPool`].
pub trait ArrayPool<K>: ArrayRefPool<K> + ArrayMutPool<K> {

}

impl<P, K> ArrayPool<K> for P where P: ArrayRefPool<K> + ArrayMutPool<K> {

}

/// A pool allocating immutable slices of `Self::Elem`.
pub trait SliceRefPool<K>: ArrayRefPool<K> {
    /// Borrow the container at `ix` as a slice.
    fn slice_at(&self, ix: K) -> (r: &[Self::Elem])
        requires
            self.pool_wf(),
            self.key_ok(ix),
        ensures
            r@ == self.container_at(ix),
    ;
}

/// A pool allocating mutable slices of `Self::Elem`.
pub trait SliceMutPool<K>: ArrayMutPool<K> {
    /// Borrow the container at `ix` as a mutable slice.
    fn slice_at_mut(&mut self, ix: K) -> (r: &mut [Self::Elem])
        requires
            old(self).pool_wf(),
            old(self).key_ok(ix),
        ensures
            r@ == old(self).container_at(ix),
            final(self).pool_wf(),
            final(self).key_ok(ix),
            final(self).container_at(ix) == final(r)@,
            final(r)@.len() == r@.len() ==> super::frame_except(*old(self), *final(self), ix),
    ;
}

/// A pool allocating slices of `Self::Elem`.
///
/// Automatically implemented for any pool implementing [`SliceRefPool`] and
/// [`SliceMutPool`].
pub trait SlicePool<K>: SliceRefPool<K> + SliceMutPool<K> {

}

impl<P, K> SlicePool<K> for P where P: SliceRefPool<K> + SliceMutPool<K> {

}

/// A pool containing array lists: growable arrays.
///
/// Automatically implemented for any pool implementing [`ArrayPool`] and
/// [`StackPool`].
pub trait ArrayListPool<K>: ArrayPool<K> + StackPool<K> {

}

impl<P, K> ArrayListPool<K> for P where P: ArrayPool<K> + StackPool<K> {

}

/// A pool containing growable arrays allocated in a contiguous slice.
///
/// Automatically implemented for any pool implementing [`SlicePool`] and
/// [`StackPool`].
pub trait VecPool<K>: SlicePool<K> + StackPool<K> {

}

impl<P, K> VecPool<K> for P where P: SlicePool<K> + StackPool<K> {

}

} // verus!
