//! A trait for list allocators.

use vstd::prelude::*;

use super::container::{frame_except, ContainerPool};

verus! {

/// A pool allocating lists of `Self::Elem`.
///
/// As with stacks, the operations that may move a list return a
/// (potentially new) key which replaces the old one; the `_pinned` forms
/// never move the list and may fail instead.
pub trait ListPool<K>: ContainerPool<K> {
    /// Whether a push to the list at `key` will succeed.
    spec fn list_can_push(&self, key: K) -> bool;

    /// Allocate a new, empty list with the given capacity.
    ///
    /// Note that the capacity is *not* guaranteed.  Returns an error on
    /// failure.
    fn new_with_capacity(&mut self, capacity: usize) -> (r: Result<K, ()>)
        requires
            old(self).pool_wf(),
        ensures
            final(self).pool_wf(),
            match r {
                Ok(k) => final(self).key_ok(k) && final(self).container_at(k).len() == 0,
                Err(()) => true,
            },
    ;

    /// Try to push an element to a list.
    ///
    /// On success, returns the list's key, which may have been changed (in
    /// this case, the old key should be considered deleted).  On failure,
    /// returns the item, leaving the list unchanged.
    fn try_push(&mut self, key: K, item: Self::Elem) -> (r: Result<K, Self::Elem>)
        requires
            old(self).pool_wf(),
            old(self).key_ok(key),
        ensures
            final(self).pool_wf(),
            old(self).list_can_push(key) ==> r is Ok,
            match r {
                Ok(rk) => final(self).key_ok(rk) && final(self).container_at(rk) == old(self).container_at(key).push(item) && frame_except(*old(self), *final(self), key),
                Err(it) => it == item,
            },
    ;

    /// Push an element to a list.
    ///
    /// On success, returns the list's key, which may have been changed (in
    /// this case, the old key should be considered deleted).  Panics on
    /// failure.
    fn push(&mut self, key: K, item: Self::Elem) -> (rk: K)
        requires
            old(self).pool_wf(),
            old(self).key_ok(key),
            old(self).list_can_push(key),
        ensures
            final(self).pool_wf(),
            final(self).key_ok(rk),
            final(self).container_at(rk) == old(self).container_at(key).push(item),
            frame_except(*old(self), *final(self), key),
    {
        match self.try_push(key, item) {
            Ok(rk) => rk,
            Err(_) => vstd::pervasive::unreached(),
        }
    }

    /// Pop an element from a list.
    ///
    /// On success, returns the popped value and the list's key, which may
    /// have changed.  When called on an empty list, returns `None`, leaving
    /// the list unchanged.
    fn pop(&mut self, key: K) -> (r: Option<(K, Self::Elem)>)
        requires
            old(self).pool_wf(),
            old(self).key_ok(key),
        ensures
            final(self).pool_wf(),
            match r {
                Some((rk, v)) => old(self).container_at(key).len() > 0 && v == old(self).container_at(key).last() && final(self).key_ok(rk) && final(self).container_at(
                    rk,
                ) == old(self).container_at(key).drop_last() && frame_except(
                    *old(self),
                    *final(self),
                    key,
                ),
                None => old(self).container_at(key).len() == 0 && final(self).key_ok(key) && final(self).container_at(key) == old(self).container_at(key),
            },
    ;

    /// Try to push an element to a list without moving it.
    ///
    /// On failure, returns the item, leaving the list unchanged; pushing
    /// fails if it would move the list or the pool is out of capacity.
    fn push_pinned(&mut self, key: K, item: Self::Elem) -> (r: Result<(), Self::Elem>)
        requires
            old(self).pool_wf(),
            old(self).key_ok(key),
        ensures
            final(self).pool_wf(),
            final(self).key_ok(key),
            match r {
                Ok(()) => final(self).container_at(key) == old(self).container_at(key).push(item)
                    && frame_except(*old(self), *final(self), key),
                Err(it) => it == item,
            },
    ;

    /// Pop an element from a list without moving it.
    ///
    /// When called on an empty list, returns `Ok(None)`, leaving the list
    /// unchanged; returns an error if popping would move the list.
    fn pop_pinned(&mut self, key: K) -> (r: Result<Option<Self::Elem>, ()>)
        requires
            old(self).pool_wf(),
            old(self).key_ok(key),
        ensures
            final(self).pool_wf(),
            final(self).key_ok(key),
            match r {
                Ok(Some(v)) => old(self).container_at(key).len() > 0 && v == old(self).container_at(key).last() && final(self).container_at(key) == old(self).container_at(key).drop_last() && frame_except(*old(self), *final(self), key),
                Ok(None) => old(self).container_at(key).len() == 0 && final(self).container_at(key)
                    == old(self).container_at(key),
                Err(()) => true,
            },
    ;

    /// Get the length of the list corresponding to the provided key.
    fn len(&self, key: K) -> (r: usize)
        requires
            self.pool_wf(),
            self.key_ok(key),
        ensures
            r == self.container_at(key).len(),
    ;

    /// Get the capacity of the list corresponding to the provided key.
    ///
    /// The result is at least the length of the list; pushing up to the
    /// difference will not move the list.
    fn capacity(&self, key: K) -> (r: usize)
        requires
            self.pool_wf(),
            self.key_ok(key),
        ensures
            r >= self.container_at(key).len(),
    ;

    /// Clear the provided list, returning the key to an empty list.
    fn clear(&mut self, key: K) -> (rk: K)
        requires
            old(self).pool_wf(),
            old(self).key_ok(key),
        ensures
            final(self).pool_wf(),
            final(self).key_ok(rk),
            final(self).container_at(rk).len() == 0,
            frame_except(*old(self), *final(self), key),
    ;

    /// Try to clear the provided list without moving it.
    ///
    /// On failure, returns an error, leaving the list unchanged.
    fn clear_pinned(&mut self, key: K) -> (r: Result<(), ()>)
        requires
            old(self).pool_wf(),
            old(self).key_ok(key),
        ensures
            final(self).pool_wf(),
            final(self).key_ok(key),
            match r {
                Ok(()) => final(self).container_at(key).len() == 0 && frame_except(
                    *old(self),
                    *final(self),
                    key,
                ),
                Err(()) => true,
            },
    ;
}

} // verus!
