//! Traits for containers used as stacks, and for pools of such containers.

use vstd::prelude::*;

use super::{frame_except, Container, ContainerPool};

verus! {

/// A trait implemented by things which can be pushed to and popped from
/// like a stack.
pub trait StackLike: Container {
    /// Whether a push will succeed (for growable stacks: always).
    spec fn push_succeeds(&self) -> bool;

    /// Push an element to a stack.
    ///
    /// Panics if the stack is out of capacity and more cannot be allocated.
    fn push_stack(&mut self, item: Self::Elem)
        ensures
            final(self).elems() == old(self).elems().push(item),
    ;

    /// Pop an element from a stack.
    ///
    /// On success, returns the popped value.  When called on an empty
    /// stack, returns `None`, leaving the stack unchanged.
    fn pop_stack(&mut self) -> (r: Option<Self::Elem>)
        ensures
            match r {
                Some(v) => old(self).elems().len() > 0 && v == old(self).elems().last() && final(self).elems() == old(self).elems().drop_last(),
                None => old(self).elems().len() == 0 && final(self).elems() == old(self).elems(),
            },
    ;

    /// Try to push an element to a stack.
    ///
    /// On failure, returns the item, leaving the stack unchanged; pushing
    /// fails if the stack is out of capacity and more cannot be allocated.
    fn try_push_stack(&mut self, item: Self::Elem) -> (r: Result<(), Self::Elem>)
        ensures
            old(self).push_succeeds() ==> r is Ok,
            match r {
                Ok(()) => final(self).elems() == old(self).elems().push(item),
                Err(it) => it == item && final(self).elems() == old(self).elems(),
            },
    ;

    /// Get the capacity of this stack.
    fn stack_capacity(&self) -> (r: usize)
        ensures
            r >= self.elems().len(),
    ;

    /// Clear the provided stack.
    ///
    /// In some implementations, the capacity of the input stack will be
    /// preserved, but this is *not* guaranteed.
    fn clear_stack(&mut self)
        ensures
            final(self).elems().len() == 0,
    ;
}

/// A pool allocating stacks containing elements of type `Self::Elem`.
///
/// The operations that may move the stack return a (potentially new) key;
/// the caller must treat the returned key as authoritative and the old key
/// as deleted.
pub trait StackPool<K>: ContainerPool<K> {
    /// Whether a push to the container at `key` will succeed (for pools of
    /// growable containers: always).
    spec fn can_push(&self, key: K) -> bool;

    /// Try to pop an element from a stack, returning a (potentially new)
    /// key for the stack as well as the popped value.
    ///
    /// Returns `None` and leaves the stack unchanged given a key for an
    /// empty stack.
    fn try_into_popped(&mut self, key: K) -> (r: Result<Option<(K, Self::Elem)>, ()>)
        requires
            old(self).pool_wf(),
            old(self).key_ok(key),
        ensures
            final(self).pool_wf(),
            match r {
                Ok(Some((rk, v))) => {
                    &&& old(self).container_at(key).len() > 0
                    &&& v == old(self).container_at(key).last()
                    &&& final(self).key_ok(rk)
                    &&& final(self).container_at(rk) == old(self).container_at(key).drop_last()
                    &&& frame_except(*old(self), *final(self), key)
                },
                Ok(None) => old(self).container_at(key).len() == 0 && final(self).key_ok(key)
                    && final(self).container_at(key) == old(self).container_at(key)
                    && frame_except(*old(self), *final(self), key),
                Err(()) => false,
            },
    ;

    /// Pop an element from a stack, returning a (potentially new) key for
    /// the stack as well as the popped value.
    fn into_popped(&mut self, key: K) -> (r: Option<(K, Self::Elem)>)
        requires
            old(self).pool_wf(),
            old(self).key_ok(key),
        ensures
            final(self).pool_wf(),
            match r {
                Some((rk, v)) => {
                    &&& old(self).container_at(key).len() > 0
                    &&& v == old(self).container_at(key).last()
                    &&& final(self).key_ok(rk)
                    &&& final(self).container_at(rk) == old(self).container_at(key).drop_last()
                    &&& frame_except(*old(self), *final(self), key)
                },
                None => old(self).container_at(key).len() == 0 && final(self).key_ok(key)
                    && final(self).container_at(key) == old(self).container_at(key)
                    && frame_except(*old(self), *final(self), key),
            },
    {
        match self.try_into_popped(key) {
            Ok(r) => r,
            Err(_) => vstd::pervasive::unreached(),
        }
    }

    /// Try to push an element to a stack, returning a (potentially new) key
    /// for the stack.
    ///
    /// On failure, returns the item, leaving the stack unchanged; pushing
    /// fails if the pool is out of capacity.
    fn try_into_pushed(&mut self, key: K, item: Self::Elem) -> (r: Result<K, Self::Elem>)
        requires
            old(self).pool_wf(),
            old(self).key_ok(key),
        ensures
            final(self).pool_wf(),
            old(self).can_push(key) ==> r is Ok,
            match r {
                Ok(rk) => {
                    &&& final(self).key_ok(rk)
                    &&& final(self).container_at(rk) == old(self).container_at(key).push(item)
                    &&& frame_except(*old(self), *final(self), key)
                },
                Err(it) => it == item,
            },
    ;

    /// Push an element to a stack, returning a (potentially new) key for
    /// the stack.
    fn into_pushed(&mut self, key: K, item: Self::Elem) -> (rk: K)
        requires
            old(self).pool_wf(),
            old(self).key_ok(key),
            old(self).can_push(key),
        ensures
            final(self).pool_wf(),
            final(self).key_ok(rk),
            final(self).container_at(rk) == old(self).container_at(key).push(item),
            frame_except(*old(self), *final(self), key),
    {
        match self.try_into_pushed(key, item) {
            Ok(rk) => rk,
            Err(_) => vstd::pervasive::unreached(),
        }
    }

    /// Try to pop an element from a stack without moving it.
    ///
    /// When called on an empty stack, returns `Ok(None)`, leaving the stack
    /// unchanged.
    fn try_pop(&mut self, key: K) -> (r: Result<Option<Self::Elem>, ()>)
        requires
            old(self).pool_wf(),
            old(self).key_ok(key),
        ensures
            final(self).pool_wf(),
            final(self).key_ok(key),
            match r {
                Ok(Some(v)) => old(self).container_at(key).len() > 0 && v == old(self).container_at(key).last() && final(self).container_at(key) == old(self).container_at(key).drop_last() && frame_except(*old(self), *final(self), key),
                Ok(None) => old(self).container_at(key).len() == 0 && final(self).container_at(key)
                    == old(self).container_at(key) && frame_except(*old(self), *final(self), key),
                Err(()) => false,
            },
    ;

    /// Pop an element from a stack.
    fn pop(&mut self, key: K) -> (r: Option<Self::Elem>)
        requires
            old(self).pool_wf(),
            old(self).key_ok(key),
        ensures
            final(self).pool_wf(),
            final(self).key_ok(key),
            match r {
                Some(v) => old(self).container_at(key).len() > 0 && v == old(self).container_at(
                    key,
                ).last() && final(self).container_at(key) == old(self).container_at(
                    key,
                ).drop_last() && frame_except(*old(self), *final(self), key),
                None => old(self).container_at(key).len() == 0 && final(self).container_at(key)
                    == old(self).container_at(key) && frame_except(*old(self), *final(self), key),
            },
    {
        match self.try_pop(key) {
            Ok(r) => r,
            Err(_) => vstd::pervasive::unreached(),
        }
    }

    /// Try to push an element to a stack without moving it.
    ///
    /// On failure, returns the item, leaving the stack unchanged.
    fn try_push(&mut self, key: K, item: Self::Elem) -> (r: Result<(), Self::Elem>)
        requires
            old(self).pool_wf(),
            old(self).key_ok(key),
        ensures
            final(self).pool_wf(),
            final(self).key_ok(key),
            old(self).can_push(key) ==> r is Ok,
            match r {
                Ok(()) => final(self).container_at(key) == old(self).container_at(key).push(item)
                    && frame_except(*old(self), *final(self), key),
                Err(it) => it == item,
            },
    ;

    /// Push an element to a stack.
    fn push(&mut self, key: K, item: Self::Elem)
        requires
            old(self).pool_wf(),
            old(self).key_ok(key),
            old(self).can_push(key),
        ensures
            final(self).pool_wf(),
            final(self).key_ok(key),
            final(self).container_at(key) == old(self).container_at(key).push(item),
            frame_except(*old(self), *final(self), key),
    {
        match self.try_push(key, item) {
            Ok(()) => (),
            Err(_) => vstd::pervasive::unreached(),
        }
    }

    /// Get the capacity of the stack corresponding to the provided key.
    ///
    /// If a number greater than the length is returned, pushing up to this
    /// number of elements to the stack will always succeed; 0 is always a
    /// safe return value.
    fn capacity(&self, key: K) -> (r: usize)
        requires
            self.pool_wf(),
            self.key_ok(key),
    ;

    /// Clear the provided stack, returning the key to an empty stack.
    fn clear(&mut self, key: K) -> (rk: K)
        requires
            old(self).pool_wf(),
            old(self).key_ok(key),
        ensures
            final(self).pool_wf(),
            final(self).key_ok(rk),
            final(self).container_at(rk).len() == 0,
            frame_except(*old(self), *final(self), key),
    ;

    /// Try to clear the provided stack without moving it.
    ///
    /// On failure, returns an error, leaving the stack unchanged.
    fn clear_pinned(&mut self, key: K) -> (r: Result<(), ()>)
        requires
            old(self).pool_wf(),
            old(self).key_ok(key),
        ensures
            final(self).pool_wf(),
            final(self).key_ok(key),
            match r {
                Ok(()) => final(self).container_at(key).len() == 0 && frame_except(
                    *old(self),
                    *final(self),
                    key,
                ),
                Err(()) => false,
            },
    ;
}

/// The elements of `s` after `n` pops.
pub open spec fn popped_n<T>(s: Seq<T>, n: int) -> Seq<T>
    recommends
        0 <= n <= s.len(),
{
    s.subrange(0, s.len() - n)
}

/// Push/pop balance: a stack that receives any `n` pushes and then `n`
/// pops holds exactly what it started with.  In particular a freshly
/// inserted empty container, after `n` pushes and `n` pops, is empty again,
/// whether or not any push moved the stack to a new key.
pub proof fn lemma_push_pop_balance<T>(s: Seq<T>, items: Seq<T>)
    ensures
        popped_n(s + items, items.len() as int) == s,
{
    assert(popped_n(s + items, items.len() as int) =~= s);
}

/// One pop after one push returns the pushed item and restores the stack.
pub proof fn lemma_push_then_pop<T>(s: Seq<T>, item: T)
    ensures
        s.push(item).len() > 0,
        s.push(item).last() == item,
        s.push(item).drop_last() == s,
{
    assert(s.push(item).drop_last() =~= s);
}

impl<V> StackLike for Vec<V> {
    open spec fn push_succeeds(&self) -> bool {
        true
    }

    fn push_stack(&mut self, item: V) {
        self.push(item);
    }

    fn pop_stack(&mut self) -> Option<V> {
        self.pop()
    }

    fn try_push_stack(&mut self, item: V) -> Result<(), V> {
        self.push(item);
        Ok(())
    }

    fn stack_capacity(&self) -> usize {
        crate::vecspec::vec_capacity(self)
    }

    fn clear_stack(&mut self) {
        self.clear();
    }
}

impl<V> StackLike for std::collections::VecDeque<V> {
    open spec fn push_succeeds(&self) -> bool {
        true
    }

    fn push_stack(&mut self, item: V) {
        self.push_back(item);
    }

    fn pop_stack(&mut self) -> Option<V> {
        self.pop_back()
    }

    fn try_push_stack(&mut self, item: V) -> Result<(), V> {
        self.push_back(item);
        Ok(())
    }

    fn stack_capacity(&self) -> usize {
        crate::vecspec::vecdeque_capacity(self)
    }

    fn clear_stack(&mut self) {
        self.clear();
    }
}

} // verus!
