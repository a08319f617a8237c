//! Lists backed by a pool: a list is just a key, and every operation takes
//! the owning pool.

use vstd::prelude::*;

use crate::pool::container::array::{ArrayMutPool, ArrayRefPool, SliceMutPool, SliceRefPool};
use crate::pool::container::stack::StackPool;
use crate::pool::container::{frame_except, ContainerPool, InsertEmpty, IsEmptyPool, LenPool};

verus! {

/// A list backed by a pool of type `P`: a thin wrapper around the pool key
/// that addresses the list's storage.
pub struct EntityList<T, K, P> {
    /// The key of this list's storage in the owning pool.
    pub ix: K,
    /// Marker for the element and pool types.
    pub data: core::marker::PhantomData<(T, P)>,
}

impl<T, K, P> EntityList<T, K, P> {
    /// The pool key this list stands for.
    pub open spec fn key_spec(&self) -> K {
        self.ix
    }
}

impl<T, K: core::fmt::Debug, P> EntityList<T, K, P> {
    /// Render this list handle for diagnostics.
    ///
    /// Relies on `core::fmt`'s `Debug` formatting of the key.
    #[verifier::external_body]
    pub fn debug_string(&self) -> String {
        format!("EntityList({:?})", self.ix)
    }
}

impl<T, K: Copy, P> Clone for EntityList<T, K, P> {
    fn clone(&self) -> (r: Self)
        ensures
            r == *self,
    {
        EntityList { ix: self.ix, data: core::marker::PhantomData }
    }
}

impl<T, K: Copy, P> Copy for EntityList<T, K, P> {

}

impl<T, K: PartialEq + vstd::std_specs::cmp::PartialEqSpec, P> PartialEq for EntityList<T, K, P> {
    fn eq(&self, other: &Self) -> (r: bool) {
        self.ix == other.ix
    }
}

impl<T, K: PartialEq + vstd::std_specs::cmp::PartialEqSpec, P> vstd::std_specs::cmp::PartialEqSpecImpl for EntityList<T, K, P> {
    open spec fn obeys_eq_spec() -> bool {
        K::obeys_eq_spec()
    }

    open spec fn eq_spec(&self, other: &Self) -> bool {
        self.ix.eq_spec(&other.ix)
    }
}

impl<T, K: PartialOrd + vstd::std_specs::cmp::PartialEqSpec + vstd::std_specs::cmp::PartialOrdSpec, P> PartialOrd for EntityList<T, K, P> {
    fn partial_cmp(&self, other: &Self) -> (r: Option<core::cmp::Ordering>) {
        self.ix.partial_cmp(&other.ix)
    }
}

impl<T, K: PartialOrd + vstd::std_specs::cmp::PartialEqSpec + vstd::std_specs::cmp::PartialOrdSpec, P> vstd::std_specs::cmp::PartialOrdSpecImpl for EntityList<T, K, P> {
    open spec fn obeys_partial_cmp_spec() -> bool {
        K::obeys_partial_cmp_spec()
    }

    open spec fn partial_cmp_spec(&self, other: &Self) -> Option<core::cmp::Ordering> {
        self.ix.partial_cmp_spec(&other.ix)
    }
}

impl<T, K: PartialOrd + vstd::std_specs::cmp::PartialEqSpec + vstd::std_specs::cmp::PartialOrdSpec, P> EntityList<T, K, P> {
    /// Compare two lists by their keys.
    ///
    /// Behaves as the keys' total order whenever the keys' `partial_cmp`
    /// relates them; two unrelated keys compare as equal.
    pub fn cmp(&self, other: &Self) -> (r: core::cmp::Ordering)
        ensures
            K::obeys_partial_cmp_spec() && self.key_spec().partial_cmp_spec(
                &other.key_spec(),
            ) is Some ==> Some(r) == self.key_spec().partial_cmp_spec(&other.key_spec()),
    {
        match self.ix.partial_cmp(&other.ix) {
            Some(o) => o,
            None => core::cmp::Ordering::Equal,
        }
    }
}

impl<T, K: Copy, P> EntityList<T, K, P> where P: ContainerPool<K, Elem = T> {
    /// Create a new, empty list.
    pub fn new(pool: &mut P) -> (r: Self) where P: InsertEmpty<K>
        requires
            old(pool).pool_wf(),
            old(pool).can_insert_container(),
        ensures
            final(pool).pool_wf(),
            final(pool).key_ok(r.key_spec()),
            final(pool).container_at(r.key_spec()).len() == 0,
            frame_except(*old(pool), *final(pool), r.key_spec()),
    {
        EntityList { ix: pool.insert_empty(), data: core::marker::PhantomData }
    }

    /// Get the length of this list.
    pub fn len(&self, pool: &P) -> (r: usize) where P: LenPool<K>
        requires
            pool.pool_wf(),
            pool.key_ok(self.key_spec()),
        ensures
            r == pool.container_at(self.key_spec()).len(),
    {
        pool.key_len(self.ix)
    }

    /// Return `true` if this list has a length of 0.
    pub fn is_empty(&self, pool: &P) -> (r: bool) where P: IsEmptyPool<K>
        requires
            pool.pool_wf(),
            pool.key_ok(self.key_spec()),
        ensures
            r <==> pool.container_at(self.key_spec()).len() == 0,
    {
        pool.key_is_empty(self.ix)
    }

    /// Push an element to this list.
    ///
    /// The list's key may change; the updated list addresses the grown
    /// storage.
    pub fn push(&mut self, item: T, pool: &mut P) where P: StackPool<K>
        requires
            old(pool).pool_wf(),
            old(pool).key_ok(old(self).key_spec()),
            old(pool).can_push(old(self).key_spec()),
        ensures
            final(pool).pool_wf(),
            final(pool).key_ok(final(self).key_spec()),
            final(pool).container_at(final(self).key_spec()) == old(pool).container_at(
                old(self).key_spec(),
            ).push(item),
            frame_except(*old(pool), *final(pool), old(self).key_spec()),
    {
        self.ix = pool.into_pushed(self.ix, item);
    }

    /// Pop an element from this list.
    pub fn pop(&mut self, pool: &mut P) -> (r: Option<T>) where P: StackPool<K>
        requires
            old(pool).pool_wf(),
            old(pool).key_ok(old(self).key_spec()),
        ensures
            final(pool).pool_wf(),
            final(pool).key_ok(final(self).key_spec()),
            frame_except(*old(pool), *final(pool), old(self).key_spec()),
            match r {
                Some(v) => {
                    &&& old(pool).container_at(old(self).key_spec()).len() > 0
                    &&& v == old(pool).container_at(old(self).key_spec()).last()
                    &&& final(pool).container_at(final(self).key_spec()) == old(
                        pool,
                    ).container_at(old(self).key_spec()).drop_last()
                },
                None => {
                    &&& old(pool).container_at(old(self).key_spec()).len() == 0
                    &&& final(self).key_spec() == old(self).key_spec()
                    &&& final(pool).container_at(final(self).key_spec()) == old(
                        pool,
                    ).container_at(old(self).key_spec())
                },
            },
    {
        match pool.into_popped(self.ix) {
            Some((ix, result)) => {
                self.ix = ix;
                Some(result)
            },
            None => None,
        }
    }

    /// Get a reference to an element in this list.
    pub fn get<'a>(&self, ix: usize, pool: &'a P) -> (r: Option<&'a T>) where P: ArrayRefPool<K>
        requires
            pool.pool_wf(),
            pool.key_ok(self.key_spec()),
        ensures
            match r {
                Some(v) => ix < pool.container_at(self.key_spec()).len() && *v
                    == pool.container_at(self.key_spec())[ix as int],
                None => ix >= pool.container_at(self.key_spec()).len(),
            },
    {
        pool.get_index(self.ix, ix)
    }

    /// Get a mutable reference to an element in this list.
    pub fn get_mut<'a>(&self, ix: usize, pool: &'a mut P) -> (r: Option<&'a mut T>) where
        P: ArrayMutPool<K>,

        requires
            old(pool).pool_wf(),
            old(pool).key_ok(self.key_spec()),
        ensures
            match r {
                Some(m) => {
                    &&& ix < old(pool).container_at(self.key_spec()).len()
                    &&& *m == old(pool).container_at(self.key_spec())[ix as int]
                    &&& final(pool).pool_wf()
                    &&& final(pool).key_ok(self.key_spec())
                    &&& final(pool).container_at(self.key_spec()) == old(pool).container_at(
                        self.key_spec(),
                    ).update(ix as int, *final(m))
                    &&& frame_except(*old(pool), *final(pool), self.key_spec())
                },
                None => ix >= old(pool).container_at(self.key_spec()).len() && *final(pool)
                    == *old(pool),
            },
    {
        pool.get_index_mut(self.ix, ix)
    }

    /// Get this list as a slice.
    pub fn as_slice<'a>(&self, pool: &'a P) -> (r: &'a [T]) where P: SliceRefPool<K>
        requires
            pool.pool_wf(),
            pool.key_ok(self.key_spec()),
        ensures
            r@ == pool.container_at(self.key_spec()),
    {
        pool.slice_at(self.ix)
    }

    /// Get this list as a mutable slice.
    pub fn as_slice_mut<'a>(&self, pool: &'a mut P) -> (r: &'a mut [T]) where P: SliceMutPool<K>
        requires
            old(pool).pool_wf(),
            old(pool).key_ok(self.key_spec()),
        ensures
            r@ == old(pool).container_at(self.key_spec()),
            final(pool).pool_wf(),
            final(pool).key_ok(self.key_spec()),
            final(pool).container_at(self.key_spec()) == final(r)@,
            final(r)@.len() == r@.len() ==> frame_except(*old(pool), *final(pool), self.key_spec()),
    {
        pool.slice_at_mut(self.ix)
    }
}

} // verus!
