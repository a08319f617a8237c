//! Traits for indexed access into the containers held by a pool.

use vstd::prelude::*;

use crate::index::ContiguousIx;
use crate::pool::{GetMut, GetRef};

use super::ContainerPool;

verus! {

/// Given a key `K` and an element index, get a reference to the associated
/// element of the container the key names.
pub trait GetIndex<K>: ContainerPool<K> {
    /// Try to get a reference to element `elem` of the container at `key`.
    fn get_index(&self, key: K, elem: usize) -> (r: Option<&Self::Elem>)
        requires
            self.pool_wf(),
            self.key_ok(key),
        ensures
            match r {
                Some(v) => elem < self.container_at(key).len() && *v == self.container_at(
                    key,
                )[elem as int],
                None => elem >= self.container_at(key).len(),
            },
    ;

    /// Get a reference to element `elem` of the container at `key`.
    ///
    /// Panics if the index is out of bounds.
    fn get_index_unchecked(&self, key: K, elem: usize) -> (r: &Self::Elem)
        requires
            self.pool_wf(),
            self.key_ok(key),
            elem < self.container_at(key).len(),
        ensures
            *r == self.container_at(key)[elem as int],
    {
        match self.get_index(key, elem) {
            Some(v) => v,
            None => vstd::pervasive::unreached(),
        }
    }
}

/// Given a key `K` and an element index, get a mutable reference to the
/// associated element of the container the key names.
pub trait GetIndexMut<K>: ContainerPool<K> {
    /// Try to get a mutable reference to element `elem` of the container at
    /// `key`.
    fn get_index_mut(&mut self, key: K, elem: usize) -> (r: Option<&mut Self::Elem>)
        requires
            old(self).pool_wf(),
            old(self).key_ok(key),
        ensures
            match r {
                Some(m) => {
                    &&& elem < old(self).container_at(key).len()
                    &&& *m == old(self).container_at(key)[elem as int]
                    &&& final(self).pool_wf()
                    &&& final(self).key_ok(key)
                    &&& final(self).container_at(key) == old(self).container_at(key).update(
                        elem as int,
                        *final(m),
                    )
                    &&& super::frame_except(*old(self), *final(self), key)
                },
                None => elem >= old(self).container_at(key).len() && *final(self) == *old(self),
            },
    ;

    /// Get a mutable reference to element `elem` of the container at `key`.
    ///
    /// Panics if the index is out of bounds.
    fn get_index_mut_unchecked(&mut self, key: K, elem: usize) -> (r: &mut Self::Elem)
        requires
            old(self).pool_wf(),
            old(self).key_ok(key),
            elem < old(self).container_at(key).len(),
        ensures
            *r == old(self).container_at(key)[elem as int],
            final(self).pool_wf(),
            final(self).key_ok(key),
            final(self).container_at(key) == old(self).container_at(key).update(
                elem as int,
                *final(r),
            ),
            super::frame_except(*old(self), *final(self), key),
    {
        match self.get_index_mut(key, elem) {
            Some(m) => m,
            None => vstd::pervasive::unreached(),
        }
    }
}

impl<K, V> GetRef<K, V> for Vec<V> where K: ContiguousIx {
    open spec fn can_get(&self, key: K) -> bool {
        0 <= key.idx() <= K::max_spec()
    }

    open spec fn sees(&self, key: K) -> Option<V> {
        if 0 <= key.idx() < self@.len() {
            Some(self@[key.idx()])
        } else {
            None
        }
    }

    fn try_get(&self, key: K) -> (r: Option<&V>) {
        let ix = key.index();
        if ix < self.len() {
            Some(&self[ix])
        } else {
            None
        }
    }
}

impl<K, V> GetMut<K, V> for Vec<V> where K: ContiguousIx {
    fn try_get_mut(&mut self, key: K) -> (r: Option<&mut V>) {
        let ix = key.index();
        if ix < self.len() {
            Some(&mut self[ix])
        } else {
            None
        }
    }
}

impl<K, V> GetRef<K, V> for std::collections::VecDeque<V> where K: ContiguousIx {
    open spec fn can_get(&self, key: K) -> bool {
        0 <= key.idx() <= K::max_spec()
    }

    open spec fn sees(&self, key: K) -> Option<V> {
        if 0 <= key.idx() < self@.len() {
            Some(self@[key.idx()])
        } else {
            None
        }
    }

    fn try_get(&self, key: K) -> (r: Option<&V>) {
        let ix = key.index();
        if ix < self.len() {
            Some(&self[ix])
        } else {
            None
        }
    }
}

} // verus!
