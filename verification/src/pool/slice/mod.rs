//! A pool of slices: index ranges allocated out of one contiguous backing
//! buffer.

use vstd::prelude::*;

use crate::index::ContiguousIx;
use crate::pool::container::{frame_all, frame_except, ContainerPool, InsertEmpty};
use crate::pool::Pool;

pub mod free;

use free::{FreeSlices, Slice};

verus! {

/// A `Vec` composed of indices into a shared backing buffer.
#[derive(Debug, Copy, Clone, Eq, PartialEq, Hash, Structural)]
pub struct IVec<K> {
    /// The beginning of this vector.
    pub begin: K,
    /// The end of this vector.
    pub end: K,
    /// The end of this vector's allocation.
    pub end_alloc: K,
}

/// A pool of slices: a backing buffer together with free lists of ranges.
pub struct SlicePool<T, F> {
    /// The backing memory of this slice pool.
    pub backing: Vec<T>,
    /// The free lists of this slice pool.
    pub free: F,
}

impl<K, T, F> ContainerPool<IVec<K>> for SlicePool<T, F> where
    K: ContiguousIx,
    F: FreeSlices<T, K>,
 {
    type Elem = T;

    open spec fn pool_wf(&self) -> bool {
        &&& self.free.slices_wf(self.backing@)
        &&& self.backing@.len() <= K::max_spec()
    }

    open spec fn key_ok(&self, key: IVec<K>) -> bool {
        0 <= key.begin.idx() <= key.end.idx() <= key.end_alloc.idx() <= self.backing@.len()
    }

    open spec fn container_at(&self, key: IVec<K>) -> Seq<T> {
        self.backing@.subrange(key.begin.idx(), key.end.idx())
    }
}

impl<K, T, F> InsertEmpty<IVec<K>> for SlicePool<T, F> where
    K: ContiguousIx,
    F: FreeSlices<T, K>,
 {
    open spec fn can_insert_container(&self) -> bool {
        true
    }

    fn try_insert_empty(&mut self) -> (r: Result<IVec<K>, ()>)
        ensures
            *final(self) == *old(self),
            match r {
                Ok(v) => v.begin.idx() == 0 && v.end.idx() == 0 && v.end_alloc.idx() == 0,
                Err(()) => false,
            },
    {
        proof {
            K::max_index_bounds();
        }
        let zero = K::new(0);
        Ok(IVec { begin: zero, end: zero, end_alloc: zero })
    }

    fn insert_unique_empty(&mut self) -> (r: Result<IVec<K>, ()>)
        ensures
            r is Err,
            *final(self) == *old(self),
    {
        Err(())
    }
}

impl<K, T, F> Pool<IVec<K>> for SlicePool<T, F> where K: ContiguousIx, F: FreeSlices<T, K> {
    open spec fn can_delete(&self, key: IVec<K>) -> bool {
        &&& self.pool_wf()
        &&& self.key_ok(key)
        &&& self.free.can_free(key.begin.idx(), key.end_alloc.idx())
    }

    fn delete(&mut self, key: IVec<K>)
        ensures
            final(self).pool_wf(),
            final(self).backing@.len() == old(self).backing@.len(),
            forall|i: int|
                0 <= i < old(self).backing@.len() && !(key.begin.idx() <= i < key.end_alloc.idx())
                    ==> final(self).backing@[i] == old(self).backing@[i],
            forall|x: int, y: int|
                old(self).free.can_free(x, y) && (y <= key.begin.idx() || key.end_alloc.idx() <= x)
                    ==> #[trigger] final(self).free.can_free(x, y),
            old(self).free.deposited(final(self).free, key.begin.idx(), key.end_alloc.idx()),
    {
        self.free.dealloc(Slice(key.begin, key.end_alloc), &mut self.backing)
    }
}

impl<T, F> SlicePool<T, F> {
    /// Allocate a range able to hold at least `capacity` elements, or
    /// `None` if no free block is large enough.
    pub fn allocate<K: ContiguousIx>(&mut self, capacity: usize) -> (r: Option<IVec<K>>) where
        F: FreeSlices<T, K>,

        requires
            old(self).pool_wf(),
        ensures
            final(self).pool_wf(),
            final(self).backing@.len() == old(self).backing@.len(),
            old(self).free.ready_for(capacity as int) ==> r is Some,
            match r {
                Some(v) => 0 <= v.begin.idx() && v.begin.idx() == v.end.idx()
                    && v.begin.idx() + capacity <= v.end_alloc.idx() && v.end_alloc.idx()
                    <= old(self).backing@.len(),
                None => true,
            },
    {
        match self.free.allocate(capacity, &mut self.backing) {
            Some(s) => Some(IVec { begin: s.0, end: s.0, end_alloc: s.1 }),
            None => None,
        }
    }

    /// Try to view the range named by `key` as a slice.
    pub fn try_at<K: ContiguousIx>(&self, key: IVec<K>) -> (r: Option<&[T]>) where
        F: FreeSlices<T, K>,

        requires
            0 <= key.begin.idx() <= K::max_spec(),
            0 <= key.end.idx() <= K::max_spec(),
        ensures
            match r {
                Some(s) => key.begin.idx() <= key.end.idx() <= self.backing@.len() && s@
                    == self.backing@.subrange(key.begin.idx(), key.end.idx()),
                None => !(key.begin.idx() <= key.end.idx() <= self.backing@.len()),
            },
    {
        let b = key.begin.index();
        let e = key.end.index();
        if b <= e && e <= self.backing.len() {
            let sl: &[T] = self.backing.as_slice();
            Some(&sl[b..e])
        } else {
            None
        }
    }

    /// Try to view the range named by `key` as a mutable slice.
    pub fn try_at_mut<K: ContiguousIx>(&mut self, key: IVec<K>) -> (r: Option<&mut [T]>) where
        F: FreeSlices<T, K>,

        requires
            0 <= key.begin.idx() <= K::max_spec(),
            0 <= key.end.idx() <= K::max_spec(),
        ensures
            match r {
                Some(s) => {
                    &&& key.begin.idx() <= key.end.idx() <= old(self).backing@.len()
                    &&& s@ == old(self).backing@.subrange(key.begin.idx(), key.end.idx())
                    &&& final(self).backing@.len() == old(self).backing@.len()
                    &&& final(self).free == old(self).free
                    &&& final(s)@.len() == s@.len() ==> final(self).backing@ == old(self).backing@.subrange(0, key.begin.idx()) + final(s)@ + old(self).backing@.subrange(key.end.idx(), old(self).backing@.len() as int)
                },
                None => !(key.begin.idx() <= key.end.idx() <= old(self).backing@.len()) && *final(self) == *old(self),
            },
    {
        let b = key.begin.index();
        let e = key.end.index();
        if b <= e && e <= self.backing.len() {
            Some(crate::vecspec::slice_range_mut(&mut self.backing, b, e))
        } else {
            None
        }
    }
}

} // verus!
