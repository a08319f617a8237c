//! A slab allocator: a growable array of slots driven by a free-list
//! strategy, recycling freed positions.

use vstd::prelude::*;

use crate::index::ContiguousIx;
use crate::slot::{InitFrom, Slot, SlotMut, SlotRef};

use super::container::array::SliceContainer;
use super::container::map::{GetIndex, GetIndexMut};
use super::container::stack::{StackLike, StackPool};
use super::container::{
    Container, ContainerPool, HasLen, InsertEmpty, InsertWithCapacity, IsEmpty, IsEmptyPool,
    LenPool, WithCapacity,
};
use super::{GetMut, GetRef, Insert, ObjectPool, Pool, Take};

pub mod free;

use free::{FreeList, FreeListCapacity, NextFreeList, RemovalList};

verus! {

/// A slab pool whose free list lives inside the freed slots themselves,
/// with no extra memory: the slots must be able to hold a key.
pub type KeySlabPool<S, K = usize> = SlabPool<S, K, free::IntrusiveFree>;

/// A simple slab allocator supporting recycling of objects with a free
/// list.
///
/// Allocates indices of type `K` corresponding to slots of type `S`; the
/// free-list strategy `F` decides where freed positions are remembered.
pub struct SlabPool<S, K = usize, F = free::KeyList<K>> {
    /// The backing array of slots.
    pub pool: Vec<S>,
    /// The free-list state.
    pub free_list: F,
    /// The key type this pool allocates.
    pub key_type: core::marker::PhantomData<K>,
}

impl<S, K, F> SlabPool<S, K, F> where S: Slot, K: ContiguousIx, F: FreeList<S, K> {
    /// The slots of this pool.
    pub open spec fn slots(&self) -> Seq<S> {
        self.pool@
    }

    /// The number of slots in this pool.
    pub open spec fn total_spec(&self) -> int {
        self.slots().len() as int
    }

    /// The indices of the free slots, in the order they will be reused.
    pub open spec fn frees(&self) -> Seq<int> {
        self.free_list.frees()
    }

    /// Whether position `i` currently holds a live value: it exists and is
    /// not on the free list.  Every position is exactly one of live or
    /// free.
    pub open spec fn live(&self, i: int) -> bool {
        0 <= i < self.total_spec() && !self.frees().contains(i)
    }

    /// The value stored at position `i` (meaningful when `live(i)`).
    pub open spec fn value_at(&self, i: int) -> S::Value {
        self.slots()[i].stored()
    }

    /// The pool's structural invariant: the free list is well formed over
    /// the backing, the backing never outgrows the key range, and every
    /// live position holds a value.
    pub open spec fn wf(&self) -> bool {
        &&& self.free_list.wf(self.pool@)
        &&& self.total_spec() <= K::max_spec() + 1
        &&& forall|i: int| self.live(i) ==> self.slots()[i].holds_value()
    }

    /// The index that the next insertion will return: the free list's next
    /// candidate if one exists, else the backing length if it is still
    /// representable.
    pub open spec fn next_key_spec(&self) -> Option<int> {
        if self.frees().len() > 0 {
            Some(self.frees()[0])
        } else if self.total_spec() <= K::max_spec() {
            Some(self.total_spec())
        } else {
            None
        }
    }

    /// How one successful insertion changes the pool: the assigned position
    /// is the one `next_key_spec` predicted, it now holds `v`, and every
    /// other live position is untouched.
    pub open spec fn insert_step(pre: Self, post: Self, k: int, v: S::Value) -> bool {
        &&& pre.next_key_spec() == Some(k)
        &&& post.total_spec() == if pre.frees().len() > 0 {
            pre.total_spec()
        } else {
            pre.total_spec() + 1
        }
        &&& post.frees() == if pre.frees().len() > 0 {
            pre.frees().drop_first()
        } else {
            pre.frees()
        }
        &&& post.live(k)
        &&& post.value_at(k) == v
        &&& forall|i: int|
            pre.live(i) && i != k ==> post.live(i) && post.value_at(i) == pre.value_at(i)
        &&& forall|i: int| post.live(i) ==> pre.live(i) || i == k
    }

    /// How one deletion changes the pool: the freed position goes to the
    /// head of the free list, and every other live position is untouched.
    pub open spec fn delete_step(pre: Self, post: Self, k: int) -> bool {
        &&& post.total_spec() == pre.total_spec()
        &&& post.frees() == seq![k] + pre.frees()
        &&& forall|i: int|
            pre.live(i) && i != k ==> post.live(i) && post.value_at(i) == pre.value_at(i)
    }

    /// Create a new, empty pool.
    pub fn new() -> (r: SlabPool<S, K, F>)
        ensures
            r.wf(),
            r.total_spec() == 0,
            r.frees().len() == 0,
    {
        proof {
            K::max_index_bounds();
        }
        SlabPool {
            pool: Vec::new(),
            free_list: F::empty(),
            key_type: core::marker::PhantomData,
        }
    }

    /// Create a new, empty pool with the given capacity.
    pub fn with_capacity(capacity: usize) -> (r: SlabPool<S, K, F>)
        ensures
            r.wf(),
            r.total_spec() == 0,
            r.frees().len() == 0,
    {
        proof {
            K::max_index_bounds();
        }
        SlabPool {
            pool: Vec::with_capacity(capacity),
            free_list: F::empty(),
            key_type: core::marker::PhantomData,
        }
    }

    /// Insert `v` into the pool, assigning a new key which is returned:
    /// the free list's next candidate if one exists, else a fresh slot.
    ///
    /// Panics if the pool has run out of space.
    pub fn insert(&mut self, v: S::Value) -> (r: K)
        requires
            old(self).wf(),
            old(self).next_key_spec() is Some,
        ensures
            final(self).wf(),
            0 <= r.idx() <= K::max_spec(),
            Self::insert_step(*old(self), *final(self), r.idx(), v),
    {
        match self.try_insert(v) {
            Ok(k) => k,
            Err(_) => vstd::pervasive::unreached(),
        }
    }

    /// Get a reference to a given slot.
    ///
    /// Note this may expose unstable internal details of the pool data
    /// structure when used on a key which has been deleted.
    ///
    /// Returns `None` if `key` is out of bounds.
    pub fn get_slot(&self, key: K) -> (r: Option<&S>)
        requires
            0 <= key.idx() <= K::max_spec(),
        ensures
            match r {
                Some(s) => key.idx() < self.total_spec() && *s == self.slots()[key.idx()],
                None => key.idx() >= self.total_spec(),
            },
    {
        let ix = key.index();
        if ix < self.pool.len() {
            Some(&self.pool[ix])
        } else {
            None
        }
    }

    /// Get a mutable reference to a given slot.
    ///
    /// Note this may expose unstable internal details of the pool data
    /// structure when used on a key which has been deleted; writing a slot
    /// that is on the free list leaves the pool in an invalid state.
    ///
    /// Returns `None` if `key` is out of bounds.
    pub fn get_slot_mut(&mut self, key: K) -> (r: Option<&mut S>)
        requires
            0 <= key.idx() <= K::max_spec(),
        ensures
            match r {
                Some(m) => {
                    &&& key.idx() < old(self).total_spec()
                    &&& *m == old(self).slots()[key.idx()]
                    &&& final(self).slots() == old(self).slots().update(key.idx(), *final(m))
                    &&& final(self).frees() == old(self).frees()
                },
                None => key.idx() >= old(self).total_spec() && *final(self) == *old(self),
            },
    {
        let ix = key.index();
        if ix < self.pool.len() {
            Some(&mut self.pool[ix])
        } else {
            None
        }
    }

    /// Get the total capacity of this pool.
    pub fn capacity(&self) -> (r: usize)
        ensures
            r >= self.total_spec(),
    {
        crate::vecspec::vec_capacity(&self.pool)
    }

    /// Get the total number of slots in this pool.
    pub fn total_slots(&self) -> (r: usize)
        ensures
            r == self.total_spec(),
    {
        self.pool.len()
    }

    /// Remove all entries from this pool, preserving its current capacity.
    pub fn clear(&mut self)
        ensures
            final(self).wf(),
            final(self).total_spec() == 0,
            final(self).frees().len() == 0,
    {
        proof {
            K::max_index_bounds();
        }
        self.free_list.clear(&mut self.pool);
        self.pool.clear();
    }

    /// Reserves capacity for at least `additional` more elements to be
    /// inserted.
    pub fn reserve(&mut self, additional: usize)
        ensures
            final(self).slots() == old(self).slots(),
            final(self).frees() == old(self).frees(),
            old(self).wf() ==> final(self).wf(),
    {
        let ghost pre = *self;
        self.pool.reserve(additional);
        proof {
            if pre.wf() {
                assert(self.free_list == pre.free_list);
                assert forall|i: int| self.live(i) implies self.slots()[i].holds_value() by {
                    assert(pre.live(i));
                }
            }
        }
    }

    /// Shrink this pool's capacity as much as possible without changing any
    /// indices.
    pub fn shrink_to_fit(&mut self)
        ensures
            final(self).slots() == old(self).slots(),
            final(self).frees() == old(self).frees(),
            old(self).wf() ==> final(self).wf(),
    {
        let ghost pre = *self;
        crate::vecspec::vec_shrink_to_fit(&mut self.pool);
        proof {
            if pre.wf() {
                assert(self.free_list == pre.free_list);
                assert forall|i: int| self.live(i) implies self.slots()[i].holds_value() by {
                    assert(pre.live(i));
                }
            }
        }
    }

}

impl<S, K, F> SlabPool<S, K, F> where S: Slot, K: ContiguousIx, F: FreeListCapacity<S, K> {
    /// Get the number of free slots in this pool.
    ///
    /// Note this is less than or equal to the free capacity.
    pub fn free_slots(&self) -> (r: usize)
        requires
            self.wf(),
        ensures
            r == self.frees().len(),
    {
        self.free_list.len(&self.pool)
    }

    /// Get the free capacity of this pool: the free slots plus the capacity
    /// not yet occupied by slots.
    pub fn free_capacity(&self) -> (r: usize)
        requires
            self.wf(),
        ensures
            r >= self.frees().len(),
    {
        proof {
            self.free_list.wf_facts(self.pool@);
            free::lemma_frees_len_bounded::<K>(self.frees(), self.total_spec());
        }
        let free = self.free_slots();
        let cap = self.capacity();
        let total = self.total_slots();
        free + (cap - total)
    }
}

impl<S, K, F> SlabPool<S, K, F> where S: Slot, K: ContiguousIx, F: NextFreeList<S, K> {
    /// Get the key that will be assigned to the next inserted value, or
    /// `None` if inserting a new value would cause the pool to overflow.
    pub fn next_key(&self) -> (r: Option<K>)
        requires
            self.wf(),
        ensures
            match r {
                Some(k) => self.next_key_spec() == Some(k.idx()),
                None => self.next_key_spec() is None,
            },
    {
        if let Some(next_free) = self.free_list.next_free(&self.pool) {
            return Some(next_free);
        }
        K::try_new(self.pool.len())
    }
}

impl<S, K, F> Insert<K, S::Value> for SlabPool<S, K, F> where
    S: Slot,
    K: ContiguousIx,
    F: FreeList<S, K>,
 {
    open spec fn insert_req(&self) -> bool {
        self.wf()
    }

    open spec fn can_insert(&self) -> bool {
        self.next_key_spec() is Some
    }

    fn try_insert(&mut self, v: S::Value) -> (r: Result<K, S::Value>)
        ensures
            final(self).wf(),
            match r {
                Ok(k) => 0 <= k.idx() <= K::max_spec() && Self::insert_step(
                    *old(self),
                    *final(self),
                    k.idx(),
                    v,
                ),
                Err(rv) => rv == v && final(self).slots() == old(self).slots() && final(self).frees() == old(self).frees(),
            },
    {
        let ghost pre = *self;
        proof {
            pre.free_list.wf_facts(pre.pool@);
        }
        if let Some(free) = self.free_list.allocate(&mut self.pool) {
            let ix = free.index();
            let slot = &mut self.pool[ix];
            slot.set_value(v);
            proof {
                let mid = self.free_list;
                let k = pre.frees()[0];
                free::lemma_drop_first_contains(pre.frees(), k);
                mid.wf_facts(pre.pool@);
                mid.wf_frame(pre.pool@, self.pool@);
                assert forall|i: int| self.live(i) implies self.slots()[i].holds_value() by {
                    free::lemma_drop_first_contains(pre.frees(), i);
                    if i != k {
                        assert(!pre.frees().contains(i));
                        assert(pre.live(i));
                        assert(pre.slots()[i].holds_value());
                        assert(self.slots()[i] == pre.slots()[i]);
                    }
                }
                assert forall|i: int|
                    pre.live(i) && i != k implies self.live(i) && self.value_at(i)
                    == pre.value_at(i) by {
                    free::lemma_drop_first_contains(pre.frees(), i);
                }
                assert forall|i: int| self.live(i) implies pre.live(i) || i == k by {
                    free::lemma_drop_first_contains(pre.frees(), i);
                }
            }
            Ok(free)
        } else {
            match K::try_new(self.pool.len()) {
                Some(ix) => {
                    self.pool.push(S::from_value(v));
                    proof {
                        self.free_list.wf_frame(pre.pool@, self.pool@);
                        assert forall|i: int| self.live(i) implies self.slots()[
                            i
                        ].holds_value() by {
                            if i < pre.total_spec() {
                                assert(pre.live(i));
                            }
                        }
                    }
                    Ok(ix)
                },
                None => {
                    proof {
                        assert forall|i: int| self.live(i) implies self.slots()[
                            i
                        ].holds_value() by {
                            assert(pre.live(i));
                            assert(self.slots()[i] == pre.slots()[i]);
                        }
                    }
                    Err(v)
                },
            }
        }
    }
}

impl<S, K, F> Pool<K> for SlabPool<S, K, F> where S: Slot, K: ContiguousIx, F: FreeList<S, K> {
    open spec fn can_delete(&self, key: K) -> bool {
        &&& self.wf()
        &&& self.live(key.idx())
        &&& self.free_list.can_free_slot(self.slots()[key.idx()])
    }

    fn delete(&mut self, key: K)
        ensures
            final(self).wf(),
            Self::delete_step(*old(self), *final(self), key.idx()),
            old(self).free_list.vacated(
                old(self).slots()[key.idx()],
                final(self).slots()[key.idx()],
            ),
    {
        let ghost pre = *self;
        proof {
            pre.free_list.wf_facts(pre.pool@);
        }
        self.free_list.delete(key, &mut self.pool);
        proof {
            assert forall|i: int| self.live(i) implies self.slots()[i].holds_value() by {
                free::lemma_cons_contains(pre.frees(), key.idx(), i);
                assert(!pre.frees().contains(i) && i != key.idx());
                assert(pre.live(i));
                assert(pre.slots()[i].holds_value());
                assert(self.slots()[i] == pre.slots()[i]);
            }
            assert forall|i: int|
                pre.live(i) && i != key.idx() implies self.live(i) && self.value_at(i)
                == pre.value_at(i) by {
                free::lemma_cons_contains(pre.frees(), key.idx(), i);
            }
        }
    }
}

impl<S, K, F> ObjectPool<K> for SlabPool<S, K, F> where
    S: Slot,
    K: ContiguousIx,
    F: FreeList<S, K>,
 {
    type Value = S::Value;
}

impl<S, K, F> Take<K, S::Value> for SlabPool<S, K, F> where
    S: Slot,
    K: ContiguousIx,
    F: RemovalList<S, K, Value = S::Value>,
 {
    open spec fn can_take(&self, key: K) -> bool {
        self.wf() && self.live(key.idx())
    }

    open spec fn take_works(&self, key: K) -> bool {
        self.can_take(key)
    }

    open spec fn take_step(&self, post: Self, key: K, v: S::Value) -> bool {
        &&& post.wf()
        &&& Self::delete_step(*self, post, key.idx())
        &&& self.free_list.removed(self.slots()[key.idx()], v)
        &&& self.free_list.vacated(self.slots()[key.idx()], post.slots()[key.idx()])
    }

    fn try_take(&mut self, key: K) -> (r: Option<S::Value>)
        ensures
            final(self).wf(),
            Self::delete_step(*old(self), *final(self), key.idx()),
            old(self).free_list.vacated(
                old(self).slots()[key.idx()],
                final(self).slots()[key.idx()],
            ),
            match r {
                Some(v) => old(self).free_list.removed(old(self).slots()[key.idx()], v),
                None => false,
            },
    {
        let ghost pre = *self;
        proof {
            pre.free_list.wf_facts(pre.pool@);
        }
        let r = self.free_list.try_remove(key, &mut self.pool);
        proof {
            assert forall|i: int| self.live(i) implies self.slots()[i].holds_value() by {
                free::lemma_cons_contains(pre.frees(), key.idx(), i);
                assert(!pre.frees().contains(i) && i != key.idx());
                assert(pre.live(i));
                assert(pre.slots()[i].holds_value());
                assert(self.slots()[i] == pre.slots()[i]);
            }
            assert forall|i: int|
                pre.live(i) && i != key.idx() implies self.live(i) && self.value_at(i)
                == pre.value_at(i) by {
                free::lemma_cons_contains(pre.frees(), key.idx(), i);
            }
        }
        r
    }

    fn take(&mut self, key: K) -> (r: S::Value)
        ensures
            final(self).wf(),
            Self::delete_step(*old(self), *final(self), key.idx()),
            old(self).free_list.vacated(
                old(self).slots()[key.idx()],
                final(self).slots()[key.idx()],
            ),
            old(self).free_list.removed(old(self).slots()[key.idx()], r),
    {
        match self.try_take(key) {
            Some(v) => v,
            None => vstd::pervasive::unreached(),
        }
    }
}

impl<S, K, F> GetRef<K, S::Value> for SlabPool<S, K, F> where
    S: SlotRef,
    K: ContiguousIx,
    F: FreeList<S, K>,
 {
    open spec fn can_get(&self, key: K) -> bool {
        0 <= key.idx() <= K::max_spec()
    }

    open spec fn sees(&self, key: K) -> Option<S::Value> {
        if 0 <= key.idx() < self.total_spec() && self.slots()[key.idx()].holds_value() {
            Some(self.value_at(key.idx()))
        } else {
            None
        }
    }

    fn try_get(&self, key: K) -> (r: Option<&S::Value>) {
        let ix = key.index();
        if ix < self.pool.len() {
            self.pool[ix].try_value()
        } else {
            None
        }
    }
}

impl<S, K, F> GetMut<K, S::Value> for SlabPool<S, K, F> where
    S: SlotRef + SlotMut,
    K: ContiguousIx,
    F: FreeList<S, K>,
 {
    fn try_get_mut(&mut self, key: K) -> (r: Option<&mut S::Value>)
        ensures
            final(self).total_spec() == old(self).total_spec(),
            final(self).frees() == old(self).frees(),
            forall|i: int|
                0 <= i < old(self).total_spec() && i != key.idx() ==> final(self).slots()[i]
                    == old(self).slots()[i],
            r is Some ==> final(self).slots()[key.idx()].holds_value(),
    {
        let ix = key.index();
        if ix >= self.pool.len() {
            return None;
        }
        let has = match self.pool[ix].try_value() {
            Some(_) => true,
            None => false,
        };
        if has {
            let slot = &mut self.pool[ix];
            match slot.try_value_mut() {
                Some(m) => Some(m),
                None => vstd::pervasive::unreached(),
            }
        } else {
            None
        }
    }
}

impl<S, K, F> SlabPool<S, K, F> where
    S: SlotRef,
    K: ContiguousIx,
    F: FreeList<S, K>,
 {
    /// Try to get a reference to the value associated with a given key.
    pub fn try_at(&self, key: K) -> (r: Option<&S::Value>)
        requires
            0 <= key.idx() <= K::max_spec(),
        ensures
            match r {
                Some(v) => self.sees(key) == Some(*v),
                None => self.sees(key) is None,
            },
    {
        self.try_get(key)
    }

    /// Get a reference to the value associated with a given key.
    ///
    /// Panics if the key does not name a live value.
    pub fn at(&self, key: K) -> (r: &S::Value)
        requires
            0 <= key.idx() <= K::max_spec(),
            self.sees(key) is Some,
        ensures
            Some(*r) == self.sees(key),
    {
        self.get(key)
    }
}

impl<S, K, F> SlabPool<S, K, F> where
    S: SlotRef + SlotMut,
    K: ContiguousIx,
    F: FreeList<S, K>,
 {
    /// Try to get a mutable reference to the value associated with a given
    /// key.
    pub fn try_at_mut(&mut self, key: K) -> (r: Option<&mut S::Value>)
        requires
            0 <= key.idx() <= K::max_spec(),
        ensures
            match r {
                Some(m) => old(self).sees(key) == Some(*m) && final(self).sees(key) == Some(
                    *final(m),
                ),
                None => old(self).sees(key) is None && (forall|k2: K|
                    final(self).sees(k2) == old(self).sees(k2)),
            },
    {
        self.try_get_mut(key)
    }

    /// Get a mutable reference to the value associated with a given key.
    ///
    /// Panics if the key does not name a live value.
    pub fn at_mut(&mut self, key: K) -> (r: &mut S::Value)
        requires
            0 <= key.idx() <= K::max_spec(),
            old(self).sees(key) is Some,
        ensures
            Some(*r) == old(self).sees(key),
            final(self).sees(key) == Some(*final(r)),
    {
        self.get_mut(key)
    }
}

impl<S, K, F> SlabPool<S, K, F> where S: Slot, K: ContiguousIx, F: FreeList<S, K> {
    /// The key predicted by `next_key` immediately before an insert equals
    /// the key that insert actually assigns.
    pub proof fn lemma_next_key_predicts_insert(pre: Self, post: Self, k: int, v: S::Value)
        requires
            Self::insert_step(pre, post, k, v),
        ensures
            pre.next_key_spec() == Some(k),
    {
    }

    /// With no removals the free list stays empty across an insert, the
    /// pool grows by one slot, and the assigned index is the old length:
    /// so after `n` inserts from an empty pool the total is `n`.
    pub proof fn lemma_inserts_accumulate(pre: Self, post: Self, k: int, v: S::Value)
        requires
            pre.frees().len() == 0,
            Self::insert_step(pre, post, k, v),
        ensures
            post.frees().len() == 0,
            post.total_spec() == pre.total_spec() + 1,
            k == pre.total_spec(),
    {
    }

    /// After `n` inserts with no removals the pool has `n` slots and an
    /// empty free list; inserting once more succeeds exactly when `n` does
    /// not exceed the key type's maximum index.
    pub proof fn lemma_insert_exhaustion(p: Self, n: int)
        requires
            p.frees().len() == 0,
            p.total_spec() == n,
        ensures
            p.next_key_spec() is Some <==> n <= K::max_spec(),
    {
    }

    /// LIFO reuse: freeing position `k1` then `k2` and then inserting twice
    /// reuses `k2` first, then `k1`.
    pub proof fn lemma_lifo_reuse(
        p0: Self,
        p1: Self,
        p2: Self,
        p3: Self,
        p4: Self,
        k1: int,
        k2: int,
        ka: int,
        kb: int,
        va: S::Value,
        vb: S::Value,
    )
        requires
            Self::delete_step(p0, p1, k1),
            Self::delete_step(p1, p2, k2),
            Self::insert_step(p2, p3, ka, va),
            Self::insert_step(p3, p4, kb, vb),
        ensures
            ka == k2,
            kb == k1,
    {
        assert(p2.frees()[0] == k2);
        assert(p3.frees() == p2.frees().drop_first());
        assert(p3.frees()[0] == p2.frees()[1]);
        assert(p2.frees()[1] == p1.frees()[0]);
    }
}


impl<S, K, F> ContainerPool<K> for SlabPool<S, K, F> where
    S: Slot,
    S::Value: Container,
    K: ContiguousIx,
    F: FreeList<S, K>,
 {
    type Elem = <S::Value as Container>::Elem;

    open spec fn pool_wf(&self) -> bool {
        self.wf()
    }

    open spec fn key_ok(&self, key: K) -> bool {
        self.live(key.idx())
    }

    open spec fn container_at(&self, key: K) -> Seq<Self::Elem> {
        self.value_at(key.idx()).elems()
    }
}


impl<S, K, F> InsertEmpty<K> for SlabPool<S, K, F> where
    S: Slot,
    S::Value: Container,
    K: ContiguousIx,
    F: FreeList<S, K>,
 {
    open spec fn can_insert_container(&self) -> bool {
        self.next_key_spec() is Some
    }

    fn try_insert_empty(&mut self) -> (r: Result<K, ()>)
        ensures
            r is Err ==> final(self).slots() == old(self).slots() && final(self).frees() == old(self).frees(),
    {
        let ghost pre = *self;
        let v = <S::Value as Container>::empty_container();
        let r = match self.try_insert(v) {
            Ok(k) => Ok(k),
            Err(_) => Err(()),
        };
        proof {
            pre.free_list.wf_facts(pre.pool@);
            if r is Ok {
                let k = r->Ok_0;
                if pre.frees().len() > 0 {
                    assert(pre.frees().contains(pre.frees()[0]));
                }
                assert(!pre.live(k.idx()));
                assert forall|k2: K| k2 != k && pre.key_ok(k2) implies #[trigger] self.key_ok(k2)
                    && self.container_at(k2) == pre.container_at(k2) by {
                    if k2.idx() == k.idx() {
                        assert(pre.live(k2.idx()));
                        assert(false);
                    }
                }
            }
        }
        r
    }

    fn insert_unique_empty(&mut self) -> (r: Result<K, ()>)
        ensures
            r is Ok <==> old(self).next_key_spec() is Some,
            r is Err ==> final(self).slots() == old(self).slots() && final(self).frees() == old(self).frees(),
    {
        let ghost pre = *self;
        let v = <S::Value as Container>::empty_container();
        let r = match self.try_insert(v) {
            Ok(k) => Ok(k),
            Err(_) => Err(()),
        };
        proof {
            pre.free_list.wf_facts(pre.pool@);
            if r is Ok {
                let k = r->Ok_0;
                if pre.frees().len() > 0 {
                    assert(pre.frees().contains(pre.frees()[0]));
                }
                assert(!pre.live(k.idx()));
                assert forall|k2: K| k2 != k && pre.key_ok(k2) implies #[trigger] self.key_ok(k2)
                    && self.container_at(k2) == pre.container_at(k2) by {
                    if k2.idx() == k.idx() {
                        assert(pre.live(k2.idx()));
                        assert(false);
                    }
                }
            }
        }
        r
    }
}

impl<S, K, C, F> InsertWithCapacity<K, C> for SlabPool<S, K, F> where
    S: Slot,
    S::Value: Container + WithCapacity<C>,
    K: ContiguousIx,
    F: FreeList<S, K>,
 {
    open spec fn can_insert_with_capacity(&self) -> bool {
        self.next_key_spec() is Some
    }

    fn try_insert_with_capacity(&mut self, capacity: C) -> (r: Result<K, ()>)
        ensures
            r is Err ==> final(self).slots() == old(self).slots() && final(self).frees() == old(self).frees(),
    {
        let ghost pre = *self;
        let v = <S::Value as WithCapacity<C>>::new_with_capacity(capacity);
        let r = match self.try_insert(v) {
            Ok(k) => Ok(k),
            Err(_) => Err(()),
        };
        proof {
            pre.free_list.wf_facts(pre.pool@);
            if r is Ok {
                let k = r->Ok_0;
                if pre.frees().len() > 0 {
                    assert(pre.frees().contains(pre.frees()[0]));
                }
                assert(!pre.live(k.idx()));
                assert forall|k2: K| k2 != k && pre.key_ok(k2) implies #[trigger] self.key_ok(k2)
                    && self.container_at(k2) == pre.container_at(k2) by {
                    if k2.idx() == k.idx() {
                        assert(pre.live(k2.idx()));
                        assert(false);
                    }
                }
            }
        }
        r
    }

    fn insert_unique_with_capacity(&mut self, capacity: C) -> (r: Result<K, ()>)
        ensures
            r is Ok <==> old(self).next_key_spec() is Some,
            r is Err ==> final(self).slots() == old(self).slots() && final(self).frees() == old(self).frees(),
    {
        let ghost pre = *self;
        let v = <S::Value as WithCapacity<C>>::new_with_capacity(capacity);
        let r = match self.try_insert(v) {
            Ok(k) => Ok(k),
            Err(_) => Err(()),
        };
        proof {
            pre.free_list.wf_facts(pre.pool@);
            if r is Ok {
                let k = r->Ok_0;
                if pre.frees().len() > 0 {
                    assert(pre.frees().contains(pre.frees()[0]));
                }
                assert(!pre.live(k.idx()));
                assert forall|k2: K| k2 != k && pre.key_ok(k2) implies #[trigger] self.key_ok(k2)
                    && self.container_at(k2) == pre.container_at(k2) by {
                    if k2.idx() == k.idx() {
                        assert(pre.live(k2.idx()));
                        assert(false);
                    }
                }
            }
        }
        r
    }
}

impl<S, K, F> IsEmptyPool<K> for SlabPool<S, K, F> where
    S: SlotRef,
    S::Value: HasLen,
    K: ContiguousIx,
    F: FreeList<S, K>,
 {
    fn key_is_empty(&self, key: K) -> (r: bool) {
        self.at(key).is_empty()
    }
}

impl<S, K, F> LenPool<K> for SlabPool<S, K, F> where
    S: SlotRef,
    S::Value: HasLen,
    K: ContiguousIx,
    F: FreeList<S, K>,
 {
    fn key_len(&self, key: K) -> (r: usize) {
        self.at(key).len()
    }
}

impl<S, K, F> GetIndex<K> for SlabPool<S, K, F> where
    S: SlotRef,
    S::Value: SliceContainer,
    K: ContiguousIx,
    F: FreeList<S, K>,
 {
    fn get_index(&self, key: K, elem: usize) -> (r: Option<&Self::Elem>) {
        let c = self.at(key);
        let s = c.elem_slice();
        if elem < s.len() {
            Some(&s[elem])
        } else {
            None
        }
    }
}

impl<S, K, F> GetIndexMut<K> for SlabPool<S, K, F> where
    S: SlotRef + SlotMut,
    S::Value: SliceContainer,
    K: ContiguousIx,
    F: FreeList<S, K>,
 {
    fn get_index_mut(&mut self, key: K, elem: usize) -> (r: Option<&mut Self::Elem>) {
        let ghost pre = *self;
        let n = self.at(key).elem_slice().len();
        if elem >= n {
            return None;
        }
        let ix = key.index();
        let slot = &mut self.pool[ix];
        let c = match slot.try_value_mut() {
            Some(c) => c,
            None => {
                return vstd::pervasive::unreached();
            },
        };
        let m = c.elem_at_mut(elem);
        proof {
            pre.free_list.wf_facts(pre.pool@);
            assert forall|x: S| #[trigger]
                pre.free_list.wf(pre.pool@.update(ix as int, x)) by {
                pre.free_list.wf_frame(pre.pool@, pre.pool@.update(ix as int, x));
            }
            assert forall|x: S, i: int|
                x.holds_value() && 0 <= i < pre.pool@.len() && !pre.frees().contains(i)
                    implies #[trigger] pre.pool@.update(ix as int, x)[i].holds_value() by {
                if i != ix {
                    assert(pre.live(i));
                }
            }
            assert forall|k2: K| k2.idx() == key.idx() implies k2 == key by {
                K::idx_injective(k2, key);
            }
        }
        Some(m)
    }
}


impl<S, K, F> SlabPool<S, K, F> where
    S: Slot,
    S::Value: Container,
    K: ContiguousIx,
    F: FreeList<S, K>,
 {
    /// After replacing the value at one live position by another held
    /// value, the pool is still well formed and every other live container
    /// is untouched.
    proof fn lemma_value_update(pre: Self, post: Self, k: int)
        requires
            pre.wf(),
            pre.live(k),
            post.free_list == pre.free_list,
            post.total_spec() == pre.total_spec(),
            forall|i: int|
                0 <= i < pre.total_spec() && i != k ==> post.slots()[i] == pre.slots()[i],
            post.slots()[k].holds_value(),
        ensures
            post.wf(),
            post.live(k),
            forall|k2: K|
                k2.idx() != k && pre.key_ok(k2) ==> #[trigger] post.key_ok(k2)
                    && post.container_at(k2) == pre.container_at(k2),
    {
        pre.free_list.wf_facts(pre.pool@);
        pre.free_list.wf_frame(pre.pool@, post.pool@);
        assert forall|i: int| post.live(i) implies post.slots()[i].holds_value() by {
            if i != k {
                assert(pre.live(i));
            }
        }
    }
}

impl<S, K, F> StackPool<K> for SlabPool<S, K, F> where
    S: SlotRef + SlotMut,
    S::Value: StackLike,
    K: ContiguousIx,
    F: FreeList<S, K>,
 {
    open spec fn can_push(&self, key: K) -> bool {
        self.value_at(key.idx()).push_succeeds()
    }

    fn try_into_popped(&mut self, key: K) -> (r: Result<Option<(K, Self::Elem)>, ()>) {
        let ghost pre = *self;
        proof {
            pre.free_list.wf_facts(pre.pool@);
        }
        let ix = key.index();
        let slot = &mut self.pool[ix];
        let c = match slot.try_value_mut() {
            Some(c) => c,
            None => {
                return vstd::pervasive::unreached();
            },
        };
        let popped = c.pop_stack();
        proof {
            Self::lemma_value_update(pre, *self, ix as int);
            assert forall|k2: K| k2.idx() == key.idx() implies k2 == key by {
                K::idx_injective(k2, key);
            }
        }
        match popped {
            Some(v) => Ok(Some((key, v))),
            None => Ok(None),
        }
    }

    fn try_into_pushed(&mut self, key: K, item: Self::Elem) -> (r: Result<K, Self::Elem>) {
        let ghost pre = *self;
        proof {
            pre.free_list.wf_facts(pre.pool@);
        }
        let ix = key.index();
        let slot = &mut self.pool[ix];
        let c = match slot.try_value_mut() {
            Some(c) => c,
            None => {
                return vstd::pervasive::unreached();
            },
        };
        let pushed = c.try_push_stack(item);
        proof {
            Self::lemma_value_update(pre, *self, ix as int);
            assert forall|k2: K| k2.idx() == key.idx() implies k2 == key by {
                K::idx_injective(k2, key);
            }
        }
        match pushed {
            Ok(()) => Ok(key),
            Err(it) => Err(it),
        }
    }

    fn try_pop(&mut self, key: K) -> (r: Result<Option<Self::Elem>, ()>) {
        let ghost pre = *self;
        proof {
            pre.free_list.wf_facts(pre.pool@);
        }
        let ix = key.index();
        let slot = &mut self.pool[ix];
        let c = match slot.try_value_mut() {
            Some(c) => c,
            None => {
                return vstd::pervasive::unreached();
            },
        };
        let popped = c.pop_stack();
        proof {
            Self::lemma_value_update(pre, *self, ix as int);
            assert forall|k2: K| k2.idx() == key.idx() implies k2 == key by {
                K::idx_injective(k2, key);
            }
        }
        Ok(popped)
    }

    fn try_push(&mut self, key: K, item: Self::Elem) -> (r: Result<(), Self::Elem>) {
        let ghost pre = *self;
        proof {
            pre.free_list.wf_facts(pre.pool@);
        }
        let ix = key.index();
        let slot = &mut self.pool[ix];
        let c = match slot.try_value_mut() {
            Some(c) => c,
            None => {
                return vstd::pervasive::unreached();
            },
        };
        let pushed = c.try_push_stack(item);
        proof {
            Self::lemma_value_update(pre, *self, ix as int);
            assert forall|k2: K| k2.idx() == key.idx() implies k2 == key by {
                K::idx_injective(k2, key);
            }
        }
        pushed
    }

    fn capacity(&self, key: K) -> (r: usize) {
        self.at(key).stack_capacity()
    }

    fn clear(&mut self, key: K) -> (rk: K) {
        let ghost pre = *self;
        proof {
            pre.free_list.wf_facts(pre.pool@);
        }
        let ix = key.index();
        let slot = &mut self.pool[ix];
        let c = match slot.try_value_mut() {
            Some(c) => c,
            None => {
                return vstd::pervasive::unreached();
            },
        };
        c.clear_stack();
        proof {
            Self::lemma_value_update(pre, *self, ix as int);
            assert forall|k2: K| k2.idx() == key.idx() implies k2 == key by {
                K::idx_injective(k2, key);
            }
        }
        key
    }

    fn clear_pinned(&mut self, key: K) -> (r: Result<(), ()>) {
        let ghost pre = *self;
        proof {
            pre.free_list.wf_facts(pre.pool@);
        }
        let ix = key.index();
        let slot = &mut self.pool[ix];
        let c = match slot.try_value_mut() {
            Some(c) => c,
            None => {
                return vstd::pervasive::unreached();
            },
        };
        c.clear_stack();
        proof {
            Self::lemma_value_update(pre, *self, ix as int);
            assert forall|k2: K| k2.idx() == key.idx() implies k2 == key by {
                K::idx_injective(k2, key);
            }
        }
        Ok(())
    }
}

impl<S, K, F> super::container::array::SliceRefPool<K> for SlabPool<S, K, F> where
    S: SlotRef,
    S::Value: SliceContainer + HasLen,
    K: ContiguousIx,
    F: FreeList<S, K>,
 {
    fn slice_at(&self, ix: K) -> (r: &[Self::Elem]) {
        self.at(ix).elem_slice()
    }
}

impl<S, K, F> super::container::array::SliceMutPool<K> for SlabPool<S, K, F> where
    S: SlotRef + SlotMut,
    S::Value: SliceContainer + HasLen,
    K: ContiguousIx,
    F: FreeList<S, K>,
 {
    fn slice_at_mut(&mut self, ix: K) -> (r: &mut [Self::Elem]) {
        let ghost pre = *self;
        proof {
            pre.free_list.wf_facts(pre.pool@);
        }
        let i = ix.index();
        let slot = &mut self.pool[i];
        let c = match slot.try_value_mut() {
            Some(c) => c,
            None => {
                return vstd::pervasive::unreached();
            },
        };
        let s = c.elem_slice_mut();
        proof {
            assert forall|x: S| #[trigger]
                pre.free_list.wf(pre.pool@.update(i as int, x)) by {
                pre.free_list.wf_frame(pre.pool@, pre.pool@.update(i as int, x));
            }
            assert forall|x: S, j: int|
                x.holds_value() && 0 <= j < pre.pool@.len() && !pre.frees().contains(j)
                    implies #[trigger] pre.pool@.update(i as int, x)[j].holds_value() by {
                if j != i {
                    assert(pre.live(j));
                }
            }
            assert forall|k2: K| k2.idx() == ix.idx() implies k2 == ix by {
                K::idx_injective(k2, ix);
            }
        }
        s
    }
}

} // verus!
