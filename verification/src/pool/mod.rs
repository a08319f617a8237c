//! Traits for simple allocators: pools mapping small keys to values.

use vstd::prelude::*;

use crate::index::ContiguousIx;

pub mod classes;
pub mod container;
pub mod list;
pub mod slab;
pub mod slice;

verus! {

/// A pool which supports inserting values of type `V` for keys of type `K`.
pub trait Insert<K, V>: Sized {
    /// What an insertion requires of the pool: for pools with an internal
    /// structural invariant, that the invariant holds.
    spec fn insert_req(&self) -> bool;

    /// Whether the pool has room for one more value.
    spec fn can_insert(&self) -> bool;

    /// Insert `val` into the pool, assigning a new key which is returned.
    ///
    /// Returns `val` as an error if the pool has run out of space.
    fn try_insert(&mut self, val: V) -> (r: Result<K, V>)
        requires
            old(self).insert_req(),
        ensures
            r is Ok <==> old(self).can_insert(),
            match r {
                Err(v) => v == val,
                Ok(_) => true,
            },
    ;

    /// Insert `val` into the pool, assigning a new key which is returned.
    ///
    /// Panics if the pool has run out of space.
    fn insert(&mut self, val: V) -> (r: K)
        requires
            old(self).insert_req(),
            old(self).can_insert(),
    {
        match self.try_insert(val) {
            Ok(key) => key,
            Err(_) => vstd::pervasive::unreached(),
        }
    }
}

/// A pool indexed by keys of type `K`.
pub trait Pool<K> {
    /// Whether `key` may be presented for deletion: a key is deletable when
    /// it is currently live in the pool (misuse of stale keys is an
    /// unchecked precondition, not a reported error).
    spec fn can_delete(&self, key: K) -> bool;

    /// Deletes the key `key` from the mapping.
    ///
    /// Depending on the implementation, this may be slightly more efficient
    /// than `remove` since resources used may be more effectively recycled.
    fn delete(&mut self, key: K)
        requires
            old(self).can_delete(key),
    ;
}

/// A pool mapping keys of type `K` to values of type `Self::Value`.
pub trait ObjectPool<K>: Pool<K> {
    /// The value type stored by this pool.
    type Value;
}

/// A pool supporting insertion of objects, yielding keys.
pub trait InsertPool<K>: ObjectPool<K> + Insert<K, <Self as ObjectPool<K>>::Value> {

}

impl<K, P> InsertPool<K> for P where P: ObjectPool<K> + Insert<K, <P as ObjectPool<K>>::Value> {

}

/// A [`Pool`] for which `delete` may be called multiple times on the same
/// key without modifying any other key; panicking is allowed.
pub trait SafeFreePool<K>: Pool<K> {

}

/// A [`Pool`] for which `delete` may be called multiple times on the same
/// key without panicking or modifying any other key.
pub trait DoubleFreePool<K>: SafeFreePool<K> {

}

/// A [`Pool`] for which removal may be attempted multiple times on the same
/// key, and is guaranteed to return `None` on previously removed keys.
pub trait DoubleRemovePool<K>: DoubleFreePool<K> {

}

/// A pool which supports removing a key and extracting values of type `V`.
pub trait Take<K, V>: Sized {
    /// Whether `key` may be presented for removal: a key may be taken when
    /// it is currently live in the pool (misuse of stale keys is an
    /// unchecked precondition, not a reported error).
    spec fn can_take(&self, key: K) -> bool;

    /// Whether removal through `key` is guaranteed to yield a value.
    spec fn take_works(&self, key: K) -> bool;

    /// How a removal changes the pool: what the extracted value was, and
    /// what the pool holds afterwards.
    spec fn take_step(&self, post: Self, key: K, v: V) -> bool;

    /// Try to take the value associated with key `key` from the mapping.
    fn try_take(&mut self, key: K) -> (r: Option<V>)
        requires
            old(self).can_take(key),
        ensures
            old(self).take_works(key) ==> r is Some,
            match r {
                Some(v) => old(self).take_step(*final(self), key, v),
                None => true,
            },
    ;

    /// Takes the value associated with key `key` from the mapping.
    ///
    /// Panics if the pool does not recognize the key.
    fn take(&mut self, key: K) -> (r: V)
        requires
            old(self).can_take(key),
        ensures
            old(self).take_step(*final(self), key, r),
    ;
}

/// A [`Pool`] supporting the removal of keys.
pub trait RemovePool<K>: ObjectPool<K> + Take<K, <Self as ObjectPool<K>>::Value> {
    /// Deletes the key `key` from the mapping, returning its value.
    ///
    /// Guaranteed to have the same behaviour as `try_take`.
    fn try_remove(&mut self, key: K) -> (r: Option<<Self as ObjectPool<K>>::Value>)
        requires
            old(self).can_take(key),
        ensures
            old(self).take_works(key) ==> r is Some,
            match r {
                Some(v) => old(self).take_step(*final(self), key, v),
                None => true,
            },
    {
        self.try_take(key)
    }

    /// Deletes the key `key` from the mapping, returning its value.
    ///
    /// Guaranteed to have the same behaviour as `take`.
    fn remove(&mut self, key: K) -> (r: <Self as ObjectPool<K>>::Value)
        requires
            old(self).can_take(key),
        ensures
            old(self).take_step(*final(self), key, r),
    {
        self.take(key)
    }
}

impl<P, K> RemovePool<K> for P where P: ObjectPool<K> + Take<K, <P as ObjectPool<K>>::Value> {

}

/// A pool providing read-only access to values of type `V` given a key of
/// type `K`.
pub trait GetRef<K, V> {
    /// Whether `key` may be presented at all (for pools with index keys:
    /// whether the key's index is representable).
    spec fn can_get(&self, key: K) -> bool;

    /// The value visible through `key`, if any.
    spec fn sees(&self, key: K) -> Option<V>;

    /// Try to get a reference to the value associated with a given key.
    fn try_get(&self, key: K) -> (r: Option<&V>)
        requires
            self.can_get(key),
        ensures
            match r {
                Some(v) => self.sees(key) == Some(*v),
                None => self.sees(key) is None,
            },
    ;

    /// Get a reference to the value associated with a given key.
    ///
    /// Panics if the pool does not recognize the key.
    fn get(&self, key: K) -> (r: &V)
        requires
            self.can_get(key),
            self.sees(key) is Some,
        ensures
            Some(*r) == self.sees(key),
    {
        self.try_get(key).unwrap()
    }
}

/// A pool providing mutable access to values of type `V` given a key of
/// type `K`.
pub trait GetMut<K, V>: GetRef<K, V> + Sized {
    /// Try to get a mutable reference to the value associated with a given
    /// key.
    fn try_get_mut(&mut self, key: K) -> (r: Option<&mut V>)
        requires
            old(self).can_get(key),
        ensures
            match r {
                Some(m) => old(self).sees(key) == Some(*m) && final(self).sees(key) == Some(
                    *final(m),
                ),
                None => old(self).sees(key) is None && (forall|k2: K|
                    final(self).sees(k2) == old(self).sees(k2)),
            },
            r is Some <==> old(self).sees(key) is Some,
    ;

    /// Get a mutable reference to the value associated with a given key.
    ///
    /// Panics if the pool does not recognize the key.
    fn get_mut(&mut self, key: K) -> (r: &mut V)
        requires
            old(self).can_get(key),
            old(self).sees(key) is Some,
        ensures
            Some(*r) == old(self).sees(key),
            final(self).sees(key) == Some(*final(r)),
    {
        self.try_get_mut(key).unwrap()
    }
}

/// A [`Pool`] providing read-only access to values.
///
/// Provides wrappers around [`GetRef`] methods returning `&Self::Value`,
/// which might be useful for type inference.
pub trait PoolRef<K>: ObjectPool<K> + GetRef<K, <Self as ObjectPool<K>>::Value> {
    /// Try to get a reference to the value associated with a given key.
    fn try_get_value(&self, key: K) -> (r: Option<&<Self as ObjectPool<K>>::Value>)
        requires
            self.can_get(key),
        ensures
            match r {
                Some(v) => self.sees(key) == Some(*v),
                None => self.sees(key) is None,
            },
    {
        self.try_get(key)
    }

    /// Get a reference to the value associated with a given key.
    fn get_value(&self, key: K) -> (r: &<Self as ObjectPool<K>>::Value)
        requires
            self.can_get(key),
            self.sees(key) is Some,
        ensures
            Some(*r) == self.sees(key),
    {
        self.get(key)
    }
}

impl<P, K> PoolRef<K> for P where P: ObjectPool<K> + GetRef<K, <P as ObjectPool<K>>::Value> {

}

/// A [`Pool`] providing mutable access to values.
///
/// Provides wrappers around [`GetMut`] methods returning `&mut Self::Value`,
/// which might be useful for type inference.
pub trait PoolMut<K>: ObjectPool<K> + GetMut<K, <Self as ObjectPool<K>>::Value> + Sized {
    /// Try to get a mutable reference to the value associated with a given
    /// key.
    fn try_get_value_mut(&mut self, key: K) -> (r: Option<&mut <Self as ObjectPool<K>>::Value>)
        requires
            old(self).can_get(key),
        ensures
            match r {
                Some(m) => old(self).sees(key) == Some(*m) && final(self).sees(key) == Some(
                    *final(m),
                ),
                None => old(self).sees(key) is None && (forall|k2: K|
                    final(self).sees(k2) == old(self).sees(k2)),
            },
            r is Some <==> old(self).sees(key) is Some,
    {
        self.try_get_mut(key)
    }

    /// Get a mutable reference to the value associated with a given key.
    fn get_value_mut(&mut self, key: K) -> (r: &mut <Self as ObjectPool<K>>::Value)
        requires
            old(self).can_get(key),
            old(self).sees(key) is Some,
        ensures
            Some(*r) == old(self).sees(key),
            final(self).sees(key) == Some(*final(r)),
    {
        self.get_mut(key)
    }
}

impl<P, K> PoolMut<K> for P where P: ObjectPool<K> + GetMut<K, <P as ObjectPool<K>>::Value> {

}

/// A [`Pool`] which does not contain any values, and is always full.
#[derive(Debug, Eq, PartialEq, Hash, Default)]
pub struct EmptyPool<V>(core::marker::PhantomData<V>);

impl<K, V> Insert<K, V> for EmptyPool<V> {
    open spec fn insert_req(&self) -> bool {
        true
    }

    open spec fn can_insert(&self) -> bool {
        false
    }

    fn try_insert(&mut self, val: V) -> Result<K, V> {
        Err(val)
    }
}

impl<K, V> Pool<K> for EmptyPool<V> {
    open spec fn can_delete(&self, key: K) -> bool {
        true
    }

    fn delete(&mut self, _key: K)
        ensures
            *final(self) == *old(self),
    {
        // This is a no-op, since all keys are "already deleted".
    }
}

impl<K, V> ObjectPool<K> for EmptyPool<V> {
    type Value = V;
}

impl<K, V> SafeFreePool<K> for EmptyPool<V> {

}

impl<K, V> DoubleFreePool<K> for EmptyPool<V> {

}

impl<K, V> DoubleRemovePool<K> for EmptyPool<V> {

}

impl<K, V> Take<K, V> for EmptyPool<V> {
    open spec fn can_take(&self, key: K) -> bool {
        false
    }

    open spec fn take_works(&self, key: K) -> bool {
        false
    }

    open spec fn take_step(&self, post: Self, key: K, v: V) -> bool {
        false
    }

    fn try_take(&mut self, _key: K) -> (r: Option<V>)
        ensures
            r is None,
    {
        None
    }

    fn take(&mut self, key: K) -> V {
        match self.try_take(key) {
            Some(v) => v,
            None => vstd::pervasive::unreached(),
        }
    }
}

impl<K, V> GetRef<K, V> for EmptyPool<V> {
    open spec fn can_get(&self, key: K) -> bool {
        true
    }

    open spec fn sees(&self, key: K) -> Option<V> {
        None
    }

    fn try_get(&self, _key: K) -> Option<&V> {
        None
    }
}

impl<K, V> GetMut<K, V> for EmptyPool<V> {
    fn try_get_mut(&mut self, _key: K) -> Option<&mut V> {
        None
    }
}

/// Remove a value from an [`Arena`] by cloning it out.
#[derive(Debug, Copy, Clone, Eq, PartialEq, Hash, Default)]
pub struct ByClone;

/// Remove a value from an [`Arena`] by replacing it with `Default`.
#[derive(Debug, Copy, Clone, Eq, PartialEq, Hash, Default)]
pub struct ByDefault;

/// A wrapper around [`Vec`] implementing an arena allocator for a type `V`:
/// keys are handed out in insertion order, and deletion never reuses a key.
#[derive(Debug)]
pub struct Arena<V, K = usize, D = ByDefault>(
    pub V,
    pub core::marker::PhantomData<K>,
    pub core::marker::PhantomData<D>,
);

impl<V> Arena<Vec<V>> {
    /// Wrap an existing vector as an arena.
    pub fn new(value: Vec<V>) -> (r: Arena<Vec<V>>)
        ensures
            r.0@ == value@,
    {
        Arena(value, core::marker::PhantomData, core::marker::PhantomData)
    }
}

impl<V, K, D> Arena<V, K, D> {
    /// Wrap an existing backing value as an arena.
    pub fn from(value: V) -> (r: Self)
        ensures
            r.0 == value,
    {
        Arena(value, core::marker::PhantomData, core::marker::PhantomData)
    }
}

impl<K, V, D> Insert<K, V> for Arena<Vec<V>, K, D> where K: ContiguousIx {
    open spec fn insert_req(&self) -> bool {
        true
    }

    open spec fn can_insert(&self) -> bool {
        self.0@.len() <= K::max_spec()
    }

    fn try_insert(&mut self, val: V) -> (r: Result<K, V>)
        ensures
            match r {
                Ok(k) => k.idx() == old(self).0@.len() && final(self).0@ == old(self).0@.push(val),
                Err(v) => v == val && *final(self) == *old(self),
            },
    {
        let ix = match K::try_new(self.0.len()) {
            Some(ix) => ix,
            None => {
                return Err(val);
            },
        };
        self.0.push(val);
        Ok(ix)
    }
}

impl<K, V> Pool<K> for Arena<Vec<V>, K, ByClone> where K: ContiguousIx {
    open spec fn can_delete(&self, key: K) -> bool {
        0 <= key.idx() <= K::max_spec()
    }

    fn delete(&mut self, _key: K)
        ensures
            *final(self) == *old(self),
    {
    }
}

impl<K, V> ObjectPool<K> for Arena<Vec<V>, K, ByClone> where K: ContiguousIx {
    type Value = V;
}

impl<K, V> Pool<K> for Arena<Vec<V>, K, ByDefault> where K: ContiguousIx, V: Default {
    open spec fn can_delete(&self, key: K) -> bool {
        0 <= key.idx() <= K::max_spec()
    }

    fn delete(&mut self, key: K)
        ensures
            final(self).0@.len() == old(self).0@.len(),
            forall|i: int|
                0 <= i < old(self).0@.len() && i != key.idx() ==> final(self).0@[i] == old(self).0@[i],
            key.idx() < old(self).0@.len() ==> crate::slot::is_default_value(
                final(self).0@[key.idx()],
            ),
    {
        let ix = key.index();
        if ix < self.0.len() {
            let slot = &mut self.0[ix];
            *slot = Default::default();
        }
    }
}

impl<K, V> ObjectPool<K> for Arena<Vec<V>, K, ByDefault> where K: ContiguousIx, V: Default {
    type Value = V;
}

impl<K, V> SafeFreePool<K> for Arena<Vec<V>, K, ByClone> where K: ContiguousIx {

}

impl<K, V> DoubleFreePool<K> for Arena<Vec<V>, K, ByClone> where K: ContiguousIx {

}

impl<K, V> SafeFreePool<K> for Arena<Vec<V>, K, ByDefault> where K: ContiguousIx, V: Default {

}

impl<K, V> DoubleFreePool<K> for Arena<Vec<V>, K, ByDefault> where K: ContiguousIx, V: Default {

}

impl<K, V> Take<K, V> for Arena<Vec<V>, K, ByDefault> where K: ContiguousIx, V: Default {
    open spec fn can_take(&self, key: K) -> bool {
        0 <= key.idx() < self.0@.len() && key.idx() <= K::max_spec()
    }

    open spec fn take_works(&self, key: K) -> bool {
        self.can_take(key)
    }

    open spec fn take_step(&self, post: Self, key: K, v: V) -> bool {
        &&& 0 <= key.idx() < self.0@.len()
        &&& v == self.0@[key.idx()]
        &&& post.0@.len() == self.0@.len()
        &&& crate::slot::is_default_value(post.0@[key.idx()])
        &&& forall|i: int| 0 <= i < self.0@.len() && i != key.idx() ==> post.0@[i] == self.0@[i]
    }

    fn try_take(&mut self, key: K) -> (r: Option<V>)
        ensures
            match r {
                Some(v) => key.idx() < old(self).0@.len() && v == old(self).0@[key.idx()]
                    && final(self).0@.len() == old(self).0@.len() && crate::slot::is_default_value(
                    final(self).0@[key.idx()],
                ),
                None => key.idx() >= old(self).0@.len() && *final(self) == *old(self),
            },
    {
        let ix = key.index();
        if ix < self.0.len() {
            let mut result = V::default();
            let slot = &mut self.0[ix];
            core::mem::swap(&mut result, slot);
            Some(result)
        } else {
            None
        }
    }

    fn take(&mut self, key: K) -> (r: V)
        ensures
            r == old(self).0@[key.idx()],
    {
        self.try_take(key).unwrap()
    }
}

impl<K, V> Take<K, V> for Arena<Vec<V>, K, ByClone> where K: ContiguousIx, V: Clone {
    open spec fn can_take(&self, key: K) -> bool {
        0 <= key.idx() < self.0@.len() && key.idx() <= K::max_spec()
    }

    open spec fn take_works(&self, key: K) -> bool {
        self.can_take(key)
    }

    open spec fn take_step(&self, post: Self, key: K, v: V) -> bool {
        &&& 0 <= key.idx() < self.0@.len()
        &&& cloned(self.0@[key.idx()], v)
        &&& post == *self
    }

    fn try_take(&mut self, key: K) -> (r: Option<V>)
        ensures
            *final(self) == *old(self),
            match r {
                Some(v) => key.idx() < old(self).0@.len() && cloned(old(self).0@[key.idx()], v),
                None => key.idx() >= old(self).0@.len(),
            },
    {
        let ix = key.index();
        if ix < self.0.len() {
            Some(self.0[ix].clone())
        } else {
            None
        }
    }

    fn take(&mut self, key: K) -> (r: V)
        ensures
            *final(self) == *old(self),
            cloned(old(self).0@[key.idx()], r),
    {
        self.try_take(key).unwrap()
    }
}

impl<K, V, D> GetRef<K, V> for Arena<Vec<V>, K, D> where K: ContiguousIx {
    open spec fn can_get(&self, key: K) -> bool {
        0 <= key.idx() <= K::max_spec()
    }

    open spec fn sees(&self, key: K) -> Option<V> {
        if 0 <= key.idx() < self.0@.len() {
            Some(self.0@[key.idx()])
        } else {
            None
        }
    }

    fn try_get(&self, key: K) -> (r: Option<&V>) {
        let ix = key.index();
        if ix < self.0.len() {
            Some(&self.0[ix])
        } else {
            None
        }
    }
}

impl<K, V, D> GetMut<K, V> for Arena<Vec<V>, K, D> where K: ContiguousIx {
    fn try_get_mut(&mut self, key: K) -> (r: Option<&mut V>) {
        let ix = key.index();
        if ix < self.0.len() {
            Some(&mut self.0[ix])
        } else {
            None
        }
    }
}

} // verus!
