//! Traits for container allocators: pools whose values are themselves
//! containers (growable lists), addressed by key.

use vstd::prelude::*;

pub mod array;
pub mod map;
pub mod stack;

verus! {

/// A trait implemented by things which contain elements of type
/// `Self::Elem`.
pub trait Container: Sized {
    /// The type of items contained in this container.
    type Elem;

    /// The contained elements, in order.
    spec fn elems(&self) -> Seq<Self::Elem>;

    /// Create an empty container.
    fn empty_container() -> (r: Self)
        ensures
            r.elems().len() == 0,
    ;
}

/// An object which can be created with a given capacity.
pub trait WithCapacity<C>: Container {
    /// Create an empty container able to hold `capacity` elements.
    ///
    /// Note that the capacity is *not* guaranteed.
    fn new_with_capacity(capacity: C) -> (r: Self)
        ensures
            r.elems().len() == 0,
    ;
}

/// An object which might be empty.
pub trait IsEmpty: Container {
    /// Get whether this object is empty.
    fn is_empty(&self) -> (r: bool)
        ensures
            r <==> self.elems().len() == 0,
    ;
}

/// An object with a length.
pub trait HasLen: IsEmpty {
    /// Get the length of this object.
    fn len(&self) -> (r: usize)
        ensures
            r == self.elems().len(),
    ;
}

/// A pool allocating containers of `Self::Elem`, with a per-key view of the
/// contained elements.
pub trait ContainerPool<K>: Sized {
    /// The type of items contained in the pool's containers.
    type Elem;

    /// The pool's structural invariant.
    spec fn pool_wf(&self) -> bool;

    /// Whether `key` currently names a live container.
    spec fn key_ok(&self, key: K) -> bool;

    /// The elements of the container that `key` names.
    spec fn container_at(&self, key: K) -> Seq<Self::Elem>;
}

/// Whether every live container other than `k` is the same in `post` as in
/// `pre`.
pub open spec fn frame_except<P: ContainerPool<K>, K>(pre: P, post: P, k: K) -> bool {
    forall|k2: K|
        k2 != k && pre.key_ok(k2) ==> #[trigger] post.key_ok(k2) && post.container_at(k2)
            == pre.container_at(k2)
}

/// Whether every live container is the same in `post` as in `pre`.
pub open spec fn frame_all<P: ContainerPool<K>, K>(pre: P, post: P) -> bool {
    forall|k2: K|
        pre.key_ok(k2) ==> #[trigger] post.key_ok(k2) && post.container_at(k2)
            == pre.container_at(k2)
}

/// A pool which allows the insertion of empty containers.
pub trait InsertEmpty<K>: ContainerPool<K> {
    /// Whether allocating one more container will succeed.
    spec fn can_insert_container(&self) -> bool;

    /// Allocate an empty container, returning its key.
    ///
    /// Returns an error on allocation failure.
    fn try_insert_empty(&mut self) -> (r: Result<K, ()>)
        requires
            old(self).pool_wf(),
        ensures
            final(self).pool_wf(),
            r is Ok <==> old(self).can_insert_container(),
            match r {
                Ok(k) => {
                    &&& final(self).key_ok(k)
                    &&& final(self).container_at(k).len() == 0
                    &&& frame_except(*old(self), *final(self), k)
                },
                Err(()) => frame_all(*old(self), *final(self)),
            },
    ;

    /// Allocate an empty container, returning its key.
    ///
    /// Panics on allocation failure.
    fn insert_empty(&mut self) -> (r: K)
        requires
            old(self).pool_wf(),
            old(self).can_insert_container(),
        ensures
            final(self).pool_wf(),
            final(self).key_ok(r),
            final(self).container_at(r).len() == 0,
            frame_except(*old(self), *final(self), r),
    {
        match self.try_insert_empty() {
            Ok(k) => k,
            Err(_) => vstd::pervasive::unreached(),
        }
    }

    /// Allocate an empty container, returning a unique key.
    ///
    /// The returned key is guaranteed to compare disequal to that of any
    /// other container which has not been removed.  Returns an error on
    /// allocation failure; allocation always fails if the pool does not
    /// support this feature.
    fn insert_unique_empty(&mut self) -> (r: Result<K, ()>)
        requires
            old(self).pool_wf(),
        ensures
            final(self).pool_wf(),
            match r {
                Ok(k) => {
                    &&& final(self).key_ok(k)
                    &&& final(self).container_at(k).len() == 0
                    &&& !old(self).key_ok(k)
                    &&& frame_except(*old(self), *final(self), k)
                },
                Err(()) => frame_all(*old(self), *final(self)),
            },
    ;
}

/// A pool which allows the insertion of empty containers with a given
/// capacity.
pub trait InsertWithCapacity<K, C>: ContainerPool<K> {
    /// Whether allocating one more container will succeed.
    spec fn can_insert_with_capacity(&self) -> bool;

    /// Allocate an empty container with the given capacity.
    ///
    /// Returns an error on failure.
    fn try_insert_with_capacity(&mut self, capacity: C) -> (r: Result<K, ()>)
        requires
            old(self).pool_wf(),
        ensures
            final(self).pool_wf(),
            r is Ok <==> old(self).can_insert_with_capacity(),
            match r {
                Ok(k) => {
                    &&& final(self).key_ok(k)
                    &&& final(self).container_at(k).len() == 0
                    &&& frame_except(*old(self), *final(self), k)
                },
                Err(()) => frame_all(*old(self), *final(self)),
            },
    ;

    /// Allocate an empty container with the given capacity.
    ///
    /// Panics on failure.
    fn insert_with_capacity(&mut self, capacity: C) -> (r: K)
        requires
            old(self).pool_wf(),
            old(self).can_insert_with_capacity(),
        ensures
            final(self).pool_wf(),
            final(self).key_ok(r),
            final(self).container_at(r).len() == 0,
            frame_except(*old(self), *final(self), r),
    {
        match self.try_insert_with_capacity(capacity) {
            Ok(k) => k,
            Err(_) => vstd::pervasive::unreached(),
        }
    }

    /// Allocate an empty container with the given capacity, returning a
    /// unique key.
    ///
    /// Returns an error on allocation failure; allocation always fails if
    /// the pool does not support this feature.
    fn insert_unique_with_capacity(&mut self, capacity: C) -> (r: Result<K, ()>)
        requires
            old(self).pool_wf(),
        ensures
            final(self).pool_wf(),
            match r {
                Ok(k) => {
                    &&& final(self).key_ok(k)
                    &&& final(self).container_at(k).len() == 0
                    &&& !old(self).key_ok(k)
                    &&& frame_except(*old(self), *final(self), k)
                },
                Err(()) => frame_all(*old(self), *final(self)),
            },
    ;
}

/// A pool which associates keys `K` with whether their container is empty.
pub trait IsEmptyPool<K>: ContainerPool<K> {
    /// Get whether the container associated with the key `key` is empty.
    fn key_is_empty(&self, key: K) -> (r: bool)
        requires
            self.pool_wf(),
            self.key_ok(key),
        ensures
            r <==> self.container_at(key).len() == 0,
    ;
}

/// A pool which associates keys `K` with a length.
///
/// An empty container has length 0.
pub trait LenPool<K>: IsEmptyPool<K> {
    /// Get the length of the container associated with the key `key`.
    fn key_len(&self, key: K) -> (r: usize)
        requires
            self.pool_wf(),
            self.key_ok(key),
        ensures
            r == self.container_at(key).len(),
    ;
}

impl<V> Container for Vec<V> {
    type Elem = V;

    open spec fn elems(&self) -> Seq<V> {
        self@
    }

    fn empty_container() -> Self {
        Vec::new()
    }
}

impl<V> WithCapacity<usize> for Vec<V> {
    fn new_with_capacity(capacity: usize) -> Self {
        Vec::with_capacity(capacity)
    }
}

impl<V> Container for std::collections::VecDeque<V> {
    type Elem = V;

    open spec fn elems(&self) -> Seq<V> {
        self@
    }

    fn empty_container() -> Self {
        std::collections::VecDeque::new()
    }
}

impl<V> WithCapacity<usize> for std::collections::VecDeque<V> {
    fn new_with_capacity(capacity: usize) -> Self {
        std::collections::VecDeque::with_capacity(capacity)
    }
}

impl<V> IsEmpty for std::collections::VecDeque<V> {
    fn is_empty(&self) -> bool {
        self.len() == 0
    }
}

impl<V> HasLen for std::collections::VecDeque<V> {
    fn len(&self) -> usize {
        self.len()
    }
}

impl<V> IsEmpty for Vec<V> {
    fn is_empty(&self) -> bool {
        self.len() == 0
    }
}

impl<V> HasLen for Vec<V> {
    fn len(&self) -> usize {
        let s: &[V] = self.as_slice();
        s.len()
    }
}

} // verus!
