//! Slots: per-entry storage able to hold either a live value or a free-list
//! link, in the same cell.

use vstd::prelude::*;

verus! {

/// Whether `v` is a value that `V::default()` may return.
pub open spec fn is_default_value<V: Default>(v: V) -> bool {
    call_ensures(V::default, (), v)
}

/// A type which can be initialized given a value of type `V`, potentially
/// re-using existing resources.
pub trait InitFrom<V>: Sized {
    /// Whether this slot currently holds a value.
    spec fn holds_value(&self) -> bool;

    /// The value this slot holds (meaningful when `holds_value()`).
    spec fn stored(&self) -> V;

    /// Create a slot from a value.
    fn from_value(value: V) -> (r: Self)
        ensures
            r.holds_value(),
            r.stored() == value,
    ;

    /// Set this slot to a value.
    fn set_value(&mut self, new: V)
        ensures
            final(self).holds_value(),
            final(self).stored() == new,
    ;
}

/// A type which can contain a single value of type `Self::Value`.
pub trait Slot: InitFrom<<Self as Slot>::Value> {
    /// The type of values which may be stored in this slot.
    type Value;

    /// If this slot contains a value, return it.
    ///
    /// A slot is guaranteed to contain a value if created using
    /// `Self::from_value`.
    fn try_into_value(self) -> (r: Option<Self::Value>)
        ensures
            r == if self.holds_value() {
                Some(self.stored())
            } else {
                None::<Self::Value>
            },
    ;

    /// If this slot contains a value, return it.
    fn into_value(self) -> (r: Self::Value)
        requires
            self.holds_value(),
        ensures
            r == self.stored(),
    {
        self.try_into_value().unwrap()
    }

    /// Take this slot's value, replacing it with a new one.
    fn try_swap_value(&mut self, new: Self::Value) -> (r: Option<Self::Value>)
        ensures
            final(self).holds_value(),
            final(self).stored() == new,
            r == if old(self).holds_value() {
                Some(old(self).stored())
            } else {
                None::<Self::Value>
            },
    {
        let mut result = Self::from_value(new);
        core::mem::swap(&mut result, self);
        result.try_into_value()
    }

    /// Take this slot's value, replacing it with a new one.
    fn swap_value(&mut self, new: Self::Value) -> (r: Self::Value)
        requires
            old(self).holds_value(),
        ensures
            final(self).holds_value(),
            final(self).stored() == new,
            r == old(self).stored(),
    {
        self.try_swap_value(new).unwrap()
    }

    /// Create a new slot with the default value.
    fn default_value() -> (r: Self) where Self::Value: Default
        ensures
            r.holds_value(),
            is_default_value(r.stored()),
    {
        Self::from_value(Self::Value::default())
    }

    /// Set this slot to the default value.
    fn set_default_value(&mut self) where Self::Value: Default
        ensures
            final(self).holds_value(),
            is_default_value(final(self).stored()),
    {
        self.set_value(Self::Value::default())
    }

    /// Take this slot's value, replacing it with the default.
    fn swap_default_value(&mut self) -> (r: Self::Value) where Self::Value: Default
        requires
            old(self).holds_value(),
        ensures
            final(self).holds_value(),
            is_default_value(final(self).stored()),
            r == old(self).stored(),
    {
        self.swap_value(Self::Value::default())
    }
}

/// A type which can contain a single value of type `Self::Value`, which can
/// be extracted.
pub trait RemoveSlot: Slot {
    /// How a value extracted by removal relates to the one that was stored:
    /// exactly equal for default-replacing slots, a clone for cloning slots.
    spec fn removed_value(&self, v: Self::Value) -> bool;

    /// What the slot holds after its value was removed: the default value
    /// for default-replacing slots, the old content for cloning slots.
    spec fn after_removal(&self, post: Self) -> bool;

    /// Take this slot's value out, leaving the slot in a valid state.
    ///
    /// Returns an arbitrary value if this slot does not contain a value.
    fn try_remove_value(&mut self) -> (r: Option<Self::Value>)
        ensures
            old(self).holds_value() ==> match r {
                Some(v) => old(self).removed_value(v),
                None => false,
            },
            old(self).holds_value() ==> old(self).after_removal(*final(self)),
    ;

    /// Take this slot's value out, leaving the slot in a valid state.
    fn remove_value(&mut self) -> (r: Self::Value)
        requires
            old(self).holds_value(),
        ensures
            old(self).removed_value(r),
            old(self).after_removal(*final(self)),
    {
        let ghost pre = *self;
        let r = self.try_remove_value().unwrap();
        proof {
            assert(pre.after_removal(*self));
        }
        r
    }

    /// Delete this slot's value.
    fn delete_value(&mut self)
        requires
            old(self).holds_value(),
        ensures
            old(self).after_removal(*final(self)),
    {
        let _ = self.remove_value();
    }
}

/// A type which can contain either a value of type `Self::Value` or a key of
/// type `K` (a free-list link).
pub trait KeySlot<K>: Slot {
    /// Whether this slot currently holds a key.
    spec fn holds_key(&self) -> bool;

    /// The key this slot holds (meaningful when `holds_key()`).
    spec fn stored_key(&self) -> K;

    /// If this slot contains a key, return it.
    fn try_key(&self) -> (r: Option<K>)
        ensures
            r == if self.holds_key() {
                Some(self.stored_key())
            } else {
                None::<K>
            },
    ;

    /// If this slot contains a key, return it.
    fn key(&self) -> (r: K)
        requires
            self.holds_key(),
        ensures
            r == self.stored_key(),
    {
        self.try_key().unwrap()
    }

    /// Create a slot from a key.
    fn from_key(key: K) -> (r: Self)
        ensures
            r.holds_key(),
            r.stored_key() == key,
    ;

    /// Set this slot to a key.
    fn set_key(&mut self, new: K)
        ensures
            final(self).holds_key(),
            final(self).stored_key() == new,
    {
        *self = Self::from_key(new);
    }

    /// Take this slot's value, replacing it with a key.
    ///
    /// Returns `None`, still replacing the content, if this slot does not
    /// contain a value.
    fn try_swap_key(&mut self, new: K) -> (r: Option<Self::Value>)
        ensures
            final(self).holds_key(),
            final(self).stored_key() == new,
            r == if old(self).holds_value() {
                Some(old(self).stored())
            } else {
                None::<Self::Value>
            },
    {
        let mut result = Self::from_key(new);
        core::mem::swap(&mut result, self);
        result.try_into_value()
    }

    /// Take this slot's value, replacing it with a key.
    fn swap_key(&mut self, new: K) -> (r: Self::Value)
        requires
            old(self).holds_value(),
        ensures
            final(self).holds_key(),
            final(self).stored_key() == new,
            r == old(self).stored(),
    {
        self.try_swap_key(new).unwrap()
    }

    /// Create a slot from either a key or a value.
    fn from_either(value: TaggedSlot<K, Self::Value>) -> (r: Self)
        ensures
            match value {
                TaggedSlot::Key(k) => r.holds_key() && r.stored_key() == k,
                TaggedSlot::Value(v) => r.holds_value() && r.stored() == v,
            },
    {
        match value {
            TaggedSlot::Key(k) => Self::from_key(k),
            TaggedSlot::Value(v) => Self::from_value(v),
        }
    }

    /// Set this slot to either a key or a value.
    fn set_slot(&mut self, new: TaggedSlot<K, Self::Value>)
        ensures
            match new {
                TaggedSlot::Key(k) => final(self).holds_key() && final(self).stored_key() == k,
                TaggedSlot::Value(v) => final(self).holds_value() && final(self).stored() == v,
            },
    {
        *self = Self::from_either(new);
    }

    /// Take this slot's value, replacing it with either a key or a value.
    ///
    /// Returns `None`, still replacing the content, if this slot does not
    /// contain a value.
    fn try_swap(&mut self, new: TaggedSlot<K, Self::Value>) -> (r: Option<Self::Value>)
        ensures
            match new {
                TaggedSlot::Key(k) => final(self).holds_key() && final(self).stored_key() == k,
                TaggedSlot::Value(v) => final(self).holds_value() && final(self).stored() == v,
            },
            r == if old(self).holds_value() {
                Some(old(self).stored())
            } else {
                None::<Self::Value>
            },
    {
        match new {
            TaggedSlot::Key(k) => self.try_swap_key(k),
            TaggedSlot::Value(v) => self.try_swap_value(v),
        }
    }

    /// Take this slot's value, replacing it with either a key or a value.
    fn swap(&mut self, new: TaggedSlot<K, Self::Value>) -> (r: Self::Value)
        requires
            old(self).holds_value(),
        ensures
            match new {
                TaggedSlot::Key(k) => final(self).holds_key() && final(self).stored_key() == k,
                TaggedSlot::Value(v) => final(self).holds_value() && final(self).stored() == v,
            },
            r == old(self).stored(),
    {
        self.try_swap(new).unwrap()
    }
}

/// A slot which can be dereferenced.
pub trait SlotRef: Slot {
    /// If this slot contains a value, return a reference to it.
    fn try_value(&self) -> (r: Option<&Self::Value>)
        ensures
            match r {
                Some(v) => self.holds_value() && *v == self.stored(),
                None => !self.holds_value(),
            },
    ;

    /// If this slot contains a value, return a reference to it.
    fn value(&self) -> (r: &Self::Value)
        requires
            self.holds_value(),
        ensures
            *r == self.stored(),
    {
        self.try_value().unwrap()
    }
}

/// A slot which can be mutably dereferenced.
pub trait SlotMut: Slot {
    /// If this slot contains a value, return a mutable reference to it.
    fn try_value_mut(&mut self) -> (r: Option<&mut Self::Value>)
        ensures
            match r {
                Some(m) => old(self).holds_value() && *m == old(self).stored()
                    && final(self).holds_value() && final(self).stored() == *final(m),
                None => !old(self).holds_value() && *final(self) == *old(self),
            },
    ;

    /// If this slot contains a value, return a mutable reference to it.
    fn value_mut(&mut self) -> (r: &mut Self::Value)
        requires
            old(self).holds_value(),
        ensures
            *r == old(self).stored(),
            final(self).holds_value(),
            final(self).stored() == *final(r),
    {
        self.try_value_mut().unwrap()
    }
}

/// The identity slot: contains a single raw value, which can be interpreted
/// as either a key or a value.
///
/// Values are removed by cloning the current value; the slot itself is never
/// changed by removal, so a removed entry reads back as a stale clone.
#[derive(Debug, Copy, Clone, Eq, PartialEq, Hash, Structural)]
pub struct CloneSlot<K>(pub K);

impl<K> InitFrom<K> for CloneSlot<K> {
    open spec fn holds_value(&self) -> bool {
        true
    }

    open spec fn stored(&self) -> K {
        self.0
    }

    fn from_value(value: K) -> Self {
        CloneSlot(value)
    }

    fn set_value(&mut self, new: K) {
        self.0 = new;
    }
}

impl<K> Slot for CloneSlot<K> {
    type Value = K;

    fn try_into_value(self) -> Option<K> {
        Some(self.0)
    }

    fn into_value(self) -> K {
        self.0
    }
}

impl<K: Clone> RemoveSlot for CloneSlot<K> {
    open spec fn removed_value(&self, v: K) -> bool {
        cloned(self.0, v)
    }

    open spec fn after_removal(&self, post: Self) -> bool {
        post == *self
    }

    fn try_remove_value(&mut self) -> (r: Option<K>)
        ensures
            *final(self) == *old(self),
            match r {
                Some(v) => old(self).removed_value(v),
                None => false,
            },
    {
        Some(self.0.clone())
    }

    fn remove_value(&mut self) -> (r: K)
        ensures
            *final(self) == *old(self),
    {
        self.0.clone()
    }

    fn delete_value(&mut self)
        ensures
            *final(self) == *old(self),
    {
    }
}

impl<K: Copy> KeySlot<K> for CloneSlot<K> {
    open spec fn holds_key(&self) -> bool {
        true
    }

    open spec fn stored_key(&self) -> K {
        self.0
    }

    fn try_key(&self) -> Option<K> {
        Some(self.0)
    }

    fn key(&self) -> K {
        self.0
    }

    fn from_key(key: K) -> Self {
        CloneSlot(key)
    }
}

impl<K> SlotRef for CloneSlot<K> {
    fn try_value(&self) -> Option<&K> {
        Some(&self.0)
    }

    fn value(&self) -> &K {
        &self.0
    }
}

impl<K> SlotMut for CloneSlot<K> {
    fn try_value_mut(&mut self) -> Option<&mut K> {
        Some(&mut self.0)
    }

    fn value_mut(&mut self) -> &mut K {
        &mut self.0
    }
}

/// The identity slot: contains a single raw value, which can be interpreted
/// as either a key or a value.
///
/// Values are removed by replacing them with the default value, so a removed
/// entry reads back as `K::default()`.
#[derive(Debug, Copy, Clone, Eq, PartialEq, Hash, Structural)]
pub struct DefaultSlot<K>(pub K);

impl<K> InitFrom<K> for DefaultSlot<K> {
    open spec fn holds_value(&self) -> bool {
        true
    }

    open spec fn stored(&self) -> K {
        self.0
    }

    fn from_value(value: K) -> Self {
        DefaultSlot(value)
    }

    fn set_value(&mut self, new: K) {
        self.0 = new;
    }
}

impl<K> Slot for DefaultSlot<K> {
    type Value = K;

    fn try_into_value(self) -> Option<K> {
        Some(self.0)
    }

    fn into_value(self) -> K {
        self.0
    }
}

impl<K: Default> RemoveSlot for DefaultSlot<K> {
    open spec fn removed_value(&self, v: K) -> bool {
        v == self.0
    }

    open spec fn after_removal(&self, post: Self) -> bool {
        post.holds_value() && is_default_value(post.stored())
    }

    fn try_remove_value(&mut self) -> (r: Option<K>)
        ensures
            r == Some(old(self).stored()),
            final(self).holds_value(),
            is_default_value(final(self).stored()),
    {
        Some(self.swap_value(K::default()))
    }

    fn remove_value(&mut self) -> (r: K)
        ensures
            r == old(self).stored(),
            final(self).holds_value(),
            is_default_value(final(self).stored()),
    {
        let ghost pre = *self;
        let r = self.swap_value(K::default());
        proof {
            assert(pre.removed_value(r));
        }
        r
    }
}

impl<K: Copy> KeySlot<K> for DefaultSlot<K> {
    open spec fn holds_key(&self) -> bool {
        true
    }

    open spec fn stored_key(&self) -> K {
        self.0
    }

    fn try_key(&self) -> Option<K> {
        Some(self.0)
    }

    fn key(&self) -> K {
        self.0
    }

    fn from_key(key: K) -> Self {
        DefaultSlot(key)
    }
}

impl<K> SlotRef for DefaultSlot<K> {
    fn try_value(&self) -> Option<&K> {
        Some(&self.0)
    }

    fn value(&self) -> &K {
        &self.0
    }
}

impl<K> SlotMut for DefaultSlot<K> {
    fn try_value_mut(&mut self) -> Option<&mut K> {
        Some(&mut self.0)
    }

    fn value_mut(&mut self) -> &mut K {
        &mut self.0
    }
}

/// A slot which can be queried to see whether it contains a key or a
/// value.
///
/// A `CheckedSlot` always contains at least one of a key or a value.
pub trait CheckedSlot<K>: KeySlot<K> {
    /// Every checked slot holds a key or a value.
    proof fn keyed_or_valued(&self)
        ensures
            self.holds_key() || self.holds_value(),
    ;

    /// Whether this slot contains a value.
    fn has_value(&self) -> (r: bool)
        ensures
            r == self.holds_value(),
    ;

    /// Whether this slot contains a key.
    fn has_key(&self) -> (r: bool)
        ensures
            r == self.holds_key(),
    ;

    /// Convert this slot into either a key or a value.
    ///
    /// If this slot can be interpreted as both a key and a value, prefer
    /// the key.
    fn into_either(self) -> (r: TaggedSlot<K, Self::Value>)
        ensures
            match r {
                TaggedSlot::Key(k) => self.holds_key() && k == self.stored_key(),
                TaggedSlot::Value(v) => !self.holds_key() && self.holds_value() && v
                    == self.stored(),
            },
    {
        proof {
            self.keyed_or_valued();
        }
        if self.has_key() {
            TaggedSlot::Key(self.key())
        } else {
            TaggedSlot::Value(self.into_value())
        }
    }

    /// View this slot as a key or a reference to a value.
    ///
    /// If this slot can be interpreted as both a key and a value, prefer
    /// the key.
    fn as_either(&self) -> (r: TaggedSlot<K, &Self::Value>) where Self: SlotRef
        ensures
            match r {
                TaggedSlot::Key(k) => self.holds_key() && k == self.stored_key(),
                TaggedSlot::Value(v) => !self.holds_key() && self.holds_value() && *v
                    == self.stored(),
            },
    {
        proof {
            self.keyed_or_valued();
        }
        if self.has_key() {
            TaggedSlot::Key(self.key())
        } else {
            TaggedSlot::Value(self.value())
        }
    }
}

/// The fully-tagged slot: a discriminant tells whether the cell currently
/// holds a free-list key or a live value, so reading a deleted entry cleanly
/// reports "not a value".
#[derive(Debug, Copy, Clone, Eq, PartialEq, Hash, Structural)]
pub enum TaggedSlot<K, V> {
    /// The slot holds a free-list link.
    Key(K),
    /// The slot holds a live value.
    Value(V),
}

impl<K: Copy, V> CheckedSlot<K> for TaggedSlot<K, V> {
    proof fn keyed_or_valued(&self) {
        assert(self.holds_key() || self.holds_value()) by {
            assert(self is Key || self is Value);
        }
    }

    fn has_value(&self) -> (r: bool) {
        match self {
            TaggedSlot::Value(_) => true,
            TaggedSlot::Key(_) => false,
        }
    }

    fn has_key(&self) -> (r: bool) {
        match self {
            TaggedSlot::Value(_) => false,
            TaggedSlot::Key(_) => true,
        }
    }
}

impl<K, V> InitFrom<V> for TaggedSlot<K, V> {
    open spec fn holds_value(&self) -> bool {
        self is Value
    }

    open spec fn stored(&self) -> V {
        self->Value_0
    }

    fn from_value(value: V) -> Self {
        TaggedSlot::Value(value)
    }

    fn set_value(&mut self, new: V) {
        *self = TaggedSlot::Value(new);
    }
}

impl<K, V> Slot for TaggedSlot<K, V> {
    type Value = V;

    fn try_into_value(self) -> Option<V> {
        match self {
            TaggedSlot::Value(v) => Some(v),
            TaggedSlot::Key(_) => None,
        }
    }
}

impl<K: Copy, V> KeySlot<K> for TaggedSlot<K, V> {
    open spec fn holds_key(&self) -> bool {
        self is Key
    }

    open spec fn stored_key(&self) -> K {
        self->Key_0
    }

    fn try_key(&self) -> Option<K> {
        match self {
            TaggedSlot::Key(k) => Some(*k),
            TaggedSlot::Value(_) => None,
        }
    }

    fn from_key(key: K) -> Self {
        TaggedSlot::Key(key)
    }
}

impl<K, V> SlotRef for TaggedSlot<K, V> {
    fn try_value(&self) -> Option<&V> {
        match self {
            TaggedSlot::Value(v) => Some(v),
            TaggedSlot::Key(_) => None,
        }
    }
}

impl<K, V> SlotMut for TaggedSlot<K, V> {
    fn try_value_mut(&mut self) -> Option<&mut V> {
        match self {
            TaggedSlot::Value(v) => Some(v),
            TaggedSlot::Key(_) => None,
        }
    }
}

} // verus!
