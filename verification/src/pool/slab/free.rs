//! Free-list strategies for the slab allocator: an external stack of freed
//! keys, and an intrusive list whose links live inside the freed slots.

use vstd::prelude::*;

use crate::index::ContiguousIx;
use crate::slot::{KeySlot, RemoveSlot, Slot};

verus! {

/// Whether `frees` is a well-formed reuse order for a backing of `len`
/// slots keyed by `K`: every index in bounds and representable, no index
/// twice.
pub open spec fn frees_ok<K: ContiguousIx>(frees: Seq<int>, len: int) -> bool {
    &&& forall|i: int|
        0 <= i < frees.len() ==> 0 <= #[trigger] frees[i] < len && frees[i] <= K::max_spec()
    &&& forall|i: int, j: int| 0 <= i < j < frees.len() ==> frees[i] != frees[j]
}

/// Distinct in-bounds indices cannot outnumber the slots.
pub proof fn lemma_frees_len_bounded<K: ContiguousIx>(frees: Seq<int>, len: int)
    requires
        frees_ok::<K>(frees, len),
        0 <= len,
    ensures
        frees.len() <= len,
{
    let s = frees.to_set();
    assert(frees.no_duplicates()) by {
        assert forall|i: int, j: int|
            0 <= i < frees.len() && 0 <= j < frees.len() && i != j implies frees[i]
            != frees[j] by {
            if i < j {
                assert(frees[i] != frees[j]);
            } else {
                assert(frees[j] != frees[i]);
            }
        }
    }
    frees.unique_seq_to_set();
    let range = vstd::set_lib::set_int_range(0, len);
    assert(s.subset_of(range));
    vstd::set_lib::lemma_int_range(0, len);
    vstd::set_lib::lemma_len_subset(s, range);
}

/// Membership in a reuse order with one index put in front.
pub proof fn lemma_cons_contains(s: Seq<int>, x: int, i: int)
    ensures
        (seq![x] + s).contains(i) <==> (i == x || s.contains(i)),
{
    let t = seq![x] + s;
    if t.contains(i) {
        let j = choose|j: int| 0 <= j < t.len() && t[j] == i;
        if j > 0 {
            assert(s[j - 1] == i);
        }
    }
    if i == x {
        assert(t[0] == i);
    }
    if s.contains(i) {
        let j = choose|j: int| 0 <= j < s.len() && s[j] == i;
        assert(t[j + 1] == i);
    }
}

/// Membership in a duplicate-free reuse order with its head removed.
pub proof fn lemma_drop_first_contains(s: Seq<int>, i: int)
    requires
        s.len() > 0,
        forall|a: int, b: int| 0 <= a < b < s.len() ==> s[a] != s[b],
    ensures
        s.drop_first().contains(i) <==> (s.contains(i) && i != s[0]),
{
    let t = s.drop_first();
    if t.contains(i) {
        let j = choose|j: int| 0 <= j < t.len() && t[j] == i;
        assert(s[j + 1] == i);
    }
    if s.contains(i) && i != s[0] {
        let j = choose|j: int| 0 <= j < s.len() && s[j] == i;
        assert(t[j - 1] == i);
    }
}

/// A free list implementation over a backing of slots.
///
/// The list owns the order in which freed positions will be reused:
/// `frees()` lists them, next reuse first.
pub trait FreeList<S: Slot, K: ContiguousIx>: Sized {
    /// The indices of the currently free slots, in the order they will be
    /// reused.
    spec fn frees(&self) -> Seq<int>;

    /// Well-formedness of this free list over the given backing.
    spec fn wf(&self, backing: Seq<S>) -> bool;

    /// What `delete` requires of the slot being freed (beyond liveness):
    /// strategies that neutralize the old value need the slot to hold one.
    spec fn can_free_slot(&self, slot: S) -> bool;

    /// What the freed slot holds afterwards: the neutralized value for an
    /// external list, the free-list link for an intrusive one.
    spec fn vacated(&self, pre_slot: S, post_slot: S) -> bool;

    /// A well-formed free list has in-bounds, representable, distinct free
    /// indices.
    proof fn wf_facts(&self, backing: Seq<S>)
        requires
            self.wf(backing),
        ensures
            frees_ok::<K>(self.frees(), backing.len() as int),
    ;

    /// Well-formedness depends only on the slots at free positions: it is
    /// kept when live slots change, and when the backing grows while the
    /// free list is empty.
    proof fn wf_frame(&self, b1: Seq<S>, b2: Seq<S>)
        requires
            self.wf(b1),
            b1.len() == b2.len() || self.frees().len() == 0,
            b1.len() <= b2.len(),
            forall|i: int| self.frees().contains(i) ==> 0 <= i < b2.len() && b2[i] == b1[i],
        ensures
            self.wf(b2),
    ;

    /// Create a new, empty free list.
    fn empty() -> (r: Self)
        ensures
            r.frees().len() == 0,
            forall|b: Seq<S>| r.wf(b),
    ;

    /// Allocate a slot in the backing, returning its index.
    ///
    /// Returns `None` when the list is empty, signalling that the caller
    /// should grow the backing instead.
    fn allocate(&mut self, backing: &mut Vec<S>) -> (r: Option<K>)
        requires
            old(self).wf(old(backing)@),
        ensures
            final(backing)@ == old(backing)@,
            final(self).wf(final(backing)@),
            old(self).frees().len() == 0 ==> r is None && final(self).frees() == old(self).frees(),
            old(self).frees().len() > 0 ==> match r {
                Some(k) => k.idx() == old(self).frees()[0] && final(self).frees() == old(self).frees().drop_first(),
                None => false,
            },
    ;

    /// Deallocate a slot in the backing, putting it at the head of the free
    /// list.
    ///
    /// Freeing a slot that is not currently live is an unchecked
    /// precondition violation.
    fn delete(&mut self, key: K, backing: &mut Vec<S>)
        requires
            old(self).wf(old(backing)@),
            0 <= key.idx() < old(backing)@.len(),
            key.idx() <= K::max_spec(),
            !old(self).frees().contains(key.idx()),
            old(self).can_free_slot(old(backing)@[key.idx()]),
        ensures
            final(self).wf(final(backing)@),
            final(self).frees() == seq![key.idx()] + old(self).frees(),
            final(backing)@.len() == old(backing)@.len(),
            forall|i: int|
                0 <= i < old(backing)@.len() && i != key.idx() ==> final(backing)@[i] == old(backing)@[i],
            old(self).vacated(old(backing)@[key.idx()], final(backing)@[key.idx()]),
    ;

    /// Clear this free list, resetting it.
    fn clear(&mut self, backing: &mut Vec<S>)
        ensures
            final(backing)@ == old(backing)@,
            final(self).frees().len() == 0,
            forall|b: Seq<S>| final(self).wf(b),
    ;
}

/// A free list implementation which allows the removal of values.
pub trait RemovalList<S: Slot, K: ContiguousIx>: FreeList<S, K> {
    /// The type of values extracted on removal.
    type Value;

    /// How a value extracted from a freed slot relates to the one that was
    /// stored there.
    spec fn removed(&self, slot: S, v: Self::Value) -> bool;

    /// Deallocate a slot in the backing, putting it on the free list and
    /// returning its value.
    fn try_remove(&mut self, key: K, backing: &mut Vec<S>) -> (r: Option<Self::Value>)
        requires
            old(self).wf(old(backing)@),
            0 <= key.idx() < old(backing)@.len(),
            key.idx() <= K::max_spec(),
            !old(self).frees().contains(key.idx()),
            old(backing)@[key.idx()].holds_value(),
        ensures
            final(self).wf(final(backing)@),
            final(self).frees() == seq![key.idx()] + old(self).frees(),
            final(backing)@.len() == old(backing)@.len(),
            forall|i: int|
                0 <= i < old(backing)@.len() && i != key.idx() ==> final(backing)@[i] == old(backing)@[i],
            old(self).vacated(old(backing)@[key.idx()], final(backing)@[key.idx()]),
            match r {
                Some(v) => old(self).removed(old(backing)@[key.idx()], v),
                None => false,
            },
    ;

    /// Deallocate a slot in the backing, putting it on the free list and
    /// returning its value.
    fn remove(&mut self, key: K, backing: &mut Vec<S>) -> (r: Self::Value)
        requires
            old(self).wf(old(backing)@),
            0 <= key.idx() < old(backing)@.len(),
            key.idx() <= K::max_spec(),
            !old(self).frees().contains(key.idx()),
            old(backing)@[key.idx()].holds_value(),
        ensures
            final(self).wf(final(backing)@),
            final(self).frees() == seq![key.idx()] + old(self).frees(),
            final(backing)@.len() == old(backing)@.len(),
            forall|i: int|
                0 <= i < old(backing)@.len() && i != key.idx() ==> final(backing)@[i] == old(backing)@[i],
            old(self).vacated(old(backing)@[key.idx()], final(backing)@[key.idx()]),
            old(self).removed(old(backing)@[key.idx()], r),
    {
        match self.try_remove(key, backing) {
            Some(v) => v,
            None => vstd::pervasive::unreached(),
        }
    }
}

/// A free list which supports querying the next element of the list.
pub trait NextFreeList<S: Slot, K: ContiguousIx>: FreeList<S, K> {
    /// Get the next free slot in the list: the index that the next
    /// allocation will return, unless the free list or backing are modified
    /// in the meantime.
    fn next_free(&self, backing: &Vec<S>) -> (r: Option<K>)
        requires
            self.wf(backing@),
        ensures
            match r {
                Some(k) => self.frees().len() > 0 && k.idx() == self.frees()[0],
                None => self.frees().len() == 0,
            },
    ;
}

/// A free list which supports querying its length.
pub trait FreeListCapacity<S: Slot, K: ContiguousIx>: FreeList<S, K> {
    /// Get the number of slots in this free list.
    fn len(&self, backing: &Vec<S>) -> (r: usize)
        requires
            self.wf(backing@),
        ensures
            r == self.frees().len(),
    ;
}

/// A simple free list consisting of a vector of freed keys.
///
/// Returns the most recently freed key first, to maximize caching.
#[derive(Debug, Clone, Eq, PartialEq, Hash)]
pub struct KeyList<K>(pub Vec<K>);

impl<K> Default for KeyList<K> {
    fn default() -> (r: Self)
        ensures
            r.0@.len() == 0,
    {
        KeyList(Vec::new())
    }
}

impl<K: ContiguousIx> KeyList<K> {
    /// The reuse order this stack of keys stands for: the last pushed key
    /// comes out first.
    pub open spec fn order(&self) -> Seq<int> {
        Seq::new(self.0@.len(), |i: int| self.0@[self.0@.len() - 1 - i].idx())
    }
}

impl<S: RemoveSlot, K: ContiguousIx> FreeList<S, K> for KeyList<K> {
    open spec fn frees(&self) -> Seq<int> {
        self.order()
    }

    open spec fn wf(&self, backing: Seq<S>) -> bool {
        frees_ok::<K>(self.order(), backing.len() as int)
    }

    open spec fn can_free_slot(&self, slot: S) -> bool {
        slot.holds_value()
    }

    open spec fn vacated(&self, pre_slot: S, post_slot: S) -> bool {
        pre_slot.after_removal(post_slot)
    }

    proof fn wf_facts(&self, backing: Seq<S>) {
    }

    proof fn wf_frame(&self, b1: Seq<S>, b2: Seq<S>) {
    }

    fn empty() -> (r: Self) {
        KeyList(Vec::new())
    }

    fn allocate(&mut self, _backing: &mut Vec<S>) -> (r: Option<K>) {
        let r = self.0.pop();
        proof {
            if old(self).0@.len() > 0 {
                assert(self.order() =~= old(self).order().drop_first());
            }
        }
        r
    }

    fn delete(&mut self, key: K, backing: &mut Vec<S>) {
        let ix = key.index();
        let slot = &mut backing[ix];
        slot.delete_value();
        self.0.push(key);
        proof {
            assert(self.order() =~= seq![key.idx()] + old(self).order());
        }
    }

    fn clear(&mut self, _backing: &mut Vec<S>) {
        self.0.clear();
        proof {
            assert(self.order() =~= Seq::<int>::empty());
        }
    }
}

impl<S: RemoveSlot, K: ContiguousIx> RemovalList<S, K> for KeyList<K> {
    type Value = S::Value;

    open spec fn removed(&self, slot: S, v: S::Value) -> bool {
        slot.removed_value(v)
    }

    fn try_remove(&mut self, key: K, backing: &mut Vec<S>) -> (r: Option<S::Value>) {
        let ix = key.index();
        let slot = &mut backing[ix];
        let value = match slot.try_remove_value() {
            Some(v) => v,
            None => {
                return vstd::pervasive::unreached();
            },
        };
        self.0.push(key);
        proof {
            assert(self.order() =~= seq![key.idx()] + old(self).order());
        }
        Some(value)
    }
}

impl<S: RemoveSlot, K: ContiguousIx> NextFreeList<S, K> for KeyList<K> {
    fn next_free(&self, _backing: &Vec<S>) -> (r: Option<K>) {
        if self.0.len() > 0 {
            Some(self.0[self.0.len() - 1])
        } else {
            None
        }
    }
}

impl<S: RemoveSlot, K: ContiguousIx> FreeListCapacity<S, K> for KeyList<K> {
    fn len(&self, _backing: &Vec<S>) -> usize {
        self.0.len()
    }
}

/// An intrusive free list: a single head index, with each freed slot holding
/// the link to the next free slot.
#[derive(Clone, Copy)]
pub struct IntrusiveFree {
    free_head: usize,
    chain: Ghost<Seq<int>>,
}

impl Default for IntrusiveFree {
    fn default() -> (r: Self)
        ensures
            r.chain_spec().len() == 0,
    {
        IntrusiveFree { free_head: usize::MAX, chain: Ghost(Seq::empty()) }
    }
}

impl IntrusiveFree {
    /// The reuse order of this intrusive list.
    pub closed spec fn chain_spec(&self) -> Seq<int> {
        self.chain@
    }

    /// The structural invariant tying the ghost chain to the links stored in
    /// the backing: the head is the first chain entry, each freed slot holds
    /// a key linking to the next one, and the last link is either a
    /// self-link or out of bounds.
    pub closed spec fn chain_wf<S: KeySlot<K>, K: ContiguousIx>(&self, backing: Seq<S>) -> bool {
        let c = self.chain@;
        &&& frees_ok::<K>(c, backing.len() as int)
        &&& (c.len() == 0 ==> self.free_head == usize::MAX)
        &&& (c.len() > 0 ==> self.free_head == c[0])
        &&& forall|i: int|
            0 <= i < c.len() ==> {
                let s = #[trigger] backing[c[i]];
                &&& s.holds_key()
                &&& 0 <= s.stored_key().idx() <= K::max_spec()
                &&& if i + 1 < c.len() {
                    s.stored_key().idx() == c[i + 1]
                } else {
                    s.stored_key().idx() == c[i] || s.stored_key().idx() == usize::MAX as int
                }
            }
    }
}

impl<S: KeySlot<K>, K: ContiguousIx> FreeList<S, K> for IntrusiveFree {
    closed spec fn frees(&self) -> Seq<int> {
        self.chain@
    }

    closed spec fn wf(&self, backing: Seq<S>) -> bool {
        self.chain_wf::<S, K>(backing)
    }

    open spec fn can_free_slot(&self, slot: S) -> bool {
        true
    }

    open spec fn vacated(&self, pre_slot: S, post_slot: S) -> bool {
        post_slot.holds_key()
    }

    proof fn wf_facts(&self, backing: Seq<S>) {
    }

    proof fn wf_frame(&self, b1: Seq<S>, b2: Seq<S>) {
        let c = self.chain@;
        assert forall|i: int| 0 <= i < c.len() implies b2[c[i]] == b1[c[i]] by {
            assert(c.contains(c[i]));
        }
    }

    fn empty() -> (r: Self) {
        IntrusiveFree { free_head: usize::MAX, chain: Ghost(Seq::empty()) }
    }

    fn allocate(&mut self, backing: &mut Vec<S>) -> (r: Option<K>) {
        if self.free_head >= backing.len() {
            proof {
                if self.chain@.len() > 0 {
                    assert(self.chain@.contains(self.chain@[0]));
                }
            }
            return None;
        }
        let old_head = self.free_head;
        let slot = &backing[old_head];
        proof {
            assert(self.chain@[0] == old_head);
        }
        let key = slot.key();
        let ki = key.index();
        self.free_head = if ki == old_head {
            usize::MAX
        } else {
            ki
        };
        proof {
            self.chain@ = self.chain@.drop_first();
            if self.chain@.len() > 0 {
                assert(old(self).chain@[1] == self.chain@[0]);
            }
        }
        Some(K::new_unchecked(old_head))
    }

    fn delete(&mut self, key: K, backing: &mut Vec<S>) {
        let ix = key.index();
        let link = match K::try_new(self.free_head) {
            Some(h) => h,
            None => key,
        };
        let slot = &mut backing[ix];
        slot.set_key(link);
        self.free_head = ix;
        proof {
            self.chain@ = seq![key.idx()] + self.chain@;
        }
    }

    fn clear(&mut self, _backing: &mut Vec<S>) {
        self.free_head = usize::MAX;
        proof {
            self.chain@ = Seq::empty();
        }
    }
}

impl<S: KeySlot<K>, K: ContiguousIx> RemovalList<S, K> for IntrusiveFree {
    type Value = S::Value;

    open spec fn removed(&self, slot: S, v: S::Value) -> bool {
        v == slot.stored()
    }

    fn try_remove(&mut self, key: K, backing: &mut Vec<S>) -> (r: Option<S::Value>) {
        let ix = key.index();
        let link = match K::try_new(self.free_head) {
            Some(h) => h,
            None => key,
        };
        let slot = &mut backing[ix];
        let value = match slot.try_swap_key(link) {
            Some(v) => v,
            None => {
                return vstd::pervasive::unreached();
            },
        };
        self.free_head = ix;
        proof {
            self.chain@ = seq![key.idx()] + self.chain@;
        }
        Some(value)
    }
}

impl<S: KeySlot<K>, K: ContiguousIx> NextFreeList<S, K> for IntrusiveFree {
    fn next_free(&self, backing: &Vec<S>) -> (r: Option<K>) {
        if self.free_head >= backing.len() {
            proof {
                if self.chain@.len() > 0 {
                    assert(self.chain@.contains(self.chain@[0]));
                }
            }
            None
        } else {
            proof {
                assert(self.chain@[0] == self.free_head);
            }
            Some(K::new_unchecked(self.free_head))
        }
    }
}

impl<S: KeySlot<K>, K: ContiguousIx> FreeListCapacity<S, K> for IntrusiveFree {
    fn len(&self, backing: &Vec<S>) -> (r: usize) {
        let ghost c: Seq<int> = self.chain@;
        proof {
            lemma_frees_len_bounded::<K>(c, backing@.len() as int);
        }
        let n = backing.len();
        let mut count: usize = 0;
        let mut curr: usize = self.free_head;
        loop
            invariant_except_break
                count <= c.len(),
                count < c.len() ==> curr == c[count as int],
                count == c.len() ==> curr >= backing@.len(),
            invariant
                self.chain_wf::<S, K>(backing@),
                c == self.chain@,
                c.len() <= backing@.len(),
            ensures
                count == c.len(),
            decreases c.len() - count,
        {
            if curr >= backing.len() {
                proof {
                    if count < c.len() {
                        assert(c[count as int] < backing@.len());
                    }
                }
                break;
            }
            let slot = &backing[curr];
            let ki = slot.key().index();
            count = count + 1;
            if ki == curr {
                proof {
                    if count < c.len() {
                        assert(c[count as int] != c[count - 1]);
                    }
                }
                break;
            }
            curr = ki;
        }
        count
    }
}

} // verus!
