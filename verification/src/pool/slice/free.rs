//! A size-class-indexed intrusive free list for ranges in one contiguous
//! backing buffer, with on-demand splitting of larger free blocks.

use vstd::prelude::*;

use crate::index::ContiguousIx;
use crate::slot::KeySlot;

verus! {

/// A slice composed of indices: the half-open range `[self.0, self.1)`.
#[derive(Debug, Copy, Clone, Eq, PartialEq, Hash, Structural)]
pub struct Slice<K>(pub K, pub K);

/// A mapping from capacities to a discrete set of size classes.
///
/// Class `0` always has capacity `0`; capacities grow strictly with the
/// class, up to the largest representable class `max_class_spec()`.
pub trait SizeClasses: Sized {
    /// Whether this table's parameters are usable at all.
    spec fn classes_wf(&self) -> bool;

    /// The capacity of a size class, as a mathematical function (classes
    /// beyond `max_class_spec()` may exceed `usize`).
    spec fn cap_spec(&self, size_class: int) -> int;

    /// The largest class whose capacity is representable.
    spec fn max_class_spec(&self) -> int;

    /// Class 0 is empty, class 1 holds something, and capacities grow
    /// strictly with the class.
    proof fn cap_facts(&self)
        requires
            self.classes_wf(),
        ensures
            self.cap_spec(0) == 0,
            self.max_class_spec() >= 1,
            self.cap_spec(1) >= 1,
            forall|a: int, b: int|
                1 <= a < b ==> #[trigger] self.cap_spec(a) < #[trigger] self.cap_spec(b),
            forall|c: int|
                1 <= c <= self.max_class_spec() ==> 1 <= #[trigger] self.cap_spec(c)
                    <= usize::MAX,
    ;

    /// The largest representable size class.
    fn max_class(&self) -> (r: u32)
        requires
            self.classes_wf(),
        ensures
            r == self.max_class_spec(),
    ;

    /// Get the capacity of a given size class.
    fn capacity(&self, size_class: u32) -> (r: usize)
        requires
            self.classes_wf(),
            0 <= size_class <= self.max_class_spec(),
        ensures
            r == self.cap_spec(size_class as int),
    ;

    /// Get the index of the smallest size class containing this capacity.
    ///
    /// Returns one more than the largest class if no class is large enough.
    fn size_class_containing(&self, capacity: usize) -> (r: u32)
        requires
            self.classes_wf(),
        ensures
            capacity == 0 ==> r == 0,
            capacity > 0 ==> r >= 1,
            r <= self.max_class_spec() + 1,
            r <= self.max_class_spec() ==> self.cap_spec(r as int) >= capacity,
            r > 0 ==> self.cap_spec(r as int - 1) < capacity,
    ;

    /// Get the index of the largest size class contained within this
    /// capacity.
    ///
    /// Returns `0` for capacities below the granularity floor.
    fn size_class_contained(&self, capacity: usize) -> (r: u32)
        requires
            self.classes_wf(),
        ensures
            0 <= r <= self.max_class_spec(),
            r > 0 ==> self.cap_spec(r as int) <= capacity,
            r < self.max_class_spec() ==> self.cap_spec(r as int + 1) > capacity,
            r == 0 ==> capacity < self.cap_spec(1),
    ;

    /// Get the index of the size class corresponding *exactly* to this
    /// capacity.
    ///
    /// The return value is unspecified if `capacity` is not a size class.
    fn size_class_exact(&self, capacity: usize) -> (r: u32)
        requires
            self.classes_wf(),
        ensures
            capacity == 0 ==> r == 0,
            r <= self.max_class_spec() + 1,
            r <= self.max_class_spec() ==> self.cap_spec(r as int) >= capacity,
            r > 0 ==> self.cap_spec(r as int - 1) < capacity,
    {
        self.size_class_containing(capacity)
    }

    /// Round up a capacity to the nearest size class.
    ///
    /// The result is at least `capacity`; a capacity that already is a
    /// class capacity is returned unchanged, so rounding up is idempotent.
    fn round_up_capacity(&self, capacity: usize) -> (r: usize)
        requires
            self.classes_wf(),
            capacity <= self.cap_spec(self.max_class_spec()),
        ensures
            r >= capacity,
            capacity == 0 ==> r == 0,
            capacity > 0 ==> exists|c: int|
                1 <= c <= self.max_class_spec() && r == #[trigger] self.cap_spec(c) && (c == 1
                    || self.cap_spec(c - 1) < capacity),
            forall|c: int|
                0 <= c <= self.max_class_spec() && capacity == self.cap_spec(c) ==> r == capacity,
    {
        proof {
            self.cap_facts();
        }
        let sc = self.size_class_containing(capacity);
        proof {
            if capacity > 0 && sc > self.max_class_spec() {
                assert(self.cap_spec(sc as int - 1) < capacity);
            }
            if capacity > 0 {
                assert(1 <= sc as int <= self.max_class_spec() && self.cap_spec(sc as int)
                    == self.cap_spec(sc as int) && (sc as int == 1 || self.cap_spec(sc as int - 1)
                    < capacity));
            }
            assert forall|c: int|
                0 <= c <= self.max_class_spec() && capacity == self.cap_spec(c) implies self.cap_spec(
                sc as int,
            ) == capacity by {
                if c < sc {
                    assert(self.cap_spec(sc as int - 1) < capacity);
                    if c < sc - 1 {
                        assert(self.cap_spec(c) < self.cap_spec(sc as int - 1));
                    }
                }
                if sc < c {
                    assert(self.cap_spec(sc as int) < self.cap_spec(c));
                }
            }
        }
        self.capacity(sc)
    }

    /// Round down a capacity to the nearest size class.
    ///
    /// The result is at most `capacity`.
    fn round_down_capacity(&self, capacity: usize) -> (r: usize)
        requires
            self.classes_wf(),
        ensures
            r <= capacity,
            exists|c: int|
                0 <= c <= self.max_class_spec() && r == #[trigger] self.cap_spec(c) && (c
                    == self.max_class_spec() || self.cap_spec(c + 1) > capacity),
    {
        proof {
            self.cap_facts();
        }
        let sc = self.size_class_contained(capacity);
        proof {
            assert(0 <= sc as int <= self.max_class_spec() && self.cap_spec(sc as int)
                == self.cap_spec(sc as int) && (sc as int == self.max_class_spec()
                || self.cap_spec(sc as int + 1) > capacity));
        }
        self.capacity(sc)
    }

    /// Return the smallest size class that can be split efficiently into
    /// this size class, if there is one.
    fn split_size_class(&self, size_class: u32) -> (r: Option<u32>)
        requires
            self.classes_wf(),
        ensures
            match r {
                Some(u) => size_class < u <= self.max_class_spec(),
                None => true,
            },
    ;
}

/// Constant exponential size classes where class `c > 0` has capacity
/// `2^(B + (c - 1) * N)`: `N` is the log2 ratio between consecutive
/// classes, `B` the log2 of the smallest nonzero class.
#[derive(Debug, Copy, Clone, Eq, PartialEq, Hash, Default)]
pub struct Exp2Size<const N: usize, const B: usize>;

impl<const N: usize, const B: usize> Exp2Size<N, B> {
    /// The exponent of class `c`.
    pub open spec fn exponent(c: int) -> int {
        B + (c - 1) * N
    }
}

impl<const N: usize, const B: usize> SizeClasses for Exp2Size<N, B> {
    open spec fn classes_wf(&self) -> bool {
        1 <= N && B < usize::BITS
    }

    open spec fn cap_spec(&self, size_class: int) -> int {
        if size_class <= 0 {
            0
        } else {
            vstd::arithmetic::power2::pow2(Self::exponent(size_class) as nat) as int
        }
    }

    open spec fn max_class_spec(&self) -> int {
        (usize::BITS - 1 - B) as int / N as int + 1
    }

    proof fn cap_facts(&self) {
        let n = N as int;
        let bb = B as int;
        let w = usize::BITS as int;
        assert forall|a: int, b: int|
            1 <= a < b implies #[trigger] self.cap_spec(a) < #[trigger] self.cap_spec(b) by {
            assert((a - 1) * n < (b - 1) * n) by (nonlinear_arith)
                requires
                    a < b,
                    n >= 1,
            ;
            vstd::arithmetic::power2::lemma_pow2_strictly_increases(
                Self::exponent(a) as nat,
                Self::exponent(b) as nat,
            );
        }
        assert(vstd::arithmetic::power2::pow2(B as nat) >= 1) by {
            vstd::arithmetic::power2::lemma_pow2_pos(B as nat);
        }
        assert((w - 1 - bb) / n >= 0) by (nonlinear_arith)
            requires
                n >= 1,
                w - 1 - bb >= 0,
        ;
        assert forall|c: int|
            1 <= c <= self.max_class_spec() implies 1 <= #[trigger] self.cap_spec(c)
                <= usize::MAX by {
            vstd::arithmetic::power2::lemma_pow2_pos(Self::exponent(c) as nat);
            assert((c - 1) * n <= w - 1 - bb) by (nonlinear_arith)
                requires
                    n >= 1,
                    bb < w,
                    1 <= c,
                    c <= (w - 1 - bb) / n + 1,
            ;
            vstd::bits::lemma_usize_pow2_no_overflow(Self::exponent(c) as nat);
        }
    }

    fn max_class(&self) -> (r: u32) {
        let bits = usize::BITS as usize;
        (((bits - 1 - B) / N + 1) as u32)
    }

    fn capacity(&self, size_class: u32) -> (r: usize) {
        if size_class == 0 {
            return 0;
        }
        proof {
            let n = N as int;
            let bb = B as int;
            let w = usize::BITS as int;
            assert((size_class - 1) * n <= w - 1 - bb) by (nonlinear_arith)
                requires
                    n >= 1,
                    bb < w,
                    1 <= size_class,
                    size_class as int <= (w - 1 - bb) / n + 1,
            ;
        }
        let e: usize = B + (size_class as usize - 1) * N;
        proof {
            vstd::bits::lemma_usize_pow2_no_overflow(e as nat);
            vstd::bits::lemma_usize_shl_is_mul(1usize, e);
        }
        1usize << e
    }

    fn size_class_containing(&self, capacity: usize) -> (r: u32) {
        proof {
            self.cap_facts();
        }
        if capacity == 0 {
            return 0;
        }
        let mx = self.max_class();
        let mut c: u32 = 1;
        loop
            invariant
                self.classes_wf(),
                1 <= c <= mx + 1,
                mx == self.max_class_spec(),
                self.cap_spec(c as int - 1) < capacity,
                capacity > 0,
            decreases mx + 1 - c,
        {
            if c > mx {
                return c;
            }
            if self.capacity(c) >= capacity {
                return c;
            }
            proof {
                self.cap_facts();
            }
            c = c + 1;
        }
    }

    fn size_class_contained(&self, capacity: usize) -> (r: u32) {
        proof {
            self.cap_facts();
        }
        let mx = self.max_class();
        let up = self.size_class_containing(capacity);
        if up == 0 {
            return 0;
        }
        if up <= mx {
            let cup = self.capacity(up);
            if cup == capacity {
                return up;
            }
        }
        up - 1
    }

    fn split_size_class(&self, size_class: u32) -> (r: Option<u32>)
        ensures
            r == if (size_class as int) < self.max_class_spec() {
                Some((size_class + 1) as u32)
            } else {
                None::<u32>
            },
    {
        proof {
            self.cap_facts();
        }
        let mx = self.max_class();
        if size_class < mx {
            Some(size_class + 1)
        } else {
            None
        }
    }

}

/// Whether `c` is the size class that `capacity` rounds up to in the
/// table `t`: the smallest class whose capacity holds it.
pub open spec fn class_for<S: SizeClasses>(t: S, c: int, capacity: int) -> bool {
    &&& 1 <= c <= t.max_class_spec()
    &&& t.cap_spec(c) >= capacity
    &&& (c == 1 || t.cap_spec(c - 1) < capacity)
}

/// The per-class table extended to at least `n` classes, the new classes
/// with empty chains.
pub open spec fn extend_chains(chains: Seq<Seq<int>>, n: int) -> Seq<Seq<int>> {
    if chains.len() >= n {
        chains
    } else {
        chains + Seq::new((n - chains.len()) as nat, |i: int| Seq::<int>::empty())
    }
}

/// The per-class table with the block start `b` pushed at the head of
/// class `c`'s chain, the table extended to reach that class.
pub open spec fn cons_block(chains: Seq<Seq<int>>, c: int, b: int) -> Seq<Seq<int>> {
    let ch = extend_chains(chains, c);
    ch.update(c - 1, seq![b] + ch[c - 1])
}

/// The largest size class of `t` whose capacity `len` contains.
pub open spec fn contained_class<S: SizeClasses>(t: S, len: int) -> int {
    choose|c: int|
        #![trigger t.cap_spec(c)]
        1 <= c <= t.max_class_spec() && t.cap_spec(c) <= len && (c == t.max_class_spec()
            || t.cap_spec(c + 1) > len)
}

/// The per-class table after the range `[b, e)` is deposited: the largest
/// contained class receives the prefix as its new head, the leftover is
/// deposited in turn, and a range below the smallest capacity leaves the
/// table as it is.
#[verifier::opaque]
pub open spec fn deposit_chains<S: SizeClasses>(
    t: S,
    chains: Seq<Seq<int>>,
    b: int,
    e: int,
) -> Seq<Seq<int>>
    decreases e - b,
{
    if e - b < t.cap_spec(1) {
        chains
    } else {
        let c = contained_class(t, e - b);
        if 1 <= c && 1 <= t.cap_spec(c) <= e - b {
            deposit_chains(t, cons_block(chains, c, b), b + t.cap_spec(c), e)
        } else {
            chains
        }
    }
}

/// A free list of slices indexed by capacity.
pub trait FreeSlices<T, K: ContiguousIx>: Sized {
    /// Well-formedness of the free lists over the given backing.
    spec fn slices_wf(&self, backing: Seq<T>) -> bool;

    /// Whether the range `[begin, end)` may be freed: it must not overlap
    /// any block that is already free (freeing a range that is not live is
    /// an unchecked precondition violation).
    spec fn can_free(&self, begin: int, end: int) -> bool;

    /// Whether an allocation of `capacity` is guaranteed to succeed.
    spec fn ready_for(&self, capacity: int) -> bool;

    /// How freeing the range `[b, e)` reshapes the free lists: nothing
    /// free is lost, the largest class the range contains receives its
    /// prefix, the leftover is deposited in turn, and a range below the
    /// granularity floor changes nothing.
    spec fn deposited(&self, post: Self, b: int, e: int) -> bool;

    /// Allocate a slice of at least `capacity` in the backing.
    ///
    /// Returns `None` on failure.
    fn allocate(&mut self, capacity: usize, backing: &mut Vec<T>) -> (r: Option<Slice<K>>)
        requires
            old(self).slices_wf(old(backing)@),
            old(backing)@.len() <= K::max_spec(),
        ensures
            final(backing)@.len() == old(backing)@.len(),
            final(self).slices_wf(final(backing)@),
            capacity == 0 ==> r is None,
            old(self).ready_for(capacity as int) ==> r is Some,
            match r {
                Some(s) => 0 <= s.0.idx() && s.0.idx() + capacity <= s.1.idx() && s.1.idx()
                    <= old(backing)@.len() && final(self).can_free(s.0.idx(), s.1.idx()),
                None => true,
            },
    ;

    /// Deallocate a slice, putting it on the free list of the largest size
    /// class its length fully contains; a leftover is deposited into
    /// smaller classes, and a range below the granularity floor is leaked
    /// by design.
    fn dealloc(&mut self, alloc_slice: Slice<K>, backing: &mut Vec<T>)
        requires
            old(self).slices_wf(old(backing)@),
            0 <= alloc_slice.0.idx() <= alloc_slice.1.idx() <= old(backing)@.len(),
            old(backing)@.len() <= K::max_spec(),
            old(self).can_free(alloc_slice.0.idx(), alloc_slice.1.idx()),
        ensures
            final(backing)@.len() == old(backing)@.len(),
            final(self).slices_wf(final(backing)@),
            forall|i: int|
                0 <= i < old(backing)@.len() && !(alloc_slice.0.idx() <= i < alloc_slice.1.idx())
                    ==> final(backing)@[i] == old(backing)@[i],
            forall|x: int, y: int|
                old(self).can_free(x, y) && (y <= alloc_slice.0.idx() || alloc_slice.1.idx() <= x)
                    ==> #[trigger] final(self).can_free(x, y),
            old(self).deposited(*final(self), alloc_slice.0.idx(), alloc_slice.1.idx()),
        decreases alloc_slice.1.idx() - alloc_slice.0.idx(),
    ;

    /// Clear this free list, resetting it; the backing is left as it is.
    fn clear(&mut self, backing: &mut Vec<T>)
        ensures
            final(backing)@ == old(backing)@,
            old(self).slices_wf(old(backing)@) ==> forall|b: Seq<T>|
                final(self).slices_wf(b),
    ;
}

/// An intrusive free list for each size class: one head index per class,
/// with each free block's first slot holding the link to the next free
/// block of that class.
pub struct IntrusiveClasses<S> {
    /// The head of each class's free list (`usize::MAX` when empty); entry
    /// `c` belongs to class `c + 1`.
    pub free_heads: Vec<usize>,
    /// The size-class table.
    pub size_classes: S,
    /// The chains of free-block start indices, per class.
    pub chains: Ghost<Seq<Seq<int>>>,
}

impl<S: Default + SizeClasses> Default for IntrusiveClasses<S> {
    fn default() -> (r: Self)
        ensures
            r.free_heads@.len() == 0,
            r.chains@.len() == 0,
    {
        IntrusiveClasses {
            free_heads: Vec::new(),
            size_classes: S::default(),
            chains: Ghost(Seq::empty()),
        }
    }
}

impl<S: SizeClasses> IntrusiveClasses<S> {
    /// The structural invariant of one class's chain over the backing: the
    /// head is the first block start, every block fits in the backing, and
    /// each free block's first slot links to the next (the last link is a
    /// self-link or the sentinel).
    pub open spec fn class_wf<T: KeySlot<K>, K: ContiguousIx>(
        &self,
        backing: Seq<T>,
        ci: int,
    ) -> bool {
        let c = self.chains@[ci];
        let cap = self.size_classes.cap_spec(ci + 1);
        &&& forall|a: int, b: int| 0 <= a < b < c.len() ==> c[a] != c[b]
        &&& (c.len() == 0 ==> self.free_heads@[ci] == usize::MAX)
        &&& (c.len() > 0 ==> self.free_heads@[ci] == c[0])
        &&& forall|j: int|
            0 <= j < c.len() ==> {
                let e = #[trigger] c[j];
                &&& 0 <= e
                &&& e + cap <= backing.len()
                &&& e <= K::max_spec()
                &&& backing[e].holds_key()
                &&& 0 <= backing[e].stored_key().idx() <= K::max_spec()
                &&& if j + 1 < c.len() {
                    backing[e].stored_key().idx() == c[j + 1]
                } else {
                    backing[e].stored_key().idx() == e || backing[e].stored_key().idx()
                        == usize::MAX as int
                }
            }
    }

    /// Whether an allocation of `capacity` is guaranteed to succeed: the
    /// free list of the class `capacity` rounds up to is nonempty.
    pub open spec fn alloc_ready(&self, capacity: int) -> bool {
        exists|c: int|
            #![trigger self.chains@[c - 1]]
            capacity >= 1 && 1 <= c <= self.chains@.len() && class_for(
                self.size_classes,
                c,
                capacity,
            ) && self.chains@[c - 1].len() > 0
    }

    /// Whether the range `[begin, end)` overlaps no free block.
    pub open spec fn range_unclaimed(&self, begin: int, end: int) -> bool {
        forall|ci: int, j: int|
            0 <= ci < self.chains@.len() && 0 <= j < self.chains@[ci].len()
                ==> #[trigger] self.chains@[ci][j] + self.size_classes.cap_spec(ci + 1) <= begin
                || end <= self.chains@[ci][j]
    }

    /// The structural invariant of the whole table: each chain is well
    /// formed and the free blocks are pairwise disjoint.
    pub open spec fn chains_wf<T: KeySlot<K>, K: ContiguousIx>(&self, backing: Seq<T>) -> bool {
        &&& self.size_classes.classes_wf()
        &&& self.chains@.len() == self.free_heads@.len()
        &&& self.free_heads@.len() <= self.size_classes.max_class_spec()
        &&& forall|ci: int| 0 <= ci < self.chains@.len() ==> self.class_wf::<T, K>(backing, ci)
        &&& forall|ci1: int, j1: int, ci2: int, j2: int|
            #![trigger self.chains@[ci1][j1], self.chains@[ci2][j2]]
            0 <= ci1 < self.chains@.len() && 0 <= j1 < self.chains@[ci1].len() && 0 <= ci2
                < self.chains@.len() && 0 <= j2 < self.chains@[ci2].len() && (ci1 != ci2 || j1
                != j2) ==> self.chains@[ci1][j1] + self.size_classes.cap_spec(ci1 + 1)
                <= self.chains@[ci2][j2] || self.chains@[ci2][j2] + self.size_classes.cap_spec(
                ci2 + 1,
            ) <= self.chains@[ci1][j1]
    }

    /// Allocate one block of exactly the given size class.
    ///
    /// If the class's free list is empty, recursively allocates a block
    /// from the split-source class, hands back its low prefix and deposits
    /// the slack back into smaller classes.
    #[verifier::rlimit(50)]
    pub fn alloc_size_class<K, T>(&mut self, size_class: u32, backing: &mut Vec<T>) -> (r: Option<
        Slice<K>,
    >) where K: ContiguousIx, T: KeySlot<K>
        requires
            old(self).chains_wf::<T, K>(old(backing)@),
            old(backing)@.len() <= K::max_spec(),
        ensures
            final(backing)@.len() == old(backing)@.len(),
            final(self).chains_wf::<T, K>(final(backing)@),
            final(self).size_classes == old(self).size_classes,
            size_class == 0 ==> r is None,
            1 <= size_class && size_class as int <= old(self).chains@.len() && old(self).chains@[size_class as int - 1].len() > 0 ==> match r {
                Some(s) => s.0.idx() == old(self).chains@[size_class as int - 1][0] && final(self).chains@ == old(self).chains@.update(
                    size_class as int - 1,
                    old(self).chains@[size_class as int - 1].drop_first(),
                ) && final(backing)@ == old(backing)@,
                None => false,
            },
            match r {
                Some(s) => {
                    &&& size_class >= 1
                    &&& 0 <= s.0.idx()
                    &&& s.1.idx() == s.0.idx() + old(self).size_classes.cap_spec(
                        size_class as int,
                    )
                    &&& s.1.idx() <= old(backing)@.len()
                    &&& final(self).range_unclaimed(s.0.idx(), s.1.idx())
                },
                None => final(backing)@ == old(backing)@,
            },
        decreases old(self).size_classes.max_class_spec() - size_class,
    {
        proof {
            self.size_classes.cap_facts();
        }
        if size_class == 0 {
            return None;
        }
        let sci = (size_class - 1) as usize;
        if sci >= self.free_heads.len() {
            return None;
        }
        let capacity = self.size_classes.capacity(size_class);
        let head = self.free_heads[sci];
        let bl = backing.len();
        if head < bl {
            // Pop the head block of this class, as an intrusive free list
            // does.
            let ghost c = self.chains@[sci as int];
            proof {
                assert(self.class_wf::<T, K>(backing@, sci as int));
                if c.len() == 0 {
                    assert(self.free_heads@[sci as int] == usize::MAX);
                }
                assert(c.len() > 0);
                assert(c[0] == head);
            }
            let slot = &backing[head];
            let ki = slot.key().index();
            self.free_heads[sci] = if ki == head {
                usize::MAX
            } else {
                ki
            };
            proof {
                let cs1 = old(self).chains@;
                self.chains@ = cs1.update(sci as int, c.drop_first());
                let cs2 = self.chains@;
                assert forall|ci: int, j: int|
                    0 <= ci < cs2.len() && 0 <= j < cs2[ci].len() implies #[trigger] cs2[ci][j]
                    == cs1[ci][if ci == sci {
                    j + 1
                } else {
                    j
                }] by {}
                assert forall|ci: int|
                    0 <= ci < cs2.len() implies self.class_wf::<T, K>(backing@, ci) by {
                    assert(old(self).class_wf::<T, K>(backing@, ci));
                    if ci == sci {
                        let c2 = cs2[ci];
                        if c2.len() > 0 {
                            assert(cs1[sci as int][1] == c2[0]);
                            assert(c[0] != c[1]);
                        }
                        assert forall|j: int| 0 <= j < c2.len() implies c2[j] == c[j + 1] by {}
                    }
                }
                assert forall|ci: int, j: int|
                    0 <= ci < cs2.len() && 0 <= j < cs2[ci].len() implies #[trigger] cs2[ci][j]
                    + self.size_classes.cap_spec(ci + 1) <= head || head + capacity <= cs2[ci][j] by {
                    let jj = if ci == sci { j + 1 } else { j };
                    assert(cs2[ci][j] == cs1[ci][jj]);
                    assert(cs1[ci][jj] + self.size_classes.cap_spec(ci + 1) <= cs1[sci as int][0]
                        || cs1[sci as int][0] + self.size_classes.cap_spec(sci as int + 1)
                        <= cs1[ci][jj]);
                }
            }
            Some(Slice(K::new_unchecked(head), K::new_unchecked(head + capacity)))
        } else {
            // This class is empty: split one block out of a larger class.
            proof {
                assert(self.class_wf::<T, K>(backing@, sci as int));
                if self.chains@[sci as int].len() > 0 {
                    let e = self.chains@[sci as int][0];
                    assert(self.free_heads@[sci as int] == e);
                    assert(e + self.size_classes.cap_spec(sci as int + 1) <= backing@.len());
                }
            }
            let upper = match self.size_classes.split_size_class(size_class) {
                Some(u) => u,
                None => {
                    return None;
                },
            };
            let upper_alloc = match self.alloc_size_class(upper, backing) {
                Some(s) => s,
                None => {
                    return None;
                },
            };
            proof {
                assert(old(self).size_classes.cap_spec(size_class as int) < old(self).size_classes.cap_spec(upper as int));
            }
            let begin = upper_alloc.0.index();
            let slack = Slice(K::new_unchecked(begin + capacity), upper_alloc.1);
            let ghost mid = *self;
            proof {
                assert(mid.range_unclaimed(begin as int, begin + capacity)) by {
                    assert forall|ci: int, j: int|
                        0 <= ci < mid.chains@.len() && 0 <= j < mid.chains@[ci].len()
                            implies #[trigger] mid.chains@[ci][j] + mid.size_classes.cap_spec(
                        ci + 1,
                    ) <= begin || begin + capacity <= mid.chains@[ci][j] by {
                        assert(mid.chains@[ci][j] + mid.size_classes.cap_spec(ci + 1) <= begin
                            || upper_alloc.1.idx() <= mid.chains@[ci][j]);
                    }
                }
            }
            self.dealloc(slack, backing);
            proof {
                assert(<IntrusiveClasses<S> as FreeSlices<T, K>>::can_free(
                    &mid,
                    begin as int,
                    begin + capacity,
                ));
                assert(<IntrusiveClasses<S> as FreeSlices<T, K>>::can_free(
                    self,
                    begin as int,
                    begin + capacity,
                ));
                assert(self.range_unclaimed(begin as int, begin + capacity));
            }
            Some(Slice(K::new_unchecked(begin), K::new_unchecked(begin + capacity)))
        }
    }

    /// After filing the block at `begin` on class `sc`, the slack above it
    /// (up to `end`) still overlaps no free block.
    #[verifier::spinoff_prover]
    proof fn lemma_slack_unclaimed(pre: Self, mid: Self, begin: int, end: int, sc: int)
        requires
            pre.size_classes == mid.size_classes,
            pre.size_classes.classes_wf(),
            1 <= sc <= pre.size_classes.max_class_spec(),
            0 <= begin,
            begin + pre.size_classes.cap_spec(sc) <= end,
            mid.chains@.len() == (if pre.chains@.len() >= sc {
                pre.chains@.len() as int
            } else {
                sc
            }),
            forall|ci: int|
                0 <= ci < mid.chains@.len() && ci != sc - 1 ==> #[trigger] mid.chains@[ci] == (
                if ci < pre.chains@.len() {
                    pre.chains@[ci]
                } else {
                    Seq::<int>::empty()
                }),
            mid.chains@[sc - 1] == seq![begin] + (if sc - 1 < pre.chains@.len() {
                pre.chains@[sc - 1]
            } else {
                Seq::<int>::empty()
            }),
            pre.range_unclaimed(begin, end),
        ensures
            mid.range_unclaimed(begin + pre.size_classes.cap_spec(sc), end),
    {
        pre.size_classes.cap_facts();
        let bs = begin + pre.size_classes.cap_spec(sc);
        assert forall|ci: int, j: int|
            0 <= ci < mid.chains@.len() && 0 <= j < mid.chains@[ci].len()
                implies #[trigger] mid.chains@[ci][j] + mid.size_classes.cap_spec(ci + 1) <= bs
            || end <= mid.chains@[ci][j] by {
            if ci == sc - 1 && j == 0 {
                assert(mid.chains@[ci][j] == begin);
            } else {
                let jj: int = if ci == sc - 1 {
                    j - 1
                } else {
                    j
                };
                if ci < pre.chains@.len() {
                    assert(mid.chains@[ci][j] == pre.chains@[ci][jj]);
                    assert(pre.chains@[ci][jj] + pre.size_classes.cap_spec(ci + 1) <= begin || end
                        <= pre.chains@[ci][jj]);
                } else {
                    assert(mid.chains@[ci].len() == if ci == sc - 1 {
                        1int
                    } else {
                        0int
                    });
                }
            }
        }
    }



    /// One filing step followed by the deposit of the slack realises the
    /// deposit equation for the whole range: the filed block is the
    /// largest contained class's prefix, and the slack deposit is the
    /// recursive case.
    #[verifier::rlimit(100)]
    #[verifier::spinoff_prover]
    proof fn lemma_deposit_equation(pre: Self, mid: Self, fin: Self, begin: int, end: int, sc: int)
        requires
            pre.size_classes.classes_wf(),
            mid.size_classes == pre.size_classes,
            fin.size_classes == pre.size_classes,
            1 <= sc <= pre.size_classes.max_class_spec(),
            0 <= begin,
            pre.size_classes.cap_spec(sc) <= end - begin,
            sc == pre.size_classes.max_class_spec() || pre.size_classes.cap_spec(sc + 1) > end
                - begin,
            mid.chains@.len() == (if pre.chains@.len() >= sc {
                pre.chains@.len() as int
            } else {
                sc
            }),
            forall|ci: int|
                0 <= ci < mid.chains@.len() && ci != sc - 1 ==> #[trigger] mid.chains@[ci] == (
                if ci < pre.chains@.len() {
                    pre.chains@[ci]
                } else {
                    Seq::<int>::empty()
                }),
            mid.chains@[sc - 1] == seq![begin] + (if sc - 1 < pre.chains@.len() {
                pre.chains@[sc - 1]
            } else {
                Seq::<int>::empty()
            }),
            begin + pre.size_classes.cap_spec(sc) < end ==> fin.chains@ == deposit_chains(
                pre.size_classes,
                mid.chains@,
                begin + pre.size_classes.cap_spec(sc),
                end,
            ),
            begin + pre.size_classes.cap_spec(sc) >= end ==> fin == mid,
        ensures
            fin.chains@ == deposit_chains(pre.size_classes, pre.chains@, begin, end),
    {
        reveal_with_fuel(deposit_chains, 2);
        pre.size_classes.cap_facts();
        let bs = begin + pre.size_classes.cap_spec(sc);
        let t = pre.size_classes;
        let cc = contained_class(t, end - begin);
        assert(1 <= sc <= t.max_class_spec() && t.cap_spec(sc) <= end - begin && (sc
            == t.max_class_spec() || t.cap_spec(sc + 1) > end - begin));
        assert(1 <= cc <= t.max_class_spec() && t.cap_spec(cc) <= end - begin && (cc
            == t.max_class_spec() || t.cap_spec(cc + 1) > end - begin));
        if cc < sc {
            assert(t.cap_spec(cc + 1) <= t.cap_spec(sc));
        }
        if cc > sc {
            if sc < t.max_class_spec() {
                assert(t.cap_spec(sc + 1) <= t.cap_spec(cc));
            }
        }
        assert(cc == sc);
        assert forall|ci: int|
            0 <= ci < mid.chains@.len() implies cons_block(pre.chains@, sc, begin)[ci]
            =~= mid.chains@[ci] by {
            let ch = extend_chains(pre.chains@, sc);
            if ci == sc - 1 {
                assert(cons_block(pre.chains@, sc, begin)[ci] == seq![begin] + ch[ci]);
            } else {
                assert(cons_block(pre.chains@, sc, begin)[ci] == ch[ci]);
            }
        }
        assert(cons_block(pre.chains@, sc, begin) =~~= mid.chains@);
        assert(end - begin >= t.cap_spec(1));
        assert(deposit_chains(t, pre.chains@, begin, end) == deposit_chains(
            t,
            mid.chains@,
            bs,
            end,
        ));
        if bs >= end {
            assert(end - bs < t.cap_spec(1));
            assert(deposit_chains(t, mid.chains@, bs, end) == mid.chains@);
        }
        assert(fin.chains@ == deposit_chains(t, pre.chains@, begin, end));
    }

    /// Compose one filing step with the recursive deposit of the slack: the
    /// block `[begin, begin + cap(sc))` was filed at the head of class `sc`
    /// (the largest class contained in `[begin, end)`), shifting that chain
    /// and keeping the others; the slack, if any, was then deposited. The
    /// whole range then counts as deposited.
    #[verifier::rlimit(100)]
    #[verifier::spinoff_prover]
    proof fn lemma_deposit_composed<K: ContiguousIx, T: KeySlot<K>>(
        pre: Self,
        mid: Self,
        fin: Self,
        begin: int,
        end: int,
        sc: int,
    )
        requires
            pre.size_classes.classes_wf(),
            mid.size_classes == pre.size_classes,
            fin.size_classes == pre.size_classes,
            1 <= sc <= pre.size_classes.max_class_spec(),
            0 <= begin,
            pre.size_classes.cap_spec(sc) <= end - begin,
            sc == pre.size_classes.max_class_spec() || pre.size_classes.cap_spec(sc + 1) > end
                - begin,
            mid.chains@.len() == (if pre.chains@.len() >= sc {
                pre.chains@.len() as int
            } else {
                sc
            }),
            forall|ci: int|
                0 <= ci < mid.chains@.len() && ci != sc - 1 ==> #[trigger] mid.chains@[ci] == (
                if ci < pre.chains@.len() {
                    pre.chains@[ci]
                } else {
                    Seq::<int>::empty()
                }),
            mid.chains@[sc - 1] == seq![begin] + (if sc - 1 < pre.chains@.len() {
                pre.chains@[sc - 1]
            } else {
                Seq::<int>::empty()
            }),
            fin.chains@ == deposit_chains(pre.size_classes, pre.chains@, begin, end),
            begin + pre.size_classes.cap_spec(sc) < end ==> mid.chains@.len()
                <= fin.chains@.len() && forall|ci: int, j: int|
                0 <= ci < mid.chains@.len() && 0 <= j < mid.chains@[ci].len()
                    ==> fin.chains@[ci].contains(#[trigger] mid.chains@[ci][j]),
            begin + pre.size_classes.cap_spec(sc) >= end ==> fin == mid,
        ensures
            <IntrusiveClasses<S> as FreeSlices<T, K>>::deposited(&pre, fin, begin, end),
    {
        pre.size_classes.cap_facts();
        let bs = begin + pre.size_classes.cap_spec(sc);
        assert(pre.size_classes.cap_spec(1) <= pre.size_classes.cap_spec(sc));
        let sci = sc - 1;
        assert(pre.chains@.len() <= mid.chains@.len() <= fin.chains@.len());
        assert forall|ci: int, j: int|
            0 <= ci < pre.chains@.len() && 0 <= j < pre.chains@[ci].len() implies fin.chains@[
            ci
        ].contains(#[trigger] pre.chains@[ci][j]) by {
            let x = pre.chains@[ci][j];
            let jj: int = if ci == sci {
                j + 1
            } else {
                j
            };
            assert(0 <= ci < mid.chains@.len());
            assert(0 <= jj < mid.chains@[ci].len());
            assert(mid.chains@[ci][jj] == x);
            if bs < end {
                assert(fin.chains@[ci].contains(mid.chains@[ci][jj]));
            } else {
                assert(fin.chains@[ci][jj] == x);
                assert(fin.chains@[ci].contains(x));
            }
        }
        assert forall|c: int|
            1 <= c <= pre.size_classes.max_class_spec() && #[trigger] pre.size_classes.cap_spec(c)
                <= end - begin && (c == pre.size_classes.max_class_spec()
                || pre.size_classes.cap_spec(c + 1) > end - begin) implies c <= fin.chains@.len()
            && fin.chains@[c - 1].contains(begin) by {
            if c < sc {
                assert(pre.size_classes.cap_spec(c + 1) <= pre.size_classes.cap_spec(sc));
            }
            if c > sc {
                if sc < pre.size_classes.max_class_spec() {
                    assert(pre.size_classes.cap_spec(sc + 1) <= pre.size_classes.cap_spec(c));
                }
            }
            assert(c == sc);
            assert(0 <= c - 1 < mid.chains@.len());
            assert(0 < mid.chains@[c - 1].len());
            assert(mid.chains@[c - 1][0] == begin);
            if bs < end {
                assert(fin.chains@[c - 1].contains(mid.chains@[c - 1][0]));
            } else {
                assert(fin.chains@[c - 1][0] == begin);
                assert(fin.chains@[c - 1].contains(begin));
            }
        }
        assert forall|c: int|
            1 <= c <= pre.size_classes.max_class_spec() && #[trigger] pre.size_classes.cap_spec(c)
                == end - begin implies c <= fin.chains@.len() && fin.chains@[c - 1].len() > 0
            && fin.chains@[c - 1][0] == begin by {
            if c < sc {
                assert(pre.size_classes.cap_spec(c) < pre.size_classes.cap_spec(sc));
            }
            if c > sc {
                if sc < pre.size_classes.max_class_spec() {
                    assert(pre.size_classes.cap_spec(sc + 1) <= pre.size_classes.cap_spec(c));
                }
            }
            assert(c == sc);
            assert(!(bs < end));
            assert(fin.chains@[c - 1][0] == begin);
        }
    }


    /// Filing a block at `begin` on class `sc` leaves every free range
    /// disjoint from `[begin, end)` free: each old chain element maps
    /// across the filing step, and the filed block lies inside the range.
    proof fn lemma_filed_unclaimed(pre: Self, mid: Self, begin: int, end: int, sc: int)
        requires
            pre.size_classes.classes_wf(),
            mid.size_classes == pre.size_classes,
            1 <= sc <= pre.size_classes.max_class_spec(),
            0 <= begin,
            begin + pre.size_classes.cap_spec(sc) <= end,
            mid.chains@.len() == (if pre.chains@.len() >= sc {
                pre.chains@.len() as int
            } else {
                sc
            }),
            forall|ci: int|
                0 <= ci < mid.chains@.len() && ci != sc - 1 ==> #[trigger] mid.chains@[ci] == (
                if ci < pre.chains@.len() {
                    pre.chains@[ci]
                } else {
                    Seq::<int>::empty()
                }),
            mid.chains@[sc - 1] == seq![begin] + (if sc - 1 < pre.chains@.len() {
                pre.chains@[sc - 1]
            } else {
                Seq::<int>::empty()
            }),
        ensures
            forall|x: int, y: int|
                pre.range_unclaimed(x, y) && (y <= begin || end <= x)
                    ==> #[trigger] mid.range_unclaimed(x, y),
    {
        pre.size_classes.cap_facts();
        let sci = sc - 1;
        assert forall|x: int, y: int|
            pre.range_unclaimed(x, y) && (y <= begin || end <= x) implies #[trigger] mid.range_unclaimed(x, y) by {
            assert forall|ci: int, j: int|
                0 <= ci < mid.chains@.len() && 0 <= j < mid.chains@[ci].len()
                    implies #[trigger] mid.chains@[ci][j] + mid.size_classes.cap_spec(ci + 1) <= x
                || y <= mid.chains@[ci][j] by {
                if ci == sci && j == 0 {
                    assert(mid.chains@[ci][j] == begin);
                    if end <= x {
                        assert(begin + mid.size_classes.cap_spec(sci + 1) <= end);
                    }
                } else {
                    let jj: int = if ci == sci {
                        j - 1
                    } else {
                        j
                    };
                    if ci < pre.chains@.len() {
                        assert(mid.chains@[ci][j] == pre.chains@[ci][jj]);
                        assert(pre.chains@[ci][jj] + pre.size_classes.cap_spec(ci + 1) <= x || y
                            <= pre.chains@[ci][jj]);
                    } else {
                        assert(mid.chains@[ci].len() == if ci == sci {
                            1int
                        } else {
                            0int
                        });
                    }
                }
            }
        }
    }

    /// File the block `[begin_key, begin_key + capacity(size_class))` at the
    /// head of class `size_class`'s free list, extending the per-class table
    /// as needed; `end` bounds the range the block was carved from.
    #[verifier::rlimit(100)]
    #[verifier::spinoff_prover]
    fn file_block<K, T>(&mut self, size_class: u32, begin_key: K, end: usize, backing: &mut Vec<T>) where
        K: ContiguousIx,
        T: KeySlot<K>,

        requires
            old(self).chains_wf::<T, K>(old(backing)@),
            1 <= size_class as int <= old(self).size_classes.max_class_spec(),
            0 <= begin_key.idx(),
            begin_key.idx() + old(self).size_classes.cap_spec(size_class as int) <= end as int,
            end <= old(backing)@.len(),
            old(backing)@.len() <= K::max_spec(),
            old(self).range_unclaimed(begin_key.idx(), end as int),
        ensures
            final(self).chains_wf::<T, K>(final(backing)@),
            final(self).size_classes == old(self).size_classes,
            final(backing)@.len() == old(backing)@.len(),
            forall|i: int|
                0 <= i < old(backing)@.len() && i != begin_key.idx() ==> final(backing)@[i] == old(
                    backing,
                )@[i],
            final(self).chains@.len() == (if old(self).chains@.len() >= size_class as int {
                old(self).chains@.len() as int
            } else {
                size_class as int
            }),
            forall|ci: int|
                0 <= ci < final(self).chains@.len() && ci != size_class as int - 1
                    ==> #[trigger] final(self).chains@[ci] == (if ci < old(self).chains@.len() {
                    old(self).chains@[ci]
                } else {
                    Seq::<int>::empty()
                }),
            final(self).chains@[size_class as int - 1] == seq![begin_key.idx()] + (if size_class
                as int - 1 < old(self).chains@.len() {
                old(self).chains@[size_class as int - 1]
            } else {
                Seq::<int>::empty()
            }),
    {
        proof {
            self.size_classes.cap_facts();
        }
        let begin = begin_key.index();
        let ghost pre = *self;
        let new_len = size_class as usize;
        while self.free_heads.len() < new_len
            invariant
                pre.chains_wf::<T, K>(backing@),
                self.size_classes == pre.size_classes,
                self.free_heads@.len() >= pre.free_heads@.len(),
                self.free_heads@.len() <= new_len || self.free_heads@.len()
                    == pre.free_heads@.len(),
                new_len <= self.size_classes.max_class_spec(),
                self.chains@.len() == self.free_heads@.len(),
                forall|ci: int|
                    0 <= ci < pre.chains@.len() ==> #[trigger] self.chains@[ci]
                        == pre.chains@[ci] && self.free_heads@[ci] == pre.free_heads@[ci],
                forall|ci: int|
                    pre.chains@.len() <= ci < self.chains@.len() ==> (#[trigger] self.chains@[
                        ci
                    ]).len() == 0 && self.free_heads@[ci] == usize::MAX,
            decreases new_len - self.free_heads@.len(),
        {
            self.free_heads.push(usize::MAX);
            proof {
                self.chains@ = self.chains@.push(Seq::empty());
                assert(self.chains@[self.chains@.len() - 1].len() == 0);
                assert(self.free_heads@[self.free_heads@.len() - 1] == usize::MAX);
            }
        }
        proof {
            assert forall|ci: int|
                0 <= ci < self.chains@.len() implies self.class_wf::<T, K>(backing@, ci) by {
                if ci < pre.chains@.len() {
                    assert(pre.class_wf::<T, K>(backing@, ci));
                    assert(self.chains@[ci] == pre.chains@[ci]);
                } else {
                    assert(self.chains@[ci].len() == 0);
                }
            }
            assert forall|ci: int, j: int|
                0 <= ci < self.chains@.len() && 0 <= j < self.chains@[ci].len()
                    implies #[trigger] self.chains@[ci][j] == pre.chains@[ci][j] by {
                assert(self.chains@[ci].len() > 0);
                assert(ci < pre.chains@.len());
                assert(self.chains@[ci] == pre.chains@[ci]);
            }
            assert(self.chains_wf::<T, K>(backing@));
        }
        let ghost mid = *self;
        let sci = (size_class - 1) as usize;
        let old_head = self.free_heads[sci];
        let link = match K::try_new(old_head) {
            Some(h) => h,
            None => begin_key,
        };
        proof {
            assert(mid.class_wf::<T, K>(backing@, sci as int));
            if mid.chains@[sci as int].len() > 0 {
                assert(mid.free_heads@[sci as int] == mid.chains@[sci as int][0]);
                assert(mid.chains@[sci as int][0] <= K::max_spec());
            }
        }
        let slot = &mut backing[begin];
        slot.set_key(link);
        self.free_heads[sci] = begin;
        proof {
            let cs1 = mid.chains@;
            self.chains@ = cs1.update(sci as int, seq![begin as int] + cs1[sci as int]);
            let cs2 = self.chains@;
            let cap = self.size_classes.cap_spec(size_class as int);
            assert(pre.range_unclaimed(begin as int, end as int));
            assert forall|ci: int, j: int|
                0 <= ci < cs1.len() && 0 <= j < cs1[ci].len() implies backing@[
                #[trigger] cs1[ci][j]
            ] == old(backing)@[cs1[ci][j]] && cs1[ci][j] != begin && (cs1[ci][j]
                + mid.size_classes.cap_spec(ci + 1) <= begin || end <= cs1[ci][j]) by {
                if ci < pre.chains@.len() {
                    assert(cs1[ci][j] == pre.chains@[ci][j]);
                    assert(pre.chains@[ci][j] + pre.size_classes.cap_spec(ci + 1) <= begin || end
                        <= pre.chains@[ci][j]);
                    assert(mid.class_wf::<T, K>(old(backing)@, ci));
                    assert(mid.size_classes.cap_spec(ci + 1) >= 1);
                } else {
                    assert(cs1[ci].len() == 0);
                }
            }
            assert forall|ci: int, j: int|
                0 <= ci < cs2.len() && 0 <= j < cs2[ci].len() implies #[trigger] cs2[ci][j] == if ci
                == sci && j == 0 {
                begin as int
            } else {
                cs1[ci][if ci == sci {
                    j - 1
                } else {
                    j
                }]
            } by {}
            assert forall|ci: int|
                0 <= ci < cs2.len() implies self.class_wf::<T, K>(backing@, ci) by {
                assert(mid.class_wf::<T, K>(old(backing)@, ci));
                let c2 = cs2[ci];
                let c1 = cs1[ci];
                if ci == sci {
                    if c1.len() > 0 {
                        assert(c2[1] == c1[0]);
                        assert(mid.free_heads@[sci as int] == c1[0]);
                    }
                    assert forall|j: int| 1 <= j < c2.len() implies c2[j] == c1[j - 1] by {}
                } else {
                    assert(c2 == c1);
                    assert forall|j: int| 0 <= j < c1.len() implies backing@[#[trigger] c1[j]]
                        == old(backing)@[c1[j]] by {}
                }
            }
            assert forall|ci1: int, j1: int, ci2: int, j2: int|
                #![trigger cs2[ci1][j1], cs2[ci2][j2]]
                0 <= ci1 < cs2.len() && 0 <= j1 < cs2[ci1].len() && 0 <= ci2 < cs2.len() && 0 <= j2
                    < cs2[ci2].len() && (ci1 != ci2 || j1 != j2) implies cs2[ci1][j1]
                + self.size_classes.cap_spec(ci1 + 1) <= cs2[ci2][j2] || cs2[ci2][j2]
                + self.size_classes.cap_spec(ci2 + 1) <= cs2[ci1][j1] by {
                if ci1 == sci && j1 == 0 {
                    assert(cs2[ci2][j2] == cs1[ci2][if ci2 == sci {
                        j2 - 1
                    } else {
                        j2
                    }]);
                } else if ci2 == sci && j2 == 0 {
                    assert(cs2[ci1][j1] == cs1[ci1][if ci1 == sci {
                        j1 - 1
                    } else {
                        j1
                    }]);
                } else {
                    assert(cs2[ci1][j1] == cs1[ci1][if ci1 == sci {
                        j1 - 1
                    } else {
                        j1
                    }]);
                    assert(cs2[ci2][j2] == cs1[ci2][if ci2 == sci {
                        j2 - 1
                    } else {
                        j2
                    }]);
                }
            }
            assert(self.chains_wf::<T, K>(backing@));
        }
    }

    /// Allocate-then-free-then-reallocate: a block handed out for a request
    /// of `capacity` (so its length is the capacity of the class the
    /// request rounds up to), freed whole on an allocator whose table has
    /// not changed, leaves the allocator ready to satisfy `capacity` again.
    ///
    /// The first hypothesis is what `allocate` ensures of the block it
    /// returns; the second is what `dealloc` ensures of the freed range.
    pub proof fn lemma_alloc_free_realloc(post: Self, capacity: int, b: int, e: int)
        requires
            post.size_classes.classes_wf(),
            capacity >= 1,
            exists|c: int|
                #[trigger] class_for(post.size_classes, c, capacity) && e - b
                    == post.size_classes.cap_spec(c),
            forall|c: int|
                1 <= c <= post.size_classes.max_class_spec()
                    && #[trigger] post.size_classes.cap_spec(c) == e - b ==> c
                    <= post.chains@.len() && post.chains@[c - 1].len() > 0,
        ensures
            post.alloc_ready(capacity),
    {
        let c = choose|c: int|
            #[trigger] class_for(post.size_classes, c, capacity) && e - b
                == post.size_classes.cap_spec(c);
        assert(post.chains@[c - 1].len() > 0);
        assert(capacity >= 1 && 1 <= c <= post.chains@.len() && class_for(
            post.size_classes,
            c,
            capacity,
        ) && post.chains@[c - 1].len() > 0);
    }
}

impl<K, S, T> FreeSlices<T, K> for IntrusiveClasses<S> where
    K: ContiguousIx,
    S: SizeClasses,
    T: KeySlot<K>,
 {
    open spec fn slices_wf(&self, backing: Seq<T>) -> bool {
        self.chains_wf::<T, K>(backing)
    }

    open spec fn can_free(&self, begin: int, end: int) -> bool {
        self.range_unclaimed(begin, end)
    }

    open spec fn ready_for(&self, capacity: int) -> bool {
        self.alloc_ready(capacity)
    }

    /// The deposit equation pins the new chains exactly; the quantified
    /// clauses restate its consequences in a directly usable form, since
    /// `deposit_chains` is opaque.
    open spec fn deposited(&self, post: Self, b: int, e: int) -> bool {
        &&& post.size_classes == self.size_classes
        &&& post.chains@ == deposit_chains(self.size_classes, self.chains@, b, e)
        &&& self.chains@.len() <= post.chains@.len()
        &&& (e - b < self.size_classes.cap_spec(1) ==> post.chains@ == self.chains@)
        &&& forall|ci: int, j: int|
            0 <= ci < self.chains@.len() && 0 <= j < self.chains@[ci].len()
                ==> post.chains@[ci].contains(#[trigger] self.chains@[ci][j])
        &&& forall|c: int|
            1 <= c <= self.size_classes.max_class_spec() && #[trigger] self.size_classes.cap_spec(
                c,
            ) <= e - b && (c == self.size_classes.max_class_spec()
                || self.size_classes.cap_spec(c + 1) > e - b) ==> c <= post.chains@.len()
                && post.chains@[c - 1].contains(b)
        &&& forall|c: int|
            1 <= c <= self.size_classes.max_class_spec() && #[trigger] self.size_classes.cap_spec(
                c,
            ) == e - b ==> c <= post.chains@.len() && post.chains@[c - 1].len() > 0
                && post.chains@[c - 1][0] == b
    }

    fn allocate(&mut self, capacity: usize, backing: &mut Vec<T>) -> (r: Option<Slice<K>>)
        ensures
            final(self).size_classes == old(self).size_classes,
            old(self).alloc_ready(capacity as int) ==> r is Some,
            match r {
                Some(s) => exists|c: int|
                    #[trigger] class_for(old(self).size_classes, c, capacity as int) && s.1.idx()
                        - s.0.idx() == old(self).size_classes.cap_spec(c),
                None => true,
            },
            forall|c: int|
                capacity as int >= 1 && 1 <= c <= old(self).chains@.len() && class_for(
                    old(self).size_classes,
                    c,
                    capacity as int,
                ) && (#[trigger] old(self).chains@[c - 1]).len() > 0 ==> match r {
                    Some(s) => s.0.idx() == old(self).chains@[c - 1][0] && final(self).chains@
                        == old(self).chains@.update(
                        c - 1,
                        old(self).chains@[c - 1].drop_first(),
                    ) && final(backing)@ == old(backing)@,
                    None => false,
                },
    {
        proof {
            self.size_classes.cap_facts();
        }
        let size_class = self.size_classes.size_class_containing(capacity);
        let mx = self.size_classes.max_class();
        if size_class > mx {
            proof {
                if self.alloc_ready(capacity as int) {
                    let c = choose|c: int|
                        capacity as int >= 1 && 1 <= c <= self.chains@.len() && class_for(
                            self.size_classes,
                            c,
                            capacity as int,
                        ) && self.chains@[c - 1].len() > 0;
                    assert(self.size_classes.cap_spec(size_class as int - 1) < capacity);
                    if c < size_class {
                        assert(self.size_classes.cap_spec(c) <= self.size_classes.cap_spec(
                            size_class as int - 1,
                        ));
                    }
                }
            }
            return None;
        }
        let ghost pre = *self;
        proof {
            if pre.alloc_ready(capacity as int) {
                let c = choose|c: int|
                    capacity as int >= 1 && 1 <= c <= pre.chains@.len() && class_for(
                        pre.size_classes,
                        c,
                        capacity as int,
                    ) && pre.chains@[c - 1].len() > 0;
                assert(size_class >= 1);
                if c < size_class {
                    assert(pre.size_classes.cap_spec(c) <= pre.size_classes.cap_spec(
                        size_class as int - 1,
                    ));
                }
                if c > size_class {
                    assert(pre.size_classes.cap_spec(size_class as int) <= pre.size_classes.cap_spec(
                        c - 1,
                    ));
                }
                assert(c == size_class as int);
            }
        }
        proof {
            assert forall|c: int|
                capacity as int >= 1 && 1 <= c <= pre.chains@.len() && class_for(
                    pre.size_classes,
                    c,
                    capacity as int,
                ) implies c == size_class as int by {
                assert(size_class >= 1);
                if c < size_class {
                    assert(pre.size_classes.cap_spec(c) <= pre.size_classes.cap_spec(
                        size_class as int - 1,
                    ));
                }
                if c > size_class {
                    assert(pre.size_classes.cap_spec(size_class as int) <= pre.size_classes.cap_spec(
                        c - 1,
                    ));
                }
            }
        }
        let r = self.alloc_size_class(size_class, backing);
        proof {
            if r is Some {
                assert(size_class >= 1);
                assert(class_for(pre.size_classes, size_class as int, capacity as int));
            }
        }
        r
    }

    #[verifier::rlimit(100)]
    #[verifier::spinoff_prover]
    fn dealloc(&mut self, alloc_slice: Slice<K>, backing: &mut Vec<T>)
        ensures
            final(self).size_classes == old(self).size_classes,
            alloc_slice.1.idx() - alloc_slice.0.idx() < old(self).size_classes.cap_spec(1)
                ==> *final(self) == *old(self) && final(backing)@ == old(backing)@,
            forall|c: int|
                1 <= c <= old(self).size_classes.max_class_spec() && #[trigger] old(self).size_classes.cap_spec(c) == alloc_slice.1.idx() - alloc_slice.0.idx() ==> c
                    <= final(self).chains@.len() && final(self).chains@[c - 1].len() > 0 && final(self).chains@[c - 1][0] == alloc_slice.0.idx(),
        decreases alloc_slice.1.idx() - alloc_slice.0.idx(),
    {
        proof {
            self.size_classes.cap_facts();
        }
        let begin = alloc_slice.0.index();
        let end = alloc_slice.1.index();
        let size_class = self.size_classes.size_class_contained(end - begin);
        if size_class == 0 {
            // Below the granularity floor: this range is permanently leaked
            // by design.
            proof {
                reveal_with_fuel(deposit_chains, 1);
                assert forall|c: int|
                    1 <= c <= self.size_classes.max_class_spec()
                        && #[trigger] self.size_classes.cap_spec(c) <= end - begin implies false by {
                    assert(self.size_classes.cap_spec(1) <= self.size_classes.cap_spec(c));
                }
                assert forall|ci: int, j: int|
                    0 <= ci < self.chains@.len() && 0 <= j < self.chains@[ci].len() implies self.chains@[ci].contains(#[trigger] self.chains@[ci][j]) by {}
            }
            return ;
        }
        let ghost pre = *self;
        proof {
            assert(self.size_classes.cap_spec(1) <= self.size_classes.cap_spec(size_class as int));
        }
        self.file_block(size_class, alloc_slice.0, end, backing);
        let ghost mid = *self;
        let ghost bmid = backing@;
        let capacity = self.size_classes.capacity(size_class);
        let begin_slack = begin + capacity;
        let ghost sci = size_class as int - 1;
        if begin_slack < end {
            let slack = Slice(K::new_unchecked(begin_slack), alloc_slice.1);
            proof {
                Self::lemma_slack_unclaimed(
                    pre,
                    mid,
                    begin as int,
                    end as int,
                    size_class as int,
                );
                assert(<IntrusiveClasses<S> as FreeSlices<T, K>>::can_free(
                    &mid,
                    begin_slack as int,
                    end as int,
                ));
            }
            self.dealloc(slack, backing);
        }
        proof {
            // The backing outside the freed range is untouched: filing wrote
            // only the slot at `begin`, and the recursion stayed inside the
            // slack.
            assert forall|i: int|
                0 <= i < old(backing)@.len() && !(begin <= i < end) implies final(backing)@[i]
                == old(backing)@[i] by {
                assert(bmid[i] == old(backing)@[i]);
            }
            // Free ranges disjoint from the freed slice stay free: filing
            // maps every old chain element across, and the recursion
            // preserves ranges outside the slack.
            Self::lemma_filed_unclaimed(
                pre,
                mid,
                begin as int,
                end as int,
                size_class as int,
            );
            assert forall|x: int, y: int|
                pre.range_unclaimed(x, y) && (y <= begin || end <= x) implies #[trigger] self.range_unclaimed(x, y) by {
                assert(mid.range_unclaimed(x, y));
                if begin_slack < end {
                    assert(<IntrusiveClasses<S> as FreeSlices<T, K>>::can_free(&mid, x, y));
                    assert(<IntrusiveClasses<S> as FreeSlices<T, K>>::can_free(self, x, y));
                }
            }
            // The whole range counts as deposited: the filing step composed
            // with the recursive deposit of the slack.
            assert(begin_slack as int == begin + pre.size_classes.cap_spec(size_class as int));
            if begin_slack < end {
                assert(<IntrusiveClasses<S> as FreeSlices<T, K>>::deposited(
                    &mid,
                    *self,
                    begin_slack as int,
                    end as int,
                ));
                assert(mid.chains@.len() <= self.chains@.len());
                assert forall|ci: int, j: int|
                    0 <= ci < mid.chains@.len() && 0 <= j < mid.chains@[ci].len() implies self.chains@[
                    ci
                ].contains(#[trigger] mid.chains@[ci][j]) by {
                    let x = mid.chains@[ci][j];
                    assert(<IntrusiveClasses<S> as FreeSlices<T, K>>::deposited(
                        &mid,
                        *self,
                        begin_slack as int,
                        end as int,
                    ));
                    assert(0 <= ci < mid.chains@.len() && 0 <= j < mid.chains@[ci].len());
                }
            }
            if begin_slack < end {
                assert(self.chains@ == deposit_chains(
                    pre.size_classes,
                    mid.chains@,
                    begin_slack as int,
                    end as int,
                ));
            }
            Self::lemma_deposit_equation(
                pre,
                mid,
                *self,
                begin as int,
                end as int,
                size_class as int,
            );
            Self::lemma_deposit_composed::<K, T>(
                pre,
                mid,
                *self,
                begin as int,
                end as int,
                size_class as int,
            );
        }
    }

    fn clear(&mut self, _backing: &mut Vec<T>) {
        self.free_heads.clear();
        proof {
            self.chains@ = Seq::empty();
        }
    }
}

} // verus!
