//! An earlier shape of the size-class tables: classes are numbered by
//! `usize` and class `0` already holds the smallest capacity.

use vstd::prelude::*;

verus! {

/// A free list: one allocated range of a free-list table.
pub struct FreeList {
    /// The index of the free list.
    pub index: usize,
    /// The capacity of the free list.
    pub capacity: usize,
}

/// A set of free lists over a shared backing.
pub trait FreeLists<T>: Sized {
    /// Whether the free lists are well formed over the given backing.
    spec fn lists_wf(&self, backing: Seq<T>) -> bool;

    /// Get a free list with the given capacity.
    ///
    /// Returns `None` if no free list with the given capacity is available.
    fn allocate(&mut self, capacity: usize, backing: &mut Vec<T>) -> (r: Option<FreeList>)
        requires
            old(self).lists_wf(old(backing)@),
        ensures
            final(self).lists_wf(final(backing)@),
            final(backing)@.len() == old(backing)@.len(),
            match r {
                Some(f) => f.capacity >= capacity && f.index + f.capacity <= old(backing)@.len(),
                None => true,
            },
    ;

    /// Free a list with the given capacity.
    ///
    /// Returns an error on failure.
    fn dealloc(&mut self, index: usize, capacity: usize, backing: &mut Vec<T>) -> (r: Result<
        (),
        (),
    >)
        requires
            old(self).lists_wf(old(backing)@),
            index + capacity <= old(backing)@.len(),
        ensures
            final(self).lists_wf(final(backing)@),
            final(backing)@.len() == old(backing)@.len(),
    ;
}

/// A mapping from capacities to size classes, with class `0` already
/// holding the smallest capacity.
pub trait SizeClasses: Sized {
    /// Whether this table's parameters are usable at all.
    spec fn classes_wf(&self) -> bool;

    /// The capacity of a size class, as a mathematical function.
    spec fn cap_spec(&self, size_class: int) -> int;

    /// The largest class whose capacity is representable.
    spec fn max_class_spec(&self) -> int;

    /// Get the capacity of a given size class.
    fn capacity(&self, size_class: usize) -> (r: usize)
        requires
            self.classes_wf(),
            0 <= size_class <= self.max_class_spec(),
        ensures
            r == self.cap_spec(size_class as int),
    ;

    /// Get the index of the smallest size class containing this capacity.
    ///
    /// Returns one more than the largest class if no class is large enough.
    fn size_class_containing(&self, capacity: usize) -> (r: usize)
        requires
            self.classes_wf(),
        ensures
            r <= self.max_class_spec() + 1,
            r <= self.max_class_spec() ==> self.cap_spec(r as int) >= capacity,
            r > 0 ==> self.cap_spec(r as int - 1) < capacity,
    ;

    /// Get the index of the largest size class contained within this
    /// capacity (class `0` for capacities below the smallest class).
    fn size_class_contained(&self, capacity: usize) -> (r: usize)
        requires
            self.classes_wf(),
        ensures
            0 <= r <= self.max_class_spec(),
            r > 0 ==> self.cap_spec(r as int) <= capacity,
            r < self.max_class_spec() && self.cap_spec(0) <= capacity ==> self.cap_spec(
                r as int + 1,
            ) > capacity,
    ;

    /// Round up a capacity to the nearest size class.
    ///
    /// The result is at least `capacity`.
    fn round_up_capacity(&self, capacity: usize) -> (r: usize)
        requires
            self.classes_wf(),
            capacity <= self.cap_spec(self.max_class_spec()),
        ensures
            r >= capacity,
            exists|c: int|
                0 <= c <= self.max_class_spec() && r == #[trigger] self.cap_spec(c) && (c == 0
                    || self.cap_spec(c - 1) < capacity),
    ;

    /// Round down a capacity to the nearest size class.
    ///
    /// The result is at most `capacity` for capacities at or above the
    /// smallest class.
    fn round_down_capacity(&self, capacity: usize) -> (r: usize)
        requires
            self.classes_wf(),
        ensures
            self.cap_spec(0) <= capacity ==> r <= capacity,
            exists|c: int|
                0 <= c <= self.max_class_spec() && r == #[trigger] self.cap_spec(c) && (c
                    == self.max_class_spec() || self.cap_spec(0) > capacity || self.cap_spec(c + 1)
                    > capacity),
    ;
}

/// Constant exponential size classes where class `c` has capacity
/// `2^(B + c * N)`.
#[derive(Debug, Copy, Clone, Eq, PartialEq, Hash)]
pub struct Exp2Size<const N: usize, const B: usize>;

impl<const N: usize, const B: usize> SizeClasses for Exp2Size<N, B> {
    open spec fn classes_wf(&self) -> bool {
        1 <= N && B < usize::BITS
    }

    open spec fn cap_spec(&self, size_class: int) -> int {
        if size_class < 0 {
            0
        } else {
            vstd::arithmetic::power2::pow2((B + size_class * N) as nat) as int
        }
    }

    open spec fn max_class_spec(&self) -> int {
        (usize::BITS - 1 - B) as int / N as int
    }

    fn capacity(&self, size_class: usize) -> (r: usize) {
        proof {
            let n = N as int;
            let bb = B as int;
            let w = usize::BITS as int;
            assert(size_class * n <= w - 1 - bb) by (nonlinear_arith)
                requires
                    n >= 1,
                    bb < w,
                    0 <= size_class,
                    size_class as int <= (w - 1 - bb) / n,
            ;
        }
        let e: usize = B + size_class * N;
        proof {
            vstd::bits::lemma_usize_pow2_no_overflow(e as nat);
            vstd::bits::lemma_usize_shl_is_mul(1usize, e);
        }
        1usize << e
    }

    fn size_class_containing(&self, capacity: usize) -> (r: usize) {
        proof {
            self.ladder_facts();
        }
        let bits = usize::BITS as usize;
        let mx = (bits - 1 - B) / N;
        let mut c: usize = 0;
        loop
            invariant
                self.classes_wf(),
                0 <= c <= mx + 1,
                mx == self.max_class_spec(),
                c > 0 ==> self.cap_spec(c as int - 1) < capacity,
            decreases mx + 1 - c,
        {
            if c > mx {
                return c;
            }
            if self.capacity(c) >= capacity {
                return c;
            }
            proof {
                self.ladder_facts();
            }
            c = c + 1;
        }
    }

    fn size_class_contained(&self, capacity: usize) -> (r: usize) {
        proof {
            self.ladder_facts();
        }
        let mx = (usize::BITS as usize - 1 - B) / N;
        let up = self.size_class_containing(capacity);
        if up == 0 {
            return 0;
        }
        if up <= mx {
            let cup = self.capacity(up);
            if cup == capacity {
                return up;
            }
        }
        up - 1
    }

    fn round_up_capacity(&self, capacity: usize) -> (r: usize) {
        proof {
            self.ladder_facts();
        }
        let sc = self.size_class_containing(capacity);
        proof {
            if sc > self.max_class_spec() {
                assert(self.cap_spec(sc as int - 1) < capacity);
            }
            assert(0 <= sc as int <= self.max_class_spec() && self.cap_spec(sc as int)
                == self.cap_spec(sc as int) && (sc as int == 0 || self.cap_spec(sc as int - 1)
                < capacity));
        }
        self.capacity(sc)
    }

    fn round_down_capacity(&self, capacity: usize) -> (r: usize) {
        proof {
            self.ladder_facts();
        }
        let sc = self.size_class_contained(capacity);
        proof {
            assert(0 <= sc as int <= self.max_class_spec() && self.cap_spec(sc as int)
                == self.cap_spec(sc as int) && (sc as int == self.max_class_spec()
                || self.cap_spec(0) > capacity || self.cap_spec(sc as int + 1) > capacity));
        }
        self.capacity(sc)
    }
}

impl<const N: usize, const B: usize> Exp2Size<N, B> {
    /// The ladder of capacities starts at one and grows strictly with the
    /// class, staying representable up to the largest class.
    proof fn ladder_facts(&self)
        requires
            self.classes_wf(),
        ensures
            self.max_class_spec() >= 0,
            self.cap_spec(0) >= 1,
            forall|a: int, b: int|
                0 <= a < b ==> #[trigger] self.cap_spec(a) < #[trigger] self.cap_spec(b),
            forall|c: int|
                0 <= c <= self.max_class_spec() ==> 1 <= #[trigger] self.cap_spec(c) <= usize::MAX,
    {
        let n = N as int;
        let bb = B as int;
        let w = usize::BITS as int;
        assert forall|a: int, b: int|
            0 <= a < b implies #[trigger] self.cap_spec(a) < #[trigger] self.cap_spec(b) by {
            assert(a * n < b * n) by (nonlinear_arith)
                requires
                    a < b,
                    n >= 1,
            ;
            vstd::arithmetic::power2::lemma_pow2_strictly_increases(
                (bb + a * n) as nat,
                (bb + b * n) as nat,
            );
        }
        assert(vstd::arithmetic::power2::pow2(B as nat) >= 1) by {
            vstd::arithmetic::power2::lemma_pow2_pos(B as nat);
        }
        assert((w - 1 - bb) / n >= 0) by (nonlinear_arith)
            requires
                n >= 1,
                w - 1 - bb >= 0,
        ;
        assert forall|c: int|
            0 <= c <= self.max_class_spec() implies 1 <= #[trigger] self.cap_spec(c)
                <= usize::MAX by {
            vstd::arithmetic::power2::lemma_pow2_pos((bb + c * n) as nat);
            assert(c * n <= w - 1 - bb) by (nonlinear_arith)
                requires
                    n >= 1,
                    bb < w,
                    0 <= c,
                    c <= (w - 1 - bb) / n,
            ;
            vstd::bits::lemma_usize_pow2_no_overflow((bb + c * n) as nat);
        }
    }
}

} // verus!
