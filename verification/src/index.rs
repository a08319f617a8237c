//! Index types: bijections between opaque handles and a contiguous range of
//! integers.

use vstd::prelude::*;

verus! {

/// A type which can contain a contiguous integer index between `0` and
/// `Self::max_spec()`.
///
/// `idx` gives the index a value stands for; values produced by `try_new(n)`
/// with `n` in range satisfy `idx() == n`, and `index` recovers it.
pub trait ContiguousIx: Sized + Copy {
    /// The index this value stands for (meaningful when between `0` and
    /// `Self::max_spec()`).
    spec fn idx(self) -> int;

    /// The maximum index this type can hold.
    spec fn max_spec() -> int;

    /// The maximum index is a valid `usize`.
    proof fn max_index_bounds()
        ensures
            0 <= Self::max_spec() <= usize::MAX as int,
    ;

    /// No two values stand for the same index.
    proof fn idx_injective(a: Self, b: Self)
        requires
            a.idx() == b.idx(),
        ensures
            a == b,
    ;

    /// The maximum index this type can hold.
    fn max_index() -> (r: usize)
        ensures
            r == Self::max_spec(),
    ;

    /// Create a new index from an integer, returning `None` if `ix` is out of
    /// bounds.
    fn try_new(ix: usize) -> (r: Option<Self>)
        ensures
            match r {
                Some(k) => ix <= Self::max_spec() && k.idx() == ix,
                None => ix > Self::max_spec(),
            },
    ;

    /// Get the index value represented by this `ContiguousIx`.
    fn index(self) -> (r: usize)
        requires
            0 <= self.idx() <= Self::max_spec(),
        ensures
            r == self.idx(),
    ;

    /// Create a new index from an integer, panicking if `ix` is out of bounds.
    fn new(ix: usize) -> (r: Self)
        requires
            ix <= Self::max_spec(),
        ensures
            r.idx() == ix,
    {
        Self::try_new(ix).unwrap()
    }

    /// Create a new index from an integer, returning an unspecified value if
    /// `ix` is out of bounds.
    fn new_unchecked(ix: usize) -> (r: Self)
        ensures
            ix <= Self::max_spec() ==> r.idx() == ix,
    {
        proof {
            Self::max_index_bounds();
        }
        match Self::try_new(ix) {
            Some(k) => k,
            None => Self::try_new(0).unwrap(),
        }
    }

    /// Whether this index is zero.
    fn is_zero(self) -> (r: bool)
        requires
            0 <= self.idx() <= Self::max_spec(),
        ensures
            r <==> self.idx() == 0,
    {
        self.index() == 0
    }
}

impl ContiguousIx for u8 {
    open spec fn idx(self) -> int {
        self as int
    }

    open spec fn max_spec() -> int {
        (u8::MAX as usize) as int
    }

    proof fn max_index_bounds() {
    }

    proof fn idx_injective(a: Self, b: Self) {
    }

    fn max_index() -> usize {
        u8::MAX as usize
    }

    fn try_new(ix: usize) -> Option<Self> {
        if ix > u8::MAX as usize {
            None
        } else {
            Some(ix as u8)
        }
    }

    fn index(self) -> usize {
        self as usize
    }

    fn new_unchecked(ix: usize) -> Self {
        #[verifier::truncate]
        (ix as u8)
    }
}

impl ContiguousIx for u16 {
    open spec fn idx(self) -> int {
        self as int
    }

    open spec fn max_spec() -> int {
        (u16::MAX as usize) as int
    }

    proof fn max_index_bounds() {
    }

    proof fn idx_injective(a: Self, b: Self) {
    }

    fn max_index() -> usize {
        u16::MAX as usize
    }

    fn try_new(ix: usize) -> Option<Self> {
        if ix > u16::MAX as usize {
            None
        } else {
            Some(ix as u16)
        }
    }

    fn index(self) -> usize {
        self as usize
    }

    fn new_unchecked(ix: usize) -> Self {
        #[verifier::truncate]
        (ix as u16)
    }
}

impl ContiguousIx for u32 {
    open spec fn idx(self) -> int {
        self as int
    }

    open spec fn max_spec() -> int {
        (u32::MAX as usize) as int
    }

    proof fn max_index_bounds() {
    }

    proof fn idx_injective(a: Self, b: Self) {
    }

    fn max_index() -> usize {
        u32::MAX as usize
    }

    fn try_new(ix: usize) -> Option<Self> {
        if ix > u32::MAX as usize {
            None
        } else {
            Some(ix as u32)
        }
    }

    fn index(self) -> usize {
        self as usize
    }

    fn new_unchecked(ix: usize) -> Self {
        #[verifier::truncate]
        (ix as u32)
    }
}

impl ContiguousIx for u64 {
    open spec fn idx(self) -> int {
        self as int
    }

    open spec fn max_spec() -> int {
        (u64::MAX as usize) as int
    }

    proof fn max_index_bounds() {
    }

    proof fn idx_injective(a: Self, b: Self) {
    }

    fn max_index() -> usize {
        #[verifier::truncate]
        (u64::MAX as usize)
    }

    fn try_new(ix: usize) -> Option<Self> {
        #[verifier::truncate]
        let max: usize = u64::MAX as usize;
        if ix > max {
            None
        } else {
            Some(ix as u64)
        }
    }

    fn index(self) -> usize {
        #[verifier::truncate]
        (self as usize)
    }

    fn new_unchecked(ix: usize) -> Self {
        ix as u64
    }
}

impl ContiguousIx for u128 {
    open spec fn idx(self) -> int {
        self as int
    }

    open spec fn max_spec() -> int {
        (u128::MAX as usize) as int
    }

    proof fn max_index_bounds() {
    }

    proof fn idx_injective(a: Self, b: Self) {
    }

    fn max_index() -> usize {
        #[verifier::truncate]
        (u128::MAX as usize)
    }

    fn try_new(ix: usize) -> Option<Self> {
        #[verifier::truncate]
        let max: usize = u128::MAX as usize;
        if ix > max {
            None
        } else {
            Some(ix as u128)
        }
    }

    fn index(self) -> usize {
        #[verifier::truncate]
        (self as usize)
    }

    fn new_unchecked(ix: usize) -> Self {
        ix as u128
    }
}

impl ContiguousIx for usize {
    open spec fn idx(self) -> int {
        self as int
    }

    open spec fn max_spec() -> int {
        usize::MAX as int
    }

    proof fn max_index_bounds() {
    }

    proof fn idx_injective(a: Self, b: Self) {
    }

    fn max_index() -> usize {
        usize::MAX
    }

    fn try_new(ix: usize) -> Option<Self> {
        Some(ix)
    }

    fn index(self) -> usize {
        self
    }

    fn new_unchecked(ix: usize) -> Self {
        ix
    }
}

impl ContiguousIx for i8 {
    open spec fn idx(self) -> int {
        self as int
    }

    open spec fn max_spec() -> int {
        (i8::MAX as usize) as int
    }

    proof fn max_index_bounds() {
    }

    proof fn idx_injective(a: Self, b: Self) {
    }

    fn max_index() -> usize {
        i8::MAX as usize
    }

    fn try_new(ix: usize) -> Option<Self> {
        if ix > i8::MAX as usize {
            None
        } else {
            Some(ix as i8)
        }
    }

    fn index(self) -> usize {
        #[verifier::truncate]
        (self as usize)
    }

    fn new_unchecked(ix: usize) -> Self {
        #[verifier::truncate]
        (ix as i8)
    }
}

impl ContiguousIx for i16 {
    open spec fn idx(self) -> int {
        self as int
    }

    open spec fn max_spec() -> int {
        (i16::MAX as usize) as int
    }

    proof fn max_index_bounds() {
    }

    proof fn idx_injective(a: Self, b: Self) {
    }

    fn max_index() -> usize {
        i16::MAX as usize
    }

    fn try_new(ix: usize) -> Option<Self> {
        if ix > i16::MAX as usize {
            None
        } else {
            Some(ix as i16)
        }
    }

    fn index(self) -> usize {
        #[verifier::truncate]
        (self as usize)
    }

    fn new_unchecked(ix: usize) -> Self {
        #[verifier::truncate]
        (ix as i16)
    }
}

impl ContiguousIx for i32 {
    open spec fn idx(self) -> int {
        self as int
    }

    open spec fn max_spec() -> int {
        (i32::MAX as usize) as int
    }

    proof fn max_index_bounds() {
    }

    proof fn idx_injective(a: Self, b: Self) {
    }

    fn max_index() -> usize {
        i32::MAX as usize
    }

    fn try_new(ix: usize) -> Option<Self> {
        if ix > i32::MAX as usize {
            None
        } else {
            Some(ix as i32)
        }
    }

    fn index(self) -> usize {
        #[verifier::truncate]
        (self as usize)
    }

    fn new_unchecked(ix: usize) -> Self {
        #[verifier::truncate]
        (ix as i32)
    }
}

impl ContiguousIx for i64 {
    open spec fn idx(self) -> int {
        self as int
    }

    open spec fn max_spec() -> int {
        (i64::MAX as usize) as int
    }

    proof fn max_index_bounds() {
    }

    proof fn idx_injective(a: Self, b: Self) {
    }

    fn max_index() -> usize {
        #[verifier::truncate]
        (i64::MAX as usize)
    }

    fn try_new(ix: usize) -> Option<Self> {
        #[verifier::truncate]
        let max: usize = i64::MAX as usize;
        if ix > max {
            None
        } else {
            Some(ix as i64)
        }
    }

    fn index(self) -> usize {
        #[verifier::truncate]
        (self as usize)
    }

    fn new_unchecked(ix: usize) -> Self {
        #[verifier::truncate]
        (ix as i64)
    }
}

impl ContiguousIx for i128 {
    open spec fn idx(self) -> int {
        self as int
    }

    open spec fn max_spec() -> int {
        (i128::MAX as usize) as int
    }

    proof fn max_index_bounds() {
    }

    proof fn idx_injective(a: Self, b: Self) {
    }

    fn max_index() -> usize {
        #[verifier::truncate]
        (i128::MAX as usize)
    }

    fn try_new(ix: usize) -> Option<Self> {
        #[verifier::truncate]
        let max: usize = i128::MAX as usize;
        if ix > max {
            None
        } else {
            Some(ix as i128)
        }
    }

    fn index(self) -> usize {
        #[verifier::truncate]
        (self as usize)
    }

    fn new_unchecked(ix: usize) -> Self {
        #[verifier::truncate]
        (ix as i128)
    }
}

impl ContiguousIx for isize {
    open spec fn idx(self) -> int {
        self as int
    }

    open spec fn max_spec() -> int {
        (isize::MAX as usize) as int
    }

    proof fn max_index_bounds() {
    }

    proof fn idx_injective(a: Self, b: Self) {
    }

    fn max_index() -> usize {
        isize::MAX as usize
    }

    fn try_new(ix: usize) -> Option<Self> {
        if ix > isize::MAX as usize {
            None
        } else {
            Some(ix as isize)
        }
    }

    fn index(self) -> usize {
        #[verifier::truncate]
        (self as usize)
    }

    fn new_unchecked(ix: usize) -> Self {
        #[verifier::truncate]
        (ix as isize)
    }
}

/// A wrapper around a primitive integer type for which [`ContiguousIx`] maps
/// the index `n` to the representation `-(n + 1)`, and which compares in the
/// reverse order of the wrapped integer.
#[derive(Debug, Copy, Clone, Eq, PartialEq, Hash, Structural)]
pub struct Neg<T>(pub T);

impl ContiguousIx for Neg<i8> {
    open spec fn idx(self) -> int {
        -1 - (self.0 as int)
    }

    open spec fn max_spec() -> int {
        (i8::MAX as usize) as int
    }

    proof fn max_index_bounds() {
    }

    proof fn idx_injective(a: Self, b: Self) {
    }

    fn max_index() -> usize {
        i8::MAX as usize
    }

    fn try_new(ix: usize) -> Option<Self> {
        if ix > i8::MAX as usize {
            None
        } else {
            Some(Neg(-(ix as i8) - 1))
        }
    }

    fn index(self) -> usize {
        (-1 - self.0) as usize
    }

    fn new_unchecked(ix: usize) -> Self {
        #[verifier::truncate]
        let t: u8 = ix as u8;
        let r: i8 = if t <= i8::MAX as u8 {
            -(t as i8) - 1
        } else {
            (u8::MAX - t) as i8
        };
        Neg(r)
    }
}

impl ContiguousIx for Neg<i16> {
    open spec fn idx(self) -> int {
        -1 - (self.0 as int)
    }

    open spec fn max_spec() -> int {
        (i16::MAX as usize) as int
    }

    proof fn max_index_bounds() {
    }

    proof fn idx_injective(a: Self, b: Self) {
    }

    fn max_index() -> usize {
        i16::MAX as usize
    }

    fn try_new(ix: usize) -> Option<Self> {
        if ix > i16::MAX as usize {
            None
        } else {
            Some(Neg(-(ix as i16) - 1))
        }
    }

    fn index(self) -> usize {
        (-1 - self.0) as usize
    }

    fn new_unchecked(ix: usize) -> Self {
        #[verifier::truncate]
        let t: u16 = ix as u16;
        let r: i16 = if t <= i16::MAX as u16 {
            -(t as i16) - 1
        } else {
            (u16::MAX - t) as i16
        };
        Neg(r)
    }
}

impl ContiguousIx for Neg<i32> {
    open spec fn idx(self) -> int {
        -1 - (self.0 as int)
    }

    open spec fn max_spec() -> int {
        (i32::MAX as usize) as int
    }

    proof fn max_index_bounds() {
    }

    proof fn idx_injective(a: Self, b: Self) {
    }

    fn max_index() -> usize {
        i32::MAX as usize
    }

    fn try_new(ix: usize) -> Option<Self> {
        if ix > i32::MAX as usize {
            None
        } else {
            Some(Neg(-(ix as i32) - 1))
        }
    }

    fn index(self) -> usize {
        (-1 - self.0) as usize
    }

    fn new_unchecked(ix: usize) -> Self {
        #[verifier::truncate]
        let t: u32 = ix as u32;
        let r: i32 = if t <= i32::MAX as u32 {
            -(t as i32) - 1
        } else {
            (u32::MAX - t) as i32
        };
        Neg(r)
    }
}

impl ContiguousIx for Neg<i64> {
    open spec fn idx(self) -> int {
        -1 - (self.0 as int)
    }

    open spec fn max_spec() -> int {
        (i64::MAX as usize) as int
    }

    proof fn max_index_bounds() {
    }

    proof fn idx_injective(a: Self, b: Self) {
    }

    fn max_index() -> usize {
        #[verifier::truncate]
        (i64::MAX as usize)
    }

    fn try_new(ix: usize) -> Option<Self> {
        #[verifier::truncate]
        let max: usize = i64::MAX as usize;
        if ix > max {
            None
        } else {
            Some(Neg(-(ix as i64) - 1))
        }
    }

    fn index(self) -> usize {
        #[verifier::truncate]
        ((-1 - self.0) as usize)
    }

    fn new_unchecked(ix: usize) -> Self {
        let t: u64 = ix as u64;
        let r: i64 = if t <= i64::MAX as u64 {
            -(t as i64) - 1
        } else {
            (u64::MAX - t) as i64
        };
        Neg(r)
    }
}

impl ContiguousIx for Neg<i128> {
    open spec fn idx(self) -> int {
        -1 - (self.0 as int)
    }

    open spec fn max_spec() -> int {
        (i128::MAX as usize) as int
    }

    proof fn max_index_bounds() {
    }

    proof fn idx_injective(a: Self, b: Self) {
    }

    fn max_index() -> usize {
        #[verifier::truncate]
        (i128::MAX as usize)
    }

    fn try_new(ix: usize) -> Option<Self> {
        #[verifier::truncate]
        let max: usize = i128::MAX as usize;
        if ix > max {
            None
        } else {
            Some(Neg(-(ix as i128) - 1))
        }
    }

    fn index(self) -> usize {
        #[verifier::truncate]
        ((-1 - self.0) as usize)
    }

    fn new_unchecked(ix: usize) -> Self {
        let t: u128 = ix as u128;
        let r: i128 = if t <= i128::MAX as u128 {
            -(t as i128) - 1
        } else {
            (u128::MAX - t) as i128
        };
        Neg(r)
    }
}

impl ContiguousIx for Neg<isize> {
    open spec fn idx(self) -> int {
        -1 - (self.0 as int)
    }

    open spec fn max_spec() -> int {
        (isize::MAX as usize) as int
    }

    proof fn max_index_bounds() {
    }

    proof fn idx_injective(a: Self, b: Self) {
    }

    fn max_index() -> usize {
        isize::MAX as usize
    }

    fn try_new(ix: usize) -> Option<Self> {
        if ix > isize::MAX as usize {
            None
        } else {
            Some(Neg(-(ix as isize) - 1))
        }
    }

    fn index(self) -> usize {
        (-1 - self.0) as usize
    }

    fn new_unchecked(ix: usize) -> Self {
        let r: isize = if ix <= isize::MAX as usize {
            -(ix as isize) - 1
        } else {
            (usize::MAX - ix) as isize
        };
        Neg(r)
    }
}

impl Neg<i8> {
    /// Compare two wrapped indices; the order is the reverse of the wrapped
    /// integers' order.
    pub fn cmp(&self, other: &Self) -> (r: core::cmp::Ordering)
        ensures
            r == core::cmp::Ordering::Less <==> self.0 > other.0,
            r == core::cmp::Ordering::Equal <==> self.0 == other.0,
            r == core::cmp::Ordering::Greater <==> self.0 < other.0,
    {
        if self.0 > other.0 {
            core::cmp::Ordering::Less
        } else if self.0 == other.0 {
            core::cmp::Ordering::Equal
        } else {
            core::cmp::Ordering::Greater
        }
    }

    /// Compare two wrapped indices; the order is the reverse of the wrapped
    /// integers' order.
    pub fn partial_cmp(&self, other: &Self) -> (r: Option<core::cmp::Ordering>)
        ensures
            r == Some(self.cmp_ordering_spec(*other)),
    {
        Some(self.cmp(other))
    }

    /// The ordering of `self` relative to `other`: the reverse of the wrapped
    /// integers' order.
    pub open spec fn cmp_ordering_spec(self, other: Self) -> core::cmp::Ordering {
        if self.0 > other.0 {
            core::cmp::Ordering::Less
        } else if self.0 == other.0 {
            core::cmp::Ordering::Equal
        } else {
            core::cmp::Ordering::Greater
        }
    }
}

impl Neg<i16> {
    /// Compare two wrapped indices; the order is the reverse of the wrapped
    /// integers' order.
    pub fn cmp(&self, other: &Self) -> (r: core::cmp::Ordering)
        ensures
            r == core::cmp::Ordering::Less <==> self.0 > other.0,
            r == core::cmp::Ordering::Equal <==> self.0 == other.0,
            r == core::cmp::Ordering::Greater <==> self.0 < other.0,
    {
        if self.0 > other.0 {
            core::cmp::Ordering::Less
        } else if self.0 == other.0 {
            core::cmp::Ordering::Equal
        } else {
            core::cmp::Ordering::Greater
        }
    }

    /// Compare two wrapped indices; the order is the reverse of the wrapped
    /// integers' order.
    pub fn partial_cmp(&self, other: &Self) -> (r: Option<core::cmp::Ordering>)
        ensures
            r == Some(self.cmp_ordering_spec(*other)),
    {
        Some(self.cmp(other))
    }

    /// The ordering of `self` relative to `other`: the reverse of the wrapped
    /// integers' order.
    pub open spec fn cmp_ordering_spec(self, other: Self) -> core::cmp::Ordering {
        if self.0 > other.0 {
            core::cmp::Ordering::Less
        } else if self.0 == other.0 {
            core::cmp::Ordering::Equal
        } else {
            core::cmp::Ordering::Greater
        }
    }
}

impl Neg<i32> {
    /// Compare two wrapped indices; the order is the reverse of the wrapped
    /// integers' order.
    pub fn cmp(&self, other: &Self) -> (r: core::cmp::Ordering)
        ensures
            r == core::cmp::Ordering::Less <==> self.0 > other.0,
            r == core::cmp::Ordering::Equal <==> self.0 == other.0,
            r == core::cmp::Ordering::Greater <==> self.0 < other.0,
    {
        if self.0 > other.0 {
            core::cmp::Ordering::Less
        } else if self.0 == other.0 {
            core::cmp::Ordering::Equal
        } else {
            core::cmp::Ordering::Greater
        }
    }

    /// Compare two wrapped indices; the order is the reverse of the wrapped
    /// integers' order.
    pub fn partial_cmp(&self, other: &Self) -> (r: Option<core::cmp::Ordering>)
        ensures
            r == Some(self.cmp_ordering_spec(*other)),
    {
        Some(self.cmp(other))
    }

    /// The ordering of `self` relative to `other`: the reverse of the wrapped
    /// integers' order.
    pub open spec fn cmp_ordering_spec(self, other: Self) -> core::cmp::Ordering {
        if self.0 > other.0 {
            core::cmp::Ordering::Less
        } else if self.0 == other.0 {
            core::cmp::Ordering::Equal
        } else {
            core::cmp::Ordering::Greater
        }
    }
}

impl Neg<i64> {
    /// Compare two wrapped indices; the order is the reverse of the wrapped
    /// integers' order.
    pub fn cmp(&self, other: &Self) -> (r: core::cmp::Ordering)
        ensures
            r == core::cmp::Ordering::Less <==> self.0 > other.0,
            r == core::cmp::Ordering::Equal <==> self.0 == other.0,
            r == core::cmp::Ordering::Greater <==> self.0 < other.0,
    {
        if self.0 > other.0 {
            core::cmp::Ordering::Less
        } else if self.0 == other.0 {
            core::cmp::Ordering::Equal
        } else {
            core::cmp::Ordering::Greater
        }
    }

    /// Compare two wrapped indices; the order is the reverse of the wrapped
    /// integers' order.
    pub fn partial_cmp(&self, other: &Self) -> (r: Option<core::cmp::Ordering>)
        ensures
            r == Some(self.cmp_ordering_spec(*other)),
    {
        Some(self.cmp(other))
    }

    /// The ordering of `self` relative to `other`: the reverse of the wrapped
    /// integers' order.
    pub open spec fn cmp_ordering_spec(self, other: Self) -> core::cmp::Ordering {
        if self.0 > other.0 {
            core::cmp::Ordering::Less
        } else if self.0 == other.0 {
            core::cmp::Ordering::Equal
        } else {
            core::cmp::Ordering::Greater
        }
    }
}

impl Neg<i128> {
    /// Compare two wrapped indices; the order is the reverse of the wrapped
    /// integers' order.
    pub fn cmp(&self, other: &Self) -> (r: core::cmp::Ordering)
        ensures
            r == core::cmp::Ordering::Less <==> self.0 > other.0,
            r == core::cmp::Ordering::Equal <==> self.0 == other.0,
            r == core::cmp::Ordering::Greater <==> self.0 < other.0,
    {
        if self.0 > other.0 {
            core::cmp::Ordering::Less
        } else if self.0 == other.0 {
            core::cmp::Ordering::Equal
        } else {
            core::cmp::Ordering::Greater
        }
    }

    /// Compare two wrapped indices; the order is the reverse of the wrapped
    /// integers' order.
    pub fn partial_cmp(&self, other: &Self) -> (r: Option<core::cmp::Ordering>)
        ensures
            r == Some(self.cmp_ordering_spec(*other)),
    {
        Some(self.cmp(other))
    }

    /// The ordering of `self` relative to `other`: the reverse of the wrapped
    /// integers' order.
    pub open spec fn cmp_ordering_spec(self, other: Self) -> core::cmp::Ordering {
        if self.0 > other.0 {
            core::cmp::Ordering::Less
        } else if self.0 == other.0 {
            core::cmp::Ordering::Equal
        } else {
            core::cmp::Ordering::Greater
        }
    }
}

impl Neg<isize> {
    /// Compare two wrapped indices; the order is the reverse of the wrapped
    /// integers' order.
    pub fn cmp(&self, other: &Self) -> (r: core::cmp::Ordering)
        ensures
            r == core::cmp::Ordering::Less <==> self.0 > other.0,
            r == core::cmp::Ordering::Equal <==> self.0 == other.0,
            r == core::cmp::Ordering::Greater <==> self.0 < other.0,
    {
        if self.0 > other.0 {
            core::cmp::Ordering::Less
        } else if self.0 == other.0 {
            core::cmp::Ordering::Equal
        } else {
            core::cmp::Ordering::Greater
        }
    }

    /// Compare two wrapped indices; the order is the reverse of the wrapped
    /// integers' order.
    pub fn partial_cmp(&self, other: &Self) -> (r: Option<core::cmp::Ordering>)
        ensures
            r == Some(self.cmp_ordering_spec(*other)),
    {
        Some(self.cmp(other))
    }

    /// The ordering of `self` relative to `other`: the reverse of the wrapped
    /// integers' order.
    pub open spec fn cmp_ordering_spec(self, other: Self) -> core::cmp::Ordering {
        if self.0 > other.0 {
            core::cmp::Ordering::Less
        } else if self.0 == other.0 {
            core::cmp::Ordering::Equal
        } else {
            core::cmp::Ordering::Greater
        }
    }
}

/// A tiny index type capped at ten, exercising the trait's provided
/// methods on a downstream implementation.
#[derive(Debug, Copy, Clone, Eq, PartialEq, Structural)]
pub struct SmallIx(pub u32);

impl ContiguousIx for SmallIx {
    open spec fn idx(self) -> int {
        self.0 as int
    }

    open spec fn max_spec() -> int {
        10
    }

    proof fn max_index_bounds() {
    }

    proof fn idx_injective(a: Self, b: Self) {
    }

    fn max_index() -> usize {
        10
    }

    fn try_new(ix: usize) -> Option<Self> {
        if ix > 10 {
            None
        } else {
            Some(SmallIx(ix as u32))
        }
    }

    fn index(self) -> usize {
        self.0 as usize
    }
}

} // verus!
