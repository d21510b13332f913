//! A small, fast and biased pseudo-random number generator.

use crate::{InfiniteIterator, RangeIterator};
use vstd::prelude::*;

verus! {

/// One round of the 32-bit xorshift generator with shifts 13, 17 and 5.
pub open spec fn spec_xorshift32(x: u32) -> u32 {
    let a = x ^ (x << 13);
    let b = a ^ (a >> 17);
    b ^ (b << 5)
}

/// One round of the 64-bit xorshift generator with shifts 13, 7 and 17.
pub open spec fn spec_xorshift64(x: u64) -> u64 {
    let a = x ^ (x << 13);
    let b = a ^ (a >> 7);
    b ^ (b << 17)
}

pub fn xorshift32(x: u32) -> (next: u32)
    ensures
        next == spec_xorshift32(x),
{
    let a: u32 = x ^ (x << 13);
    let b: u32 = a ^ (a >> 17);
    b ^ (b << 5)
}

pub fn xorshift64(x: u64) -> (next: u64)
    ensures
        next == spec_xorshift64(x),
{
    let a: u64 = x ^ (x << 13);
    let b: u64 = a ^ (a >> 7);
    b ^ (b << 17)
}

/// Zero is the one state that a round maps to zero: a generator seeded with
/// anything else never gets stuck there.
pub proof fn xorshift32_keeps_nonzero(x: u32)
    ensures
        spec_xorshift32(x) == 0 <==> x == 0,
{
    assert(spec_xorshift32(x) == 0 <==> x == 0) by (bit_vector);
}

/// Zero is the one state that a round maps to zero: a generator seeded with
/// anything else never gets stuck there.
pub proof fn xorshift64_keeps_nonzero(x: u64)
    ensures
        spec_xorshift64(x) == 0 <==> x == 0,
{
    assert(spec_xorshift64(x) == 0 <==> x == 0) by (bit_vector);
}

/// One end of a range of numbers.
#[derive(Clone, Copy, Debug, PartialEq, Eq, Structural)]
pub enum Bound<T> {
    /// The range reaches to this number and holds it.
    Included(T),
    /// The range reaches to this number and does not hold it.
    Excluded(T),
    /// The range reaches as far as the type does.
    Unbounded,
}

/// The first number of a range that starts at `bound`.
pub open spec fn first_u32(bound: Bound<u32>) -> int {
    match bound {
        Bound::Included(x) => x as int,
        Bound::Excluded(x) => x + 1,
        Bound::Unbounded => u32::MIN as int,
    }
}

/// The number after the last of a range that ends at `bound`. A range
/// without an upper bound ends before the largest number.
pub open spec fn past_u32(bound: Bound<u32>) -> int {
    match bound {
        Bound::Included(x) => x + 1,
        Bound::Excluded(x) => x as int,
        Bound::Unbounded => u32::MAX as int,
    }
}

/// The first number of a range that starts at `bound`.
pub open spec fn first_u64(bound: Bound<u64>) -> int {
    match bound {
        Bound::Included(x) => x as int,
        Bound::Excluded(x) => x + 1,
        Bound::Unbounded => u64::MIN as int,
    }
}

/// The number after the last of a range that ends at `bound`. A range
/// without an upper bound ends before the largest number.
pub open spec fn past_u64(bound: Bound<u64>) -> int {
    match bound {
        Bound::Included(x) => x + 1,
        Bound::Excluded(x) => x as int,
        Bound::Unbounded => u64::MAX as int,
    }
}

/// The half-open interval that a range stands for: its first number, and
/// the number after its last.
pub fn prng_bounds_u32(range: (Bound<u32>, Bound<u32>)) -> (ends: (u32, u32))
    requires
        first_u32(range.0) <= u32::MAX,
        past_u32(range.1) <= u32::MAX,
    ensures
        ends.0 == first_u32(range.0),
        ends.1 == past_u32(range.1),
{
    (
        match range.0 {
            Bound::Included(x) => x,
            Bound::Excluded(x) => x + 1,
            Bound::Unbounded => u32::MIN,
        },
        match range.1 {
            Bound::Included(x) => x + 1,
            Bound::Excluded(x) => x,
            Bound::Unbounded => u32::MAX,
        },
    )
}

/// The half-open interval that a range stands for: its first number, and
/// the number after its last.
pub fn prng_bounds_u64(range: (Bound<u64>, Bound<u64>)) -> (ends: (u64, u64))
    requires
        first_u64(range.0) <= u64::MAX,
        past_u64(range.1) <= u64::MAX,
    ensures
        ends.0 == first_u64(range.0),
        ends.1 == past_u64(range.1),
{
    (
        match range.0 {
            Bound::Included(x) => x,
            Bound::Excluded(x) => x + 1,
            Bound::Unbounded => u64::MIN,
        },
        match range.1 {
            Bound::Included(x) => x + 1,
            Bound::Excluded(x) => x,
            Bound::Unbounded => u64::MAX,
        },
    )
}

/// Fast biased Xorshift PRNG
pub struct FastPrng<T> {
    state: T,
}

impl<T> View for FastPrng<T> {
    type V = T;

    /// The state, which is also the value drawn last.
    closed spec fn view(&self) -> T {
        self.state
    }
}

impl<T> FastPrng<T> {
    /// A generator that starts from `seed`.
    pub fn new(seed: T) -> (prng: Self)
        ensures
            prng@ == seed,
    {
        Self { state: seed }
    }
}

impl Default for FastPrng<u32> {
    /// A generator in the state zero, which it never leaves.
    fn default() -> (prng: Self)
        ensures
            prng@ == 0,
    {
        Self { state: 0 }
    }
}

impl Default for FastPrng<i32> {
    /// A generator in the state zero, which it never leaves.
    fn default() -> (prng: Self)
        ensures
            prng@ == 0,
    {
        Self { state: 0 }
    }
}

impl Default for FastPrng<u64> {
    /// A generator in the state zero, which it never leaves.
    fn default() -> (prng: Self)
        ensures
            prng@ == 0,
    {
        Self { state: 0 }
    }
}

impl Default for FastPrng<i64> {
    /// A generator in the state zero, which it never leaves.
    fn default() -> (prng: Self)
        ensures
            prng@ == 0,
    {
        Self { state: 0 }
    }
}

impl InfiniteIterator for FastPrng<u32> {
    type Item = u32;

    fn next(&mut self) -> (drawn: u32)
        ensures
            drawn == spec_xorshift32(old(self)@),
            final(self)@ == drawn,
    {
        self.state = xorshift32(self.state);
        self.state
    }
}

impl InfiniteIterator for FastPrng<u64> {
    type Item = u64;

    fn next(&mut self) -> (drawn: u64)
        ensures
            drawn == spec_xorshift64(old(self)@),
            final(self)@ == drawn,
    {
        self.state = xorshift64(self.state);
        self.state
    }
}

/// The place in `first..past` that the 32-bit draw `drawn` is scaled to.
pub open spec fn scaled_u32(drawn: u32, first: int, past: int) -> int {
    first + (drawn * (past - first)) / 0x1_0000_0000
}

/// The number that the 64-bit draw `drawn` is scaled to for `first..past`.
pub open spec fn scaled_u64(drawn: u64, first: int, past: int) -> int {
    first + (drawn * (past - first)) / 0x1_0000_0000
}

impl RangeIterator<(Bound<u32>, Bound<u32>)> for FastPrng<u32> {
    type Item = u32;

    /// The range must not be turned round, and the number after its last
    /// must still be a `u32`.
    open spec fn admits(&self, range: (Bound<u32>, Bound<u32>)) -> bool {
        first_u32(range.0) <= past_u32(range.1) <= u32::MAX
    }

    /// Draws the next value and scales it into `range`. The result lies in
    /// the range unless the range is empty.
    fn next_in(&mut self, range: (Bound<u32>, Bound<u32>)) -> (picked: u32)
        ensures
            final(self)@ == spec_xorshift32(old(self)@),
            picked == scaled_u32(final(self)@, first_u32(range.0), past_u32(range.1)),
            first_u32(range.0) <= picked,
            first_u32(range.0) < past_u32(range.1) ==> picked < past_u32(range.1),
    {
        let (start, end) = prng_bounds_u32(range);
        let drawn: u32 = self.next();
        let width: u32 = end - start;
        proof {
            assert(drawn * width <= 0xffff_ffff * width) by (nonlinear_arith)
                requires
                    drawn <= 0xffff_ffff,
                    width >= 0,
            ;
        }
        let product: u64 = (drawn as u64) * (width as u64);
        proof {
            assert(product >> 32 == product / 0x1_0000_0000) by (bit_vector);
        }
        ((product >> 32) as u32) + start
    }
}

impl RangeIterator<(Bound<u64>, Bound<u64>)> for FastPrng<u64> {
    type Item = u64;

    /// The range must not be turned round, the number after its last must
    /// still be a `u64`, and so must the next draw times the width of the
    /// range, and the result.
    open spec fn admits(&self, range: (Bound<u64>, Bound<u64>)) -> bool {
        &&& first_u64(range.0) <= past_u64(range.1) <= u64::MAX
        &&& spec_xorshift64(self@) * (past_u64(range.1) - first_u64(range.0)) <= u64::MAX
        &&& scaled_u64(spec_xorshift64(self@), first_u64(range.0), past_u64(range.1)) <= u64::MAX
    }

    /// Draws the next value, multiplies it by the width of `range`, drops
    /// the low 32 bits and adds the start of the range.
    fn next_in(&mut self, range: (Bound<u64>, Bound<u64>)) -> (picked: u64)
        ensures
            final(self)@ == spec_xorshift64(old(self)@),
            picked == scaled_u64(final(self)@, first_u64(range.0), past_u64(range.1)),
    {
        let (start, end) = prng_bounds_u64(range);
        let drawn: u64 = self.next();
        let product: u64 = drawn * (end - start);
        proof {
            assert(product >> 32 == product / 0x1_0000_0000) by (bit_vector);
        }
        (product >> 32) + start
    }
}

/// The first number of a range that starts at `bound`.
pub open spec fn first_i32(bound: Bound<i32>) -> int {
    match bound {
        Bound::Included(x) => x as int,
        Bound::Excluded(x) => x + 1,
        Bound::Unbounded => i32::MIN as int,
    }
}

/// The number after the last of a range that ends at `bound`. A range
/// without an upper bound ends before the largest number.
pub open spec fn past_i32(bound: Bound<i32>) -> int {
    match bound {
        Bound::Included(x) => x + 1,
        Bound::Excluded(x) => x as int,
        Bound::Unbounded => i32::MAX as int,
    }
}

/// The first number of a range that starts at `bound`.
pub open spec fn first_i64(bound: Bound<i64>) -> int {
    match bound {
        Bound::Included(x) => x as int,
        Bound::Excluded(x) => x + 1,
        Bound::Unbounded => i64::MIN as int,
    }
}

/// The number after the last of a range that ends at `bound`. A range
/// without an upper bound ends before the largest number.
pub open spec fn past_i64(bound: Bound<i64>) -> int {
    match bound {
        Bound::Included(x) => x + 1,
        Bound::Excluded(x) => x as int,
        Bound::Unbounded => i64::MAX as int,
    }
}

/// The half-open interval that a range stands for: its first number, and
/// the number after its last.
pub fn prng_bounds_i32(range: (Bound<i32>, Bound<i32>)) -> (ends: (i32, i32))
    requires
        first_i32(range.0) <= i32::MAX,
        past_i32(range.1) <= i32::MAX,
    ensures
        ends.0 == first_i32(range.0),
        ends.1 == past_i32(range.1),
{
    (
        match range.0 {
            Bound::Included(x) => x,
            Bound::Excluded(x) => x + 1,
            Bound::Unbounded => i32::MIN,
        },
        match range.1 {
            Bound::Included(x) => x + 1,
            Bound::Excluded(x) => x,
            Bound::Unbounded => i32::MAX,
        },
    )
}

/// The half-open interval that a range stands for: its first number, and
/// the number after its last.
pub fn prng_bounds_i64(range: (Bound<i64>, Bound<i64>)) -> (ends: (i64, i64))
    requires
        first_i64(range.0) <= i64::MAX,
        past_i64(range.1) <= i64::MAX,
    ensures
        ends.0 == first_i64(range.0),
        ends.1 == past_i64(range.1),
{
    (
        match range.0 {
            Bound::Included(x) => x,
            Bound::Excluded(x) => x + 1,
            Bound::Unbounded => i64::MIN,
        },
        match range.1 {
            Bound::Included(x) => x + 1,
            Bound::Excluded(x) => x,
            Bound::Unbounded => i64::MAX,
        },
    )
}

impl InfiniteIterator for FastPrng<i32> {
    type Item = i32;

    /// One round on the bits of the state.
    fn next(&mut self) -> (drawn: i32)
        ensures
            drawn == spec_xorshift32(old(self)@ as u32) as i32,
            final(self)@ == drawn,
    {
        let bits: u32 = #[verifier::truncate]
        (self.state as u32);
        self.state = #[verifier::truncate]
        (xorshift32(bits) as i32);
        self.state
    }
}

impl InfiniteIterator for FastPrng<i64> {
    type Item = i64;

    /// One round on the bits of the state.
    fn next(&mut self) -> (drawn: i64)
        ensures
            drawn == spec_xorshift64(old(self)@ as u64) as i64,
            final(self)@ == drawn,
    {
        let bits: u64 = #[verifier::truncate]
        (self.state as u64);
        self.state = #[verifier::truncate]
        (xorshift64(bits) as i64);
        self.state
    }
}

impl From<FastPrng<u32>> for FastPrng<i32> {
    /// The same bits, read as a signed number.
    fn from(value: FastPrng<u32>) -> (prng: Self)
        ensures
            prng@ == value@ as i32,
    {
        FastPrng::<i32> { state: #[verifier::truncate]
        (value.state as i32) }
    }
}

impl vstd::std_specs::convert::FromSpecImpl<FastPrng<u32>> for FastPrng<i32> {
    open spec fn obeys_from_spec() -> bool {
        true
    }

    closed spec fn from_spec(value: FastPrng<u32>) -> Self {
        FastPrng { state: value.state as i32 }
    }
}

impl From<FastPrng<i32>> for FastPrng<u32> {
    /// The same bits, read as an unsigned number.
    fn from(value: FastPrng<i32>) -> (prng: Self)
        ensures
            prng@ == value@ as u32,
    {
        FastPrng::<u32> { state: #[verifier::truncate]
        (value.state as u32) }
    }
}

impl vstd::std_specs::convert::FromSpecImpl<FastPrng<i32>> for FastPrng<u32> {
    open spec fn obeys_from_spec() -> bool {
        true
    }

    closed spec fn from_spec(value: FastPrng<i32>) -> Self {
        FastPrng { state: value.state as u32 }
    }
}

impl From<FastPrng<u64>> for FastPrng<i64> {
    /// The same bits, read as a signed number.
    fn from(value: FastPrng<u64>) -> (prng: Self)
        ensures
            prng@ == value@ as i64,
    {
        FastPrng::<i64> { state: #[verifier::truncate]
        (value.state as i64) }
    }
}

impl vstd::std_specs::convert::FromSpecImpl<FastPrng<u64>> for FastPrng<i64> {
    open spec fn obeys_from_spec() -> bool {
        true
    }

    closed spec fn from_spec(value: FastPrng<u64>) -> Self {
        FastPrng { state: value.state as i64 }
    }
}

impl From<FastPrng<i64>> for FastPrng<u64> {
    /// The same bits, read as an unsigned number.
    fn from(value: FastPrng<i64>) -> (prng: Self)
        ensures
            prng@ == value@ as u64,
    {
        FastPrng::<u64> { state: #[verifier::truncate]
        (value.state as u64) }
    }
}

impl vstd::std_specs::convert::FromSpecImpl<FastPrng<i64>> for FastPrng<u64> {
    open spec fn obeys_from_spec() -> bool {
        true
    }

    closed spec fn from_spec(value: FastPrng<i64>) -> Self {
        FastPrng { state: value.state as u64 }
    }
}

/// The number that the signed 32-bit draw `drawn` is scaled to for
/// `first..past`. A negative draw lands below `first`.
pub open spec fn scaled_i32(drawn: i32, first: int, past: int) -> int {
    first + (drawn * (past - first)) / 0x1_0000_0000
}

/// The number that the signed 64-bit draw `drawn` is scaled to for
/// `first..past`.
pub open spec fn scaled_i64(drawn: i64, first: int, past: int) -> int {
    first + (drawn * (past - first)) / 0x1_0000_0000
}

impl RangeIterator<(Bound<i32>, Bound<i32>)> for FastPrng<i32> {
    type Item = i32;

    /// Both ends of the range, its width and the result must be `i32`
    /// numbers.
    open spec fn admits(&self, range: (Bound<i32>, Bound<i32>)) -> bool {
        let first = first_i32(range.0);
        let past = past_i32(range.1);
        let drawn = spec_xorshift32(self@ as u32) as i32;
        &&& first <= i32::MAX
        &&& past <= i32::MAX
        &&& i32::MIN <= past - first <= i32::MAX
        &&& i32::MIN <= scaled_i32(drawn, first, past) <= i32::MAX
    }

    /// Draws the next value, multiplies it by the width of `range`, drops
    /// the low 32 bits and adds the start of the range.
    fn next_in(&mut self, range: (Bound<i32>, Bound<i32>)) -> (picked: i32)
        ensures
            final(self)@ == spec_xorshift32(old(self)@ as u32) as i32,
            picked == scaled_i32(final(self)@, first_i32(range.0), past_i32(range.1)),
    {
        let (start, end) = prng_bounds_i32(range);
        let drawn: i32 = self.next();
        let width: i32 = end - start;
        proof {
            assert(-0x4000_0000_0000_0000 <= drawn * width <= 0x4000_0000_0000_0000)
                by (nonlinear_arith)
                requires
                    -0x8000_0000 <= drawn <= 0x7fff_ffff,
                    -0x8000_0000 <= width <= 0x7fff_ffff,
            ;
        }
        let product: i64 = (drawn as i64) * (width as i64);
        let offset: i64 = product >> 32;
        proof {
            assert(offset == product / 0x1_0000_0000) by (bit_vector)
                requires
                    offset == product >> 32,
            ;
        }
        (offset as i32) + start
    }
}

impl RangeIterator<(Bound<i64>, Bound<i64>)> for FastPrng<i64> {
    type Item = i64;

    /// Both ends of the range, its width, the next draw times the width,
    /// and the result must be `i64` numbers.
    open spec fn admits(&self, range: (Bound<i64>, Bound<i64>)) -> bool {
        let first = first_i64(range.0);
        let past = past_i64(range.1);
        let drawn = spec_xorshift64(self@ as u64) as i64;
        &&& first <= i64::MAX
        &&& past <= i64::MAX
        &&& i64::MIN <= past - first <= i64::MAX
        &&& i64::MIN <= drawn * (past - first) <= i64::MAX
        &&& i64::MIN <= scaled_i64(drawn, first, past) <= i64::MAX
    }

    /// Draws the next value, multiplies it by the width of `range`, drops
    /// the low 32 bits and adds the start of the range.
    fn next_in(&mut self, range: (Bound<i64>, Bound<i64>)) -> (picked: i64)
        ensures
            final(self)@ == spec_xorshift64(old(self)@ as u64) as i64,
            picked == scaled_i64(final(self)@, first_i64(range.0), past_i64(range.1)),
    {
        let (start, end) = prng_bounds_i64(range);
        let drawn: i64 = self.next();
        let product: i64 = drawn * (end - start);
        let offset: i64 = product >> 32;
        proof {
            assert(offset == product / 0x1_0000_0000) by (bit_vector)
                requires
                    offset == product >> 32,
            ;
        }
        offset + start
    }
}

} // verus!
