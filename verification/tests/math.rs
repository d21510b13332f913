use rubycave::math::{
    prng_bounds_i32, prng_bounds_i64, prng_bounds_u32, prng_bounds_u64, xorshift32, xorshift64,
    Bound, FastPrng,
};
use rubycave::{InfiniteIterator, RangeIterator};

#[test]
fn xorshift32_of_known_states() {
    assert_eq!(xorshift32(1), 270369);
    assert_eq!(xorshift32(0), 0);
    assert_eq!(xorshift32(2463534242), 723471715);
    assert_eq!(xorshift32(u32::MAX), 253983);
    assert_eq!(xorshift32(12345), 3336926330);
}

#[test]
fn xorshift64_of_known_states() {
    assert_eq!(xorshift64(1), 1082269761);
    assert_eq!(xorshift64(0), 0);
    assert_eq!(xorshift64(88172645463325252), 8748534153485358512);
    assert_eq!(xorshift64(u64::MAX), 1065361344);
}

#[test]
fn xorshift_never_reaches_zero_from_elsewhere() {
    let mut short: u32 = 1;
    let mut long: u64 = 1;
    for _ in 0..10_000 {
        short = xorshift32(short);
        long = xorshift64(long);
        assert_ne!(short, 0);
        assert_ne!(long, 0);
    }
}

#[test]
fn bounds_of_a_range() {
    assert_eq!(prng_bounds_u32((Bound::Included(0), Bound::Included(9999))), (0, 10000));
    assert_eq!(prng_bounds_u32((Bound::Excluded(4), Bound::Excluded(9))), (5, 9));
    assert_eq!(prng_bounds_u32((Bound::Unbounded, Bound::Unbounded)), (0, u32::MAX));
    assert_eq!(prng_bounds_u64((Bound::Included(7), Bound::Unbounded)), (7, u64::MAX));
    assert_eq!(prng_bounds_u64((Bound::Excluded(7), Bound::Included(8))), (8, 9));
    assert_eq!(prng_bounds_i32((Bound::Unbounded, Bound::Included(-1))), (i32::MIN, 0));
    assert_eq!(prng_bounds_i32((Bound::Excluded(-3), Bound::Unbounded)), (-2, i32::MAX));
    assert_eq!(prng_bounds_i64((Bound::Unbounded, Bound::Unbounded)), (i64::MIN, i64::MAX));
    assert_eq!(prng_bounds_i64((Bound::Included(-5), Bound::Excluded(5))), (-5, 5));
}

#[test]
fn next_advances_the_state() {
    let mut prng = FastPrng::<u32>::new(12345);
    assert_eq!(prng.next(), 3336926330);
    assert_eq!(prng.next(), 1697253807);
    let mut prng = FastPrng::<u64>::new(1);
    assert_eq!(prng.next(), 1082269761);
    assert_eq!(prng.next(), xorshift64(1082269761));
}

#[test]
fn signed_next_works_on_the_bits() {
    let mut prng = FastPrng::<i32>::new(-5);
    assert_eq!(prng.next(), 1269915);
    let mut prng = FastPrng::<i32>::new(i32::MIN);
    assert_eq!(prng.next(), -2146942976);
    let mut prng = FastPrng::<i64>::new(-1);
    assert_eq!(prng.next(), 1065361344);
    let mut prng = FastPrng::<i64>::new(i64::MIN);
    assert_eq!(prng.next(), -9151314442816847872);
}

#[test]
fn next_in_scales_into_the_range() {
    let mut prng = FastPrng::<u32>::new(12345);
    assert_eq!(prng.next_in((Bound::Included(0), Bound::Included(9999))), 7769);
    assert_eq!(prng.next_in((Bound::Included(0), Bound::Included(9999))), 3951);
    let mut prng = FastPrng::<u32>::new(12345);
    assert_eq!(prng.next_in((Bound::Included(100), Bound::Excluded(200))), 177);
}

#[test]
fn next_in_stays_in_a_small_range() {
    let mut prng = FastPrng::<u32>::new(2463534242);
    for _ in 0..10_000 {
        let picked = prng.next_in((Bound::Excluded(9), Bound::Included(12)));
        assert!((10..=12).contains(&picked));
    }
    let mut prng = FastPrng::<u32>::new(1);
    for _ in 0..100 {
        assert_eq!(prng.next_in((Bound::Included(5), Bound::Excluded(5))), 5);
    }
}

#[test]
fn next_in_of_the_wide_and_signed_generators() {
    let mut prng = FastPrng::<u64>::new(1);
    assert_eq!(prng.next_in((Bound::Included(0), Bound::Excluded(4))), 1);
    let mut prng = FastPrng::<i64>::new(1);
    assert_eq!(prng.next_in((Bound::Included(-2), Bound::Excluded(2))), -1);
    let mut prng = FastPrng::<i32>::new(7);
    assert_eq!(prng.next_in((Bound::Included(-10), Bound::Excluded(10))), -10);
    let mut prng = FastPrng::<i32>::new(i32::MIN);
    assert_eq!(prng.next_in((Bound::Included(0), Bound::Excluded(100))), -50);
}

#[test]
fn conversions_keep_the_bits() {
    let mut signed = FastPrng::<i32>::from(FastPrng::<u32>::new(u32::MAX));
    let mut unsigned = FastPrng::<u32>::new(u32::MAX);
    assert_eq!(signed.next() as u32, unsigned.next());
    let mut back = FastPrng::<u32>::from(FastPrng::<i32>::new(-1));
    assert_eq!(back.next(), 253983);
    let mut wide = FastPrng::<i64>::from(FastPrng::<u64>::new(u64::MAX));
    assert_eq!(wide.next(), 1065361344);
    let mut wide_back = FastPrng::<u64>::from(FastPrng::<i64>::new(-1));
    assert_eq!(wide_back.next(), 1065361344);
}

#[test]
fn default_generators_start_from_zero() {
    assert_eq!(FastPrng::<u32>::default().next(), 0);
    assert_eq!(FastPrng::<i32>::default().next(), 0);
    assert_eq!(FastPrng::<u64>::default().next(), 0);
    assert_eq!(FastPrng::<i64>::default().next(), 0);
}
