use point_distance::isqrt::isqrt;

#[test]
fn isqrt_small_values() {
    assert_eq!(isqrt(0), 0);
    assert_eq!(isqrt(1), 1);
    assert_eq!(isqrt(2), 1);
    assert_eq!(isqrt(3), 1);
    assert_eq!(isqrt(4), 2);
    assert_eq!(isqrt(8), 2);
    assert_eq!(isqrt(9), 3);
}

#[test]
fn isqrt_around_perfect_squares() {
    assert_eq!(isqrt(24), 4);
    assert_eq!(isqrt(25), 5);
    assert_eq!(isqrt(26), 5);
    assert_eq!(isqrt(10_000), 100);
    assert_eq!(isqrt(10_001), 100);
    assert_eq!(isqrt(9_999), 99);
}

#[test]
fn isqrt_extremes() {
    assert_eq!(isqrt(u128::MAX), u64::MAX as u128);
    assert_eq!(
        isqrt((u64::MAX as u128) * (u64::MAX as u128)),
        u64::MAX as u128
    );
    assert_eq!(isqrt(1u128 << 127), 13043817825332782212);
}
