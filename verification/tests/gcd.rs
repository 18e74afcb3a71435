use dactyl::gcd::{gcd_i128, gcd_i64, gcd_u128, gcd_u64};

#[test]
fn gcd_values() {
    assert_eq!(gcd_u64(12, 18), Some(6));
    assert_eq!(gcd_u64(7, 13), None);
    assert_eq!(gcd_u64(0, 0), None);
    assert_eq!(gcd_u64(0, 9), Some(9));
    assert_eq!(gcd_u64(9, 0), Some(9));
    assert_eq!(gcd_u64(1, 0), None);
    assert_eq!(gcd_u64(u64::MAX, u64::MAX), Some(u64::MAX));
    assert_eq!(gcd_u128(1 << 100, 1 << 64), Some(1 << 64));
    assert_eq!(gcd_u128(9_223_372_036_854_775_807, 27_670_116_110_564_327_421), Some(9_223_372_036_854_775_807));
    assert_eq!(gcd_i64(-12, 18), Some(6));
    assert_eq!(gcd_i64(i64::MIN, 6), Some(2));
    assert_eq!(gcd_i64(-7, 0), Some(7));
    assert_eq!(gcd_i64(-1, 5), None);
    assert_eq!(gcd_i128(i128::MIN, -(1 << 100)), Some(1 << 100));
    assert_eq!(gcd_i128(-15, 25), Some(5));
}
