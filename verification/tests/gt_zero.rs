use dactyl::traits::GtZero;
use dactyl::GreaterThanZero;

#[test]
fn t_zeroness() {
    assert!(!GreaterThanZero::from(u8::MIN).is_gt_zero());
    assert!(GreaterThanZero::from(u8::MAX).is_gt_zero());
    assert!(!GreaterThanZero::from(u16::MIN).is_gt_zero());
    assert!(GreaterThanZero::from(u16::MAX).is_gt_zero());
    assert!(!GreaterThanZero::from(u32::MIN).is_gt_zero());
    assert!(GreaterThanZero::from(u32::MAX).is_gt_zero());
    assert!(!GreaterThanZero::from(u64::MIN).is_gt_zero());
    assert!(GreaterThanZero::from(u64::MAX).is_gt_zero());
    assert!(!GreaterThanZero::from(u128::MIN).is_gt_zero());
    assert!(GreaterThanZero::from(u128::MAX).is_gt_zero());
    assert!(!GreaterThanZero::from(usize::MIN).is_gt_zero());
    assert!(GreaterThanZero::from(usize::MAX).is_gt_zero());
    assert!(!GreaterThanZero::from(i8::MIN).is_gt_zero());
    assert!(GreaterThanZero::from(i8::MAX).is_gt_zero());
    assert!(!GreaterThanZero::from(i16::MIN).is_gt_zero());
    assert!(GreaterThanZero::from(i16::MAX).is_gt_zero());
    assert!(!GreaterThanZero::from(i32::MIN).is_gt_zero());
    assert!(GreaterThanZero::from(i32::MAX).is_gt_zero());
    assert!(!GreaterThanZero::from(i64::MIN).is_gt_zero());
    assert!(GreaterThanZero::from(i64::MAX).is_gt_zero());
    assert!(!GreaterThanZero::from(i128::MIN).is_gt_zero());
    assert!(GreaterThanZero::from(i128::MAX).is_gt_zero());
    assert!(!GreaterThanZero::from(isize::MIN).is_gt_zero());
    assert!(GreaterThanZero::from(isize::MAX).is_gt_zero());
}

#[test]
fn t_ops() {
    assert_eq!(GreaterThanZero::from(2_u32) + GreaterThanZero::from(3_u32), GreaterThanZero::from(5_u32));
    assert_eq!(GreaterThanZero::from(3_u32) - GreaterThanZero::from(2_u32), GreaterThanZero::from(1_u32));
    assert_eq!(GreaterThanZero::from(2_u32) * GreaterThanZero::from(3_u32), GreaterThanZero::from(6_u32));
    assert_eq!(GreaterThanZero::from(6_u32) / GreaterThanZero::from(3_u32), GreaterThanZero::from(2_u32));
    assert_eq!(GreaterThanZero::from(10_u32) % GreaterThanZero::from(3_u32), GreaterThanZero::from(1_u32));
}

#[test]
fn gt_zero_option_like() {
    // Filter is not applied to a value at or below zero.
    assert_eq!(GreaterThanZero::from(-3_isize).filter(|x| x != 4), GreaterThanZero::from(-3_isize));
    // Filter applied and fails, zeroing the value.
    assert_eq!(GreaterThanZero::from(4_u8).filter(|x| x != 4), GreaterThanZero::from(0_u8));
    // Filter applied and passes.
    assert_eq!(GreaterThanZero::from(32_u32).filter(|x| x != 4), GreaterThanZero::from(32_u32));

    assert_eq!(GreaterThanZero::from(4_u8).map(|_| 8), GreaterThanZero::from(8_u8));
    assert_eq!(GreaterThanZero::from(0_u8).map(|_| 8), GreaterThanZero::from(0_u8));

    assert_eq!(GreaterThanZero::from(5_i32).get(), Some(5));
    assert_eq!(GreaterThanZero::from(-5_i32).get(), None);
    assert_eq!(GreaterThanZero::from(-5_i32).get_unchecked(), -5);
    assert_eq!(Option::<u16>::from(GreaterThanZero::from(9_u16)), Some(9));
    assert_eq!(Option::<u16>::from(GreaterThanZero::from(0_u16)), None);

    assert_eq!(GreaterThanZero::from(1_u8).zip(GreaterThanZero::from(2_i64)), Some((1_u8, 2_i64)));
    assert_eq!(GreaterThanZero::from(1_u8).zip(GreaterThanZero::from(0_i64)), None);

    let mut g = GreaterThanZero::from(0_u64);
    assert!(!g.is_gt_zero());
    g.replace(3);
    assert!(g.is_gt_zero());
    assert_eq!(GreaterThanZero::<i8>::default(), GreaterThanZero::from(0_i8));

    assert!(7_u8.is_gt_zero());
    assert!(!(-7_i8).is_gt_zero());
    assert_eq!(u32::gtzero_zero(), 0);
}

#[test]
fn gt_zero_ordering() {
    assert!(GreaterThanZero::from(2_u8) < GreaterThanZero::from(3_u8));
    assert!(GreaterThanZero::from(-2_i8) < GreaterThanZero::from(0_i8));
    assert_eq!(*GreaterThanZero::from(9_u16), 9);
    assert!(GreaterThanZero::from(9_u16) == 9_u16);
}

#[test]
fn gt_zero_from_holds_value() {
    assert_eq!(GreaterThanZero::from(4_u8).get_unchecked(), 4);
    assert_eq!(GreaterThanZero::from(-3_isize).get(), None);
    assert_eq!(GreaterThanZero::from(4_u8).map(|_| 8), GreaterThanZero::from(8_u8));
    assert_eq!(GreaterThanZero::from(4_u8).map(|_| 0).get(), None);
    assert_eq!((GreaterThanZero::from(2_i32) - GreaterThanZero::from(5_i32)).get_unchecked(), -3);
}
