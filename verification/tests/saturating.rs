use dactyl::traits::SaturatingFrom;

#[test]
fn t_minmax() {
    assert_eq!(i8::MIN, -128);
    assert_eq!(i8::MAX, 127);
    assert_eq!(i16::MIN, -32768);
    assert_eq!(i16::MAX, 32767);
    assert_eq!(i32::MIN, -2147483648);
    assert_eq!(i32::MAX, 2147483647);
    assert_eq!(i64::MIN, -9223372036854775808);
    assert_eq!(i64::MAX, 9223372036854775807);
    assert_eq!(i128::MIN, -170141183460469231731687303715884105728);
    assert_eq!(i128::MAX, 170141183460469231731687303715884105727);
    assert_eq!(isize::MIN, -9223372036854775808);
    assert_eq!(isize::MAX, 9223372036854775807);
    assert_eq!(u8::MIN, 0);
    assert_eq!(u8::MAX, 255);
    assert_eq!(u16::MIN, 0);
    assert_eq!(u16::MAX, 65535);
    assert_eq!(u32::MIN, 0);
    assert_eq!(u32::MAX, 4294967295);
    assert_eq!(u64::MIN, 0);
    assert_eq!(u64::MAX, 18446744073709551615);
    assert_eq!(u128::MIN, 0);
    assert_eq!(u128::MAX, 340282366920938463463374607431768211455);
    assert_eq!(usize::MIN, 0);
    assert_eq!(usize::MAX, 18446744073709551615);
}

#[test]
fn t_zero() {
    assert_eq!(<u8>::saturating_from(0_u8), 0);
    assert_eq!(<u8>::saturating_from(0_u16), 0);
    assert_eq!(<u8>::saturating_from(0_u32), 0);
    assert_eq!(<u8>::saturating_from(0_u64), 0);
    assert_eq!(<u8>::saturating_from(0_u128), 0);
    assert_eq!(<u8>::saturating_from(0_usize), 0);
    assert_eq!(<u8>::saturating_from(0_i8), 0);
    assert_eq!(<u8>::saturating_from(0_i16), 0);
    assert_eq!(<u8>::saturating_from(0_i32), 0);
    assert_eq!(<u8>::saturating_from(0_i64), 0);
    assert_eq!(<u8>::saturating_from(0_i128), 0);
    assert_eq!(<u8>::saturating_from(0_isize), 0);
    assert_eq!(<u16>::saturating_from(0_u8), 0);
    assert_eq!(<u16>::saturating_from(0_u16), 0);
    assert_eq!(<u16>::saturating_from(0_u32), 0);
    assert_eq!(<u16>::saturating_from(0_u64), 0);
    assert_eq!(<u16>::saturating_from(0_u128), 0);
    assert_eq!(<u16>::saturating_from(0_usize), 0);
    assert_eq!(<u16>::saturating_from(0_i8), 0);
    assert_eq!(<u16>::saturating_from(0_i16), 0);
    assert_eq!(<u16>::saturating_from(0_i32), 0);
    assert_eq!(<u16>::saturating_from(0_i64), 0);
    assert_eq!(<u16>::saturating_from(0_i128), 0);
    assert_eq!(<u16>::saturating_from(0_isize), 0);
    assert_eq!(<u32>::saturating_from(0_u8), 0);
    assert_eq!(<u32>::saturating_from(0_u16), 0);
    assert_eq!(<u32>::saturating_from(0_u32), 0);
    assert_eq!(<u32>::saturating_from(0_u64), 0);
    assert_eq!(<u32>::saturating_from(0_u128), 0);
    assert_eq!(<u32>::saturating_from(0_usize), 0);
    assert_eq!(<u32>::saturating_from(0_i8), 0);
    assert_eq!(<u32>::saturating_from(0_i16), 0);
    assert_eq!(<u32>::saturating_from(0_i32), 0);
    assert_eq!(<u32>::saturating_from(0_i64), 0);
    assert_eq!(<u32>::saturating_from(0_i128), 0);
    assert_eq!(<u32>::saturating_from(0_isize), 0);
    assert_eq!(<u64>::saturating_from(0_u8), 0);
    assert_eq!(<u64>::saturating_from(0_u16), 0);
    assert_eq!(<u64>::saturating_from(0_u32), 0);
    assert_eq!(<u64>::saturating_from(0_u64), 0);
    assert_eq!(<u64>::saturating_from(0_u128), 0);
    assert_eq!(<u64>::saturating_from(0_usize), 0);
    assert_eq!(<u64>::saturating_from(0_i8), 0);
    assert_eq!(<u64>::saturating_from(0_i16), 0);
    assert_eq!(<u64>::saturating_from(0_i32), 0);
    assert_eq!(<u64>::saturating_from(0_i64), 0);
    assert_eq!(<u64>::saturating_from(0_i128), 0);
    assert_eq!(<u64>::saturating_from(0_isize), 0);
    assert_eq!(<u128>::saturating_from(0_u8), 0);
    assert_eq!(<u128>::saturating_from(0_u16), 0);
    assert_eq!(<u128>::saturating_from(0_u32), 0);
    assert_eq!(<u128>::saturating_from(0_u64), 0);
    assert_eq!(<u128>::saturating_from(0_u128), 0);
    assert_eq!(<u128>::saturating_from(0_usize), 0);
    assert_eq!(<u128>::saturating_from(0_i8), 0);
    assert_eq!(<u128>::saturating_from(0_i16), 0);
    assert_eq!(<u128>::saturating_from(0_i32), 0);
    assert_eq!(<u128>::saturating_from(0_i64), 0);
    assert_eq!(<u128>::saturating_from(0_i128), 0);
    assert_eq!(<u128>::saturating_from(0_isize), 0);
    assert_eq!(<usize>::saturating_from(0_u8), 0);
    assert_eq!(<usize>::saturating_from(0_u16), 0);
    assert_eq!(<usize>::saturating_from(0_u32), 0);
    assert_eq!(<usize>::saturating_from(0_u64), 0);
    assert_eq!(<usize>::saturating_from(0_u128), 0);
    assert_eq!(<usize>::saturating_from(0_usize), 0);
    assert_eq!(<usize>::saturating_from(0_i8), 0);
    assert_eq!(<usize>::saturating_from(0_i16), 0);
    assert_eq!(<usize>::saturating_from(0_i32), 0);
    assert_eq!(<usize>::saturating_from(0_i64), 0);
    assert_eq!(<usize>::saturating_from(0_i128), 0);
    assert_eq!(<usize>::saturating_from(0_isize), 0);
    assert_eq!(<i8>::saturating_from(0_u8), 0);
    assert_eq!(<i8>::saturating_from(0_u16), 0);
    assert_eq!(<i8>::saturating_from(0_u32), 0);
    assert_eq!(<i8>::saturating_from(0_u64), 0);
    assert_eq!(<i8>::saturating_from(0_u128), 0);
    assert_eq!(<i8>::saturating_from(0_usize), 0);
    assert_eq!(<i8>::saturating_from(0_i8), 0);
    assert_eq!(<i8>::saturating_from(0_i16), 0);
    assert_eq!(<i8>::saturating_from(0_i32), 0);
    assert_eq!(<i8>::saturating_from(0_i64), 0);
    assert_eq!(<i8>::saturating_from(0_i128), 0);
    assert_eq!(<i8>::saturating_from(0_isize), 0);
    assert_eq!(<i16>::saturating_from(0_u8), 0);
    assert_eq!(<i16>::saturating_from(0_u16), 0);
    assert_eq!(<i16>::saturating_from(0_u32), 0);
    assert_eq!(<i16>::saturating_from(0_u64), 0);
    assert_eq!(<i16>::saturating_from(0_u128), 0);
    assert_eq!(<i16>::saturating_from(0_usize), 0);
    assert_eq!(<i16>::saturating_from(0_i8), 0);
    assert_eq!(<i16>::saturating_from(0_i16), 0);
    assert_eq!(<i16>::saturating_from(0_i32), 0);
    assert_eq!(<i16>::saturating_from(0_i64), 0);
    assert_eq!(<i16>::saturating_from(0_i128), 0);
    assert_eq!(<i16>::saturating_from(0_isize), 0);
    assert_eq!(<i32>::saturating_from(0_u8), 0);
    assert_eq!(<i32>::saturating_from(0_u16), 0);
    assert_eq!(<i32>::saturating_from(0_u32), 0);
    assert_eq!(<i32>::saturating_from(0_u64), 0);
    assert_eq!(<i32>::saturating_from(0_u128), 0);
    assert_eq!(<i32>::saturating_from(0_usize), 0);
    assert_eq!(<i32>::saturating_from(0_i8), 0);
    assert_eq!(<i32>::saturating_from(0_i16), 0);
    assert_eq!(<i32>::saturating_from(0_i32), 0);
    assert_eq!(<i32>::saturating_from(0_i64), 0);
    assert_eq!(<i32>::saturating_from(0_i128), 0);
    assert_eq!(<i32>::saturating_from(0_isize), 0);
    assert_eq!(<i64>::saturating_from(0_u8), 0);
    assert_eq!(<i64>::saturating_from(0_u16), 0);
    assert_eq!(<i64>::saturating_from(0_u32), 0);
    assert_eq!(<i64>::saturating_from(0_u64), 0);
    assert_eq!(<i64>::saturating_from(0_u128), 0);
    assert_eq!(<i64>::saturating_from(0_usize), 0);
    assert_eq!(<i64>::saturating_from(0_i8), 0);
    assert_eq!(<i64>::saturating_from(0_i16), 0);
    assert_eq!(<i64>::saturating_from(0_i32), 0);
    assert_eq!(<i64>::saturating_from(0_i64), 0);
    assert_eq!(<i64>::saturating_from(0_i128), 0);
    assert_eq!(<i64>::saturating_from(0_isize), 0);
    assert_eq!(<i128>::saturating_from(0_u8), 0);
    assert_eq!(<i128>::saturating_from(0_u16), 0);
    assert_eq!(<i128>::saturating_from(0_u32), 0);
    assert_eq!(<i128>::saturating_from(0_u64), 0);
    assert_eq!(<i128>::saturating_from(0_u128), 0);
    assert_eq!(<i128>::saturating_from(0_usize), 0);
    assert_eq!(<i128>::saturating_from(0_i8), 0);
    assert_eq!(<i128>::saturating_from(0_i16), 0);
    assert_eq!(<i128>::saturating_from(0_i32), 0);
    assert_eq!(<i128>::saturating_from(0_i64), 0);
    assert_eq!(<i128>::saturating_from(0_i128), 0);
    assert_eq!(<i128>::saturating_from(0_isize), 0);
    assert_eq!(<isize>::saturating_from(0_u8), 0);
    assert_eq!(<isize>::saturating_from(0_u16), 0);
    assert_eq!(<isize>::saturating_from(0_u32), 0);
    assert_eq!(<isize>::saturating_from(0_u64), 0);
    assert_eq!(<isize>::saturating_from(0_u128), 0);
    assert_eq!(<isize>::saturating_from(0_usize), 0);
    assert_eq!(<isize>::saturating_from(0_i8), 0);
    assert_eq!(<isize>::saturating_from(0_i16), 0);
    assert_eq!(<isize>::saturating_from(0_i32), 0);
    assert_eq!(<isize>::saturating_from(0_i64), 0);
    assert_eq!(<isize>::saturating_from(0_i128), 0);
    assert_eq!(<isize>::saturating_from(0_isize), 0);
}

#[test]
fn t_min() {
    assert_eq!(<u16>::saturating_from(<u32>::MIN), <u16>::MIN, "MIN saturation failed for u32 to u16");
    assert_eq!(<u32>::saturating_from(<u16>::MIN), 0, "MIN saturation failed for u16 to u32");
    assert_eq!(<u16>::saturating_from(<u64>::MIN), <u16>::MIN, "MIN saturation failed for u64 to u16");
    assert_eq!(<u64>::saturating_from(<u16>::MIN), 0, "MIN saturation failed for u16 to u64");
    assert_eq!(<u16>::saturating_from(<usize>::MIN), <u16>::MIN, "MIN saturation failed for usize to u16");
    assert_eq!(<usize>::saturating_from(<u16>::MIN), 0, "MIN saturation failed for u16 to usize");
    assert_eq!(<u16>::saturating_from(<u128>::MIN), <u16>::MIN, "MIN saturation failed for u128 to u16");
    assert_eq!(<u128>::saturating_from(<u16>::MIN), 0, "MIN saturation failed for u16 to u128");
    assert_eq!(<u16>::saturating_from(<i8>::MIN), <u16>::MIN, "MIN saturation failed for i8 to u16");
    assert_eq!(<i8>::saturating_from(<u16>::MIN), 0, "MIN saturation failed for u16 to i8");
    assert_eq!(<u16>::saturating_from(<i16>::MIN), <u16>::MIN, "MIN saturation failed for i16 to u16");
    assert_eq!(<i16>::saturating_from(<u16>::MIN), 0, "MIN saturation failed for u16 to i16");
    assert_eq!(<u16>::saturating_from(<i32>::MIN), <u16>::MIN, "MIN saturation failed for i32 to u16");
    assert_eq!(<i32>::saturating_from(<u16>::MIN), 0, "MIN saturation failed for u16 to i32");
    assert_eq!(<u16>::saturating_from(<i64>::MIN), <u16>::MIN, "MIN saturation failed for i64 to u16");
    assert_eq!(<i64>::saturating_from(<u16>::MIN), 0, "MIN saturation failed for u16 to i64");
    assert_eq!(<u16>::saturating_from(<isize>::MIN), <u16>::MIN, "MIN saturation failed for isize to u16");
    assert_eq!(<isize>::saturating_from(<u16>::MIN), 0, "MIN saturation failed for u16 to isize");
    assert_eq!(<u16>::saturating_from(<i128>::MIN), <u16>::MIN, "MIN saturation failed for i128 to u16");
    assert_eq!(<i128>::saturating_from(<u16>::MIN), 0, "MIN saturation failed for u16 to i128");
    assert_eq!(<u32>::saturating_from(<u64>::MIN), <u32>::MIN, "MIN saturation failed for u64 to u32");
    assert_eq!(<u64>::saturating_from(<u32>::MIN), 0, "MIN saturation failed for u32 to u64");
    assert_eq!(<u32>::saturating_from(<usize>::MIN), <u32>::MIN, "MIN saturation failed for usize to u32");
    assert_eq!(<usize>::saturating_from(<u32>::MIN), 0, "MIN saturation failed for u32 to usize");
    assert_eq!(<u32>::saturating_from(<u128>::MIN), <u32>::MIN, "MIN saturation failed for u128 to u32");
    assert_eq!(<u128>::saturating_from(<u32>::MIN), 0, "MIN saturation failed for u32 to u128");
    assert_eq!(<u32>::saturating_from(<i8>::MIN), <u32>::MIN, "MIN saturation failed for i8 to u32");
    assert_eq!(<i8>::saturating_from(<u32>::MIN), 0, "MIN saturation failed for u32 to i8");
    assert_eq!(<u32>::saturating_from(<i16>::MIN), <u32>::MIN, "MIN saturation failed for i16 to u32");
    assert_eq!(<i16>::saturating_from(<u32>::MIN), 0, "MIN saturation failed for u32 to i16");
    assert_eq!(<u32>::saturating_from(<i32>::MIN), <u32>::MIN, "MIN saturation failed for i32 to u32");
    assert_eq!(<i32>::saturating_from(<u32>::MIN), 0, "MIN saturation failed for u32 to i32");
    assert_eq!(<u32>::saturating_from(<i64>::MIN), <u32>::MIN, "MIN saturation failed for i64 to u32");
    assert_eq!(<i64>::saturating_from(<u32>::MIN), 0, "MIN saturation failed for u32 to i64");
    assert_eq!(<u32>::saturating_from(<isize>::MIN), <u32>::MIN, "MIN saturation failed for isize to u32");
    assert_eq!(<isize>::saturating_from(<u32>::MIN), 0, "MIN saturation failed for u32 to isize");
    assert_eq!(<u32>::saturating_from(<i128>::MIN), <u32>::MIN, "MIN saturation failed for i128 to u32");
    assert_eq!(<i128>::saturating_from(<u32>::MIN), 0, "MIN saturation failed for u32 to i128");
    assert_eq!(<u64>::saturating_from(<usize>::MIN), <u64>::MIN, "MIN saturation failed for usize to u64");
    assert_eq!(<usize>::saturating_from(<u64>::MIN), 0, "MIN saturation failed for u64 to usize");
    assert_eq!(<u64>::saturating_from(<u128>::MIN), <u64>::MIN, "MIN saturation failed for u128 to u64");
    assert_eq!(<u128>::saturating_from(<u64>::MIN), 0, "MIN saturation failed for u64 to u128");
    assert_eq!(<u64>::saturating_from(<i8>::MIN), <u64>::MIN, "MIN saturation failed for i8 to u64");
    assert_eq!(<i8>::saturating_from(<u64>::MIN), 0, "MIN saturation failed for u64 to i8");
    assert_eq!(<u64>::saturating_from(<i16>::MIN), <u64>::MIN, "MIN saturation failed for i16 to u64");
    assert_eq!(<i16>::saturating_from(<u64>::MIN), 0, "MIN saturation failed for u64 to i16");
    assert_eq!(<u64>::saturating_from(<i32>::MIN), <u64>::MIN, "MIN saturation failed for i32 to u64");
    assert_eq!(<i32>::saturating_from(<u64>::MIN), 0, "MIN saturation failed for u64 to i32");
    assert_eq!(<u64>::saturating_from(<i64>::MIN), <u64>::MIN, "MIN saturation failed for i64 to u64");
    assert_eq!(<i64>::saturating_from(<u64>::MIN), 0, "MIN saturation failed for u64 to i64");
    assert_eq!(<u64>::saturating_from(<isize>::MIN), <u64>::MIN, "MIN saturation failed for isize to u64");
    assert_eq!(<isize>::saturating_from(<u64>::MIN), 0, "MIN saturation failed for u64 to isize");
    assert_eq!(<u64>::saturating_from(<i128>::MIN), <u64>::MIN, "MIN saturation failed for i128 to u64");
    assert_eq!(<i128>::saturating_from(<u64>::MIN), 0, "MIN saturation failed for u64 to i128");
    assert_eq!(<usize>::saturating_from(<u128>::MIN), <usize>::MIN, "MIN saturation failed for u128 to usize");
    assert_eq!(<u128>::saturating_from(<usize>::MIN), 0, "MIN saturation failed for usize to u128");
    assert_eq!(<usize>::saturating_from(<i8>::MIN), <usize>::MIN, "MIN saturation failed for i8 to usize");
    assert_eq!(<i8>::saturating_from(<usize>::MIN), 0, "MIN saturation failed for usize to i8");
    assert_eq!(<usize>::saturating_from(<i16>::MIN), <usize>::MIN, "MIN saturation failed for i16 to usize");
    assert_eq!(<i16>::saturating_from(<usize>::MIN), 0, "MIN saturation failed for usize to i16");
    assert_eq!(<usize>::saturating_from(<i32>::MIN), <usize>::MIN, "MIN saturation failed for i32 to usize");
    assert_eq!(<i32>::saturating_from(<usize>::MIN), 0, "MIN saturation failed for usize to i32");
    assert_eq!(<usize>::saturating_from(<i64>::MIN), <usize>::MIN, "MIN saturation failed for i64 to usize");
    assert_eq!(<i64>::saturating_from(<usize>::MIN), 0, "MIN saturation failed for usize to i64");
    assert_eq!(<usize>::saturating_from(<isize>::MIN), <usize>::MIN, "MIN saturation failed for isize to usize");
    assert_eq!(<isize>::saturating_from(<usize>::MIN), 0, "MIN saturation failed for usize to isize");
    assert_eq!(<usize>::saturating_from(<i128>::MIN), <usize>::MIN, "MIN saturation failed for i128 to usize");
    assert_eq!(<i128>::saturating_from(<usize>::MIN), 0, "MIN saturation failed for usize to i128");
    assert_eq!(<u128>::saturating_from(<i8>::MIN), <u128>::MIN, "MIN saturation failed for i8 to u128");
    assert_eq!(<i8>::saturating_from(<u128>::MIN), 0, "MIN saturation failed for u128 to i8");
    assert_eq!(<u128>::saturating_from(<i16>::MIN), <u128>::MIN, "MIN saturation failed for i16 to u128");
    assert_eq!(<i16>::saturating_from(<u128>::MIN), 0, "MIN saturation failed for u128 to i16");
    assert_eq!(<u128>::saturating_from(<i32>::MIN), <u128>::MIN, "MIN saturation failed for i32 to u128");
    assert_eq!(<i32>::saturating_from(<u128>::MIN), 0, "MIN saturation failed for u128 to i32");
    assert_eq!(<u128>::saturating_from(<i64>::MIN), <u128>::MIN, "MIN saturation failed for i64 to u128");
    assert_eq!(<i64>::saturating_from(<u128>::MIN), 0, "MIN saturation failed for u128 to i64");
    assert_eq!(<u128>::saturating_from(<isize>::MIN), <u128>::MIN, "MIN saturation failed for isize to u128");
    assert_eq!(<isize>::saturating_from(<u128>::MIN), 0, "MIN saturation failed for u128 to isize");
    assert_eq!(<u128>::saturating_from(<i128>::MIN), <u128>::MIN, "MIN saturation failed for i128 to u128");
    assert_eq!(<i128>::saturating_from(<u128>::MIN), 0, "MIN saturation failed for u128 to i128");
    assert_eq!(<i8>::saturating_from(<i16>::MIN), <i8>::MIN, "MIN saturation failed for i16 to i8");
    assert_eq!(<i16>::saturating_from(<i8>::MIN), -128, "MIN saturation failed for i8 to i16");
    assert_eq!(<i8>::saturating_from(<i32>::MIN), <i8>::MIN, "MIN saturation failed for i32 to i8");
    assert_eq!(<i32>::saturating_from(<i8>::MIN), -128, "MIN saturation failed for i8 to i32");
    assert_eq!(<i8>::saturating_from(<i64>::MIN), <i8>::MIN, "MIN saturation failed for i64 to i8");
    assert_eq!(<i64>::saturating_from(<i8>::MIN), -128, "MIN saturation failed for i8 to i64");
    assert_eq!(<i8>::saturating_from(<isize>::MIN), <i8>::MIN, "MIN saturation failed for isize to i8");
    assert_eq!(<isize>::saturating_from(<i8>::MIN), -128, "MIN saturation failed for i8 to isize");
    assert_eq!(<i8>::saturating_from(<i128>::MIN), <i8>::MIN, "MIN saturation failed for i128 to i8");
    assert_eq!(<i128>::saturating_from(<i8>::MIN), -128, "MIN saturation failed for i8 to i128");
    assert_eq!(<i16>::saturating_from(<i32>::MIN), <i16>::MIN, "MIN saturation failed for i32 to i16");
    assert_eq!(<i32>::saturating_from(<i16>::MIN), -32768, "MIN saturation failed for i16 to i32");
    assert_eq!(<i16>::saturating_from(<i64>::MIN), <i16>::MIN, "MIN saturation failed for i64 to i16");
    assert_eq!(<i64>::saturating_from(<i16>::MIN), -32768, "MIN saturation failed for i16 to i64");
    assert_eq!(<i16>::saturating_from(<isize>::MIN), <i16>::MIN, "MIN saturation failed for isize to i16");
    assert_eq!(<isize>::saturating_from(<i16>::MIN), -32768, "MIN saturation failed for i16 to isize");
    assert_eq!(<i16>::saturating_from(<i128>::MIN), <i16>::MIN, "MIN saturation failed for i128 to i16");
    assert_eq!(<i128>::saturating_from(<i16>::MIN), -32768, "MIN saturation failed for i16 to i128");
    assert_eq!(<i32>::saturating_from(<i64>::MIN), <i32>::MIN, "MIN saturation failed for i64 to i32");
    assert_eq!(<i64>::saturating_from(<i32>::MIN), -2147483648, "MIN saturation failed for i32 to i64");
    assert_eq!(<i32>::saturating_from(<isize>::MIN), <i32>::MIN, "MIN saturation failed for isize to i32");
    assert_eq!(<isize>::saturating_from(<i32>::MIN), -2147483648, "MIN saturation failed for i32 to isize");
    assert_eq!(<i32>::saturating_from(<i128>::MIN), <i32>::MIN, "MIN saturation failed for i128 to i32");
    assert_eq!(<i128>::saturating_from(<i32>::MIN), -2147483648, "MIN saturation failed for i32 to i128");
    assert_eq!(<i64>::saturating_from(<isize>::MIN), <i64>::MIN, "MIN saturation failed for isize to i64");
    assert_eq!(<isize>::saturating_from(<i64>::MIN), -9223372036854775808, "MIN saturation failed for i64 to isize");
    assert_eq!(<i64>::saturating_from(<i128>::MIN), <i64>::MIN, "MIN saturation failed for i128 to i64");
    assert_eq!(<i128>::saturating_from(<i64>::MIN), -9223372036854775808, "MIN saturation failed for i64 to i128");
    assert_eq!(<isize>::saturating_from(<i128>::MIN), <isize>::MIN, "MIN saturation failed for i128 to isize");
    assert_eq!(<i128>::saturating_from(<isize>::MIN), -9223372036854775808, "MIN saturation failed for isize to i128");
    assert_eq!(<i128>::saturating_from(<i128>::MIN), <i128>::MIN, "MIN saturation failed for i128 to i128");
}

#[test]
fn t_max() {
    assert_eq!(<i8>::saturating_from(<u8>::MAX), <i8>::MAX, "MAX saturation failed for u8 to i8");
    assert_eq!(<u8>::saturating_from(<i8>::MAX), 127, "MAX saturation failed for i8 to u8");
    assert_eq!(<i8>::saturating_from(<i16>::MAX), <i8>::MAX, "MAX saturation failed for i16 to i8");
    assert_eq!(<i16>::saturating_from(<i8>::MAX), 127, "MAX saturation failed for i8 to i16");
    assert_eq!(<i8>::saturating_from(<u16>::MAX), <i8>::MAX, "MAX saturation failed for u16 to i8");
    assert_eq!(<u16>::saturating_from(<i8>::MAX), 127, "MAX saturation failed for i8 to u16");
    assert_eq!(<i8>::saturating_from(<i32>::MAX), <i8>::MAX, "MAX saturation failed for i32 to i8");
    assert_eq!(<i32>::saturating_from(<i8>::MAX), 127, "MAX saturation failed for i8 to i32");
    assert_eq!(<i8>::saturating_from(<u32>::MAX), <i8>::MAX, "MAX saturation failed for u32 to i8");
    assert_eq!(<u32>::saturating_from(<i8>::MAX), 127, "MAX saturation failed for i8 to u32");
    assert_eq!(<i8>::saturating_from(<i64>::MAX), <i8>::MAX, "MAX saturation failed for i64 to i8");
    assert_eq!(<i64>::saturating_from(<i8>::MAX), 127, "MAX saturation failed for i8 to i64");
    assert_eq!(<i8>::saturating_from(<isize>::MAX), <i8>::MAX, "MAX saturation failed for isize to i8");
    assert_eq!(<isize>::saturating_from(<i8>::MAX), 127, "MAX saturation failed for i8 to isize");
    assert_eq!(<i8>::saturating_from(<u64>::MAX), <i8>::MAX, "MAX saturation failed for u64 to i8");
    assert_eq!(<u64>::saturating_from(<i8>::MAX), 127, "MAX saturation failed for i8 to u64");
    assert_eq!(<i8>::saturating_from(<usize>::MAX), <i8>::MAX, "MAX saturation failed for usize to i8");
    assert_eq!(<usize>::saturating_from(<i8>::MAX), 127, "MAX saturation failed for i8 to usize");
    assert_eq!(<i8>::saturating_from(<i128>::MAX), <i8>::MAX, "MAX saturation failed for i128 to i8");
    assert_eq!(<i128>::saturating_from(<i8>::MAX), 127, "MAX saturation failed for i8 to i128");
    assert_eq!(<i8>::saturating_from(<u128>::MAX), <i8>::MAX, "MAX saturation failed for u128 to i8");
    assert_eq!(<u128>::saturating_from(<i8>::MAX), 127, "MAX saturation failed for i8 to u128");
    assert_eq!(<u8>::saturating_from(<i16>::MAX), <u8>::MAX, "MAX saturation failed for i16 to u8");
    assert_eq!(<i16>::saturating_from(<u8>::MAX), 255, "MAX saturation failed for u8 to i16");
    assert_eq!(<u8>::saturating_from(<u16>::MAX), <u8>::MAX, "MAX saturation failed for u16 to u8");
    assert_eq!(<u16>::saturating_from(<u8>::MAX), 255, "MAX saturation failed for u8 to u16");
    assert_eq!(<u8>::saturating_from(<i32>::MAX), <u8>::MAX, "MAX saturation failed for i32 to u8");
    assert_eq!(<i32>::saturating_from(<u8>::MAX), 255, "MAX saturation failed for u8 to i32");
    assert_eq!(<u8>::saturating_from(<u32>::MAX), <u8>::MAX, "MAX saturation failed for u32 to u8");
    assert_eq!(<u32>::saturating_from(<u8>::MAX), 255, "MAX saturation failed for u8 to u32");
    assert_eq!(<u8>::saturating_from(<i64>::MAX), <u8>::MAX, "MAX saturation failed for i64 to u8");
    assert_eq!(<i64>::saturating_from(<u8>::MAX), 255, "MAX saturation failed for u8 to i64");
    assert_eq!(<u8>::saturating_from(<isize>::MAX), <u8>::MAX, "MAX saturation failed for isize to u8");
    assert_eq!(<isize>::saturating_from(<u8>::MAX), 255, "MAX saturation failed for u8 to isize");
    assert_eq!(<u8>::saturating_from(<u64>::MAX), <u8>::MAX, "MAX saturation failed for u64 to u8");
    assert_eq!(<u64>::saturating_from(<u8>::MAX), 255, "MAX saturation failed for u8 to u64");
    assert_eq!(<u8>::saturating_from(<usize>::MAX), <u8>::MAX, "MAX saturation failed for usize to u8");
    assert_eq!(<usize>::saturating_from(<u8>::MAX), 255, "MAX saturation failed for u8 to usize");
    assert_eq!(<u8>::saturating_from(<i128>::MAX), <u8>::MAX, "MAX saturation failed for i128 to u8");
    assert_eq!(<i128>::saturating_from(<u8>::MAX), 255, "MAX saturation failed for u8 to i128");
    assert_eq!(<u8>::saturating_from(<u128>::MAX), <u8>::MAX, "MAX saturation failed for u128 to u8");
    assert_eq!(<u128>::saturating_from(<u8>::MAX), 255, "MAX saturation failed for u8 to u128");
    assert_eq!(<i16>::saturating_from(<u16>::MAX), <i16>::MAX, "MAX saturation failed for u16 to i16");
    assert_eq!(<u16>::saturating_from(<i16>::MAX), 32767, "MAX saturation failed for i16 to u16");
    assert_eq!(<i16>::saturating_from(<i32>::MAX), <i16>::MAX, "MAX saturation failed for i32 to i16");
    assert_eq!(<i32>::saturating_from(<i16>::MAX), 32767, "MAX saturation failed for i16 to i32");
    assert_eq!(<i16>::saturating_from(<u32>::MAX), <i16>::MAX, "MAX saturation failed for u32 to i16");
    assert_eq!(<u32>::saturating_from(<i16>::MAX), 32767, "MAX saturation failed for i16 to u32");
    assert_eq!(<i16>::saturating_from(<i64>::MAX), <i16>::MAX, "MAX saturation failed for i64 to i16");
    assert_eq!(<i64>::saturating_from(<i16>::MAX), 32767, "MAX saturation failed for i16 to i64");
    assert_eq!(<i16>::saturating_from(<isize>::MAX), <i16>::MAX, "MAX saturation failed for isize to i16");
    assert_eq!(<isize>::saturating_from(<i16>::MAX), 32767, "MAX saturation failed for i16 to isize");
    assert_eq!(<i16>::saturating_from(<u64>::MAX), <i16>::MAX, "MAX saturation failed for u64 to i16");
    assert_eq!(<u64>::saturating_from(<i16>::MAX), 32767, "MAX saturation failed for i16 to u64");
    assert_eq!(<i16>::saturating_from(<usize>::MAX), <i16>::MAX, "MAX saturation failed for usize to i16");
    assert_eq!(<usize>::saturating_from(<i16>::MAX), 32767, "MAX saturation failed for i16 to usize");
    assert_eq!(<i16>::saturating_from(<i128>::MAX), <i16>::MAX, "MAX saturation failed for i128 to i16");
    assert_eq!(<i128>::saturating_from(<i16>::MAX), 32767, "MAX saturation failed for i16 to i128");
    assert_eq!(<i16>::saturating_from(<u128>::MAX), <i16>::MAX, "MAX saturation failed for u128 to i16");
    assert_eq!(<u128>::saturating_from(<i16>::MAX), 32767, "MAX saturation failed for i16 to u128");
    assert_eq!(<u16>::saturating_from(<i32>::MAX), <u16>::MAX, "MAX saturation failed for i32 to u16");
    assert_eq!(<i32>::saturating_from(<u16>::MAX), 65535, "MAX saturation failed for u16 to i32");
    assert_eq!(<u16>::saturating_from(<u32>::MAX), <u16>::MAX, "MAX saturation failed for u32 to u16");
    assert_eq!(<u32>::saturating_from(<u16>::MAX), 65535, "MAX saturation failed for u16 to u32");
    assert_eq!(<u16>::saturating_from(<i64>::MAX), <u16>::MAX, "MAX saturation failed for i64 to u16");
    assert_eq!(<i64>::saturating_from(<u16>::MAX), 65535, "MAX saturation failed for u16 to i64");
    assert_eq!(<u16>::saturating_from(<isize>::MAX), <u16>::MAX, "MAX saturation failed for isize to u16");
    assert_eq!(<isize>::saturating_from(<u16>::MAX), 65535, "MAX saturation failed for u16 to isize");
    assert_eq!(<u16>::saturating_from(<u64>::MAX), <u16>::MAX, "MAX saturation failed for u64 to u16");
    assert_eq!(<u64>::saturating_from(<u16>::MAX), 65535, "MAX saturation failed for u16 to u64");
    assert_eq!(<u16>::saturating_from(<usize>::MAX), <u16>::MAX, "MAX saturation failed for usize to u16");
    assert_eq!(<usize>::saturating_from(<u16>::MAX), 65535, "MAX saturation failed for u16 to usize");
    assert_eq!(<u16>::saturating_from(<i128>::MAX), <u16>::MAX, "MAX saturation failed for i128 to u16");
    assert_eq!(<i128>::saturating_from(<u16>::MAX), 65535, "MAX saturation failed for u16 to i128");
    assert_eq!(<u16>::saturating_from(<u128>::MAX), <u16>::MAX, "MAX saturation failed for u128 to u16");
    assert_eq!(<u128>::saturating_from(<u16>::MAX), 65535, "MAX saturation failed for u16 to u128");
    assert_eq!(<i32>::saturating_from(<u32>::MAX), <i32>::MAX, "MAX saturation failed for u32 to i32");
    assert_eq!(<u32>::saturating_from(<i32>::MAX), 2147483647, "MAX saturation failed for i32 to u32");
    assert_eq!(<i32>::saturating_from(<i64>::MAX), <i32>::MAX, "MAX saturation failed for i64 to i32");
    assert_eq!(<i64>::saturating_from(<i32>::MAX), 2147483647, "MAX saturation failed for i32 to i64");
    assert_eq!(<i32>::saturating_from(<isize>::MAX), <i32>::MAX, "MAX saturation failed for isize to i32");
    assert_eq!(<isize>::saturating_from(<i32>::MAX), 2147483647, "MAX saturation failed for i32 to isize");
    assert_eq!(<i32>::saturating_from(<u64>::MAX), <i32>::MAX, "MAX saturation failed for u64 to i32");
    assert_eq!(<u64>::saturating_from(<i32>::MAX), 2147483647, "MAX saturation failed for i32 to u64");
    assert_eq!(<i32>::saturating_from(<usize>::MAX), <i32>::MAX, "MAX saturation failed for usize to i32");
    assert_eq!(<usize>::saturating_from(<i32>::MAX), 2147483647, "MAX saturation failed for i32 to usize");
    assert_eq!(<i32>::saturating_from(<i128>::MAX), <i32>::MAX, "MAX saturation failed for i128 to i32");
    assert_eq!(<i128>::saturating_from(<i32>::MAX), 2147483647, "MAX saturation failed for i32 to i128");
    assert_eq!(<i32>::saturating_from(<u128>::MAX), <i32>::MAX, "MAX saturation failed for u128 to i32");
    assert_eq!(<u128>::saturating_from(<i32>::MAX), 2147483647, "MAX saturation failed for i32 to u128");
    assert_eq!(<u32>::saturating_from(<i64>::MAX), <u32>::MAX, "MAX saturation failed for i64 to u32");
    assert_eq!(<i64>::saturating_from(<u32>::MAX), 4294967295, "MAX saturation failed for u32 to i64");
    assert_eq!(<u32>::saturating_from(<isize>::MAX), <u32>::MAX, "MAX saturation failed for isize to u32");
    assert_eq!(<isize>::saturating_from(<u32>::MAX), 4294967295, "MAX saturation failed for u32 to isize");
    assert_eq!(<u32>::saturating_from(<u64>::MAX), <u32>::MAX, "MAX saturation failed for u64 to u32");
    assert_eq!(<u64>::saturating_from(<u32>::MAX), 4294967295, "MAX saturation failed for u32 to u64");
    assert_eq!(<u32>::saturating_from(<usize>::MAX), <u32>::MAX, "MAX saturation failed for usize to u32");
    assert_eq!(<usize>::saturating_from(<u32>::MAX), 4294967295, "MAX saturation failed for u32 to usize");
    assert_eq!(<u32>::saturating_from(<i128>::MAX), <u32>::MAX, "MAX saturation failed for i128 to u32");
    assert_eq!(<i128>::saturating_from(<u32>::MAX), 4294967295, "MAX saturation failed for u32 to i128");
    assert_eq!(<u32>::saturating_from(<u128>::MAX), <u32>::MAX, "MAX saturation failed for u128 to u32");
    assert_eq!(<u128>::saturating_from(<u32>::MAX), 4294967295, "MAX saturation failed for u32 to u128");
    assert_eq!(<i64>::saturating_from(<isize>::MAX), <i64>::MAX, "MAX saturation failed for isize to i64");
    assert_eq!(<isize>::saturating_from(<i64>::MAX), 9223372036854775807, "MAX saturation failed for i64 to isize");
    assert_eq!(<i64>::saturating_from(<u64>::MAX), <i64>::MAX, "MAX saturation failed for u64 to i64");
    assert_eq!(<u64>::saturating_from(<i64>::MAX), 9223372036854775807, "MAX saturation failed for i64 to u64");
    assert_eq!(<i64>::saturating_from(<usize>::MAX), <i64>::MAX, "MAX saturation failed for usize to i64");
    assert_eq!(<usize>::saturating_from(<i64>::MAX), 9223372036854775807, "MAX saturation failed for i64 to usize");
    assert_eq!(<i64>::saturating_from(<i128>::MAX), <i64>::MAX, "MAX saturation failed for i128 to i64");
    assert_eq!(<i128>::saturating_from(<i64>::MAX), 9223372036854775807, "MAX saturation failed for i64 to i128");
    assert_eq!(<i64>::saturating_from(<u128>::MAX), <i64>::MAX, "MAX saturation failed for u128 to i64");
    assert_eq!(<u128>::saturating_from(<i64>::MAX), 9223372036854775807, "MAX saturation failed for i64 to u128");
    assert_eq!(<isize>::saturating_from(<u64>::MAX), <isize>::MAX, "MAX saturation failed for u64 to isize");
    assert_eq!(<u64>::saturating_from(<isize>::MAX), 9223372036854775807, "MAX saturation failed for isize to u64");
    assert_eq!(<isize>::saturating_from(<usize>::MAX), <isize>::MAX, "MAX saturation failed for usize to isize");
    assert_eq!(<usize>::saturating_from(<isize>::MAX), 9223372036854775807, "MAX saturation failed for isize to usize");
    assert_eq!(<isize>::saturating_from(<i128>::MAX), <isize>::MAX, "MAX saturation failed for i128 to isize");
    assert_eq!(<i128>::saturating_from(<isize>::MAX), 9223372036854775807, "MAX saturation failed for isize to i128");
    assert_eq!(<isize>::saturating_from(<u128>::MAX), <isize>::MAX, "MAX saturation failed for u128 to isize");
    assert_eq!(<u128>::saturating_from(<isize>::MAX), 9223372036854775807, "MAX saturation failed for isize to u128");
    assert_eq!(<u64>::saturating_from(<usize>::MAX), <u64>::MAX, "MAX saturation failed for usize to u64");
    assert_eq!(<usize>::saturating_from(<u64>::MAX), 18446744073709551615, "MAX saturation failed for u64 to usize");
    assert_eq!(<u64>::saturating_from(<i128>::MAX), <u64>::MAX, "MAX saturation failed for i128 to u64");
    assert_eq!(<i128>::saturating_from(<u64>::MAX), 18446744073709551615, "MAX saturation failed for u64 to i128");
    assert_eq!(<u64>::saturating_from(<u128>::MAX), <u64>::MAX, "MAX saturation failed for u128 to u64");
    assert_eq!(<u128>::saturating_from(<u64>::MAX), 18446744073709551615, "MAX saturation failed for u64 to u128");
    assert_eq!(<usize>::saturating_from(<i128>::MAX), <usize>::MAX, "MAX saturation failed for i128 to usize");
    assert_eq!(<i128>::saturating_from(<usize>::MAX), 18446744073709551615, "MAX saturation failed for usize to i128");
    assert_eq!(<usize>::saturating_from(<u128>::MAX), <usize>::MAX, "MAX saturation failed for u128 to usize");
    assert_eq!(<u128>::saturating_from(<usize>::MAX), 18446744073709551615, "MAX saturation failed for usize to u128");
    assert_eq!(<i128>::saturating_from(<u128>::MAX), <i128>::MAX, "MAX saturation failed for u128 to i128");
    assert_eq!(<u128>::saturating_from(<i128>::MAX), 170141183460469231731687303715884105727, "MAX saturation failed for i128 to u128");
    assert_eq!(<u128>::saturating_from(<u128>::MAX), <u128>::MAX, "MAX saturation failed for u128 to u128");
}

#[test]
fn saturating_middle_values() {
    assert_eq!(u8::saturating_from(1026_u16), 255_u8);
    assert_eq!(u8::saturating_from(-1026_i32), 0_u8);
    assert_eq!(u8::saturating_from(99_u64), 99_u8);
    assert_eq!(i8::saturating_from(-1000_i64), -128_i8);
    assert_eq!(i8::saturating_from(-100_i64), -100_i8);
    assert_eq!(u32::saturating_from(-1_isize), 0_u32);
    assert_eq!(usize::saturating_from(u128::MAX), usize::MAX);
    assert_eq!(i16::saturating_from(40_000_usize), i16::MAX);
}
