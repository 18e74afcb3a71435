use dactyl::traits::{BytesToSigned, BytesToUnsigned, HexToSigned, HexToUnsigned};

fn hex_u8(i: u8) {
    let mut s = format!("{:x}", i);
    assert_eq!(u8::htou(s.as_bytes()), Some(i));
    s.make_ascii_uppercase();
    assert_eq!(u8::htou(s.as_bytes()), Some(i));

    s = format!("{:02x}", i);
    assert_eq!(u8::htou(s.as_bytes()), Some(i));
    s.make_ascii_uppercase();
    assert_eq!(u8::htou(s.as_bytes()), Some(i));
}

fn hex_u16(i: u16) {
    let mut s = format!("{:x}", i);
    assert_eq!(u16::htou(s.as_bytes()), Some(i));
    s.make_ascii_uppercase();
    assert_eq!(u16::htou(s.as_bytes()), Some(i));

    s = format!("{:04x}", i);
    assert_eq!(u16::htou(s.as_bytes()), Some(i));
    s.make_ascii_uppercase();
    assert_eq!(u16::htou(s.as_bytes()), Some(i));
}

#[test]
fn htou_t_u8() {
    for i in 0..=u8::MAX {
        hex_u8(i);
    }
}

#[test]
fn htou_t_u16() {
    for i in 0..=u16::MAX {
        hex_u16(i);
    }
}

#[test]
fn btou_u8_sanity() {
    assert_eq!(u8::btou(b""), None);
    assert_eq!(u8::btou(b" 1"), None);
    assert_eq!(u8::btou(b"1.0"), None);
    assert_eq!(u8::btou(b"apples"), None);
    assert_eq!(u8::btou(b"+123"), None);
    assert_eq!(u8::btou(b"0"), Some(0));
    assert_eq!(u8::btou(b"00"), Some(0));
    assert_eq!(u8::btou(b"0000"), Some(0));
    assert_eq!(u8::btou(b"00000000"), Some(0));
    assert_eq!(u8::btou(b"0000000000000000"), Some(0));
    assert_eq!(u8::btou(b"000000000000000000000000000000000000000000000000"), Some(0));
    assert_eq!(u8::btou(b"255"), Some(u8::MAX));
    assert_eq!(u8::btou(b"0255"), Some(u8::MAX));
    assert_eq!(u8::btou(b"2550"), None);
    assert_eq!(u8::btou(b"12"), Some(12));
}

#[test]
fn btou_u16_sanity() {
    assert_eq!(u16::btou(b""), None);
    assert_eq!(u16::btou(b" 1"), None);
    assert_eq!(u16::btou(b"1.0"), None);
    assert_eq!(u16::btou(b"apples"), None);
    assert_eq!(u16::btou(b"+123"), None);
    assert_eq!(u16::btou(b"0"), Some(0));
    assert_eq!(u16::btou(b"00"), Some(0));
    assert_eq!(u16::btou(b"0000"), Some(0));
    assert_eq!(u16::btou(b"00000000"), Some(0));
    assert_eq!(u16::btou(b"0000000000000000"), Some(0));
    assert_eq!(u16::btou(b"000000000000000000000000000000000000000000000000"), Some(0));
    assert_eq!(u16::btou(b"65535"), Some(u16::MAX));
    assert_eq!(u16::btou(b"065535"), Some(u16::MAX));
    assert_eq!(u16::btou(b"655350"), None);
    assert_eq!(u16::btou(b"12"), Some(12));
}

#[test]
fn btou_u32_sanity() {
    assert_eq!(u32::btou(b""), None);
    assert_eq!(u32::btou(b" 1"), None);
    assert_eq!(u32::btou(b"1.0"), None);
    assert_eq!(u32::btou(b"apples"), None);
    assert_eq!(u32::btou(b"+123"), None);
    assert_eq!(u32::btou(b"0"), Some(0));
    assert_eq!(u32::btou(b"00"), Some(0));
    assert_eq!(u32::btou(b"0000"), Some(0));
    assert_eq!(u32::btou(b"00000000"), Some(0));
    assert_eq!(u32::btou(b"0000000000000000"), Some(0));
    assert_eq!(u32::btou(b"000000000000000000000000000000000000000000000000"), Some(0));
    assert_eq!(u32::btou(b"4294967295"), Some(u32::MAX));
    assert_eq!(u32::btou(b"04294967295"), Some(u32::MAX));
    assert_eq!(u32::btou(b"42949672950"), None);
    assert_eq!(u32::btou(b"12"), Some(12));
}

#[test]
fn btou_u64_sanity() {
    assert_eq!(u64::btou(b""), None);
    assert_eq!(u64::btou(b" 1"), None);
    assert_eq!(u64::btou(b"1.0"), None);
    assert_eq!(u64::btou(b"apples"), None);
    assert_eq!(u64::btou(b"+123"), None);
    assert_eq!(u64::btou(b"0"), Some(0));
    assert_eq!(u64::btou(b"00"), Some(0));
    assert_eq!(u64::btou(b"0000"), Some(0));
    assert_eq!(u64::btou(b"00000000"), Some(0));
    assert_eq!(u64::btou(b"0000000000000000"), Some(0));
    assert_eq!(u64::btou(b"000000000000000000000000000000000000000000000000"), Some(0));
    assert_eq!(u64::btou(b"18446744073709551615"), Some(u64::MAX));
    assert_eq!(u64::btou(b"018446744073709551615"), Some(u64::MAX));
    assert_eq!(u64::btou(b"184467440737095516150"), None);
    assert_eq!(u64::btou(b"12"), Some(12));
}

#[test]
fn btou_u128_sanity() {
    assert_eq!(u128::btou(b""), None);
    assert_eq!(u128::btou(b" 1"), None);
    assert_eq!(u128::btou(b"1.0"), None);
    assert_eq!(u128::btou(b"apples"), None);
    assert_eq!(u128::btou(b"+123"), None);
    assert_eq!(u128::btou(b"0"), Some(0));
    assert_eq!(u128::btou(b"00"), Some(0));
    assert_eq!(u128::btou(b"0000"), Some(0));
    assert_eq!(u128::btou(b"00000000"), Some(0));
    assert_eq!(u128::btou(b"0000000000000000"), Some(0));
    assert_eq!(u128::btou(b"000000000000000000000000000000000000000000000000"), Some(0));
    assert_eq!(u128::btou(b"340282366920938463463374607431768211455"), Some(u128::MAX));
    assert_eq!(u128::btou(b"0340282366920938463463374607431768211455"), Some(u128::MAX));
    assert_eq!(u128::btou(b"3402823669209384634633746074317682114550"), None);
    assert_eq!(u128::btou(b"12"), Some(12));
}

#[test]
fn btoi_i8_sanity() {
    assert_eq!(i8::btoi(b""), None);
    assert_eq!(i8::btoi(b" 1"), None);
    assert_eq!(i8::btoi(b"1.0"), None);
    assert_eq!(i8::btoi(b"apples"), None);
    assert_eq!(i8::btoi(b"+123"), Some(123));
    assert_eq!(i8::btoi(b"-123"), Some(-123));
    assert_eq!(i8::btoi(b"-"), None);
    assert_eq!(i8::btoi(b"0"), Some(0));
    assert_eq!(i8::btoi(b"-0"), Some(0));
    assert_eq!(i8::btoi(b"0000000000000000"), Some(0));
    assert_eq!(i8::btoi(b"127"), Some(i8::MAX));
    assert_eq!(i8::btoi(b"0127"), Some(i8::MAX));
    assert_eq!(i8::btoi(b"-128"), Some(i8::MIN));
    assert_eq!(i8::btoi(b"1270"), None);
    assert_eq!(i8::btoi(b"-1280"), None);
}

#[test]
fn btoi_i16_sanity() {
    assert_eq!(i16::btoi(b""), None);
    assert_eq!(i16::btoi(b" 1"), None);
    assert_eq!(i16::btoi(b"1.0"), None);
    assert_eq!(i16::btoi(b"apples"), None);
    assert_eq!(i16::btoi(b"+123"), Some(123));
    assert_eq!(i16::btoi(b"-123"), Some(-123));
    assert_eq!(i16::btoi(b"-"), None);
    assert_eq!(i16::btoi(b"0"), Some(0));
    assert_eq!(i16::btoi(b"-0"), Some(0));
    assert_eq!(i16::btoi(b"0000000000000000"), Some(0));
    assert_eq!(i16::btoi(b"32767"), Some(i16::MAX));
    assert_eq!(i16::btoi(b"032767"), Some(i16::MAX));
    assert_eq!(i16::btoi(b"-32768"), Some(i16::MIN));
    assert_eq!(i16::btoi(b"327670"), None);
    assert_eq!(i16::btoi(b"-327680"), None);
}

#[test]
fn btoi_i32_sanity() {
    assert_eq!(i32::btoi(b""), None);
    assert_eq!(i32::btoi(b" 1"), None);
    assert_eq!(i32::btoi(b"1.0"), None);
    assert_eq!(i32::btoi(b"apples"), None);
    assert_eq!(i32::btoi(b"+123"), Some(123));
    assert_eq!(i32::btoi(b"-123"), Some(-123));
    assert_eq!(i32::btoi(b"-"), None);
    assert_eq!(i32::btoi(b"0"), Some(0));
    assert_eq!(i32::btoi(b"-0"), Some(0));
    assert_eq!(i32::btoi(b"0000000000000000"), Some(0));
    assert_eq!(i32::btoi(b"2147483647"), Some(i32::MAX));
    assert_eq!(i32::btoi(b"02147483647"), Some(i32::MAX));
    assert_eq!(i32::btoi(b"-2147483648"), Some(i32::MIN));
    assert_eq!(i32::btoi(b"21474836470"), None);
    assert_eq!(i32::btoi(b"-21474836480"), None);
}

#[test]
fn btoi_i64_sanity() {
    assert_eq!(i64::btoi(b""), None);
    assert_eq!(i64::btoi(b" 1"), None);
    assert_eq!(i64::btoi(b"1.0"), None);
    assert_eq!(i64::btoi(b"apples"), None);
    assert_eq!(i64::btoi(b"+123"), Some(123));
    assert_eq!(i64::btoi(b"-123"), Some(-123));
    assert_eq!(i64::btoi(b"-"), None);
    assert_eq!(i64::btoi(b"0"), Some(0));
    assert_eq!(i64::btoi(b"-0"), Some(0));
    assert_eq!(i64::btoi(b"0000000000000000"), Some(0));
    assert_eq!(i64::btoi(b"9223372036854775807"), Some(i64::MAX));
    assert_eq!(i64::btoi(b"09223372036854775807"), Some(i64::MAX));
    assert_eq!(i64::btoi(b"-9223372036854775808"), Some(i64::MIN));
    assert_eq!(i64::btoi(b"92233720368547758070"), None);
    assert_eq!(i64::btoi(b"-92233720368547758080"), None);
}

#[test]
fn btoi_i128_sanity() {
    assert_eq!(i128::btoi(b""), None);
    assert_eq!(i128::btoi(b" 1"), None);
    assert_eq!(i128::btoi(b"1.0"), None);
    assert_eq!(i128::btoi(b"apples"), None);
    assert_eq!(i128::btoi(b"+123"), Some(123));
    assert_eq!(i128::btoi(b"-123"), Some(-123));
    assert_eq!(i128::btoi(b"-"), None);
    assert_eq!(i128::btoi(b"0"), Some(0));
    assert_eq!(i128::btoi(b"-0"), Some(0));
    assert_eq!(i128::btoi(b"0000000000000000"), Some(0));
    assert_eq!(i128::btoi(b"170141183460469231731687303715884105727"), Some(i128::MAX));
    assert_eq!(i128::btoi(b"0170141183460469231731687303715884105727"), Some(i128::MAX));
    assert_eq!(i128::btoi(b"-170141183460469231731687303715884105728"), Some(i128::MIN));
    assert_eq!(i128::btoi(b"1701411834604692317316873037158841057270"), None);
    assert_eq!(i128::btoi(b"-1701411834604692317316873037158841057280"), None);
}

#[test]
fn btoi_u8_range_all() {
    for i in i8::MIN..=i8::MAX {
        assert_eq!(i8::btoi(i.to_string().as_bytes()), Some(i));
    }
    for i in u8::MIN..=u8::MAX {
        assert_eq!(u8::btou(i.to_string().as_bytes()), Some(i));
    }
    assert_eq!(usize::btou(b"1234"), Some(1234));
    assert_eq!(isize::btoi(b"-1234"), Some(-1234));
}

#[test]
fn hex_parsing() {
    assert_eq!(u8::htou(b"0D"), Some(13));
    assert_eq!(u8::htou(b"00000ff"), Some(255));
    assert_eq!(u8::htou(b"100"), None);
    assert_eq!(u8::htou(b""), None);
    assert_eq!(u8::htou(b"g"), None);
    assert_eq!(u32::htou(b"DEADbeef"), Some(0xdead_beef));
    assert_eq!(u64::htou(b"ffffffffffffffff"), Some(u64::MAX));
    assert_eq!(u64::htou(b"10000000000000000"), None);
    assert_eq!(u128::htou(b"ffffffffffffffffffffffffffffffff"), Some(u128::MAX));
    assert_eq!(usize::htou(b"ff"), Some(255));
    assert_eq!(i8::htoi(b"ff"), Some(-1));
    assert_eq!(i8::htoi(b"7f"), Some(127));
    assert_eq!(i16::htoi(b"8000"), Some(i16::MIN));
    assert_eq!(i32::htoi(b"ffffffff"), Some(-1));
    assert_eq!(i64::htoi(b"1"), Some(1));
    assert_eq!(i128::htoi(b"zz"), None);
    assert_eq!(isize::htoi(b"10"), Some(16));
}
