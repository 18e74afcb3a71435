//! Signed integers from ASCII decimal bytes.

use crate::decimal::{all_digits, value};
use crate::traits::btou::{parse_digits, parse_unsigned};
use vstd::prelude::*;

verus! {

/// The sign of `src` and the bytes after it: a leading `-` or `+` is taken
/// off, anything else is positive and kept. Empty input has no sign.
pub open spec fn spec_strip_sign(src: Seq<u8>) -> Option<(bool, Seq<u8>)> {
    if src.len() == 0 {
        None
    } else if src[0] == 45u8 {
        Some((true, src.drop_first()))
    } else if src[0] == 43u8 {
        Some((false, src.drop_first()))
    } else {
        Some((false, src))
    }
}

/// The number that `src` spells, an optional sign and then a non-empty run
/// of ASCII digits, when it lies within `min..=max`; otherwise nothing.
pub open spec fn parse_signed(src: Seq<u8>, min: int, max: int) -> Option<int> {
    match spec_strip_sign(src) {
        None => None,
        Some((neg, digits)) => {
            if digits.len() > 0 && all_digits(digits) {
                let v = value(digits) as int;
                if neg && -v >= min {
                    Some(-v)
                } else if !neg && v <= max {
                    Some(v)
                } else {
                    None
                }
            } else {
                None
            }
        },
    }
}

/// # Strip Sign.
///
/// If the slice starts with a plus or minus, strip it off, returning the
/// remainder and whether the sign was negative. Empty input gives `None`.
pub fn strip_sign(src: &[u8]) -> (r: Option<(bool, &[u8])>)
    ensures
        match spec_strip_sign(src@) {
            None => r is None,
            Some((neg, rest)) => r matches Some((n2, s2)) && n2 == neg && s2@ == rest,
        },
{
    if src.len() == 0 {
        None
    } else if src[0] == 45u8 {
        let (_, rest) = src.split_at(1);
        assert(rest@ =~= src@.drop_first());
        Some((true, rest))
    } else if src[0] == 43u8 {
        let (_, rest) = src.split_at(1);
        assert(rest@ =~= src@.drop_first());
        Some((false, rest))
    } else {
        Some((false, src))
    }
}

/// # Parse Signed.
///
/// The signed number that `src` spells, if within `-neg_max..=pos_max`.
pub fn parse_sign_digits(src: &[u8], neg_max: u128, pos_max: u128) -> (r: Option<(bool, u128)>)
    requires
        neg_max >= 9,
        pos_max >= 9,
    ensures
        match parse_signed(src@, -(neg_max as int), pos_max as int) {
            None => r is None,
            Some(v) => r matches Some((neg, m)) && (if neg { v == -(m as int) } else { v == m as int }),
        },
{
    let (neg, rest) = match strip_sign(src) {
        Some(x) => x,
        None => return None,
    };
    let bound = if neg { neg_max } else { pos_max };
    match parse_digits(rest, bound) {
        Some(m) => Some((neg, m)),
        None => None,
    }
}

/// # (ASCII) Bytes to Signed.
///
/// Parse a signed integer from ASCII decimal bytes: like
/// [`BytesToUnsigned`](crate::traits::BytesToUnsigned), except that the first
/// byte may be a `+` or `-`.
pub trait BytesToSigned: Sized {
    /// What `btoi` gives for the bytes `src`.
    spec fn spec_btoi(src: Seq<u8>) -> Option<Self>;

    /// # (ASCII) Bytes to Signed.
    fn btoi(src: &[u8]) -> (r: Option<Self>)
        ensures
            r == Self::spec_btoi(src@),
    ;
}

impl BytesToSigned for i8 {
    open spec fn spec_btoi(src: Seq<u8>) -> Option<i8> {
        match parse_signed(src, -128 as int, 127 as int) {
            Some(v) => Some(v as i8),
            None => None,
        }
    }

    fn btoi(src: &[u8]) -> (r: Option<i8>) {
        match parse_sign_digits(src, 128u128, 127u128) {
            Some((true, m)) => {
                if m == 128u128 {
                    Some(i8::MIN)
                } else {
                    Some(-(m as i8))
                }
            },
            Some((false, m)) => Some(m as i8),
            None => None,
        }
    }
}

impl BytesToSigned for i16 {
    open spec fn spec_btoi(src: Seq<u8>) -> Option<i16> {
        match parse_signed(src, -32768 as int, 32767 as int) {
            Some(v) => Some(v as i16),
            None => None,
        }
    }

    fn btoi(src: &[u8]) -> (r: Option<i16>) {
        match parse_sign_digits(src, 32768u128, 32767u128) {
            Some((true, m)) => {
                if m == 32768u128 {
                    Some(i16::MIN)
                } else {
                    Some(-(m as i16))
                }
            },
            Some((false, m)) => Some(m as i16),
            None => None,
        }
    }
}

impl BytesToSigned for i32 {
    open spec fn spec_btoi(src: Seq<u8>) -> Option<i32> {
        match parse_signed(src, -2147483648 as int, 2147483647 as int) {
            Some(v) => Some(v as i32),
            None => None,
        }
    }

    fn btoi(src: &[u8]) -> (r: Option<i32>) {
        match parse_sign_digits(src, 2147483648u128, 2147483647u128) {
            Some((true, m)) => {
                if m == 2147483648u128 {
                    Some(i32::MIN)
                } else {
                    Some(-(m as i32))
                }
            },
            Some((false, m)) => Some(m as i32),
            None => None,
        }
    }
}

impl BytesToSigned for i64 {
    open spec fn spec_btoi(src: Seq<u8>) -> Option<i64> {
        match parse_signed(src, -9223372036854775808 as int, 9223372036854775807 as int) {
            Some(v) => Some(v as i64),
            None => None,
        }
    }

    fn btoi(src: &[u8]) -> (r: Option<i64>) {
        match parse_sign_digits(src, 9223372036854775808u128, 9223372036854775807u128) {
            Some((true, m)) => {
                if m == 9223372036854775808u128 {
                    Some(i64::MIN)
                } else {
                    Some(-(m as i64))
                }
            },
            Some((false, m)) => Some(m as i64),
            None => None,
        }
    }
}

impl BytesToSigned for i128 {
    open spec fn spec_btoi(src: Seq<u8>) -> Option<i128> {
        match parse_signed(src, -170141183460469231731687303715884105728 as int, 170141183460469231731687303715884105727 as int) {
            Some(v) => Some(v as i128),
            None => None,
        }
    }

    fn btoi(src: &[u8]) -> (r: Option<i128>) {
        match parse_sign_digits(src, 170141183460469231731687303715884105728u128, 170141183460469231731687303715884105727u128) {
            Some((true, m)) => {
                if m == 170141183460469231731687303715884105728u128 {
                    Some(i128::MIN)
                } else {
                    Some(-(m as i128))
                }
            },
            Some((false, m)) => Some(m as i128),
            None => None,
        }
    }
}

impl BytesToSigned for isize {
    open spec fn spec_btoi(src: Seq<u8>) -> Option<isize> {
        match parse_signed(src, isize::MIN as int, isize::MAX as int) {
            Some(v) => Some(v as isize),
            None => None,
        }
    }

    fn btoi(src: &[u8]) -> (r: Option<isize>) {
        match parse_sign_digits(src, (isize::MAX as u128) + 1, isize::MAX as u128) {
            Some((true, m)) => {
                if m == (isize::MAX as u128) + 1 {
                    Some(isize::MIN)
                } else {
                    Some(-(m as isize))
                }
            },
            Some((false, m)) => Some(m as isize),
            None => None,
        }
    }
}

} // verus!
