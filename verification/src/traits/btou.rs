//! Unsigned integers from ASCII decimal bytes.

use crate::decimal::{
    all_digits, digit_value, is_digit, lemma_value_concat, lemma_value_bound, pow10, value,
};
use vstd::prelude::*;

verus! {

/// The number that `src` spells, when `src` is a non-empty run of ASCII
/// digits (leading zeroes allowed) worth at most `max`; otherwise nothing.
pub open spec fn parse_unsigned(src: Seq<u8>, max: nat) -> Option<nat> {
    if src.len() > 0 && all_digits(src) && value(src) <= max {
        Some(value(src))
    } else {
        None
    }
}

/// A prefix of a digit string is worth no more than the whole string.
pub proof fn lemma_value_prefix(src: Seq<u8>, i: int)
    requires
        0 <= i <= src.len(),
    ensures
        value(src.subrange(0, i)) <= value(src),
{
    let a = src.subrange(0, i);
    let b = src.subrange(i, src.len() as int);
    assert(a + b =~= src);
    lemma_value_concat(a, b);
    lemma_pow10_pos(b.len());
    assert(value(a) * pow10(b.len()) >= value(a)) by (nonlinear_arith)
        requires
            pow10(b.len()) >= 1,
    ;
}

/// Powers of ten are positive.
pub proof fn lemma_pow10_pos(k: nat)
    ensures
        pow10(k) >= 1,
    decreases k,
{
    if k > 0 {
        lemma_pow10_pos((k - 1) as nat);
    }
}

/// # Parse Digits.
///
/// The number that `src` spells in ASCII decimal, if it is a non-empty run of
/// digits worth at most `max`.
pub fn parse_digits(src: &[u8], max: u128) -> (r: Option<u128>)
    requires
        max >= 9,
    ensures
        r == match parse_unsigned(src@, max as nat) {
            Some(v) => Some(v as u128),
            None => None::<u128>,
        },
{
    if src.len() == 0 {
        return None;
    }
    let mut acc: u128 = 0;
    let mut i: usize = 0;
    while i < src.len()
        invariant
            i <= src.len(),
            src.len() > 0,
            max >= 9,
            acc == value(src@.subrange(0, i as int)),
            acc <= max,
            all_digits(src@.subrange(0, i as int)),
        decreases src.len() - i,
    {
        let ghost pre = src@.subrange(0, i as int);
        let ghost next = src@.subrange(0, i + 1);
        assert(next.drop_last() =~= pre);
        let b = src[i];
        if b < 48 || b > 57 {
            assert(!is_digit(src@[i as int]));
            assert(!all_digits(src@));
            return None;
        }
        let d = (b - 48) as u128;
        assert(digit_value(next.last()) == d);
        if acc > (max - d) / 10 {
            assert(acc * 10 + d > max) by (nonlinear_arith)
                requires
                    acc > (max - d) / 10,
                    d <= 9,
                    max >= 9,
            ;
            proof {
                lemma_value_prefix(src@, i + 1);
            }
            return None;
        }
        assert(acc * 10 + d <= max) by (nonlinear_arith)
            requires
                acc <= (max - d) / 10,
                d <= 9,
                max >= 9,
        ;
        acc = acc * 10 + d;
        assert(all_digits(next)) by {
            assert forall|j: int| 0 <= j < next.len() implies is_digit(#[trigger] next[j]) by {
                if j < i {
                    assert(next[j] == pre[j]);
                }
            }
        }
        i += 1;
    }
    assert(src@.subrange(0, src.len() as int) =~= src@);
    Some(acc)
}

/// # (ASCII) Bytes to Unsigned.
///
/// Parse an unsigned integer from ASCII decimal bytes. Leading zeroes are
/// fine; the result is `None` if the slice is empty, holds anything but
/// digits (signs, spaces, punctuation…), or is out of range for the type.
pub trait BytesToUnsigned: Sized {
    /// What `btou` gives for the bytes `src`.
    spec fn spec_btou(src: Seq<u8>) -> Option<Self>;

    /// # (ASCII) Bytes to Unsigned.
    fn btou(src: &[u8]) -> (r: Option<Self>)
        ensures
            r == Self::spec_btou(src@),
    ;
}

impl BytesToUnsigned for u8 {
    open spec fn spec_btou(src: Seq<u8>) -> Option<u8> {
        match parse_unsigned(src, 255 as nat) {
            Some(v) => Some(v as u8),
            None => None,
        }
    }

    fn btou(src: &[u8]) -> (r: Option<u8>) {
        match parse_digits(src, 255 as u128) {
            Some(v) => Some(v as u8),
            None => None,
        }
    }
}

impl BytesToUnsigned for u16 {
    open spec fn spec_btou(src: Seq<u8>) -> Option<u16> {
        match parse_unsigned(src, 65535 as nat) {
            Some(v) => Some(v as u16),
            None => None,
        }
    }

    fn btou(src: &[u8]) -> (r: Option<u16>) {
        match parse_digits(src, 65535 as u128) {
            Some(v) => Some(v as u16),
            None => None,
        }
    }
}

impl BytesToUnsigned for u32 {
    open spec fn spec_btou(src: Seq<u8>) -> Option<u32> {
        match parse_unsigned(src, 4294967295 as nat) {
            Some(v) => Some(v as u32),
            None => None,
        }
    }

    fn btou(src: &[u8]) -> (r: Option<u32>) {
        match parse_digits(src, 4294967295 as u128) {
            Some(v) => Some(v as u32),
            None => None,
        }
    }
}

impl BytesToUnsigned for u64 {
    open spec fn spec_btou(src: Seq<u8>) -> Option<u64> {
        match parse_unsigned(src, 18446744073709551615 as nat) {
            Some(v) => Some(v as u64),
            None => None,
        }
    }

    fn btou(src: &[u8]) -> (r: Option<u64>) {
        match parse_digits(src, 18446744073709551615 as u128) {
            Some(v) => Some(v as u64),
            None => None,
        }
    }
}

impl BytesToUnsigned for u128 {
    open spec fn spec_btou(src: Seq<u8>) -> Option<u128> {
        match parse_unsigned(src, 340282366920938463463374607431768211455 as nat) {
            Some(v) => Some(v as u128),
            None => None,
        }
    }

    fn btou(src: &[u8]) -> (r: Option<u128>) {
        match parse_digits(src, 340282366920938463463374607431768211455 as u128) {
            Some(v) => Some(v as u128),
            None => None,
        }
    }
}

impl BytesToUnsigned for usize {
    open spec fn spec_btou(src: Seq<u8>) -> Option<usize> {
        match parse_unsigned(src, usize::MAX as nat) {
            Some(v) => Some(v as usize),
            None => None,
        }
    }

    fn btou(src: &[u8]) -> (r: Option<usize>) {
        match parse_digits(src, usize::MAX as u128) {
            Some(v) => Some(v as usize),
            None => None,
        }
    }
}

} // verus!
