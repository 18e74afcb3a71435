//! Integers from ASCII hexadecimal bytes.

use vstd::prelude::*;

verus! {

/// Is `b` an ASCII hexadecimal digit (`0-9`, `a-f`, `A-F`)?
pub open spec fn is_hex(b: u8) -> bool {
    (48 <= b <= 57) || (65 <= b <= 70) || (97 <= b <= 102)
}

/// The value of an ASCII hexadecimal digit.
pub open spec fn hex_digit_value(b: u8) -> nat {
    if 48 <= b <= 57 {
        (b - 48) as nat
    } else if 65 <= b <= 70 {
        (b - 55) as nat
    } else {
        (b - 87) as nat
    }
}

/// Every byte of `s` is a hexadecimal digit.
pub open spec fn all_hex(s: Seq<u8>) -> bool {
    forall|i: int| 0 <= i < s.len() ==> is_hex(#[trigger] s[i])
}

/// The number that a string of hexadecimal digits spells, most significant
/// first.
pub open spec fn hex_value(s: Seq<u8>) -> nat
    decreases s.len(),
{
    if s.len() == 0 {
        0
    } else {
        hex_value(s.drop_last()) * 16 + hex_digit_value(s.last())
    }
}

/// The number that `src` spells in hexadecimal, when `src` is a non-empty run
/// of hex digits (either case, leading zeroes allowed) worth at most `max`.
pub open spec fn parse_hex_spec(src: Seq<u8>, max: nat) -> Option<nat> {
    if src.len() > 0 && all_hex(src) && hex_value(src) <= max {
        Some(hex_value(src))
    } else {
        None
    }
}

/// `16` to the power `k`.
pub open spec fn pow16(k: nat) -> nat
    decreases k,
{
    if k == 0 { 1 } else { 16 * pow16((k - 1) as nat) }
}

/// The value of a concatenation of hex strings.
pub proof fn lemma_hex_value_concat(a: Seq<u8>, b: Seq<u8>)
    ensures
        hex_value(a + b) == hex_value(a) * pow16(b.len()) + hex_value(b),
    decreases b.len(),
{
    if b.len() == 0 {
        assert(a + b =~= a);
        assert(hex_value(b) == 0);
        assert(pow16(0) == 1);
        assert(hex_value(a) * 1 == hex_value(a));
    } else {
        assert((a + b).drop_last() =~= a + b.drop_last());
        assert((a + b).last() == b.last());
        lemma_hex_value_concat(a, b.drop_last());
        let p = pow16((b.len() - 1) as nat);
        assert(pow16(b.len()) == 16 * p);
        assert(hex_value(a + b) == hex_value(a + b.drop_last()) * 16 + hex_digit_value(b.last()));
        assert(hex_value(b) == hex_value(b.drop_last()) * 16 + hex_digit_value(b.last()));
        assert((hex_value(a) * p + hex_value(b.drop_last())) * 16 + hex_digit_value(b.last())
            == hex_value(a) * (16 * p) + (hex_value(b.drop_last()) * 16 + hex_digit_value(b.last())))
            by (nonlinear_arith);
    }
}

/// Powers of sixteen are positive.
pub proof fn lemma_pow16_pos(k: nat)
    ensures
        pow16(k) >= 1,
    decreases k,
{
    if k > 0 {
        lemma_pow16_pos((k - 1) as nat);
    }
}

/// A prefix of a hex string is worth no more than the whole string.
pub proof fn lemma_hex_value_prefix(src: Seq<u8>, i: int)
    requires
        0 <= i <= src.len(),
    ensures
        hex_value(src.subrange(0, i)) <= hex_value(src),
{
    let a = src.subrange(0, i);
    let b = src.subrange(i, src.len() as int);
    assert(a + b =~= src);
    lemma_hex_value_concat(a, b);
    lemma_pow16_pos(b.len());
    assert(hex_value(a) * pow16(b.len()) >= hex_value(a)) by (nonlinear_arith)
        requires
            pow16(b.len()) >= 1,
    ;
}

/// # Hex Digit.
///
/// The value of an ASCII hexadecimal digit, if it is one.
pub fn hex_digit(b: u8) -> (r: Option<u8>)
    ensures
        r matches Some(d) ==> is_hex(b) && d == hex_digit_value(b) && d < 16,
        r is None ==> !is_hex(b),
{
    if 48 <= b && b <= 57 {
        Some(b - 48)
    } else if 65 <= b && b <= 70 {
        Some(b - 55)
    } else if 97 <= b && b <= 102 {
        Some(b - 87)
    } else {
        None
    }
}

/// # Parse Hex.
///
/// The number that `src` spells in ASCII hexadecimal, if it is a non-empty run
/// of hex digits worth at most `max`.
pub fn parse_hex(src: &[u8], max: u128) -> (r: Option<u128>)
    requires
        max >= 15,
    ensures
        r == match parse_hex_spec(src@, max as nat) {
            Some(v) => Some(v as u128),
            None => None::<u128>,
        },
{
    if src.len() == 0 {
        return None;
    }
    let mut acc: u128 = 0;
    let mut i: usize = 0;
    while i < src.len()
        invariant
            i <= src.len(),
            src.len() > 0,
            max >= 15,
            acc == hex_value(src@.subrange(0, i as int)),
            acc <= max,
            all_hex(src@.subrange(0, i as int)),
        decreases src.len() - i,
    {
        let ghost pre = src@.subrange(0, i as int);
        let ghost next = src@.subrange(0, i + 1);
        assert(next.drop_last() =~= pre);
        let d = match hex_digit(src[i]) {
            Some(d) => d as u128,
            None => {
                assert(!all_hex(src@));
                return None;
            },
        };
        assert(hex_digit_value(next.last()) == d);
        if acc > (max - d) / 16 {
            assert(acc * 16 + d > max) by (nonlinear_arith)
                requires
                    acc > (max - d) / 16,
                    d <= 15,
                    max >= 15,
            ;
            proof {
                lemma_hex_value_prefix(src@, i + 1);
            }
            return None;
        }
        assert(acc * 16 + d <= max) by (nonlinear_arith)
            requires
                acc <= (max - d) / 16,
                d <= 15,
                max >= 15,
        ;
        acc = acc * 16 + d;
        assert(all_hex(next)) by {
            assert forall|j: int| 0 <= j < next.len() implies is_hex(#[trigger] next[j]) by {
                if j < i {
                    assert(next[j] == pre[j]);
                }
            }
        }
        i += 1;
    }
    assert(src@.subrange(0, src.len() as int) =~= src@);
    Some(acc)
}

/// # Hex (ASCII Bytes) to Unsigned.
///
/// Decode ASCII hexadecimal bytes (either case, leading zeroes allowed) into
/// an unsigned integer; `None` if the slice is empty, holds anything but hex
/// digits, or is too big for the type.
pub trait HexToUnsigned: Sized {
    /// What `htou` gives for the bytes `src`.
    spec fn spec_htou(src: Seq<u8>) -> Option<Self>;

    /// # Hex (ASCII Bytes) to Unsigned.
    fn htou(src: &[u8]) -> (r: Option<Self>)
        ensures
            r == Self::spec_htou(src@),
    ;
}

/// # Hex (ASCII Bytes) to Signed.
///
/// Decode ASCII hexadecimal bytes as the unsigned type of the same width
/// does, then reinterpret the bits as signed (two's complement).
pub trait HexToSigned: Sized {
    /// What `htoi` gives for the bytes `src`.
    spec fn spec_htoi(src: Seq<u8>) -> Option<Self>;

    /// # Hex (ASCII Bytes) to Signed.
    fn htoi(src: &[u8]) -> (r: Option<Self>)
        ensures
            r == Self::spec_htoi(src@),
    ;
}

impl HexToUnsigned for u8 {
    open spec fn spec_htou(src: Seq<u8>) -> Option<u8> {
        match parse_hex_spec(src, 255 as nat) {
            Some(v) => Some(v as u8),
            None => None,
        }
    }

    fn htou(src: &[u8]) -> (r: Option<u8>) {
        match parse_hex(src, 255 as u128) {
            Some(v) => Some(v as u8),
            None => None,
        }
    }
}

impl HexToSigned for i8 {
    open spec fn spec_htoi(src: Seq<u8>) -> Option<i8> {
        match u8::spec_htou(src) {
            Some(v) => Some(v as i8),
            None => None,
        }
    }

    fn htoi(src: &[u8]) -> (r: Option<i8>) {
        match u8::htou(src) {
            Some(v) => Some(v as i8),
            None => None,
        }
    }
}

impl HexToUnsigned for u16 {
    open spec fn spec_htou(src: Seq<u8>) -> Option<u16> {
        match parse_hex_spec(src, 65535 as nat) {
            Some(v) => Some(v as u16),
            None => None,
        }
    }

    fn htou(src: &[u8]) -> (r: Option<u16>) {
        match parse_hex(src, 65535 as u128) {
            Some(v) => Some(v as u16),
            None => None,
        }
    }
}

impl HexToSigned for i16 {
    open spec fn spec_htoi(src: Seq<u8>) -> Option<i16> {
        match u16::spec_htou(src) {
            Some(v) => Some(v as i16),
            None => None,
        }
    }

    fn htoi(src: &[u8]) -> (r: Option<i16>) {
        match u16::htou(src) {
            Some(v) => Some(v as i16),
            None => None,
        }
    }
}

impl HexToUnsigned for u32 {
    open spec fn spec_htou(src: Seq<u8>) -> Option<u32> {
        match parse_hex_spec(src, 4294967295 as nat) {
            Some(v) => Some(v as u32),
            None => None,
        }
    }

    fn htou(src: &[u8]) -> (r: Option<u32>) {
        match parse_hex(src, 4294967295 as u128) {
            Some(v) => Some(v as u32),
            None => None,
        }
    }
}

impl HexToSigned for i32 {
    open spec fn spec_htoi(src: Seq<u8>) -> Option<i32> {
        match u32::spec_htou(src) {
            Some(v) => Some(v as i32),
            None => None,
        }
    }

    fn htoi(src: &[u8]) -> (r: Option<i32>) {
        match u32::htou(src) {
            Some(v) => Some(v as i32),
            None => None,
        }
    }
}

impl HexToUnsigned for u64 {
    open spec fn spec_htou(src: Seq<u8>) -> Option<u64> {
        match parse_hex_spec(src, 18446744073709551615 as nat) {
            Some(v) => Some(v as u64),
            None => None,
        }
    }

    fn htou(src: &[u8]) -> (r: Option<u64>) {
        match parse_hex(src, 18446744073709551615 as u128) {
            Some(v) => Some(v as u64),
            None => None,
        }
    }
}

impl HexToSigned for i64 {
    open spec fn spec_htoi(src: Seq<u8>) -> Option<i64> {
        match u64::spec_htou(src) {
            Some(v) => Some(v as i64),
            None => None,
        }
    }

    fn htoi(src: &[u8]) -> (r: Option<i64>) {
        match u64::htou(src) {
            Some(v) => Some(v as i64),
            None => None,
        }
    }
}

impl HexToUnsigned for u128 {
    open spec fn spec_htou(src: Seq<u8>) -> Option<u128> {
        match parse_hex_spec(src, 340282366920938463463374607431768211455 as nat) {
            Some(v) => Some(v as u128),
            None => None,
        }
    }

    fn htou(src: &[u8]) -> (r: Option<u128>) {
        match parse_hex(src, 340282366920938463463374607431768211455 as u128) {
            Some(v) => Some(v as u128),
            None => None,
        }
    }
}

impl HexToSigned for i128 {
    open spec fn spec_htoi(src: Seq<u8>) -> Option<i128> {
        match u128::spec_htou(src) {
            Some(v) => Some(v as i128),
            None => None,
        }
    }

    fn htoi(src: &[u8]) -> (r: Option<i128>) {
        match u128::htou(src) {
            Some(v) => Some(v as i128),
            None => None,
        }
    }
}

impl HexToUnsigned for usize {
    open spec fn spec_htou(src: Seq<u8>) -> Option<usize> {
        match parse_hex_spec(src, usize::MAX as nat) {
            Some(v) => Some(v as usize),
            None => None,
        }
    }

    fn htou(src: &[u8]) -> (r: Option<usize>) {
        match parse_hex(src, usize::MAX as u128) {
            Some(v) => Some(v as usize),
            None => None,
        }
    }
}

impl HexToSigned for isize {
    open spec fn spec_htoi(src: Seq<u8>) -> Option<isize> {
        match usize::spec_htou(src) {
            Some(v) => Some(v as isize),
            None => None,
        }
    }

    fn htoi(src: &[u8]) -> (r: Option<isize>) {
        match usize::htou(src) {
            Some(v) => Some(v as isize),
            None => None,
        }
    }
}

} // verus!
