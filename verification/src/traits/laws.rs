//! Laws of the integer traits, stated over every value of every type: what
//! each parse reads back, where each saturating conversion lands, and which
//! counts take the singular.

use crate::decimal::{all_digits, dec, value};
use crate::traits::btoi::parse_signed;
use crate::traits::hex::{all_hex, hex_value};
use crate::laws::{
    hex_text, law_hex_reads_back, law_parse_dec, law_parse_signed_reads_back, signed_dec,
};
use crate::traits::{
    BytesToSigned, BytesToUnsigned, GtZero, HexToSigned, HexToUnsigned, Inflection, SaturatingFrom,
};
use vstd::prelude::*;

verus! {

/// Each unsigned type's `btou` reads the decimal text of any of its values
/// back as that value.
pub proof fn law_btou_reads_back(a: u8, b: u16, c: u32, d: u64, e: u128, f: usize)
    ensures
        <u8 as BytesToUnsigned>::spec_btou(dec(a as nat)) == Some(a),
        <u16 as BytesToUnsigned>::spec_btou(dec(b as nat)) == Some(b),
        <u32 as BytesToUnsigned>::spec_btou(dec(c as nat)) == Some(c),
        <u64 as BytesToUnsigned>::spec_btou(dec(d as nat)) == Some(d),
        <u128 as BytesToUnsigned>::spec_btou(dec(e as nat)) == Some(e),
        <usize as BytesToUnsigned>::spec_btou(dec(f as nat)) == Some(f),
{
    law_parse_dec(a as nat, u8::MAX as nat);
    law_parse_dec(b as nat, u16::MAX as nat);
    law_parse_dec(c as nat, u32::MAX as nat);
    law_parse_dec(d as nat, u64::MAX as nat);
    law_parse_dec(e as nat, u128::MAX as nat);
    law_parse_dec(f as nat, usize::MAX as nat);
}

/// Each signed type's `btoi` reads the decimal text of any of its values
/// (a minus sign before the digits of a negative one) back as that value,
/// from the type's least value to its greatest.
pub proof fn law_btoi_reads_back(a: i8, b: i16, c: i32, d: i64, e: i128, f: isize)
    ensures
        <i8 as BytesToSigned>::spec_btoi(signed_dec(a as int)) == Some(a),
        <i16 as BytesToSigned>::spec_btoi(signed_dec(b as int)) == Some(b),
        <i32 as BytesToSigned>::spec_btoi(signed_dec(c as int)) == Some(c),
        <i64 as BytesToSigned>::spec_btoi(signed_dec(d as int)) == Some(d),
        <i128 as BytesToSigned>::spec_btoi(signed_dec(e as int)) == Some(e),
        <isize as BytesToSigned>::spec_btoi(signed_dec(f as int)) == Some(f),
{
    law_parse_signed_reads_back(a as int, i8::MIN as int, i8::MAX as int);
    law_parse_signed_reads_back(b as int, i16::MIN as int, i16::MAX as int);
    law_parse_signed_reads_back(c as int, i32::MIN as int, i32::MAX as int);
    law_parse_signed_reads_back(d as int, i64::MIN as int, i64::MAX as int);
    law_parse_signed_reads_back(e as int, i128::MIN as int, i128::MAX as int);
    law_parse_signed_reads_back(f as int, isize::MIN as int, isize::MAX as int);
}

/// Each unsigned type's `btou` gives a number exactly when the bytes are a
/// non-empty run of ASCII digits worth no more than the type's `MAX`, and
/// then gives what they are worth.
pub proof fn law_btou_exact(src: Seq<u8>)
    ensures
        ({
            let r = <u8 as BytesToUnsigned>::spec_btou(src);
            &&& (r is Some <==> (src.len() > 0 && all_digits(src)
                && value(src) <= u8::MAX as nat))
            &&& (r matches Some(x) ==> x as nat == value(src))
        }),
        ({
            let r = <u16 as BytesToUnsigned>::spec_btou(src);
            &&& (r is Some <==> (src.len() > 0 && all_digits(src)
                && value(src) <= u16::MAX as nat))
            &&& (r matches Some(x) ==> x as nat == value(src))
        }),
        ({
            let r = <u32 as BytesToUnsigned>::spec_btou(src);
            &&& (r is Some <==> (src.len() > 0 && all_digits(src)
                && value(src) <= u32::MAX as nat))
            &&& (r matches Some(x) ==> x as nat == value(src))
        }),
        ({
            let r = <u64 as BytesToUnsigned>::spec_btou(src);
            &&& (r is Some <==> (src.len() > 0 && all_digits(src)
                && value(src) <= u64::MAX as nat))
            &&& (r matches Some(x) ==> x as nat == value(src))
        }),
        ({
            let r = <u128 as BytesToUnsigned>::spec_btou(src);
            &&& (r is Some <==> (src.len() > 0 && all_digits(src)
                && value(src) <= u128::MAX as nat))
            &&& (r matches Some(x) ==> x as nat == value(src))
        }),
        ({
            let r = <usize as BytesToUnsigned>::spec_btou(src);
            &&& (r is Some <==> (src.len() > 0 && all_digits(src)
                && value(src) <= usize::MAX as nat))
            &&& (r matches Some(x) ==> x as nat == value(src))
        }),
{
}

/// Each unsigned type's `htou` gives a number exactly when the bytes are a
/// non-empty run of hexadecimal digits worth no more than the type's `MAX`,
/// and then gives what they are worth.
pub proof fn law_htou_exact(src: Seq<u8>)
    ensures
        ({
            let r = <u8 as HexToUnsigned>::spec_htou(src);
            &&& (r is Some <==> (src.len() > 0 && all_hex(src)
                && hex_value(src) <= u8::MAX as nat))
            &&& (r matches Some(x) ==> x as nat == hex_value(src))
        }),
        ({
            let r = <u16 as HexToUnsigned>::spec_htou(src);
            &&& (r is Some <==> (src.len() > 0 && all_hex(src)
                && hex_value(src) <= u16::MAX as nat))
            &&& (r matches Some(x) ==> x as nat == hex_value(src))
        }),
        ({
            let r = <u32 as HexToUnsigned>::spec_htou(src);
            &&& (r is Some <==> (src.len() > 0 && all_hex(src)
                && hex_value(src) <= u32::MAX as nat))
            &&& (r matches Some(x) ==> x as nat == hex_value(src))
        }),
        ({
            let r = <u64 as HexToUnsigned>::spec_htou(src);
            &&& (r is Some <==> (src.len() > 0 && all_hex(src)
                && hex_value(src) <= u64::MAX as nat))
            &&& (r matches Some(x) ==> x as nat == hex_value(src))
        }),
        ({
            let r = <u128 as HexToUnsigned>::spec_htou(src);
            &&& (r is Some <==> (src.len() > 0 && all_hex(src)
                && hex_value(src) <= u128::MAX as nat))
            &&& (r matches Some(x) ==> x as nat == hex_value(src))
        }),
        ({
            let r = <usize as HexToUnsigned>::spec_htou(src);
            &&& (r is Some <==> (src.len() > 0 && all_hex(src)
                && hex_value(src) <= usize::MAX as nat))
            &&& (r matches Some(x) ==> x as nat == hex_value(src))
        }),
{
}

/// Each signed type's `btoi` gives a number exactly when the bytes spell,
/// after an optional sign, a non-empty run of ASCII digits whose signed value
/// lies within the type's `MIN..=MAX`, and then gives that value.
pub proof fn law_btoi_exact(src: Seq<u8>)
    ensures
        ({
            let r = <i8 as BytesToSigned>::spec_btoi(src);
            let p = parse_signed(src, i8::MIN as int, i8::MAX as int);
            &&& (r is Some <==> p is Some)
            &&& (r matches Some(x) ==> p == Some(x as int))
        }),
        ({
            let r = <i16 as BytesToSigned>::spec_btoi(src);
            let p = parse_signed(src, i16::MIN as int, i16::MAX as int);
            &&& (r is Some <==> p is Some)
            &&& (r matches Some(x) ==> p == Some(x as int))
        }),
        ({
            let r = <i32 as BytesToSigned>::spec_btoi(src);
            let p = parse_signed(src, i32::MIN as int, i32::MAX as int);
            &&& (r is Some <==> p is Some)
            &&& (r matches Some(x) ==> p == Some(x as int))
        }),
        ({
            let r = <i64 as BytesToSigned>::spec_btoi(src);
            let p = parse_signed(src, i64::MIN as int, i64::MAX as int);
            &&& (r is Some <==> p is Some)
            &&& (r matches Some(x) ==> p == Some(x as int))
        }),
        ({
            let r = <i128 as BytesToSigned>::spec_btoi(src);
            let p = parse_signed(src, i128::MIN as int, i128::MAX as int);
            &&& (r is Some <==> p is Some)
            &&& (r matches Some(x) ==> p == Some(x as int))
        }),
        ({
            let r = <isize as BytesToSigned>::spec_btoi(src);
            let p = parse_signed(src, isize::MIN as int, isize::MAX as int);
            &&& (r is Some <==> p is Some)
            &&& (r matches Some(x) ==> p == Some(x as int))
        }),
{
}

/// The text `t` after `zeros` leading `'0'` bytes.
pub open spec fn led(zeros: nat, t: Seq<u8>) -> Seq<u8> {
    Seq::new(zeros, |i: int| 48u8) + t
}

/// Each unsigned type's `htou` reads the hexadecimal text of any of its
/// values, in either case and after any number of leading zeroes, back as
/// that value.
pub proof fn law_htou_reads_back(
    a: u8,
    b: u16,
    c: u32,
    d: u64,
    e: u128,
    f: usize,
    upper: bool,
    zeros: nat,
)
    ensures
        <u8 as HexToUnsigned>::spec_htou(led(zeros, hex_text(a as nat, upper))) == Some(a),
        <u16 as HexToUnsigned>::spec_htou(led(zeros, hex_text(b as nat, upper))) == Some(b),
        <u32 as HexToUnsigned>::spec_htou(led(zeros, hex_text(c as nat, upper))) == Some(c),
        <u64 as HexToUnsigned>::spec_htou(led(zeros, hex_text(d as nat, upper))) == Some(d),
        <u128 as HexToUnsigned>::spec_htou(led(zeros, hex_text(e as nat, upper))) == Some(e),
        <usize as HexToUnsigned>::spec_htou(led(zeros, hex_text(f as nat, upper))) == Some(f),
{
    law_hex_reads_back(a as nat, upper, zeros, u8::MAX as nat);
    law_hex_reads_back(b as nat, upper, zeros, u16::MAX as nat);
    law_hex_reads_back(c as nat, upper, zeros, u32::MAX as nat);
    law_hex_reads_back(d as nat, upper, zeros, u64::MAX as nat);
    law_hex_reads_back(e as nat, upper, zeros, u128::MAX as nat);
    law_hex_reads_back(f as nat, upper, zeros, usize::MAX as nat);
}

/// Each signed type's `htoi` reads the hexadecimal text of any of its
/// values' two's-complement bits, in either case and after any number of
/// leading zeroes, back as that value.
pub proof fn law_htoi_reads_back(
    a: i8,
    b: i16,
    c: i32,
    d: i64,
    e: i128,
    f: isize,
    upper: bool,
    zeros: nat,
)
    ensures
        <i8 as HexToSigned>::spec_htoi(
            led(zeros, hex_text((#[verifier::truncate] (a as u8)) as nat, upper)),
        ) == Some(a),
        <i16 as HexToSigned>::spec_htoi(
            led(zeros, hex_text((#[verifier::truncate] (b as u16)) as nat, upper)),
        ) == Some(b),
        <i32 as HexToSigned>::spec_htoi(
            led(zeros, hex_text((#[verifier::truncate] (c as u32)) as nat, upper)),
        ) == Some(c),
        <i64 as HexToSigned>::spec_htoi(
            led(zeros, hex_text((#[verifier::truncate] (d as u64)) as nat, upper)),
        ) == Some(d),
        <i128 as HexToSigned>::spec_htoi(
            led(zeros, hex_text((#[verifier::truncate] (e as u128)) as nat, upper)),
        ) == Some(e),
        <isize as HexToSigned>::spec_htoi(
            led(zeros, hex_text((#[verifier::truncate] (f as usize)) as nat, upper)),
        ) == Some(f),
{
    let a_bits = #[verifier::truncate] (a as u8);
    law_hex_reads_back(a_bits as nat, upper, zeros, u8::MAX as nat);
    assert(a_bits as i8 == a) by (bit_vector)
        requires
            a_bits == a as u8,
    ;
    let b_bits = #[verifier::truncate] (b as u16);
    law_hex_reads_back(b_bits as nat, upper, zeros, u16::MAX as nat);
    assert(b_bits as i16 == b) by (bit_vector)
        requires
            b_bits == b as u16,
    ;
    let c_bits = #[verifier::truncate] (c as u32);
    law_hex_reads_back(c_bits as nat, upper, zeros, u32::MAX as nat);
    assert(c_bits as i32 == c) by (bit_vector)
        requires
            c_bits == c as u32,
    ;
    let d_bits = #[verifier::truncate] (d as u64);
    law_hex_reads_back(d_bits as nat, upper, zeros, u64::MAX as nat);
    assert(d_bits as i64 == d) by (bit_vector)
        requires
            d_bits == d as u64,
    ;
    let e_bits = #[verifier::truncate] (e as u128);
    law_hex_reads_back(e_bits as nat, upper, zeros, u128::MAX as nat);
    assert(e_bits as i128 == e) by (bit_vector)
        requires
            e_bits == e as u128,
    ;
    let f_bits = #[verifier::truncate] (f as usize);
    law_hex_reads_back(f_bits as nat, upper, zeros, usize::MAX as nat);
    assert(f_bits as isize == f) by (bit_vector)
        requires
            f_bits == f as usize,
    ;
}

/// `r` is `v` held within `lo..=hi`: `v` itself where it fits, else the
/// bound it passed.
pub open spec fn held_within(r: int, v: int, lo: int, hi: int) -> bool {
    &&& lo <= r <= hi
    &&& (lo <= v <= hi ==> r == v)
    &&& (v < lo ==> r == lo)
    &&& (v > hi ==> r == hi)
}

/// Converting any integer into `u8` saturates at `u8`'s own bounds: a
/// value that fits is kept, one below gives `u8::MIN`, one above `u8::MAX`.
pub proof fn law_saturating_into_u8(
    a: u8,
    b: u16,
    c: u32,
    d: u64,
    e: u128,
    f: usize,
    g: i8,
    h: i16,
    i: i32,
    j: i64,
    k: i128,
    l: isize,
)
    ensures
        held_within(<u8 as SaturatingFrom<u8>>::spec_saturating_from(a) as int, a as int,
            u8::MIN as int, u8::MAX as int),
        held_within(<u8 as SaturatingFrom<u16>>::spec_saturating_from(b) as int, b as int,
            u8::MIN as int, u8::MAX as int),
        held_within(<u8 as SaturatingFrom<u32>>::spec_saturating_from(c) as int, c as int,
            u8::MIN as int, u8::MAX as int),
        held_within(<u8 as SaturatingFrom<u64>>::spec_saturating_from(d) as int, d as int,
            u8::MIN as int, u8::MAX as int),
        held_within(<u8 as SaturatingFrom<u128>>::spec_saturating_from(e) as int, e as int,
            u8::MIN as int, u8::MAX as int),
        held_within(<u8 as SaturatingFrom<usize>>::spec_saturating_from(f) as int, f as int,
            u8::MIN as int, u8::MAX as int),
        held_within(<u8 as SaturatingFrom<i8>>::spec_saturating_from(g) as int, g as int,
            u8::MIN as int, u8::MAX as int),
        held_within(<u8 as SaturatingFrom<i16>>::spec_saturating_from(h) as int, h as int,
            u8::MIN as int, u8::MAX as int),
        held_within(<u8 as SaturatingFrom<i32>>::spec_saturating_from(i) as int, i as int,
            u8::MIN as int, u8::MAX as int),
        held_within(<u8 as SaturatingFrom<i64>>::spec_saturating_from(j) as int, j as int,
            u8::MIN as int, u8::MAX as int),
        held_within(<u8 as SaturatingFrom<i128>>::spec_saturating_from(k) as int, k as int,
            u8::MIN as int, u8::MAX as int),
        held_within(<u8 as SaturatingFrom<isize>>::spec_saturating_from(l) as int, l as int,
            u8::MIN as int, u8::MAX as int),
{
}

/// Converting any integer into `u16` saturates at `u16`'s own bounds: a
/// value that fits is kept, one below gives `u16::MIN`, one above `u16::MAX`.
pub proof fn law_saturating_into_u16(
    a: u8,
    b: u16,
    c: u32,
    d: u64,
    e: u128,
    f: usize,
    g: i8,
    h: i16,
    i: i32,
    j: i64,
    k: i128,
    l: isize,
)
    ensures
        held_within(<u16 as SaturatingFrom<u8>>::spec_saturating_from(a) as int, a as int,
            u16::MIN as int, u16::MAX as int),
        held_within(<u16 as SaturatingFrom<u16>>::spec_saturating_from(b) as int, b as int,
            u16::MIN as int, u16::MAX as int),
        held_within(<u16 as SaturatingFrom<u32>>::spec_saturating_from(c) as int, c as int,
            u16::MIN as int, u16::MAX as int),
        held_within(<u16 as SaturatingFrom<u64>>::spec_saturating_from(d) as int, d as int,
            u16::MIN as int, u16::MAX as int),
        held_within(<u16 as SaturatingFrom<u128>>::spec_saturating_from(e) as int, e as int,
            u16::MIN as int, u16::MAX as int),
        held_within(<u16 as SaturatingFrom<usize>>::spec_saturating_from(f) as int, f as int,
            u16::MIN as int, u16::MAX as int),
        held_within(<u16 as SaturatingFrom<i8>>::spec_saturating_from(g) as int, g as int,
            u16::MIN as int, u16::MAX as int),
        held_within(<u16 as SaturatingFrom<i16>>::spec_saturating_from(h) as int, h as int,
            u16::MIN as int, u16::MAX as int),
        held_within(<u16 as SaturatingFrom<i32>>::spec_saturating_from(i) as int, i as int,
            u16::MIN as int, u16::MAX as int),
        held_within(<u16 as SaturatingFrom<i64>>::spec_saturating_from(j) as int, j as int,
            u16::MIN as int, u16::MAX as int),
        held_within(<u16 as SaturatingFrom<i128>>::spec_saturating_from(k) as int, k as int,
            u16::MIN as int, u16::MAX as int),
        held_within(<u16 as SaturatingFrom<isize>>::spec_saturating_from(l) as int, l as int,
            u16::MIN as int, u16::MAX as int),
{
}

/// Converting any integer into `u32` saturates at `u32`'s own bounds: a
/// value that fits is kept, one below gives `u32::MIN`, one above `u32::MAX`.
pub proof fn law_saturating_into_u32(
    a: u8,
    b: u16,
    c: u32,
    d: u64,
    e: u128,
    f: usize,
    g: i8,
    h: i16,
    i: i32,
    j: i64,
    k: i128,
    l: isize,
)
    ensures
        held_within(<u32 as SaturatingFrom<u8>>::spec_saturating_from(a) as int, a as int,
            u32::MIN as int, u32::MAX as int),
        held_within(<u32 as SaturatingFrom<u16>>::spec_saturating_from(b) as int, b as int,
            u32::MIN as int, u32::MAX as int),
        held_within(<u32 as SaturatingFrom<u32>>::spec_saturating_from(c) as int, c as int,
            u32::MIN as int, u32::MAX as int),
        held_within(<u32 as SaturatingFrom<u64>>::spec_saturating_from(d) as int, d as int,
            u32::MIN as int, u32::MAX as int),
        held_within(<u32 as SaturatingFrom<u128>>::spec_saturating_from(e) as int, e as int,
            u32::MIN as int, u32::MAX as int),
        held_within(<u32 as SaturatingFrom<usize>>::spec_saturating_from(f) as int, f as int,
            u32::MIN as int, u32::MAX as int),
        held_within(<u32 as SaturatingFrom<i8>>::spec_saturating_from(g) as int, g as int,
            u32::MIN as int, u32::MAX as int),
        held_within(<u32 as SaturatingFrom<i16>>::spec_saturating_from(h) as int, h as int,
            u32::MIN as int, u32::MAX as int),
        held_within(<u32 as SaturatingFrom<i32>>::spec_saturating_from(i) as int, i as int,
            u32::MIN as int, u32::MAX as int),
        held_within(<u32 as SaturatingFrom<i64>>::spec_saturating_from(j) as int, j as int,
            u32::MIN as int, u32::MAX as int),
        held_within(<u32 as SaturatingFrom<i128>>::spec_saturating_from(k) as int, k as int,
            u32::MIN as int, u32::MAX as int),
        held_within(<u32 as SaturatingFrom<isize>>::spec_saturating_from(l) as int, l as int,
            u32::MIN as int, u32::MAX as int),
{
}

/// Converting any integer into `u64` saturates at `u64`'s own bounds: a
/// value that fits is kept, one below gives `u64::MIN`, one above `u64::MAX`.
pub proof fn law_saturating_into_u64(
    a: u8,
    b: u16,
    c: u32,
    d: u64,
    e: u128,
    f: usize,
    g: i8,
    h: i16,
    i: i32,
    j: i64,
    k: i128,
    l: isize,
)
    ensures
        held_within(<u64 as SaturatingFrom<u8>>::spec_saturating_from(a) as int, a as int,
            u64::MIN as int, u64::MAX as int),
        held_within(<u64 as SaturatingFrom<u16>>::spec_saturating_from(b) as int, b as int,
            u64::MIN as int, u64::MAX as int),
        held_within(<u64 as SaturatingFrom<u32>>::spec_saturating_from(c) as int, c as int,
            u64::MIN as int, u64::MAX as int),
        held_within(<u64 as SaturatingFrom<u64>>::spec_saturating_from(d) as int, d as int,
            u64::MIN as int, u64::MAX as int),
        held_within(<u64 as SaturatingFrom<u128>>::spec_saturating_from(e) as int, e as int,
            u64::MIN as int, u64::MAX as int),
        held_within(<u64 as SaturatingFrom<usize>>::spec_saturating_from(f) as int, f as int,
            u64::MIN as int, u64::MAX as int),
        held_within(<u64 as SaturatingFrom<i8>>::spec_saturating_from(g) as int, g as int,
            u64::MIN as int, u64::MAX as int),
        held_within(<u64 as SaturatingFrom<i16>>::spec_saturating_from(h) as int, h as int,
            u64::MIN as int, u64::MAX as int),
        held_within(<u64 as SaturatingFrom<i32>>::spec_saturating_from(i) as int, i as int,
            u64::MIN as int, u64::MAX as int),
        held_within(<u64 as SaturatingFrom<i64>>::spec_saturating_from(j) as int, j as int,
            u64::MIN as int, u64::MAX as int),
        held_within(<u64 as SaturatingFrom<i128>>::spec_saturating_from(k) as int, k as int,
            u64::MIN as int, u64::MAX as int),
        held_within(<u64 as SaturatingFrom<isize>>::spec_saturating_from(l) as int, l as int,
            u64::MIN as int, u64::MAX as int),
{
}

/// Converting any integer into `u128` saturates at `u128`'s own bounds: a
/// value that fits is kept, one below gives `u128::MIN`, one above `u128::MAX`.
pub proof fn law_saturating_into_u128(
    a: u8,
    b: u16,
    c: u32,
    d: u64,
    e: u128,
    f: usize,
    g: i8,
    h: i16,
    i: i32,
    j: i64,
    k: i128,
    l: isize,
)
    ensures
        held_within(<u128 as SaturatingFrom<u8>>::spec_saturating_from(a) as int, a as int,
            u128::MIN as int, u128::MAX as int),
        held_within(<u128 as SaturatingFrom<u16>>::spec_saturating_from(b) as int, b as int,
            u128::MIN as int, u128::MAX as int),
        held_within(<u128 as SaturatingFrom<u32>>::spec_saturating_from(c) as int, c as int,
            u128::MIN as int, u128::MAX as int),
        held_within(<u128 as SaturatingFrom<u64>>::spec_saturating_from(d) as int, d as int,
            u128::MIN as int, u128::MAX as int),
        held_within(<u128 as SaturatingFrom<u128>>::spec_saturating_from(e) as int, e as int,
            u128::MIN as int, u128::MAX as int),
        held_within(<u128 as SaturatingFrom<usize>>::spec_saturating_from(f) as int, f as int,
            u128::MIN as int, u128::MAX as int),
        held_within(<u128 as SaturatingFrom<i8>>::spec_saturating_from(g) as int, g as int,
            u128::MIN as int, u128::MAX as int),
        held_within(<u128 as SaturatingFrom<i16>>::spec_saturating_from(h) as int, h as int,
            u128::MIN as int, u128::MAX as int),
        held_within(<u128 as SaturatingFrom<i32>>::spec_saturating_from(i) as int, i as int,
            u128::MIN as int, u128::MAX as int),
        held_within(<u128 as SaturatingFrom<i64>>::spec_saturating_from(j) as int, j as int,
            u128::MIN as int, u128::MAX as int),
        held_within(<u128 as SaturatingFrom<i128>>::spec_saturating_from(k) as int, k as int,
            u128::MIN as int, u128::MAX as int),
        held_within(<u128 as SaturatingFrom<isize>>::spec_saturating_from(l) as int, l as int,
            u128::MIN as int, u128::MAX as int),
{
}

/// Converting any integer into `usize` saturates at `usize`'s own bounds: a
/// value that fits is kept, one below gives `usize::MIN`, one above `usize::MAX`.
pub proof fn law_saturating_into_usize(
    a: u8,
    b: u16,
    c: u32,
    d: u64,
    e: u128,
    f: usize,
    g: i8,
    h: i16,
    i: i32,
    j: i64,
    k: i128,
    l: isize,
)
    ensures
        held_within(<usize as SaturatingFrom<u8>>::spec_saturating_from(a) as int, a as int,
            usize::MIN as int, usize::MAX as int),
        held_within(<usize as SaturatingFrom<u16>>::spec_saturating_from(b) as int, b as int,
            usize::MIN as int, usize::MAX as int),
        held_within(<usize as SaturatingFrom<u32>>::spec_saturating_from(c) as int, c as int,
            usize::MIN as int, usize::MAX as int),
        held_within(<usize as SaturatingFrom<u64>>::spec_saturating_from(d) as int, d as int,
            usize::MIN as int, usize::MAX as int),
        held_within(<usize as SaturatingFrom<u128>>::spec_saturating_from(e) as int, e as int,
            usize::MIN as int, usize::MAX as int),
        held_within(<usize as SaturatingFrom<usize>>::spec_saturating_from(f) as int, f as int,
            usize::MIN as int, usize::MAX as int),
        held_within(<usize as SaturatingFrom<i8>>::spec_saturating_from(g) as int, g as int,
            usize::MIN as int, usize::MAX as int),
        held_within(<usize as SaturatingFrom<i16>>::spec_saturating_from(h) as int, h as int,
            usize::MIN as int, usize::MAX as int),
        held_within(<usize as SaturatingFrom<i32>>::spec_saturating_from(i) as int, i as int,
            usize::MIN as int, usize::MAX as int),
        held_within(<usize as SaturatingFrom<i64>>::spec_saturating_from(j) as int, j as int,
            usize::MIN as int, usize::MAX as int),
        held_within(<usize as SaturatingFrom<i128>>::spec_saturating_from(k) as int, k as int,
            usize::MIN as int, usize::MAX as int),
        held_within(<usize as SaturatingFrom<isize>>::spec_saturating_from(l) as int, l as int,
            usize::MIN as int, usize::MAX as int),
{
}

/// Converting any integer into `i8` saturates at `i8`'s own bounds: a
/// value that fits is kept, one below gives `i8::MIN`, one above `i8::MAX`.
pub proof fn law_saturating_into_i8(
    a: u8,
    b: u16,
    c: u32,
    d: u64,
    e: u128,
    f: usize,
    g: i8,
    h: i16,
    i: i32,
    j: i64,
    k: i128,
    l: isize,
)
    ensures
        held_within(<i8 as SaturatingFrom<u8>>::spec_saturating_from(a) as int, a as int,
            i8::MIN as int, i8::MAX as int),
        held_within(<i8 as SaturatingFrom<u16>>::spec_saturating_from(b) as int, b as int,
            i8::MIN as int, i8::MAX as int),
        held_within(<i8 as SaturatingFrom<u32>>::spec_saturating_from(c) as int, c as int,
            i8::MIN as int, i8::MAX as int),
        held_within(<i8 as SaturatingFrom<u64>>::spec_saturating_from(d) as int, d as int,
            i8::MIN as int, i8::MAX as int),
        held_within(<i8 as SaturatingFrom<u128>>::spec_saturating_from(e) as int, e as int,
            i8::MIN as int, i8::MAX as int),
        held_within(<i8 as SaturatingFrom<usize>>::spec_saturating_from(f) as int, f as int,
            i8::MIN as int, i8::MAX as int),
        held_within(<i8 as SaturatingFrom<i8>>::spec_saturating_from(g) as int, g as int,
            i8::MIN as int, i8::MAX as int),
        held_within(<i8 as SaturatingFrom<i16>>::spec_saturating_from(h) as int, h as int,
            i8::MIN as int, i8::MAX as int),
        held_within(<i8 as SaturatingFrom<i32>>::spec_saturating_from(i) as int, i as int,
            i8::MIN as int, i8::MAX as int),
        held_within(<i8 as SaturatingFrom<i64>>::spec_saturating_from(j) as int, j as int,
            i8::MIN as int, i8::MAX as int),
        held_within(<i8 as SaturatingFrom<i128>>::spec_saturating_from(k) as int, k as int,
            i8::MIN as int, i8::MAX as int),
        held_within(<i8 as SaturatingFrom<isize>>::spec_saturating_from(l) as int, l as int,
            i8::MIN as int, i8::MAX as int),
{
}

/// Converting any integer into `i16` saturates at `i16`'s own bounds: a
/// value that fits is kept, one below gives `i16::MIN`, one above `i16::MAX`.
pub proof fn law_saturating_into_i16(
    a: u8,
    b: u16,
    c: u32,
    d: u64,
    e: u128,
    f: usize,
    g: i8,
    h: i16,
    i: i32,
    j: i64,
    k: i128,
    l: isize,
)
    ensures
        held_within(<i16 as SaturatingFrom<u8>>::spec_saturating_from(a) as int, a as int,
            i16::MIN as int, i16::MAX as int),
        held_within(<i16 as SaturatingFrom<u16>>::spec_saturating_from(b) as int, b as int,
            i16::MIN as int, i16::MAX as int),
        held_within(<i16 as SaturatingFrom<u32>>::spec_saturating_from(c) as int, c as int,
            i16::MIN as int, i16::MAX as int),
        held_within(<i16 as SaturatingFrom<u64>>::spec_saturating_from(d) as int, d as int,
            i16::MIN as int, i16::MAX as int),
        held_within(<i16 as SaturatingFrom<u128>>::spec_saturating_from(e) as int, e as int,
            i16::MIN as int, i16::MAX as int),
        held_within(<i16 as SaturatingFrom<usize>>::spec_saturating_from(f) as int, f as int,
            i16::MIN as int, i16::MAX as int),
        held_within(<i16 as SaturatingFrom<i8>>::spec_saturating_from(g) as int, g as int,
            i16::MIN as int, i16::MAX as int),
        held_within(<i16 as SaturatingFrom<i16>>::spec_saturating_from(h) as int, h as int,
            i16::MIN as int, i16::MAX as int),
        held_within(<i16 as SaturatingFrom<i32>>::spec_saturating_from(i) as int, i as int,
            i16::MIN as int, i16::MAX as int),
        held_within(<i16 as SaturatingFrom<i64>>::spec_saturating_from(j) as int, j as int,
            i16::MIN as int, i16::MAX as int),
        held_within(<i16 as SaturatingFrom<i128>>::spec_saturating_from(k) as int, k as int,
            i16::MIN as int, i16::MAX as int),
        held_within(<i16 as SaturatingFrom<isize>>::spec_saturating_from(l) as int, l as int,
            i16::MIN as int, i16::MAX as int),
{
}

/// Converting any integer into `i32` saturates at `i32`'s own bounds: a
/// value that fits is kept, one below gives `i32::MIN`, one above `i32::MAX`.
pub proof fn law_saturating_into_i32(
    a: u8,
    b: u16,
    c: u32,
    d: u64,
    e: u128,
    f: usize,
    g: i8,
    h: i16,
    i: i32,
    j: i64,
    k: i128,
    l: isize,
)
    ensures
        held_within(<i32 as SaturatingFrom<u8>>::spec_saturating_from(a) as int, a as int,
            i32::MIN as int, i32::MAX as int),
        held_within(<i32 as SaturatingFrom<u16>>::spec_saturating_from(b) as int, b as int,
            i32::MIN as int, i32::MAX as int),
        held_within(<i32 as SaturatingFrom<u32>>::spec_saturating_from(c) as int, c as int,
            i32::MIN as int, i32::MAX as int),
        held_within(<i32 as SaturatingFrom<u64>>::spec_saturating_from(d) as int, d as int,
            i32::MIN as int, i32::MAX as int),
        held_within(<i32 as SaturatingFrom<u128>>::spec_saturating_from(e) as int, e as int,
            i32::MIN as int, i32::MAX as int),
        held_within(<i32 as SaturatingFrom<usize>>::spec_saturating_from(f) as int, f as int,
            i32::MIN as int, i32::MAX as int),
        held_within(<i32 as SaturatingFrom<i8>>::spec_saturating_from(g) as int, g as int,
            i32::MIN as int, i32::MAX as int),
        held_within(<i32 as SaturatingFrom<i16>>::spec_saturating_from(h) as int, h as int,
            i32::MIN as int, i32::MAX as int),
        held_within(<i32 as SaturatingFrom<i32>>::spec_saturating_from(i) as int, i as int,
            i32::MIN as int, i32::MAX as int),
        held_within(<i32 as SaturatingFrom<i64>>::spec_saturating_from(j) as int, j as int,
            i32::MIN as int, i32::MAX as int),
        held_within(<i32 as SaturatingFrom<i128>>::spec_saturating_from(k) as int, k as int,
            i32::MIN as int, i32::MAX as int),
        held_within(<i32 as SaturatingFrom<isize>>::spec_saturating_from(l) as int, l as int,
            i32::MIN as int, i32::MAX as int),
{
}

/// Converting any integer into `i64` saturates at `i64`'s own bounds: a
/// value that fits is kept, one below gives `i64::MIN`, one above `i64::MAX`.
pub proof fn law_saturating_into_i64(
    a: u8,
    b: u16,
    c: u32,
    d: u64,
    e: u128,
    f: usize,
    g: i8,
    h: i16,
    i: i32,
    j: i64,
    k: i128,
    l: isize,
)
    ensures
        held_within(<i64 as SaturatingFrom<u8>>::spec_saturating_from(a) as int, a as int,
            i64::MIN as int, i64::MAX as int),
        held_within(<i64 as SaturatingFrom<u16>>::spec_saturating_from(b) as int, b as int,
            i64::MIN as int, i64::MAX as int),
        held_within(<i64 as SaturatingFrom<u32>>::spec_saturating_from(c) as int, c as int,
            i64::MIN as int, i64::MAX as int),
        held_within(<i64 as SaturatingFrom<u64>>::spec_saturating_from(d) as int, d as int,
            i64::MIN as int, i64::MAX as int),
        held_within(<i64 as SaturatingFrom<u128>>::spec_saturating_from(e) as int, e as int,
            i64::MIN as int, i64::MAX as int),
        held_within(<i64 as SaturatingFrom<usize>>::spec_saturating_from(f) as int, f as int,
            i64::MIN as int, i64::MAX as int),
        held_within(<i64 as SaturatingFrom<i8>>::spec_saturating_from(g) as int, g as int,
            i64::MIN as int, i64::MAX as int),
        held_within(<i64 as SaturatingFrom<i16>>::spec_saturating_from(h) as int, h as int,
            i64::MIN as int, i64::MAX as int),
        held_within(<i64 as SaturatingFrom<i32>>::spec_saturating_from(i) as int, i as int,
            i64::MIN as int, i64::MAX as int),
        held_within(<i64 as SaturatingFrom<i64>>::spec_saturating_from(j) as int, j as int,
            i64::MIN as int, i64::MAX as int),
        held_within(<i64 as SaturatingFrom<i128>>::spec_saturating_from(k) as int, k as int,
            i64::MIN as int, i64::MAX as int),
        held_within(<i64 as SaturatingFrom<isize>>::spec_saturating_from(l) as int, l as int,
            i64::MIN as int, i64::MAX as int),
{
}

/// Converting any integer into `i128` saturates at `i128`'s own bounds: a
/// value that fits is kept, one below gives `i128::MIN`, one above `i128::MAX`.
pub proof fn law_saturating_into_i128(
    a: u8,
    b: u16,
    c: u32,
    d: u64,
    e: u128,
    f: usize,
    g: i8,
    h: i16,
    i: i32,
    j: i64,
    k: i128,
    l: isize,
)
    ensures
        held_within(<i128 as SaturatingFrom<u8>>::spec_saturating_from(a) as int, a as int,
            i128::MIN as int, i128::MAX as int),
        held_within(<i128 as SaturatingFrom<u16>>::spec_saturating_from(b) as int, b as int,
            i128::MIN as int, i128::MAX as int),
        held_within(<i128 as SaturatingFrom<u32>>::spec_saturating_from(c) as int, c as int,
            i128::MIN as int, i128::MAX as int),
        held_within(<i128 as SaturatingFrom<u64>>::spec_saturating_from(d) as int, d as int,
            i128::MIN as int, i128::MAX as int),
        held_within(<i128 as SaturatingFrom<u128>>::spec_saturating_from(e) as int, e as int,
            i128::MIN as int, i128::MAX as int),
        held_within(<i128 as SaturatingFrom<usize>>::spec_saturating_from(f) as int, f as int,
            i128::MIN as int, i128::MAX as int),
        held_within(<i128 as SaturatingFrom<i8>>::spec_saturating_from(g) as int, g as int,
            i128::MIN as int, i128::MAX as int),
        held_within(<i128 as SaturatingFrom<i16>>::spec_saturating_from(h) as int, h as int,
            i128::MIN as int, i128::MAX as int),
        held_within(<i128 as SaturatingFrom<i32>>::spec_saturating_from(i) as int, i as int,
            i128::MIN as int, i128::MAX as int),
        held_within(<i128 as SaturatingFrom<i64>>::spec_saturating_from(j) as int, j as int,
            i128::MIN as int, i128::MAX as int),
        held_within(<i128 as SaturatingFrom<i128>>::spec_saturating_from(k) as int, k as int,
            i128::MIN as int, i128::MAX as int),
        held_within(<i128 as SaturatingFrom<isize>>::spec_saturating_from(l) as int, l as int,
            i128::MIN as int, i128::MAX as int),
{
}

/// Converting any integer into `isize` saturates at `isize`'s own bounds: a
/// value that fits is kept, one below gives `isize::MIN`, one above `isize::MAX`.
pub proof fn law_saturating_into_isize(
    a: u8,
    b: u16,
    c: u32,
    d: u64,
    e: u128,
    f: usize,
    g: i8,
    h: i16,
    i: i32,
    j: i64,
    k: i128,
    l: isize,
)
    ensures
        held_within(<isize as SaturatingFrom<u8>>::spec_saturating_from(a) as int, a as int,
            isize::MIN as int, isize::MAX as int),
        held_within(<isize as SaturatingFrom<u16>>::spec_saturating_from(b) as int, b as int,
            isize::MIN as int, isize::MAX as int),
        held_within(<isize as SaturatingFrom<u32>>::spec_saturating_from(c) as int, c as int,
            isize::MIN as int, isize::MAX as int),
        held_within(<isize as SaturatingFrom<u64>>::spec_saturating_from(d) as int, d as int,
            isize::MIN as int, isize::MAX as int),
        held_within(<isize as SaturatingFrom<u128>>::spec_saturating_from(e) as int, e as int,
            isize::MIN as int, isize::MAX as int),
        held_within(<isize as SaturatingFrom<usize>>::spec_saturating_from(f) as int, f as int,
            isize::MIN as int, isize::MAX as int),
        held_within(<isize as SaturatingFrom<i8>>::spec_saturating_from(g) as int, g as int,
            isize::MIN as int, isize::MAX as int),
        held_within(<isize as SaturatingFrom<i16>>::spec_saturating_from(h) as int, h as int,
            isize::MIN as int, isize::MAX as int),
        held_within(<isize as SaturatingFrom<i32>>::spec_saturating_from(i) as int, i as int,
            isize::MIN as int, isize::MAX as int),
        held_within(<isize as SaturatingFrom<i64>>::spec_saturating_from(j) as int, j as int,
            isize::MIN as int, isize::MAX as int),
        held_within(<isize as SaturatingFrom<i128>>::spec_saturating_from(k) as int, k as int,
            isize::MIN as int, isize::MAX as int),
        held_within(<isize as SaturatingFrom<isize>>::spec_saturating_from(l) as int, l as int,
            isize::MIN as int, isize::MAX as int),
{
}

/// An unsigned count takes the singular exactly when it is one; every other
/// count, zero among them, takes the plural.
pub proof fn law_inflect_unsigned(a: u8, b: u16, c: u32, d: u64, e: u128, f: usize)
    ensures
        a.spec_is_one() == (a as int == 1),
        b.spec_is_one() == (b as int == 1),
        c.spec_is_one() == (c as int == 1),
        d.spec_is_one() == (d as int == 1),
        e.spec_is_one() == (e as int == 1),
        f.spec_is_one() == (f as int == 1),
{
}

/// A signed count takes the singular exactly when its magnitude is one;
/// every other count, zero among them, takes the plural.
pub proof fn law_inflect_signed(a: i8, b: i16, c: i32, d: i64, e: i128, f: isize)
    ensures
        a.spec_is_one() == (vstd::math::abs(a as int) == 1),
        b.spec_is_one() == (vstd::math::abs(b as int) == 1),
        c.spec_is_one() == (vstd::math::abs(c as int) == 1),
        d.spec_is_one() == (vstd::math::abs(d as int) == 1),
        e.spec_is_one() == (vstd::math::abs(e as int) == 1),
        f.spec_is_one() == (vstd::math::abs(f as int) == 1),
{
}

/// Every integer type's zero is the number zero, and a value counts as above
/// zero exactly when it is positive.
pub proof fn law_gt_zero(
    a: u8,
    b: u16,
    c: u32,
    d: u64,
    e: u128,
    f: usize,
    g: i8,
    h: i16,
    i: i32,
    j: i64,
    k: i128,
    l: isize,
)
    ensures
        a.spec_gt_zero() == (a as int > 0),
        <u8 as GtZero>::spec_zero() as int == 0,
        b.spec_gt_zero() == (b as int > 0),
        <u16 as GtZero>::spec_zero() as int == 0,
        c.spec_gt_zero() == (c as int > 0),
        <u32 as GtZero>::spec_zero() as int == 0,
        d.spec_gt_zero() == (d as int > 0),
        <u64 as GtZero>::spec_zero() as int == 0,
        e.spec_gt_zero() == (e as int > 0),
        <u128 as GtZero>::spec_zero() as int == 0,
        f.spec_gt_zero() == (f as int > 0),
        <usize as GtZero>::spec_zero() as int == 0,
        g.spec_gt_zero() == (g as int > 0),
        <i8 as GtZero>::spec_zero() as int == 0,
        h.spec_gt_zero() == (h as int > 0),
        <i16 as GtZero>::spec_zero() as int == 0,
        i.spec_gt_zero() == (i as int > 0),
        <i32 as GtZero>::spec_zero() as int == 0,
        j.spec_gt_zero() == (j as int > 0),
        <i64 as GtZero>::spec_zero() as int == 0,
        k.spec_gt_zero() == (k as int > 0),
        <i128 as GtZero>::spec_zero() as int == 0,
        l.spec_gt_zero() == (l as int > 0),
        <isize as GtZero>::spec_zero() as int == 0,
{
}

} // verus!
