//! The arithmetic of `NiceFloat`: reading the bits of an IEEE-754 float
//! into an integer part and eight rounded decimal places.

use crate::decimal::{all_ascii, digit, grouped, pow10};
use crate::nice::nice_uint::lemma_fits_u64;
use crate::nice::separator::NiceSeparator;
use crate::nice::wrapper::NiceWrapper;
use vstd::prelude::*;
use vstd::string::StringSliceAdditionalSpecFns;

verus! {

/// Two to the power `k`.
pub open spec fn two_pow(k: nat) -> nat
    decreases k,
{
    if k == 0 {
        1
    } else {
        2 * two_pow((k - 1) as nat)
    }
}

/// The number of decimal places kept: eight, as a multiplier.
pub open spec fn precision() -> nat {
    100000000
}

/// `a / d` rounded to the nearest integer, ties going to the even one.
pub open spec fn round_half_even(a: nat, d: nat) -> nat {
    let q = a / d;
    let r = a % d;
    if 2 * r > d || (2 * r == d && q % 2 == 1) {
        q + 1
    } else {
        q
    }
}

/// `n / 2^k` as an integer part and eight decimal places, the latter
/// rounded half to even (and possibly reaching a full `10^8`).
pub open spec fn fixed8(n: nat, k: nat) -> (nat, nat) {
    (n / two_pow(k), round_half_even((n % two_pow(k)) * precision(), two_pow(k)))
}

/// What a float is, for formatting.
pub enum FloatModel {
    /// Not a number.
    NaN,
    /// Either infinity.
    Infinity,
    /// An integer part beyond `u64`, and whether it is negative.
    Overflow(bool),
    /// An integer part, eight decimal places and a sign.
    Normal(nat, nat, bool),
}

/// The model of the `f64` with the given bits.
pub open spec fn model64(bits: u64) -> FloatModel {
    let neg = bits >= 0x8000_0000_0000_0000u64;
    let field = (bits / 0x10_0000_0000_0000u64) % 2048;
    let frac = bits % 0x10_0000_0000_0000u64;
    if field == 2047 {
        if frac != 0 {
            FloatModel::NaN
        } else {
            FloatModel::Infinity
        }
    } else {
        let mant: nat = (frac + 0x10_0000_0000_0000nat) as nat;
        let e = field - 1023;
        if e < -31 {
            FloatModel::Normal(0, 0, false)
        } else if e < 52 {
            let p = fixed8(mant, (52 - e) as nat);
            if p.1 == precision() {
                FloatModel::Normal(p.0 + 1, 0, neg)
            } else {
                FloatModel::Normal(p.0, p.1, neg)
            }
        } else if e < 64 {
            FloatModel::Normal(mant * two_pow((e - 52) as nat), 0, neg)
        } else {
            FloatModel::Overflow(neg)
        }
    }
}

/// The model of the `f32` with the given bits. Unlike `f64`, a rounding up
/// to a full `10^8` is not carried into the integer part.
pub open spec fn model32(bits: u32) -> FloatModel {
    let neg = bits >= 0x8000_0000u32;
    let field = (bits / 0x80_0000u32) % 256;
    let frac = bits % 0x80_0000u32;
    if field == 255 {
        if frac != 0 {
            FloatModel::NaN
        } else {
            FloatModel::Infinity
        }
    } else {
        let mant: nat = (frac + 0x80_0000nat) as nat;
        let e = field - 127;
        if e < -31 {
            FloatModel::Normal(0, 0, false)
        } else if e < 23 {
            let p = fixed8(mant, (23 - e) as nat);
            FloatModel::Normal(p.0, p.1, neg)
        } else if e < 64 {
            FloatModel::Normal(mant * two_pow((e - 23) as nat), 0, neg)
        } else {
            FloatModel::Overflow(neg)
        }
    }
}

/// Powers of two grow with the exponent.
pub proof fn lemma_two_pow_le(a: nat, b: nat)
    requires
        a <= b,
    ensures
        1 <= two_pow(a) <= two_pow(b),
    decreases b,
{
    if b > a {
        lemma_two_pow_le(a, (b - 1) as nat);
    } else if a > 0 {
        lemma_two_pow_le((a - 1) as nat, (a - 1) as nat);
    }
}

/// Powers of two multiply by adding exponents.
pub proof fn lemma_two_pow_add(a: nat, b: nat)
    ensures
        two_pow(a + b) == two_pow(a) * two_pow(b),
    decreases b,
{
    if b > 0 {
        let c: nat = (b - 1) as nat;
        lemma_two_pow_add(a, c);
        let pa = two_pow(a);
        let pc = two_pow(c);
        assert(two_pow(a + c) == pa * pc);
        assert(two_pow(b) == 2 * pc);
        assert(a + b == (a + c) + 1);
        assert(two_pow(a + b) == 2 * two_pow(a + c));
        assert(pa * (2 * pc) == 2 * (pa * pc)) by (nonlinear_arith);
        assert(two_pow(a) * two_pow(b) == pa * (2 * pc));
    } else {
        assert(two_pow(0) == 1);
        assert(a + b == a);
        assert(two_pow(a) * 1 == two_pow(a));
    }
}

/// The powers of two that the float layouts need.
pub proof fn lemma_two_pow_values()
    ensures
        two_pow(8) == 0x100,
        two_pow(11) == 0x800,
        two_pow(16) == 0x1_0000,
        two_pow(23) == 0x80_0000,
        two_pow(24) == 0x100_0000,
        two_pow(32) == 0x1_0000_0000,
        two_pow(52) == 0x10_0000_0000_0000,
        two_pow(53) == 0x20_0000_0000_0000,
        two_pow(64) == 0x1_0000_0000_0000_0000,
        two_pow(83) == 0x8_0000_0000_0000_0000_0000,
        two_pow(127) == 0x8000_0000_0000_0000_0000_0000_0000_0000,
{
    reveal_with_fuel(two_pow, 12);
    assert(two_pow(8) == 0x100);
    assert(two_pow(11) == 0x800);
    assert(two_pow(4) == 16);
    assert(two_pow(3) == 8);
    assert(two_pow(1) == 2);
    assert(two_pow(7) == 128);
    lemma_two_pow_add(8, 8);
    assert(two_pow(16) == 0x1_0000);
    lemma_two_pow_add(16, 8);
    assert(two_pow(24) == 0x100_0000);
    lemma_two_pow_add(16, 7);
    assert(two_pow(23) == 0x80_0000);
    lemma_two_pow_add(16, 16);
    assert(two_pow(32) == 0x1_0000_0000);
    lemma_two_pow_add(32, 16);
    assert(two_pow(48) == 0x1_0000_0000_0000);
    lemma_two_pow_add(48, 4);
    assert(two_pow(52) == 0x10_0000_0000_0000);
    lemma_two_pow_add(52, 1);
    assert(two_pow(53) == 0x20_0000_0000_0000);
    lemma_two_pow_add(32, 32);
    assert(two_pow(64) == 0x1_0000_0000_0000_0000);
    lemma_two_pow_add(64, 16);
    assert(two_pow(80) == 0x1_0000_0000_0000_0000_0000);
    lemma_two_pow_add(80, 3);
    assert(two_pow(83) == 0x8_0000_0000_0000_0000_0000);
    lemma_two_pow_add(64, 32);
    assert(two_pow(96) == 0x1_0000_0000_0000_0000_0000_0000);
    lemma_two_pow_add(96, 16);
    assert(two_pow(112) == 0x1_0000_0000_0000_0000_0000_0000_0000);
    lemma_two_pow_add(112, 8);
    assert(two_pow(120) == 0x100_0000_0000_0000_0000_0000_0000_0000);
    lemma_two_pow_add(120, 7);
}

/// # Power of Two.
fn two_pow_u128(k: u32) -> (r: u128)
    requires
        k < 128,
    ensures
        r == two_pow(k as nat),
{
    let mut r: u128 = 1;
    let mut i: u32 = 0;
    while i < k
        invariant
            i <= k < 128,
            r == two_pow(i as nat),
        decreases k - i,
    {
        proof {
            lemma_two_pow_le((i + 1) as nat, 127);
            lemma_two_pow_values();
        }
        r = r * 2;
        i += 1;
    }
    r
}

/// # Round Half to Even.
///
/// `a / d`, rounded to the nearest integer, ties to the even one.
fn round_half_even_u128(a: u128, d: u128) -> (r: u128)
    requires
        d > 0,
        a / d < u128::MAX,
    ensures
        r == round_half_even(a as nat, d as nat),
{
    let q = a / d;
    let rem = a % d;
    if rem > d - rem || (rem == d - rem && q % 2 == 1) {
        q + 1
    } else {
        q
    }
}

/// # Eight Decimal Places.
///
/// `n / 2^k` as an integer part and eight rounded decimal places.
fn fixed8_exec(n: u64, k: u32) -> (r: (u64, u32))
    requires
        n < 0x20_0000_0000_0000,
        1 <= k <= 83,
    ensures
        r.0 == fixed8(n as nat, k as nat).0,
        r.1 == fixed8(n as nat, k as nat).1,
        r.1 <= precision(),
{
    let d = two_pow_u128(k);
    proof {
        lemma_two_pow_le(1, k as nat);
        lemma_two_pow_le(k as nat, 83);
        lemma_two_pow_values();
    }
    let top = (n as u128) / d;
    let rem = (n as u128) % d;
    assert(rem * 100000000 < d * 100000000) by (nonlinear_arith)
        requires
            rem < d,
    ;
    let a = rem * 100000000;
    assert(a / d < 100000000) by (nonlinear_arith)
        requires
            a < d * 100000000,
            d > 0,
    ;
    let b = round_half_even_u128(a, d);
    (top as u64, b as u32)
}

/// A float, as read from its bits.
enum Parsed {
    NaN,
    Infinity,
    Overflow(bool),
    Normal(u64, u32, bool),
}

impl Parsed {
    spec fn model(self) -> FloatModel {
        match self {
            Parsed::NaN => FloatModel::NaN,
            Parsed::Infinity => FloatModel::Infinity,
            Parsed::Overflow(neg) => FloatModel::Overflow(neg),
            Parsed::Normal(top, bottom, neg) => FloatModel::Normal(top as nat, bottom as nat, neg),
        }
    }
}

/// # Read an `f64`.
fn parse64(bits: u64) -> (r: Parsed)
    ensures
        r.model() == model64(bits),
{
    let neg = bits >= 0x8000_0000_0000_0000u64;
    let field = (bits / 0x10_0000_0000_0000u64) % 2048;
    let frac = bits % 0x10_0000_0000_0000u64;
    if field == 2047 {
        if frac != 0 {
            Parsed::NaN
        } else {
            Parsed::Infinity
        }
    } else {
        let mant = frac + 0x10_0000_0000_0000u64;
        if field < 992 {
            Parsed::Normal(0, 0, false)
        } else if field < 1075 {
            let k = (1075 - field) as u32;
            let (t, b) = fixed8_exec(mant, k);
            proof {
                lemma_two_pow_le(1, k as nat);
                assert(t <= mant) by (nonlinear_arith)
                    requires
                        t == mant as nat / two_pow(k as nat),
                        two_pow(k as nat) >= 1,
                ;
            }
            if b == 100000000 {
                Parsed::Normal(t + 1, 0, neg)
            } else {
                Parsed::Normal(t, b, neg)
            }
        } else if field < 1087 {
            let sh = (field - 1075) as u32;
            let p = two_pow_u128(sh);
            proof {
                lemma_two_pow_le(sh as nat, 11);
                lemma_two_pow_values();
                assert(mant * p < 0x1_0000_0000_0000_0000) by (nonlinear_arith)
                    requires
                        mant < 0x20_0000_0000_0000u64,
                        p <= 0x800,
                ;
            }
            Parsed::Normal(((mant as u128) * p) as u64, 0, neg)
        } else {
            Parsed::Overflow(neg)
        }
    }
}

/// # Read an `f32`.
fn parse32(bits: u32) -> (r: Parsed)
    ensures
        r.model() == model32(bits),
{
    let neg = bits >= 0x8000_0000u32;
    let field = (bits / 0x80_0000u32) % 256;
    let frac = bits % 0x80_0000u32;
    if field == 255 {
        if frac != 0 {
            Parsed::NaN
        } else {
            Parsed::Infinity
        }
    } else {
        let mant = (frac + 0x80_0000u32) as u64;
        if field < 96 {
            Parsed::Normal(0, 0, false)
        } else if field < 150 {
            let k = 150 - field;
            let (t, b) = fixed8_exec(mant, k);
            Parsed::Normal(t, b, neg)
        } else if field < 191 {
            let sh = field - 150;
            let p = two_pow_u128(sh);
            proof {
                lemma_two_pow_le(sh as nat, 40);
                lemma_two_pow_values();
                lemma_two_pow_add(32, 8);
                assert(mant * p < 0x1_0000_0000_0000_0000) by (nonlinear_arith)
                    requires
                        mant < 0x100_0000u64,
                        p <= 0x100_0000_0000,
                ;
            }
            Parsed::Normal(((mant as u128) * p) as u64, 0, neg)
        } else {
            Parsed::Overflow(neg)
        }
    }
}

/// At most eight digits of `b`: its leading eight when it has more.
pub open spec fn trim8(b: nat) -> nat {
    if b < 100000000 {
        b
    } else if b < 1000000000 {
        b / 10
    } else {
        b / 100
    }
}

/// The eight decimal places of `b`, zero-padded on the left.
pub open spec fn eight_digits(b: nat) -> Seq<u8> {
    Seq::new(8, |i: int| digit((b / pow10((7 - i) as nat)) % 10))
}

/// A finite float: an optional minus, the integer part with `sep` between
/// groups of three, `dot`, and eight decimal places.
pub open spec fn normal_text(top: nat, bottom: nat, neg: bool, sep: u8, dot: u8) -> Seq<u8> {
    (if neg { seq![45u8] } else { Seq::empty() }) + grouped(top, sep) + seq![dot] + eight_digits(
        trim8(bottom),
    )
}

/// A float past `u64`: `"> 18,446,744,073,709,551,615"`, or
/// `"< -18,446,744,073,709,551,615"` when negative.
pub open spec fn overflow_text(neg: bool, sep: u8) -> Seq<u8> {
    (if neg { seq![60u8, 32u8, 45u8] } else { seq![62u8, 32u8] }) + grouped(
        18446744073709551615,
        sep,
    )
}

/// `"NaN"`.
pub open spec fn nan_text() -> Seq<u8> {
    seq![78u8, 97u8, 78u8]
}

/// `"∞"` in UTF-8.
pub open spec fn infinity_text() -> Seq<u8> {
    seq![226u8, 136u8, 158u8]
}

/// The text of a float model.
pub open spec fn model_text(m: FloatModel, sep: u8, dot: u8) -> Seq<u8> {
    match m {
        FloatModel::NaN => nan_text(),
        FloatModel::Infinity => infinity_text(),
        FloatModel::Overflow(neg) => overflow_text(neg, sep),
        FloatModel::Normal(top, bottom, neg) => normal_text(top, bottom, neg, sep, dot),
    }
}

/// The number of `'0'` bytes ending `s`, counting at most `max`.
pub open spec fn trailing_zeros(s: Seq<u8>, max: nat) -> nat
    decreases max,
{
    if max == 0 || s.len() == 0 || s.last() != 48u8 {
        0
    } else {
        1 + trailing_zeros(s.drop_last(), (max - 1) as nat)
    }
}

/// A formatted finite float without the trailing zeroes of its decimal
/// places, and without the decimal point when all eight are zero.
pub open spec fn compact_text(t: Seq<u8>) -> Seq<u8> {
    let z = trailing_zeros(t, 8);
    if z == 8 {
        t.subrange(0, t.len() - 9)
    } else {
        t.subrange(0, t.len() - z)
    }
}

/// A formatted finite float cut to `p` decimal places (and without its
/// decimal point for none), when `p` is below eight.
pub open spec fn precise_text(t: Seq<u8>, p: nat) -> Seq<u8> {
    if p == 0 {
        t.subrange(0, t.len() - 9)
    } else if p < 8 {
        t.subrange(0, t.len() - 8 + p)
    } else {
        t
    }
}

/// At most `max`, and at most the length, of the bytes are trailing zeroes.
pub proof fn lemma_trailing_zeros_bound(s: Seq<u8>, max: nat)
    ensures
        trailing_zeros(s, max) <= max,
        trailing_zeros(s, max) <= s.len(),
    decreases max,
{
    if max > 0 && s.len() > 0 && s.last() == 48u8 {
        lemma_trailing_zeros_bound(s.drop_last(), (max - 1) as nat);
    }
}

/// Compacting or cutting a finite float's text keeps a prefix of it.
pub proof fn lemma_cut_prefix(t: Seq<u8>, p: nat)
    requires
        t.len() >= 10,
    ensures
        compact_text(t).len() <= t.len(),
        forall|j: int| 0 <= j < compact_text(t).len() ==> #[trigger] compact_text(t)[j] == t[j],
        precise_text(t, p).len() <= t.len(),
        forall|j: int| 0 <= j < precise_text(t, p).len() ==> #[trigger] precise_text(t, p)[j] == t[j],
{
    lemma_trailing_zeros_bound(t, 8);
}

/// # Copy Into.
///
/// Copy `piece` into `buf` at `at`, leaving the rest as it was.
fn copy_into(buf: &mut [u8; 36], at: usize, piece: &[u8])
    requires
        at + piece@.len() <= 36,
    ensures
        final(buf)@ == old(buf)@.subrange(0, at as int) + piece@ + old(buf)@.subrange(
            at + piece@.len(),
            36,
        ),
        all_ascii(old(buf)@) && all_ascii(piece@) ==> all_ascii(final(buf)@),
{
    let mut i: usize = 0;
    while i < piece.len()
        invariant
            i <= piece@.len(),
            at + piece@.len() <= 36,
            buf@.len() == 36,
            buf@ == old(buf)@.subrange(0, at as int) + piece@.subrange(0, i as int) + old(
                buf,
            )@.subrange(at + i, 36),
        decreases piece@.len() - i,
    {
        buf[at + i] = piece[i];
        i += 1;
        assert(buf@ =~= old(buf)@.subrange(0, at as int) + piece@.subrange(0, i as int) + old(
            buf,
        )@.subrange(at + i, 36));
    }
    assert(piece@.subrange(0, i as int) =~= piece@);
    assert(all_ascii(old(buf)@) && all_ascii(piece@) ==> all_ascii(buf@)) by {
        if all_ascii(old(buf)@) && all_ascii(piece@) {
            assert forall|j: int| 0 <= j < 36 implies #[trigger] buf@[j] < 128 by {
                if j < at {
                    assert(buf@[j] == old(buf)@[j]);
                } else if j < at + piece@.len() {
                    assert(buf@[j] == piece@[j - at]);
                } else {
                    assert(buf@[j] == old(buf)@[j]);
                }
            }
        }
    }
}

/// Dividing by a power of ten and then by ten divides by the next power.
proof fn lemma_div_pow10_step(b: nat, m: nat)
    ensures
        (b / pow10(m)) / 10 == b / pow10(m + 1),
        pow10(m) > 0,
{
    crate::traits::btou::lemma_pow10_pos(m);
    vstd::arithmetic::div_mod::lemma_div_denominator(b as int, pow10(m) as int, 10);
    assert(pow10(m + 1) == 10 * pow10(m));
    assert(pow10(m) * 10 == 10 * pow10(m)) by (nonlinear_arith);
}

/// # Eight Digits.
///
/// Write the eight decimal places of `b` at the end of `buf`.
fn write_eight(buf: &mut [u8; 36], b: u32)
    requires
        b < 100000000,
    ensures
        final(buf)@ == old(buf)@.subrange(0, 28) + eight_digits(b as nat),
{
    let mut x: u32 = b;
    let mut i: usize = 8;
    proof {
        assert(pow10(0) == 1);
        assert(b as nat / 1 == b as nat);
    }
    while i > 0
        invariant
            i <= 8,
            buf@.len() == 36,
            x == b as nat / pow10((8 - i) as nat),
            buf@.subrange(0, 28) == old(buf)@.subrange(0, 28),
            buf@.subrange(28 + i, 36) == eight_digits(b as nat).subrange(i as int, 8),
        decreases i,
    {
        i -= 1;
        let ghost before = buf@;
        buf[28 + i] = (x % 10) as u8 + 48;
        proof {
            assert((7 - i) as nat == (8 - (i + 1)) as nat);
            let e = eight_digits(b as nat);
            assert(e[i as int] == digit((x % 10) as nat));
            assert(buf@[28 + i] == e[i as int]);
            assert(before.subrange(28 + i + 1, 36) == e.subrange(i + 1, 8));
            assert forall|k: int| 28 + i + 1 <= k < 36 implies buf@[k] == before[k] by {}
            assert forall|k: int| i + 1 <= k < 8 implies e[k] == #[trigger] before[28 + k] by {
                assert(before.subrange(28 + i + 1, 36)[k - i - 1] == before[28 + k]);
            }
            assert(buf@.subrange(0, 28) =~= before.subrange(0, 28));
            assert forall|j: int| 0 <= j < 8 - i implies #[trigger] buf@.subrange(28 + i, 36)[j]
                == e.subrange(i as int, 8)[j] by {
                if j > 0 {
                    assert(before.subrange(28 + i + 1, 36)[j - 1] == before[28 + i + j]);
                    assert(e.subrange(i + 1, 8)[j - 1] == e[i + j]);
                    assert(buf@[28 + i + j] == before[28 + i + j]);
                }
            }
            assert(buf@.subrange(28 + i, 36) =~= eight_digits(b as nat).subrange(i as int, 8));
            lemma_div_pow10_step(b as nat, (8 - (i + 1)) as nat);
            assert((8 - (i + 1)) as nat + 1 == (8 - i) as nat);
        }
        x = x / 10;
    }
    assert(buf@ =~= buf@.subrange(0, 28) + buf@.subrange(28, 36));
}

/// Digits are ASCII.
proof fn lemma_eight_ascii(b: nat)
    ensures
        all_ascii(eight_digits(b)),
{
    let e = eight_digits(b);
    assert forall|j: int| 0 <= j < 8 implies #[trigger] e[j] < 128 by {
        assert((b / pow10((7 - j) as nat)) % 10 < 10);
    }
}

/// # Fraction.
///
/// A buffer of ASCII zeroes ending with `dot` and the eight decimal places
/// of `b`.
fn fraction_buf(b: u32, dot: u8) -> (r: [u8; 36])
    requires
        b < 100000000,
        dot < 128,
    ensures
        r@.subrange(27, 36) == seq![dot] + eight_digits(b as nat),
        all_ascii(r@),
{
    let mut data = [48u8; 36];
    write_eight(&mut data, b);
    let ghost w = data@;
    data[27] = dot;
    proof {
        lemma_eight_ascii(b as nat);
        assert(w.subrange(28, 36) =~= eight_digits(b as nat));
        assert(data@.subrange(27, 36) =~= seq![dot] + eight_digits(b as nat));
        assert forall|j: int| 0 <= j < 36 implies #[trigger] data@[j] < 128 by {
            if j >= 28 {
                assert(data@[j] == eight_digits(b as nat)[j - 28]);
            } else if j < 27 {
                assert(data@[j] == w[j]);
                assert(w.subrange(0, 28)[j] == w[j]);
            }
        }
    }
    data
}

/// # Trim to Eight Digits.
fn trim8_exec(bottom: u32) -> (r: u32)
    ensures
        r == trim8(bottom as nat),
        r < 100000000,
{
    if bottom < 100000000 {
        bottom
    } else if bottom < 1000000000 {
        bottom / 10
    } else {
        bottom / 100
    }
}

/// # Place the Integer Part.
///
/// Write `g` (and a minus sign, for `neg`) just before the decimal point of
/// `data`, returning the buffer and where the text starts.
fn place_top(data: [u8; 36], g: &[u8], neg: bool) -> (r: ([u8; 36], usize))
    requires
        g@.len() <= 26,
        all_ascii(data@),
        all_ascii(g@),
    ensures
        r.1 <= 36,
        all_ascii(r.0@),
        r.0@.subrange(r.1 as int, 36) == (if neg { seq![45u8] } else { Seq::empty() }) + g@
            + data@.subrange(27, 36),
{
    let mut data = data;
    let ghost mid = data@;
    let at = 27 - g.len();
    copy_into(&mut data, at, g);
    assert(data@.subrange(at as int, 36) =~= g@ + mid.subrange(27, 36));
    if neg {
        let ghost before = data@;
        let from = at - 1;
        data[from] = 45u8;
        assert(data@.subrange(from as int, 36) =~= seq![45u8] + before.subrange(at as int, 36));
        assert forall|j: int| 0 <= j < 36 implies #[trigger] data@[j] < 128 by {
            if j != from {
                assert(data@[j] == before[j]);
            }
        }
        (data, from)
    } else {
        assert(Seq::<u8>::empty() + g@ =~= g@);
        (data, at)
    }
}

/// # Nice Float Buffer.
///
/// The formatted bytes of a finite float (or of an overflow), right-aligned
/// in a fixed buffer.
#[derive(Debug, Clone, Copy)]
pub struct NiceInner {
    data: [u8; 36],
    from: usize,
}

impl View for NiceInner {
    type V = Seq<u8>;

    closed spec fn view(&self) -> Seq<u8> {
        self.data@.subrange(self.from as int, 36)
    }
}

impl NiceInner {
    /// The start is within the buffer, which is ASCII.
    #[verifier::type_invariant]
    spec fn wf(&self) -> bool {
        &&& self.from <= 36
        &&& all_ascii(self.data@)
    }

    /// # Finite Float.
    fn normal(top: u64, bottom: u32, neg: bool, sep: NiceSeparator, dot: NiceSeparator) -> (r: Self)
        ensures
            r@ == normal_text(top as nat, bottom as nat, neg, sep.spec_byte(), dot.spec_byte()),
            r@.len() >= 10,
    {
        let b = trim8_exec(bottom);
        let d = dot.as_byte();
        let data = fraction_buf(b, d);
        let nice = NiceWrapper::<26>::with_separator(top, sep);
        proof {
            lemma_fits_u64(top, sep.spec_byte());
        }
        let (data, from) = place_top(data, nice.as_bytes(), neg);
        proof {
            assert(data@.subrange(from as int, 36) =~= normal_text(
                top as nat,
                bottom as nat,
                neg,
                sep.spec_byte(),
                d,
            ));
        }
        NiceInner { data, from }
    }

    /// # Overflow.
    fn overflow(neg: bool, sep: NiceSeparator) -> (r: Self)
        ensures
            r@ == overflow_text(neg, sep.spec_byte()),
    {
        let nice = NiceWrapper::<26>::with_separator(18446744073709551615u64, sep);
        let g = nice.as_bytes();
        proof {
            lemma_fits_u64(18446744073709551615u64, sep.spec_byte());
        }
        let mut data = [48u8; 36];
        let at = 36 - g.len();
        copy_into(&mut data, at, g);
        let from = if neg {
            data[at - 3] = 60u8;
            data[at - 2] = 32u8;
            data[at - 1] = 45u8;
            at - 3
        } else {
            data[at - 2] = 62u8;
            data[at - 1] = 32u8;
            at - 2
        };
        assert(data@.subrange(from as int, 36) =~= overflow_text(neg, sep.spec_byte()));
        NiceInner { data, from }
    }

    /// # As Bytes.
    fn as_bytes(&self) -> (r: &[u8])
        ensures
            r@ == self@,
            all_ascii(r@),
    {
        proof {
            use_type_invariant(self);
        }
        let (_, out) = self.data.as_slice().split_at(self.from);
        out
    }
}

/// `"∞"` is valid UTF-8.
proof fn lemma_infinity_utf8()
    ensures
        vstd::utf8::valid_utf8(infinity_text()),
{
    let t = infinity_text();
    assert(vstd::utf8::codepoint_width_3(226u8, 136u8, 158u8) == 0x221Eu32) by (bit_vector);
    assert(vstd::utf8::valid_first_scalar(t));
    assert(vstd::utf8::pop_first_scalar(t) =~= Seq::<u8>::empty());
    reveal_with_fuel(vstd::utf8::valid_utf8, 2);
}

/// # Float Kind.
///
/// What a `NiceFloat` holds: a special value, or formatted bytes.
#[derive(Debug, Clone, Copy)]
pub enum FloatKind {
    /// Not a number.
    NaN,
    /// An integer part too big for `u64`.
    Overflow(NiceInner),
    /// A finite value.
    Normal(NiceInner),
    /// Either infinity.
    Infinity,
}

/// # Nice Float.
///
/// A float formatted with thousands separators and eight decimal places,
/// like `"1,234.55012345"`; or `"NaN"`, `"∞"`, or an overflow marker for
/// integer parts past `u64`.
#[derive(Debug, Clone, Copy)]
pub struct NiceFloat(FloatKind);

impl View for NiceFloat {
    type V = Seq<u8>;

    /// The formatted bytes.
    closed spec fn view(&self) -> Seq<u8> {
        match self.0 {
            FloatKind::NaN => nan_text(),
            FloatKind::Infinity => infinity_text(),
            FloatKind::Overflow(n) => n@,
            FloatKind::Normal(n) => n@,
        }
    }
}

impl NiceFloat {
    /// A finite value's text holds the integer part, a point and eight
    /// decimal places.
    #[verifier::type_invariant]
    spec fn wf(&self) -> bool {
        match self.0 {
            FloatKind::Normal(n) => n@.len() >= 10,
            _ => true,
        }
    }

    /// Whether the value is finite (and so has a decimal point).
    pub closed spec fn is_normal(&self) -> bool {
        self.0 is Normal
    }

    /// The instance for a float model, formatted with `sep` and `dot`.
    fn from_parsed(p: Parsed, sep: NiceSeparator, dot: NiceSeparator) -> (r: Self)
        ensures
            r@ == model_text(p.model(), sep.spec_byte(), dot.spec_byte()),
            r.is_normal() == (p.model() is Normal),
    {
        match p {
            Parsed::NaN => NiceFloat(FloatKind::NaN),
            Parsed::Infinity => NiceFloat(FloatKind::Infinity),
            Parsed::Overflow(neg) => NiceFloat(FloatKind::Overflow(NiceInner::overflow(neg, sep))),
            Parsed::Normal(top, bottom, neg) => NiceFloat(
                FloatKind::Normal(NiceInner::normal(top, bottom, neg, sep, dot)),
            ),
        }
    }

    /// # From `f64` Bits.
    ///
    /// The `f64` with the given bits (see `f64::to_bits`), with commas
    /// between thousands and a period for the decimal point.
    pub fn from_bits64(bits: u64) -> (r: Self)
        ensures
            r@ == model_text(model64(bits), 44u8, 46u8),
            r.is_normal() == (model64(bits) is Normal),
    {
        Self::from_parsed(parse64(bits), NiceSeparator::Comma, NiceSeparator::Period)
    }

    /// # From `f32` Bits.
    ///
    /// The `f32` with the given bits (see `f32::to_bits`), with commas
    /// between thousands and a period for the decimal point.
    pub fn from_bits32(bits: u32) -> (r: Self)
        ensures
            r@ == model_text(model32(bits), 44u8, 46u8),
            r.is_normal() == (model32(bits) is Normal),
    {
        Self::from_parsed(parse32(bits), NiceSeparator::Comma, NiceSeparator::Period)
    }

    /// # New Instance w/ Custom Separators.
    ///
    /// The `f64` with the given bits, with `sep` between thousands and `dot`
    /// for the decimal point.
    pub fn with_separator_bits(bits: u64, sep: NiceSeparator, dot: NiceSeparator) -> (r: Self)
        ensures
            r@ == model_text(model64(bits), sep.spec_byte(), dot.spec_byte()),
            r.is_normal() == (model64(bits) is Normal),
    {
        Self::from_parsed(parse64(bits), sep, dot)
    }

    /// # Zero.
    ///
    /// `"0.00000000"`.
    pub fn zero() -> (r: Self)
        ensures
            r@ == normal_text(0, 0, false, 44u8, 46u8),
            r.is_normal(),
    {
        NiceFloat(
            FloatKind::Normal(
                NiceInner::normal(0, 0, false, NiceSeparator::Comma, NiceSeparator::Period),
            ),
        )
    }

    /// # Infinity.
    ///
    /// `"∞"`, for either infinity.
    pub fn infinity() -> (r: Self)
        ensures
            r@ == infinity_text(),
            !r.is_normal(),
    {
        NiceFloat(FloatKind::Infinity)
    }

    /// # NaN.
    ///
    /// `"NaN"`.
    pub fn nan() -> (r: Self)
        ensures
            r@ == nan_text(),
            !r.is_normal(),
    {
        NiceFloat(FloatKind::NaN)
    }

    /// # Overflow.
    ///
    /// The marker for integer parts past `u64`:
    /// `"> 18,446,744,073,709,551,615"`, or with `"< -"` when negative.
    pub fn overflow(neg: bool, sep: NiceSeparator) -> (r: Self)
        ensures
            r@ == overflow_text(neg, sep.spec_byte()),
            !r.is_normal(),
    {
        NiceFloat(FloatKind::Overflow(NiceInner::overflow(neg, sep)))
    }

    /// # Has Dot?
    ///
    /// Whether the value is finite, and so has a decimal point.
    pub fn has_dot(&self) -> (r: bool)
        ensures
            r == self.is_normal(),
            r ==> self@.len() >= 10,
    {
        proof {
            use_type_invariant(self);
        }
        match self.0 {
            FloatKind::Normal(_) => true,
            _ => false,
        }
    }

    /// # As Bytes.
    pub fn as_bytes(&self) -> (r: &[u8])
        ensures
            r@ == self@,
    {
        match &self.0 {
            FloatKind::NaN => {
                let r: &[u8] = &[78u8, 97u8, 78u8];
                assert(r@ =~= nan_text());
                r
            },
            FloatKind::Infinity => {
                let r: &[u8] = &[226u8, 136u8, 158u8];
                assert(r@ =~= infinity_text());
                r
            },
            FloatKind::Overflow(n) => n.as_bytes(),
            FloatKind::Normal(n) => n.as_bytes(),
        }
    }

    /// # As Str.
    pub fn as_str(&self) -> (r: &str)
        ensures
            r.spec_bytes() == self@,
    {
        match &self.0 {
            FloatKind::NaN => {
                let r: &[u8] = &[78u8, 97u8, 78u8];
                assert(r@ =~= nan_text());
                crate::decimal::ascii_str(r)
            },
            FloatKind::Infinity => {
                let r: &[u8] = &[226u8, 136u8, 158u8];
                assert(r@ =~= infinity_text());
                proof {
                    lemma_infinity_utf8();
                }
                crate::decimal::utf8_str(r)
            },
            FloatKind::Overflow(n) => crate::decimal::ascii_str(n.as_bytes()),
            FloatKind::Normal(n) => crate::decimal::ascii_str(n.as_bytes()),
        }
    }

    /// # Is Empty?
    ///
    /// Never: every value has some text.
    pub fn is_empty(&self) -> (r: bool)
        ensures
            r == (self@.len() == 0),
    {
        self.len() == 0
    }

    /// # Length.
    pub fn len(&self) -> (r: usize)
        ensures
            r == self@.len(),
    {
        self.as_bytes().len()
    }

    /// # Compact Bytes.
    ///
    /// A finite value without the trailing zeroes of its decimal places, and
    /// without its decimal point when all are zero. Other values are as
    /// they are.
    pub fn compact_bytes(&self) -> (r: &[u8])
        ensures
            r@ == (if self.is_normal() { compact_text(self@) } else { self@ }),
            r@.len() <= self@.len(),
            r@ == self@.subrange(0, r@.len() as int),
    {
        proof {
            use_type_invariant(self);
            if self.is_normal() {
                lemma_cut_prefix(self@, 0);
                assert(compact_text(self@) =~= self@.subrange(0, compact_text(self@).len() as int));
            } else {
                assert(self@ =~= self@.subrange(0, self@.len() as int));
            }
        }
        let b = self.as_bytes();
        if self.has_dot() {
            let n = b.len();
            let mut z: usize = 0;
            assert(b@.subrange(0, n as int) =~= b@);
            while z < 8 && b[n - 1 - z] == 48u8
                invariant
                    n == b@.len(),
                    n >= 10,
                    z <= 8,
                    trailing_zeros(b@, 8) == z + trailing_zeros(b@.subrange(0, n - z), (8 - z) as nat),
                decreases 8 - z,
            {
                proof {
                    let t = b@.subrange(0, n - z);
                    assert(t.last() == b@[n - 1 - z]);
                    assert(t.drop_last() =~= b@.subrange(0, n - z - 1));
                }
                z += 1;
            }
            proof {
                let t = b@.subrange(0, n - z);
                assert(trailing_zeros(t, (8 - z) as nat) == 0);
                assert(b@.subrange(0, n as int) =~= b@);
            }
            let k = if z == 8 { n - 9 } else { n - z };
            let (out, _) = b.split_at(k);
            out
        } else {
            b
        }
    }

    /// # Compact Str.
    pub fn compact_str(&self) -> (r: &str)
        ensures
            r.spec_bytes() == (if self.is_normal() { compact_text(self@) } else { self@ }),
    {
        if self.has_dot() {
            let b = self.compact_bytes();
            proof {
                use_type_invariant(self);
            }
            match &self.0 {
                FloatKind::Normal(n) => {
                    let full = n.as_bytes();
                    proof {
                        lemma_cut_prefix(full@, 0);
                    }
                    assert forall|j: int| 0 <= j < b@.len() implies #[trigger] b@[j] < 128 by {
                        assert(b@[j] == full@[j]);
                    }
                },
                _ => {},
            }
            crate::decimal::ascii_str(b)
        } else {
            self.as_str()
        }
    }

    /// # Precise Bytes.
    ///
    /// A finite value cut to `precision` decimal places (without its
    /// decimal point for none); precisions of eight or more, and other
    /// values, are as they are.
    pub fn precise_bytes(&self, precision: usize) -> (r: &[u8])
        ensures
            r@ == (if self.is_normal() { precise_text(self@, precision as nat) } else { self@ }),
            r@.len() <= self@.len(),
            r@ == self@.subrange(0, r@.len() as int),
    {
        proof {
            use_type_invariant(self);
            if self.is_normal() {
                lemma_cut_prefix(self@, precision as nat);
                assert(precise_text(self@, precision as nat) =~= self@.subrange(
                    0,
                    precise_text(self@, precision as nat).len() as int,
                ));
            } else {
                assert(self@ =~= self@.subrange(0, self@.len() as int));
            }
        }
        let b = self.as_bytes();
        if self.has_dot() && precision < 8 {
            let n = b.len();
            let k = if precision == 0 { n - 9 } else { n - (8 - precision) };
            let (out, _) = b.split_at(k);
            out
        } else {
            b
        }
    }

    /// # Precise Str.
    pub fn precise_str(&self, precision: usize) -> (r: &str)
        ensures
            r.spec_bytes() == (if self.is_normal() { precise_text(self@, precision as nat) } else { self@ }),
    {
        if self.has_dot() {
            let b = self.precise_bytes(precision);
            proof {
                use_type_invariant(self);
            }
            match &self.0 {
                FloatKind::Normal(n) => {
                    let full = n.as_bytes();
                    proof {
                        lemma_cut_prefix(full@, precision as nat);
                    }
                    assert forall|j: int| 0 <= j < b@.len() implies #[trigger] b@[j] < 128 by {
                        assert(b@[j] == full@[j]);
                    }
                },
                _ => {},
            }
            crate::decimal::ascii_str(b)
        } else {
            self.as_str()
        }
    }
}

impl Default for NiceFloat {
    /// Zero.
    fn default() -> (r: Self)
        ensures
            r@ == normal_text(0, 0, false, 44u8, 46u8),
    {
        Self::zero()
    }
}

impl PartialEq for NiceFloat {
    fn eq(&self, other: &Self) -> (r: bool) {
        crate::nice::wrapper::bytes_eq(self.as_bytes(), other.as_bytes())
    }
}

impl vstd::std_specs::cmp::PartialEqSpecImpl for NiceFloat {
    open spec fn obeys_eq_spec() -> bool {
        true
    }

    open spec fn eq_spec(&self, other: &Self) -> bool {
        self@ == other@
    }
}

impl From<NiceFloat> for String {
    fn from(src: NiceFloat) -> (r: String)
        ensures
            vstd::utf8::encode_utf8(r@) == src@,
    {
        String::from_str(src.as_str())
    }
}

impl vstd::std_specs::convert::FromSpecImpl<NiceFloat> for String {
    open spec fn obeys_from_spec() -> bool {
        false
    }

    open spec fn from_spec(src: NiceFloat) -> String {
        choose|v: String| vstd::utf8::encode_utf8(v@) == src@
    }
}

} // verus!

verus! {

impl core::ops::Deref for NiceFloat {
    type Target = [u8];

    fn deref(&self) -> (r: &[u8])
        ensures
            r@ == self@,
    {
        self.as_bytes()
    }
}

impl AsRef<[u8]> for NiceFloat {
    fn as_ref(&self) -> (r: &[u8])
        ensures
            crate::nice::wrapper::slice_bytes(r) == self@,
    {
        self.as_bytes()
    }
}

impl AsRef<str> for NiceFloat {
    fn as_ref(&self) -> (r: &str)
        ensures
            crate::nice::wrapper::str_bytes(r) == self@,
    {
        self.as_str()
    }
}

impl core::borrow::Borrow<str> for NiceFloat {
    fn borrow(&self) -> (r: &str)
        ensures
            crate::nice::wrapper::str_bytes(r) == self@,
    {
        self.as_str()
    }
}

impl Eq for NiceFloat {}

impl core::hash::Hash for NiceFloat {
    /// Hashes the formatted bytes, as equality compares them.
    fn hash<H: core::hash::Hasher>(&self, state: &mut H) {
        crate::nice::wrapper::hasher_write(state, self.as_bytes());
    }
}

} // verus!

verus! {

impl PartialOrd for NiceFloat {
    /// Values are ordered by their text, as strings are.
    fn partial_cmp(&self, other: &Self) -> (r: Option<core::cmp::Ordering>) {
        proof {
            crate::nice::wrapper::lemma_compare_bytes_range(self@, other@);
        }
        let o = crate::nice::wrapper::order_bytes(self.as_bytes(), other.as_bytes());
        if o < 0 {
            Some(core::cmp::Ordering::Less)
        } else if o == 0 {
            Some(core::cmp::Ordering::Equal)
        } else {
            Some(core::cmp::Ordering::Greater)
        }
    }
}

impl vstd::std_specs::cmp::PartialOrdSpecImpl for NiceFloat {
    open spec fn obeys_partial_cmp_spec() -> bool {
        true
    }

    open spec fn partial_cmp_spec(&self, other: &Self) -> Option<core::cmp::Ordering> {
        Some(crate::nice::wrapper::ordering_of(crate::nice::wrapper::compare_bytes(self@, other@)))
    }
}

} // verus!
