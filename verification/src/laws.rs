//! Properties that tie the library's functions together.

use crate::decimal::{
    all_digits, dec, digit, grouped, is_digit, lemma_dec_shape, lemma_strip_grouped,
    lemma_value_dec, lemma_value_leading_zeroes, pow10, strip, value,
};
use crate::nice::digiter::digit_count;
use crate::nice::float::{
    compact_text, eight_digits, lemma_two_pow_add, lemma_two_pow_le, lemma_two_pow_values, model32,
    model64, normal_text, precise_text, precision, round_half_even, trailing_zeros, trim8, two_pow,
    FloatModel,
};
use crate::traits::btou::parse_unsigned;
use crate::traits::hex::{all_hex, hex_value, parse_hex_spec, is_hex};
use crate::traits::saturating::clamp;
use crate::traits::BytesToUnsigned;
use vstd::prelude::*;

verus! {

/// Reading the decimal text of a number gives the number back, whatever the
/// bound, as long as the number is within it.
pub proof fn law_parse_dec(n: nat, max: nat)
    requires
        n <= max,
    ensures
        parse_unsigned(dec(n), max) == Some(n),
{
    lemma_dec_shape(n);
    lemma_value_dec(n);
}

/// The text of a `NiceU64` read back by `u64::btou`, once its separators are
/// taken out, is the number it was made from.
pub proof fn law_nice_u64_reads_back(n: u64, sep: u8)
    requires
        !is_digit(sep),
    ensures
        <u64 as BytesToUnsigned>::spec_btou(strip(grouped(n as nat, sep), sep)) == Some(n),
{
    lemma_strip_grouped(n as nat, sep);
    law_parse_dec(n as nat, 18446744073709551615);
}

/// Two numbers with the same grouped text are the same number.
pub proof fn law_grouped_injective(n: nat, m: nat, sep: u8)
    requires
        !is_digit(sep),
        grouped(n, sep) == grouped(m, sep),
    ensures
        n == m,
{
    lemma_strip_grouped(n, sep);
    lemma_strip_grouped(m, sep);
    lemma_value_dec(n);
    lemma_value_dec(m);
}

/// Leading zeroes do not change what a decimal parse gives.
pub proof fn law_parse_leading_zeroes(z: Seq<u8>, s: Seq<u8>, max: nat)
    requires
        forall|i: int| 0 <= i < z.len() ==> z[i] == 48u8,
        s.len() > 0,
    ensures
        parse_unsigned(z + s, max) == parse_unsigned(s, max),
{
    lemma_value_leading_zeroes(z, s);
    let zs = z + s;
    if all_digits(s) {
        assert forall|i: int| 0 <= i < zs.len() implies #[trigger] is_digit(zs[i]) by {
            if i < z.len() {
                assert(zs[i] == z[i]);
            } else {
                assert(zs[i] == s[i - z.len()]);
            }
        }
    } else {
        let j = choose|j: int| 0 <= j < s.len() && !is_digit(#[trigger] s[j]);
        assert(zs[j + z.len()] == s[j]);
    }
}

/// Leading zeroes do not change what a hexadecimal parse gives.
pub proof fn law_hex_leading_zeroes(z: Seq<u8>, s: Seq<u8>, max: nat)
    requires
        forall|i: int| 0 <= i < z.len() ==> z[i] == 48u8,
        s.len() > 0,
    ensures
        parse_hex_spec(z + s, max) == parse_hex_spec(s, max),
{
    crate::traits::hex::lemma_hex_value_concat(z, s);
    lemma_hex_zeroes(z);
    let zs = z + s;
    if all_hex(s) {
        assert forall|i: int| 0 <= i < zs.len() implies #[trigger] is_hex(zs[i]) by {
            if i < z.len() {
                assert(zs[i] == z[i]);
            } else {
                assert(zs[i] == s[i - z.len()]);
            }
        }
    } else {
        let j = choose|j: int| 0 <= j < s.len() && !is_hex(#[trigger] s[j]);
        assert(zs[j + z.len()] == s[j]);
    }
}

/// A string of zeroes is worth zero in hexadecimal too.
proof fn lemma_hex_zeroes(z: Seq<u8>)
    requires
        forall|i: int| 0 <= i < z.len() ==> z[i] == 48u8,
    ensures
        hex_value(z) == 0,
    decreases z.len(),
{
    if z.len() > 0 {
        lemma_hex_zeroes(z.drop_last());
    }
}

/// A saturating conversion leaves a value that fits as it is, and otherwise
/// gives the nearer bound.
pub proof fn law_clamp(v: int, lo: int, hi: int)
    requires
        lo <= hi,
    ensures
        lo <= clamp(v, lo, hi) <= hi,
        lo <= v <= hi ==> clamp(v, lo, hi) == v,
        v < lo ==> clamp(v, lo, hi) == lo,
        v > hi ==> clamp(v, lo, hi) == hi,
{
}

/// A finite float whose eight decimal places are all zero compacts to its
/// integer part, the same as cutting it to no places.
pub proof fn law_compact_whole(top: nat, bottom: nat, neg: bool, sep: u8, dot: u8)
    requires
        trim8(bottom) == 0,
    ensures
        compact_text(normal_text(top, bottom, neg, sep, dot)) == precise_text(
            normal_text(top, bottom, neg, sep, dot),
            0,
        ),
        compact_text(normal_text(top, bottom, neg, sep, dot)) == (if neg {
            seq![45u8]
        } else {
            Seq::empty()
        }) + grouped(top, sep),
{
    let t = normal_text(top, bottom, neg, sep, dot);
    let e = eight_digits(0);
    assert forall|i: int| 0 <= i < 8 implies e[i] == 48u8 by {
        crate::traits::btou::lemma_pow10_pos((7 - i) as nat);
    }
    assert(trailing_zeros(t, 8) == 8) by {
        reveal_with_fuel(trailing_zeros, 9);
        let n = t.len();
        assert(t.subrange(n - 8, n as int) =~= e);
        assert forall|j: int| n - 8 <= j < n implies t[j] == 48u8 by {
            assert(t[j] == e[j - (n - 8)]);
        }
        assert(t.drop_last() =~= t.subrange(0, n - 1));
        assert(t.drop_last().drop_last() =~= t.subrange(0, n - 2));
        assert(t.subrange(0, n - 2).drop_last() =~= t.subrange(0, n - 3));
        assert(t.subrange(0, n - 3).drop_last() =~= t.subrange(0, n - 4));
        assert(t.subrange(0, n - 4).drop_last() =~= t.subrange(0, n - 5));
        assert(t.subrange(0, n - 5).drop_last() =~= t.subrange(0, n - 6));
        assert(t.subrange(0, n - 6).drop_last() =~= t.subrange(0, n - 7));
        assert(t.subrange(0, n - 7).drop_last() =~= t.subrange(0, n - 8));
    }
    assert(t.subrange(0, t.len() - 9) =~= (if neg { seq![45u8] } else { Seq::empty() }) + grouped(
        top,
        sep,
    ));
}

/// The digits that a `Digiter` hands out, least significant first.
pub open spec fn digits_lsd(n: nat) -> Seq<u8>
    decreases n,
{
    if n == 0 {
        Seq::empty()
    } else {
        seq![crate::decimal::digit(n % 10)] + digits_lsd(n / 10)
    }
}

/// The digits a `Digiter` hands out, reversed, are the decimal text of its
/// number, and there are as many as its length says.
pub proof fn law_digiter_reverse(n: nat)
    requires
        n > 0,
    ensures
        digits_lsd(n).reverse() == dec(n),
        digits_lsd(n).len() == digit_count(n),
    decreases n,
{
    if n >= 10 {
        law_digiter_reverse(n / 10);
        let rest = digits_lsd(n / 10);
        assert(digits_lsd(n).reverse() =~= rest.reverse().push(crate::decimal::digit(n % 10)));
    } else {
        assert(digits_lsd(0) == Seq::<u8>::empty());
        assert(n / 10 == 0);
        assert(digit_count(0) == 0);
        assert(digit_count(n) == 1);
        assert(digits_lsd(n).reverse() =~= seq![crate::decimal::digit(n)]);
    }
}

/// The last `k` decimal digits of `b`, zero-padded, most significant first.
pub open spec fn last_digits(b: nat, k: nat) -> Seq<u8> {
    Seq::new(k, |i: int| digit((b / pow10((k - 1 - i) as nat)) % 10))
}

/// The last `k` digits of `b` are worth `b` modulo `10^k`.
pub proof fn law_last_digits_value(b: nat, k: nat)
    ensures
        all_digits(last_digits(b, k)),
        value(last_digits(b, k)) == b % pow10(k),
    decreases k,
{
    crate::traits::btou::lemma_pow10_pos(k);
    let s = last_digits(b, k);
    assert forall|i: int| 0 <= i < k implies #[trigger] is_digit(s[i]) by {
        crate::traits::btou::lemma_pow10_pos((k - 1 - i) as nat);
        assert((b / pow10((k - 1 - i) as nat)) % 10 < 10);
    }
    if k == 0 {
        assert(b % 1 == 0);
    } else {
        let m = (k - 1) as nat;
        law_last_digits_value(b / 10, m);
        let t = last_digits(b / 10, m);
        assert(s.drop_last() =~= t) by {
            assert forall|i: int| 0 <= i < m implies s[i] == t[i] by {
                let e = (m - 1 - i) as nat;
                crate::traits::btou::lemma_pow10_pos(e);
                vstd::arithmetic::div_mod::lemma_div_denominator(b as int, 10, pow10(e) as int);
                assert((k - 1 - i) as nat == e + 1);
                assert(pow10(e + 1) == 10 * pow10(e));
            }
        }
        assert(s.last() == digit(b % 10)) by {
            assert((k - 1 - (k - 1)) as nat == 0);
            assert(pow10(0) == 1);
            assert(b / 1 == b);
        }
        crate::decimal::lemma_digit(b % 10);
        crate::traits::btou::lemma_pow10_pos(m);
        vstd::arithmetic::div_mod::lemma_mod_breakdown(b as int, 10, pow10(m) as int);
        assert(pow10(k) == 10 * pow10(m));
        assert(value(s) == value(s.drop_last()) * 10 + crate::decimal::digit_value(s.last()));
        assert(value(s) == (b / 10) % pow10(m) * 10 + b % 10);
        assert(((b / 10) % pow10(m)) * 10 == 10 * ((b / 10) % pow10(m))) by (nonlinear_arith);
    }
}

/// The eight decimal places of a finite float read back as the number of
/// hundred-millionths they were made from.
pub proof fn law_fraction_reads_back(b: nat)
    requires
        b < 100000000,
    ensures
        all_digits(eight_digits(b)),
        value(eight_digits(b)) == b,
{
    law_last_digits_value(b, 8);
    assert(eight_digits(b) =~= last_digits(b, 8));
    reveal_with_fuel(pow10, 9);
    assert(pow10(8) == 100000000);
}

/// Different shares below the whole read differently as percentages.
pub proof fn law_percent_injective(a: nat, b: nat)
    requires
        a < 10000,
        b < 10000,
        crate::nice::percent::percent_text(a) == crate::nice::percent::percent_text(b),
    ensures
        a == b,
{
    let ta = crate::nice::percent::percent_text(a);
    let da = dec(a / 100);
    let db = dec(b / 100);
    lemma_dec_shape(a / 100);
    lemma_dec_shape(b / 100);
    assert(da.len() == db.len()) by {
        assert(ta.len() == da.len() + 4);
    }
    assert(da =~= db) by {
        assert forall|i: int| 0 <= i < da.len() implies da[i] == db[i] by {
            assert(ta[i] == da[i]);
            assert(crate::nice::percent::percent_text(b)[i] == db[i]);
        }
    }
    lemma_value_dec(a / 100);
    lemma_value_dec(b / 100);
    let n = da.len() as int;
    assert(ta[n + 1] == digit((a % 100) / 10));
    assert(crate::nice::percent::percent_text(b)[n + 1] == digit((b % 100) / 10));
    assert(ta[n + 2] == digit((a % 100) % 10));
    assert(crate::nice::percent::percent_text(b)[n + 2] == digit((b % 100) % 10));
    crate::nice::clock::lemma_two_injective(a % 100, b % 100);
}

/// A clock's hours, minutes and seconds add back up to the seconds it
/// shows, and the clock of those seconds reads the same.
pub proof fn law_clock_parts(t: nat)
    requires
        t < 86400,
    ensures
        (t / 3600) * 3600 + ((t / 60) % 60) * 60 + t % 60 == t,
        crate::nice::time::day_clamp(t) == t,
{
    crate::nice::time::law_hms_total(t);
}

/// The decimal text of a signed number: a minus sign before the digits of
/// its magnitude when negative.
pub open spec fn signed_dec(x: int) -> Seq<u8> {
    if x < 0 {
        seq![45u8] + dec((-x) as nat)
    } else {
        dec(x as nat)
    }
}

/// Reading the signed decimal text of a number within the bounds gives the
/// number back.
pub proof fn law_parse_signed_reads_back(x: int, min: int, max: int)
    requires
        min <= x <= max,
    ensures
        crate::traits::btoi::parse_signed(signed_dec(x), min, max) == Some(x),
{
    if x < 0 {
        let m = (-x) as nat;
        lemma_dec_shape(m);
        lemma_value_dec(m);
        assert((seq![45u8] + dec(m)).drop_first() =~= dec(m));
    } else {
        let m = x as nat;
        lemma_dec_shape(m);
        lemma_value_dec(m);
        assert(is_digit(dec(m)[0]));
    }
}

/// The hexadecimal digit of `d` (`0..16`), in upper or lower case.
pub open spec fn hex_char(d: nat, upper: bool) -> u8 {
    if d < 10 {
        (48 + d) as u8
    } else if upper {
        (55 + d) as u8
    } else {
        (87 + d) as u8
    }
}

/// The hexadecimal text of `n`, without leading zeroes (`"0"` for zero).
pub open spec fn hex_text(n: nat, upper: bool) -> Seq<u8>
    decreases n,
{
    if n < 16 {
        seq![hex_char(n, upper)]
    } else {
        hex_text(n / 16, upper).push(hex_char(n % 16, upper))
    }
}

/// Hexadecimal text is made of hexadecimal digits and is worth its number.
pub proof fn lemma_hex_text(n: nat, upper: bool)
    ensures
        all_hex(hex_text(n, upper)),
        hex_value(hex_text(n, upper)) == n,
        hex_text(n, upper).len() > 0,
    decreases n,
{
    reveal_with_fuel(hex_value, 2);
    let t = hex_text(n, upper);
    if n < 16 {
        assert(t.drop_last() =~= Seq::<u8>::empty());
    } else {
        lemma_hex_text(n / 16, upper);
        assert(t.drop_last() =~= hex_text(n / 16, upper));
        assert forall|i: int| 0 <= i < t.len() implies #[trigger] is_hex(t[i]) by {
            if i < t.len() - 1 {
                assert(t[i] == hex_text(n / 16, upper)[i]);
            }
        }
    }
}

/// Hexadecimal text of a number within the bound, in either case and with
/// any number of leading zeroes, parses back to the number.
pub proof fn law_hex_reads_back(n: nat, upper: bool, zeros: nat, max: nat)
    requires
        n <= max,
    ensures
        parse_hex_spec(Seq::new(zeros, |i: int| 48u8) + hex_text(n, upper), max) == Some(n),
{
    lemma_hex_text(n, upper);
    law_hex_leading_zeroes(Seq::new(zeros, |i: int| 48u8), hex_text(n, upper), max);
}

/// `u64::htou` reads back the hexadecimal text of any `u64`, in either case
/// and with leading zeroes.
pub proof fn law_u64_htou_reads_back(n: u64, upper: bool, zeros: nat)
    ensures
        <u64 as crate::traits::HexToUnsigned>::spec_htou(
            Seq::new(zeros, |i: int| 48u8) + hex_text(n as nat, upper),
        ) == Some(n),
{
    law_hex_reads_back(n as nat, upper, zeros, 18446744073709551615);
}

/// `round_half_even(a, d)` is within half a unit of `a / d`.
proof fn lemma_round_half_even_near(a: nat, d: nat)
    requires
        d > 0,
    ensures
        2 * (round_half_even(a, d) * d) <= 2 * a + d,
        2 * a <= 2 * (round_half_even(a, d) * d) + d,
{
    let q = a / d;
    let r = a % d;
    vstd::arithmetic::div_mod::lemma_fundamental_div_mod(a as int, d as int);
    vstd::arithmetic::div_mod::lemma_mod_bound(a as int, d as int);
    let b = round_half_even(a, d);
    if 2 * r > d || (2 * r == d && q % 2 == 1) {
        assert(b == q + 1);
        assert(b * d == q * d + d) by (nonlinear_arith)
            requires
                b == q + 1,
        ;
    } else {
        assert(b == q);
    }
    assert(a == q * d + r) by (nonlinear_arith)
        requires
            a == d * q + r,
    ;
}

/// The exact value of a finite `f32`, times `2^150`: its significand (with
/// the implicit leading one, unless the float is subnormal) scaled by two to
/// the power of its exponent field.
pub open spec fn f32_scaled(bits: u32) -> nat {
    let field = ((bits / 0x80_0000u32) % 256) as nat;
    let frac = (bits % 0x80_0000u32) as nat;
    if field == 0 {
        2 * frac
    } else {
        (frac + 0x80_0000) * two_pow(field)
    }
}

/// A finite `f32` whose integer part fits a `u64` is shown as an integer
/// part and eight decimal places whose value, `top + bottom / 10^8`, lies
/// within half a hundred-millionth of the float's exact magnitude; a value
/// that is not shown as zero carries the float's sign. Both values are
/// compared times `10^8 * 2^150`, which makes them whole numbers.
pub proof fn law_f32_nearest(bits: u32)
    requires
        (bits / 0x80_0000u32) % 256 < 191,
    ensures
        model32(bits) matches FloatModel::Normal(top, bottom, neg) && ({
            let shown = (top * precision() + bottom) * two_pow(150);
            let exact = precision() * f32_scaled(bits);
            &&& bottom < precision()
            &&& 2 * shown <= 2 * exact + two_pow(150)
            &&& 2 * exact <= 2 * shown + two_pow(150)
            &&& (top + bottom > 0 ==> neg == (bits >= 0x8000_0000u32))
        }),
{
    let field = ((bits / 0x80_0000u32) % 256) as nat;
    let frac = (bits % 0x80_0000u32) as nat;
    let mant = frac + 0x80_0000;
    let p = precision();
    let v = f32_scaled(bits);
    lemma_two_pow_values();
    if field < 96 {
        assert(v < 0x100_0000 * two_pow(95)) by {
            lemma_two_pow_le(0, 95);
            if field > 0 {
                lemma_two_pow_le(field, 95);
                assert(mant * two_pow(field) < 0x100_0000 * two_pow(95)) by (nonlinear_arith)
                    requires
                        mant < 0x100_0000,
                        two_pow(field) <= two_pow(95),
                        two_pow(95) >= 1,
                ;
            }
        }
        lemma_two_pow_add(24, 95);
        lemma_two_pow_add(28, 119);
        lemma_two_pow_le(147, 150);
        lemma_two_pow_add(24, 4);
        reveal_with_fuel(two_pow, 5);
        assert(2 * (p * v) <= two_pow(150)) by (nonlinear_arith)
            requires
                v < two_pow(24) * two_pow(95),
                two_pow(119) == two_pow(24) * two_pow(95),
                two_pow(147) == two_pow(28) * two_pow(119),
                two_pow(28) == two_pow(24) * two_pow(4),
                two_pow(24) == 0x100_0000,
                two_pow(4) == 16,
                two_pow(147) <= two_pow(150),
                p == 100000000,
        ;
        assert(model32(bits) == FloatModel::Normal(0, 0, false));
        assert((0 * p + 0) * two_pow(150) == 0) by (nonlinear_arith);
    } else if field < 150 {
        let k = (150 - field) as nat;
        let d = two_pow(k);
        let f = two_pow(field);
        lemma_two_pow_add(k, field);
        lemma_two_pow_le(0, k);
        lemma_two_pow_le(0, field);
        assert(k + field == 150);
        let top = mant / d;
        let rem = mant % d;
        let b = round_half_even(rem * p, d);
        vstd::arithmetic::div_mod::lemma_fundamental_div_mod(mant as int, d as int);
        vstd::arithmetic::div_mod::lemma_mod_bound(mant as int, d as int);
        lemma_round_half_even_near(rem * p, d);
        assert(model32(bits) == FloatModel::Normal(top, b, bits >= 0x8000_0000u32));
        assert(2 * ((top * p + b) * two_pow(150)) <= 2 * (p * v) + two_pow(150) && 2 * (p * v)
            <= 2 * ((top * p + b) * two_pow(150)) + two_pow(150)) by (nonlinear_arith)
            requires
                2 * (b * d) <= 2 * (rem * p) + d,
                2 * (rem * p) <= 2 * (b * d) + d,
                mant == d * top + rem,
                v == mant * f,
                two_pow(150) == d * f,
                f >= 1,
        ;
        if k <= 27 {
            lemma_two_pow_le(k, 27);
            lemma_two_pow_add(24, 3);
            reveal_with_fuel(two_pow, 4);
            assert(b < p) by (nonlinear_arith)
                requires
                    2 * (b * d) <= 2 * (rem * p) + d,
                    rem < d,
                    d <= two_pow(27),
                    two_pow(27) == two_pow(24) * two_pow(3),
                    two_pow(24) == 0x100_0000,
                    two_pow(3) == 8,
                    p == 100000000,
            ;
        } else {
            lemma_two_pow_le(28, k);
            lemma_two_pow_add(24, 4);
            reveal_with_fuel(two_pow, 5);
            assert(rem <= mant) by {
                vstd::arithmetic::div_mod::lemma_mod_decreases(mant, d);
            }
            assert(b < p) by (nonlinear_arith)
                requires
                    2 * (b * d) <= 2 * (rem * p) + d,
                    rem < 0x100_0000,
                    d >= two_pow(28),
                    two_pow(28) == two_pow(24) * two_pow(4),
                    two_pow(24) == 0x100_0000,
                    two_pow(4) == 16,
                    p == 100000000,
            ;
        }
    } else {
        let sh = (field - 150) as nat;
        lemma_two_pow_add(sh, 150);
        assert(sh + 150 == field);
        let top = mant * two_pow(sh);
        assert(model32(bits) == FloatModel::Normal(top, 0, bits >= 0x8000_0000u32));
        assert((top * p + 0) * two_pow(150) == p * v) by (nonlinear_arith)
            requires
                top == mant * two_pow(sh),
                v == mant * two_pow(field),
                two_pow(field) == two_pow(sh) * two_pow(150),
        ;
    }
}

/// The exact value of a finite `f64`, times `2^1075`: its significand (with
/// the implicit leading one, unless the float is subnormal) scaled by two to
/// the power of its exponent field.
pub open spec fn f64_scaled(bits: u64) -> nat {
    let field = ((bits / 0x10_0000_0000_0000u64) % 2048) as nat;
    let frac = (bits % 0x10_0000_0000_0000u64) as nat;
    if field == 0 {
        2 * frac
    } else {
        (frac + 0x10_0000_0000_0000) * two_pow(field)
    }
}

/// A finite `f64` whose integer part fits a `u64` is shown as an integer
/// part and eight decimal places whose value, `top + bottom / 10^8`, lies
/// within half a hundred-millionth of the float's exact magnitude; a value
/// that is not shown as zero carries the float's sign. Both values are
/// compared times `10^8 * 2^1075`, which makes them whole numbers.
pub proof fn law_f64_nearest(bits: u64)
    requires
        (bits / 0x10_0000_0000_0000u64) % 2048 < 1087,
    ensures
        model64(bits) matches FloatModel::Normal(top, bottom, neg) && ({
            let shown = (top * precision() + bottom) * two_pow(1075);
            let exact = precision() * f64_scaled(bits);
            &&& bottom < precision()
            &&& 2 * shown <= 2 * exact + two_pow(1075)
            &&& 2 * exact <= 2 * shown + two_pow(1075)
            &&& (top + bottom > 0 ==> neg == (bits >= 0x8000_0000_0000_0000u64))
        }),
{
    let field = ((bits / 0x10_0000_0000_0000u64) % 2048) as nat;
    let frac = (bits % 0x10_0000_0000_0000u64) as nat;
    let mant = frac + 0x10_0000_0000_0000;
    let p = precision();
    let v = f64_scaled(bits);
    let neg = bits >= 0x8000_0000_0000_0000u64;
    lemma_two_pow_values();
    if field < 992 {
        assert(v < 0x20_0000_0000_0000 * two_pow(991)) by {
            lemma_two_pow_le(0, 991);
            if field > 0 {
                lemma_two_pow_le(field, 991);
                assert(mant * two_pow(field) < 0x20_0000_0000_0000 * two_pow(991)) by (nonlinear_arith)
                    requires
                        mant < 0x20_0000_0000_0000,
                        two_pow(field) <= two_pow(991),
                        two_pow(991) >= 1,
                ;
            }
        }
        lemma_two_pow_add(53, 991);
        lemma_two_pow_add(28, 1044);
        lemma_two_pow_le(1072, 1075);
        lemma_two_pow_add(24, 4);
        reveal_with_fuel(two_pow, 5);
        assert(2 * (p * v) <= two_pow(1075)) by (nonlinear_arith)
            requires
                v < two_pow(53) * two_pow(991),
                two_pow(1044) == two_pow(53) * two_pow(991),
                two_pow(1072) == two_pow(28) * two_pow(1044),
                two_pow(28) == two_pow(24) * two_pow(4),
                two_pow(24) == 0x100_0000,
                two_pow(4) == 16,
                two_pow(1072) <= two_pow(1075),
                p == 100000000,
        ;
        assert(model64(bits) == FloatModel::Normal(0, 0, false));
        assert((0 * p + 0) * two_pow(1075) == 0) by (nonlinear_arith);
    } else if field < 1075 {
        let k = (1075 - field) as nat;
        let d = two_pow(k);
        let f = two_pow(field);
        lemma_two_pow_add(k, field);
        lemma_two_pow_le(0, k);
        lemma_two_pow_le(0, field);
        assert(k + field == 1075);
        let top = mant / d;
        let rem = mant % d;
        let b = round_half_even(rem * p, d);
        vstd::arithmetic::div_mod::lemma_fundamental_div_mod(mant as int, d as int);
        vstd::arithmetic::div_mod::lemma_mod_bound(mant as int, d as int);
        lemma_round_half_even_near(rem * p, d);
        assert(2 * ((top * p + b) * two_pow(1075)) <= 2 * (p * v) + two_pow(1075)
            && 2 * (p * v) <= 2 * ((top * p + b) * two_pow(1075)) + two_pow(1075)) by (nonlinear_arith)
            requires
                2 * (b * d) <= 2 * (rem * p) + d,
                2 * (rem * p) <= 2 * (b * d) + d,
                mant == d * top + rem,
                v == mant * f,
                two_pow(1075) == d * f,
                f >= 1,
        ;
        assert(b <= p) by (nonlinear_arith)
            requires
                2 * (b * d) <= 2 * (rem * p) + d,
                rem < d,
                p == 100000000,
        ;
        if b == p {
            assert(model64(bits) == FloatModel::Normal(top + 1, 0, neg));
            assert((top + 1) * p + 0 == top * p + b) by (nonlinear_arith)
                requires
                    b == p,
            ;
        } else {
            assert(model64(bits) == FloatModel::Normal(top, b, neg));
        }
    } else {
        let sh = (field - 1075) as nat;
        lemma_two_pow_add(sh, 1075);
        assert(sh + 1075 == field);
        let top = mant * two_pow(sh);
        assert(model64(bits) == FloatModel::Normal(top, 0, neg));
        assert((top * p + 0) * two_pow(1075) == p * v) by (nonlinear_arith)
            requires
                top == mant * two_pow(sh),
                v == mant * two_pow(field),
                two_pow(field) == two_pow(sh) * two_pow(1075),
        ;
    }
}

/// An `f32` is shown as not-a-number or infinity exactly when IEEE-754 makes
/// it so, and a finite one as past `u64` exactly when its magnitude reaches
/// `2^64`, with the float's sign.
pub proof fn law_f32_kind(bits: u32)
    ensures
        model32(bits) is NaN <==> ((bits / 0x80_0000u32) % 256 == 255 && bits % 0x80_0000u32 != 0),
        model32(bits) is Infinity <==> ((bits / 0x80_0000u32) % 256 == 255 && bits % 0x80_0000u32
            == 0),
        (bits / 0x80_0000u32) % 256 < 255 ==> (model32(bits) is Overflow <==> f32_scaled(bits)
            >= two_pow(214)),
        model32(bits) matches FloatModel::Overflow(neg) ==> neg == (bits >= 0x8000_0000u32),
{
    let field = ((bits / 0x80_0000u32) % 256) as nat;
    let frac = (bits % 0x80_0000u32) as nat;
    let mant = frac + 0x80_0000;
    lemma_two_pow_values();
    if field < 255 {
        if field >= 191 {
            lemma_two_pow_le(191, field);
            lemma_two_pow_add(23, 191);
            assert(mant * two_pow(field) >= two_pow(23) * two_pow(191)) by (nonlinear_arith)
                requires
                    mant >= two_pow(23),
                    two_pow(field) >= two_pow(191),
            ;
        } else {
            lemma_two_pow_add(24, 190);
            lemma_two_pow_le(0, 190);
            lemma_two_pow_le(24, 214);
            if field > 0 {
                lemma_two_pow_le(field, 190);
                assert(mant * two_pow(field) < two_pow(24) * two_pow(190)) by (nonlinear_arith)
                    requires
                        mant < two_pow(24),
                        two_pow(field) <= two_pow(190),
                        two_pow(190) >= 1,
                ;
            }
        }
    }
}

/// An `f64` is shown as not-a-number or infinity exactly when IEEE-754 makes
/// it so, and a finite one as past `u64` exactly when its magnitude reaches
/// `2^64`, with the float's sign.
pub proof fn law_f64_kind(bits: u64)
    ensures
        model64(bits) is NaN <==> ((bits / 0x10_0000_0000_0000u64) % 2048 == 2047 && bits
            % 0x10_0000_0000_0000u64 != 0),
        model64(bits) is Infinity <==> ((bits / 0x10_0000_0000_0000u64) % 2048 == 2047 && bits
            % 0x10_0000_0000_0000u64 == 0),
        (bits / 0x10_0000_0000_0000u64) % 2048 < 2047 ==> (model64(bits) is Overflow <==> f64_scaled(
            bits,
        ) >= two_pow(1139)),
        model64(bits) matches FloatModel::Overflow(neg) ==> neg == (bits >= 0x8000_0000_0000_0000u64),
{
    let field = ((bits / 0x10_0000_0000_0000u64) % 2048) as nat;
    let frac = (bits % 0x10_0000_0000_0000u64) as nat;
    let mant = frac + 0x10_0000_0000_0000;
    lemma_two_pow_values();
    if field < 2047 {
        if field >= 1087 {
            lemma_two_pow_le(1087, field);
            lemma_two_pow_add(52, 1087);
            assert(mant * two_pow(field) >= two_pow(52) * two_pow(1087)) by (nonlinear_arith)
                requires
                    mant >= two_pow(52),
                    two_pow(field) >= two_pow(1087),
            ;
        } else {
            lemma_two_pow_add(53, 1086);
            lemma_two_pow_le(0, 1086);
            lemma_two_pow_le(53, 1139);
            if field > 0 {
                lemma_two_pow_le(field, 1086);
                assert(mant * two_pow(field) < two_pow(53) * two_pow(1086)) by (nonlinear_arith)
                    requires
                        mant < two_pow(53),
                        two_pow(field) <= two_pow(1086),
                        two_pow(1086) >= 1,
                ;
            }
        }
    }
}

/// Two zero-padded digits read back as their number.
proof fn lemma_two_value(x: nat)
    requires
        x < 100,
    ensures
        all_digits(crate::nice::clock::two(x)),
        value(crate::nice::clock::two(x)) == x,
{
    let t = crate::nice::clock::two(x);
    crate::decimal::lemma_digit(x / 10);
    crate::decimal::lemma_digit(x % 10);
    assert(t.drop_last() =~= seq![digit(x / 10)]);
    assert(seq![digit(x / 10)].drop_last() =~= Seq::<u8>::empty());
    reveal_with_fuel(value, 3);
    assert forall|i: int| 0 <= i < t.len() implies #[trigger] is_digit(t[i]) by {}
}

/// A clock reads as hours, minutes and seconds, two digits each between
/// colons, that add back up to the seconds it was made from.
pub proof fn law_clock_reads_back(c: nat)
    requires
        c < 86400,
    ensures
        crate::nice::clock::clock_text(c).len() == 8,
        crate::nice::clock::clock_text(c)[2] == 58u8,
        crate::nice::clock::clock_text(c)[5] == 58u8,
        all_digits(crate::nice::clock::clock_text(c).subrange(0, 2)),
        all_digits(crate::nice::clock::clock_text(c).subrange(3, 5)),
        all_digits(crate::nice::clock::clock_text(c).subrange(6, 8)),
        value(crate::nice::clock::clock_text(c).subrange(0, 2)) < 24,
        value(crate::nice::clock::clock_text(c).subrange(3, 5)) < 60,
        value(crate::nice::clock::clock_text(c).subrange(6, 8)) < 60,
        value(crate::nice::clock::clock_text(c).subrange(0, 2)) * 3600 + value(
            crate::nice::clock::clock_text(c).subrange(3, 5),
        ) * 60 + value(crate::nice::clock::clock_text(c).subrange(6, 8)) == c,
{
    let t = crate::nice::clock::clock_text(c);
    crate::nice::time::law_hms_total(c);
    assert(c / 3600 < 24) by (nonlinear_arith)
        requires
            c < 86400,
    ;
    lemma_two_value(c / 3600);
    lemma_two_value((c / 60) % 60);
    lemma_two_value(c % 60);
    assert(t.subrange(0, 2) =~= crate::nice::clock::two(c / 3600));
    assert(t.subrange(3, 5) =~= crate::nice::clock::two((c / 60) % 60));
    assert(t.subrange(6, 8) =~= crate::nice::clock::two(c % 60));
}

/// A percentage below the whole reads as a whole number of percent, a
/// point, two decimal places and `%`, which together give back the
/// hundredths of a percent it was made from.
pub proof fn law_percent_reads_back(bp: nat)
    requires
        bp < 10000,
    ensures
        ({
            let t = crate::nice::percent::percent_text(bp);
            let n = t.len() as int;
            &&& n >= 5
            &&& t[n - 4] == 46u8
            &&& t[n - 1] == 37u8
            &&& all_digits(t.subrange(0, n - 4))
            &&& all_digits(t.subrange(n - 3, n - 1))
            &&& value(t.subrange(0, n - 4)) * 100 + value(t.subrange(n - 3, n - 1)) == bp
        }),
{
    let t = crate::nice::percent::percent_text(bp);
    let w = dec(bp / 100);
    lemma_dec_shape(bp / 100);
    lemma_value_dec(bp / 100);
    lemma_two_value(bp % 100);
    let n = t.len() as int;
    assert(n == w.len() + 4);
    assert(t.subrange(0, n - 4) =~= w);
    assert(t.subrange(n - 3, n - 1) =~= crate::nice::clock::two(bp % 100));
}

/// The text of a finite float reads back as the number it shows: after an
/// optional minus, the integer part with its separators taken out is the
/// decimal text of `top`, and the eight places after `dot` are worth
/// `bottom` hundred-millionths.
pub proof fn law_normal_text_reads_back(top: nat, bottom: nat, neg: bool, sep: u8, dot: u8)
    requires
        bottom < precision(),
        !is_digit(sep),
    ensures
        ({
            let t = normal_text(top, bottom, neg, sep, dot);
            let n = t.len() as int;
            let sign: Seq<u8> = if neg { seq![45u8] } else { Seq::empty() };
            &&& n >= 10
            &&& t[n - 9] == dot
            &&& t.subrange(0, n - 9) == sign + grouped(top, sep)
            &&& value(strip(t.subrange(sign.len() as int, n - 9), sep)) == top
            &&& all_digits(t.subrange(n - 8, n))
            &&& value(t.subrange(n - 8, n)) == bottom
        }),
{
    let sign: Seq<u8> = if neg { seq![45u8] } else { Seq::empty() };
    let g = grouped(top, sep);
    let e = eight_digits(bottom);
    assert(g.len() >= 1) by {
        crate::decimal::lemma_grouped_len(top, sep);
        lemma_dec_shape(top);
    }
    assert(value(strip(g, sep)) == top) by {
        lemma_strip_grouped(top, sep);
        lemma_value_dec(top);
    }
    assert(all_digits(e) && value(e) == bottom) by {
        law_fraction_reads_back(bottom);
    }
    assert(trim8(bottom) == bottom);
    let a = sign + g;
    let t = a + seq![dot] + e;
    assert(t == normal_text(top, bottom, neg, sep, dot));
    assert(e.len() == 8);
    let n = t.len() as int;
    assert(n == a.len() + 9);
    assert(t.subrange(0, n - 9) =~= a);
    assert(t.subrange(sign.len() as int, n - 9) =~= g);
    assert(t.subrange(n - 8, n) =~= e);
}

} // verus!
