//! Decimal text: the mathematical model of digits, thousands grouping and
//! their values, with the lemmas that relate them.

use vstd::prelude::*;
use vstd::string::StringSliceAdditionalSpecFns;

verus! {

/// The ASCII zero, `b'0'`.
pub const ZERO: u8 = 48u8;

/// Is `b` an ASCII decimal digit?
pub open spec fn is_digit(b: u8) -> bool {
    48 <= b <= 57
}

/// The ASCII character of the decimal digit `d` (`0..=9`).
pub open spec fn digit(d: nat) -> u8 {
    (d + 48) as u8
}

/// The value of an ASCII decimal digit.
pub open spec fn digit_value(b: u8) -> nat {
    (b - 48) as nat
}

/// Every byte of `s` is an ASCII decimal digit.
pub open spec fn all_digits(s: Seq<u8>) -> bool {
    forall|i: int| 0 <= i < s.len() ==> is_digit(#[trigger] s[i])
}

/// Every byte of `s` is ASCII.
pub open spec fn all_ascii(s: Seq<u8>) -> bool {
    forall|i: int| 0 <= i < s.len() ==> #[trigger] s[i] < 128
}

/// `10` to the power `k`.
pub open spec fn pow10(k: nat) -> nat
    decreases k,
{
    if k == 0 { 1 } else { 10 * pow10((k - 1) as nat) }
}

/// The decimal representation of `n`, without leading zeroes (`"0"` for zero).
pub open spec fn dec(n: nat) -> Seq<u8>
    decreases n,
{
    if n < 10 {
        seq![digit(n)]
    } else {
        dec(n / 10).push(digit(n % 10))
    }
}

/// The number that a string of decimal digits spells, most significant
/// digit first. Leading zeroes add nothing; the empty string is zero.
pub open spec fn value(s: Seq<u8>) -> nat
    decreases s.len(),
{
    if s.len() == 0 {
        0
    } else {
        value(s.drop_last()) * 10 + digit_value(s.last())
    }
}

/// The three decimal digits of `r` (`0..1000`), zero-padded.
pub open spec fn pad3(r: nat) -> Seq<u8> {
    seq![digit(r / 100), digit((r / 10) % 10), digit(r % 10)]
}

/// The decimal representation of `n` with `sep` between each group of three
/// digits, counted from the right: `1234567` with `,` is `1,234,567`.
pub open spec fn grouped(n: nat, sep: u8) -> Seq<u8>
    decreases n,
{
    if n < 1000 {
        dec(n)
    } else {
        grouped(n / 1000, sep) + seq![sep] + pad3(n % 1000)
    }
}

/// `s` with every `sep` taken out.
pub open spec fn strip(s: Seq<u8>, sep: u8) -> Seq<u8> {
    s.filter(not_sep(sep))
}

/// The test that keeps every byte but `sep`.
pub open spec fn not_sep(sep: u8) -> spec_fn(u8) -> bool {
    |b: u8| b != sep
}

/// `s` left-padded with ASCII zeroes to at least `width` bytes.
pub open spec fn zero_pad(s: Seq<u8>, width: nat) -> Seq<u8> {
    if s.len() < width {
        Seq::new((width - s.len()) as nat, |i: int| 48u8) + s
    } else {
        s
    }
}

/// The layout of a grouped-number buffer of `len` bytes: ASCII zeroes, with
/// `sep` in every fourth place counted from the right.
pub open spec fn template(len: nat, sep: u8) -> Seq<u8> {
    Seq::new(len, |i: int| if (len - i) % 4 == 0 { sep } else { 48u8 })
}

/// A digit's character is a digit, and gives its value back.
pub proof fn lemma_digit(d: nat)
    requires
        d < 10,
    ensures
        is_digit(digit(d)),
        digit_value(digit(d)) == d,
{
}

/// The representation is made of digits, never starts with a zero unless it
/// is `"0"`, and is one to `k` bytes long when `n < 10^k`.
pub proof fn lemma_dec_shape(n: nat)
    ensures
        all_digits(dec(n)),
        dec(n).len() >= 1,
        n >= 10 ==> dec(n)[0] != 48u8,
        n < 10 ==> dec(n).len() == 1,
    decreases n,
{
    if n >= 10 {
        lemma_dec_shape(n / 10);
        assert(dec(n)[0] == dec(n / 10)[0]);
    }
}

/// `dec(n)` has exactly as many digits as `n` needs.
pub proof fn lemma_dec_len(n: nat, k: nat)
    requires
        k >= 1,
    ensures
        n < pow10(k) <==> dec(n).len() <= k,
    decreases k,
{
    reveal_with_fuel(pow10, 2);
    if k == 1 {
        if n >= 10 {
            lemma_dec_shape(n / 10);
        }
    } else {
        if n >= 10 {
            lemma_dec_len(n / 10, (k - 1) as nat);
            assert(n < pow10(k) <==> n / 10 < pow10((k - 1) as nat)) by (nonlinear_arith)
                requires
                    pow10(k) == 10 * pow10((k - 1) as nat),
            ;
        } else {
            lemma_pow10_ge(k);
        }
    }
}

/// `10^k` is at least `10` when `k >= 1`.
pub proof fn lemma_pow10_ge(k: nat)
    requires
        k >= 1,
    ensures
        pow10(k) >= 10,
    decreases k,
{
    reveal_with_fuel(pow10, 2);
    if k > 1 {
        lemma_pow10_ge((k - 1) as nat);
    }
}

/// Reading back the representation of `n` gives `n`.
pub proof fn lemma_value_dec(n: nat)
    ensures
        value(dec(n)) == n,
    decreases n,
{
    reveal_with_fuel(value, 2);
    if n < 10 {
        lemma_digit(n);
        assert(dec(n).drop_last() =~= Seq::<u8>::empty());
    } else {
        lemma_value_dec(n / 10);
        lemma_digit(n % 10);
        assert(dec(n).drop_last() =~= dec(n / 10));
        assert(dec(n).last() == digit(n % 10));
        assert(n == (n / 10) * 10 + n % 10);
    }
}

/// Leading zeroes do not change the value of a digit string.
pub proof fn lemma_value_leading_zeroes(z: Seq<u8>, s: Seq<u8>)
    requires
        forall|i: int| 0 <= i < z.len() ==> z[i] == 48u8,
    ensures
        value(z + s) == value(s),
    decreases s.len(),
{
    if s.len() == 0 {
        assert(z + s =~= z);
        lemma_value_zeroes(z);
    } else {
        assert((z + s).drop_last() =~= z + s.drop_last());
        lemma_value_leading_zeroes(z, s.drop_last());
    }
}

/// A string of zeroes is worth zero.
pub proof fn lemma_value_zeroes(z: Seq<u8>)
    requires
        forall|i: int| 0 <= i < z.len() ==> z[i] == 48u8,
    ensures
        value(z) == 0,
    decreases z.len(),
{
    if z.len() > 0 {
        lemma_value_zeroes(z.drop_last());
    }
}

/// The value of a concatenation: the left part is shifted by the length of
/// the right part.
pub proof fn lemma_value_concat(a: Seq<u8>, b: Seq<u8>)
    ensures
        value(a + b) == value(a) * pow10(b.len()) + value(b),
    decreases b.len(),
{
    if b.len() == 0 {
        assert(a + b =~= a);
        assert(value(b) == 0);
        assert(pow10(0) == 1);
        assert(value(a) * 1 == value(a));
    } else {
        assert((a + b).drop_last() =~= a + b.drop_last());
        assert((a + b).last() == b.last());
        lemma_value_concat(a, b.drop_last());
        let p = pow10((b.len() - 1) as nat);
        assert(pow10(b.len()) == 10 * p);
        assert(value(a + b) == value(a + b.drop_last()) * 10 + digit_value(b.last()));
        assert(value(b) == value(b.drop_last()) * 10 + digit_value(b.last()));
        assert((value(a) * p + value(b.drop_last())) * 10 + digit_value(b.last()) == value(a) * (10
            * p) + (value(b.drop_last()) * 10 + digit_value(b.last()))) by (nonlinear_arith);
    }
}

/// A digit string of `k` digits is worth less than `10^k`.
pub proof fn lemma_value_bound(s: Seq<u8>)
    requires
        all_digits(s),
    ensures
        value(s) < pow10(s.len()),
    decreases s.len(),
{
    if s.len() > 0 {
        lemma_value_bound(s.drop_last());
        let p = pow10((s.len() - 1) as nat);
        assert(is_digit(s[s.len() - 1]));
        assert(value(s.drop_last()) * 10 + digit_value(s.last()) < 10 * p) by (nonlinear_arith)
            requires
                value(s.drop_last()) < p,
                digit_value(s.last()) < 10,
        ;
    }
}

/// The three digits of the last group of `n >= 1000`.
pub proof fn lemma_dec_split(n: nat)
    requires
        n >= 1000,
    ensures
        dec(n) == dec(n / 1000) + pad3(n % 1000),
{
    let r = n % 1000;
    assert(n / 10 >= 100);
    assert(n / 100 >= 10);
    assert((n / 10) / 10 == n / 100) by (nonlinear_arith);
    assert((n / 100) / 10 == n / 1000) by (nonlinear_arith);
    assert((n / 100) % 10 == r / 100) by (nonlinear_arith)
        requires
            r == n % 1000,
    ;
    assert((n / 10) % 10 == (r / 10) % 10) by (nonlinear_arith)
        requires
            r == n % 1000,
    ;
    assert(n % 10 == r % 10) by (nonlinear_arith)
        requires
            r == n % 1000,
    ;
    assert(dec(n / 10) == dec(n / 100).push(digit((n / 10) % 10)));
    assert(dec(n / 100) == dec(n / 1000).push(digit((n / 100) % 10)));
    assert(dec(n) =~= dec(n / 1000) + pad3(r));
}

/// Grouping adds one separator for each full group of three digits past the
/// first digits.
pub proof fn lemma_grouped_len(n: nat, sep: u8)
    ensures
        grouped(n, sep).len() == dec(n).len() + (dec(n).len() - 1) / 3,
    decreases n,
{
    lemma_dec_shape(n);
    if n < 1000 {
        reveal_with_fuel(pow10, 4);
        lemma_dec_len(n, 3);
    } else {
        lemma_grouped_len(n / 1000, sep);
        lemma_dec_split(n);
        lemma_dec_shape(n / 1000);
        let d = dec(n / 1000).len();
        assert(dec(n).len() == d + 3);
        assert(grouped(n, sep).len() == grouped(n / 1000, sep).len() + 4);
        assert((d + 2) / 3 == (d - 1) / 3 + 1);
        assert(grouped(n / 1000, sep).len() == d + (d - 1) / 3);
        assert((d + 3) + (d + 3 - 1) / 3 == d + (d - 1) / 3 + 4);
    }
}

/// Grouped text of a number below `10^k` takes at most `k` digits and their
/// separators.
pub proof fn lemma_grouped_fits(n: nat, k: nat, sep: u8)
    requires
        k >= 1,
        n < pow10(k),
    ensures
        grouped(n, sep).len() <= k + (k - 1) / 3,
{
    lemma_dec_len(n, k);
    lemma_grouped_len(n, sep);
    lemma_dec_shape(n);
    let d = dec(n).len();
    assert((d - 1) / 3 <= (k - 1) / 3);
}

/// Grouped text is ASCII when the separator is.
pub proof fn lemma_grouped_ascii(n: nat, sep: u8)
    requires
        sep < 128,
    ensures
        all_ascii(grouped(n, sep)),
    decreases n,
{
    lemma_dec_shape(n);
    if n >= 1000 {
        lemma_grouped_ascii(n / 1000, sep);
        let r = n % 1000;
        assert(r / 100 < 10 && (r / 10) % 10 < 10);
        let g = grouped(n, sep);
        let a = grouped(n / 1000, sep);
        assert forall|i: int| 0 <= i < g.len() implies #[trigger] g[i] < 128 by {
            if i < a.len() {
                assert(g[i] == a[i]);
            }
        }
    }
}

/// Taking the separators out of grouped text gives the plain decimal
/// representation back, as long as the separator is not a digit.
pub proof fn lemma_strip_grouped(n: nat, sep: u8)
    requires
        !is_digit(sep),
    ensures
        strip(grouped(n, sep), sep) == dec(n),
    decreases n,
{
    lemma_dec_shape(n);
    if n < 1000 {
        lemma_strip_digits(dec(n), sep);
    } else {
        lemma_strip_grouped(n / 1000, sep);
        lemma_dec_split(n);
        lemma_strip_group(grouped(n / 1000, sep), n % 1000, sep);
    }
}

/// Taking the separators out of `a`, a separator and three digits.
proof fn lemma_strip_group(a: Seq<u8>, r: nat, sep: u8)
    requires
        !is_digit(sep),
        r < 1000,
    ensures
        strip(a + seq![sep] + pad3(r), sep) == strip(a, sep) + pad3(r),
{
    let f = not_sep(sep);
    Seq::filter_distributes_over_add(a + seq![sep], pad3(r), f);
    Seq::filter_distributes_over_add(a, seq![sep], f);
    assert(seq![sep].filter(f) =~= Seq::<u8>::empty()) by {
        reveal_with_fuel(Seq::<_>::filter, 2);
        assert(seq![sep].drop_last() =~= Seq::<u8>::empty());
    }
    assert(r / 100 < 10 && (r / 10) % 10 < 10);
    assert(all_digits(pad3(r)));
    lemma_strip_digits(pad3(r), sep);
    assert(a.filter(f) + Seq::<u8>::empty() =~= a.filter(f));
}

/// A run of digits has no separator in it to take out.
pub proof fn lemma_strip_digits(s: Seq<u8>, sep: u8)
    requires
        !is_digit(sep),
        all_digits(s),
    ensures
        strip(s, sep) == s,
    decreases s.len(),
{
    reveal_with_fuel(Seq::<_>::filter, 1);
    if s.len() > 0 {
        lemma_strip_digits(s.drop_last(), sep);
        assert(is_digit(s[s.len() - 1]));
        assert(s.drop_last().push(s.last()) =~= s);
    }
}

/// Zero-padding a number of at most three digits to three gives its three
/// digits.
pub proof fn lemma_pad3_dec(n: nat)
    requires
        n < 1000,
    ensures
        zero_pad(dec(n), 3) == pad3(n),
{
    if n < 10 {
        assert(zero_pad(dec(n), 3) =~= pad3(n));
    } else if n < 100 {
        assert(dec(n / 10) == seq![digit(n / 10)]);
        assert(zero_pad(dec(n), 3) =~= pad3(n));
    } else {
        assert(n / 10 >= 10);
        assert((n / 10) / 10 == n / 100) by (nonlinear_arith);
        assert(dec(n / 100) == seq![digit(n / 100)]);
        assert(dec(n / 10) == dec(n / 100).push(digit((n / 10) % 10)));
        assert(dec(n) == dec(n / 10).push(digit(n % 10)));
        assert(dec(n) =~= seq![digit(n / 100), digit((n / 10) % 10), digit(n % 10)]);
        assert(zero_pad(dec(n), 3) =~= pad3(n));
    }
}

/// ASCII bytes are valid UTF-8.
pub proof fn lemma_ascii_utf8(s: Seq<u8>)
    requires
        all_ascii(s),
    ensures
        vstd::utf8::valid_utf8(s),
    decreases s.len(),
{
    if s.len() > 0 {
        assert(vstd::utf8::pop_first_scalar(s) =~= s.subrange(1, s.len() as int));
        lemma_ascii_utf8(s.subrange(1, s.len() as int));
    }
}

/// # Text From ASCII Bytes.
///
/// Calls `std::str::from_utf8`, whose documentation says that it returns the
/// bytes reinterpreted as a string slice whenever they are valid UTF-8 (and an
/// error otherwise). The contract claims exactly that: for valid UTF-8 input
/// the string's bytes are the input bytes.
#[verifier::external_body]
pub(crate) fn utf8_str(bytes: &[u8]) -> (s: &str)
    requires
        vstd::utf8::valid_utf8(bytes@),
    ensures
        s.spec_bytes() == bytes@,
{
    match std::str::from_utf8(bytes) {
        Ok(s) => s,
        Err(_) => "",
    }
}

/// A string slice over ASCII bytes.
pub fn ascii_str(bytes: &[u8]) -> (s: &str)
    requires
        all_ascii(bytes@),
    ensures
        s.spec_bytes() == bytes@,
{
    proof {
        lemma_ascii_utf8(bytes@);
    }
    utf8_str(bytes)
}

} // verus!
