//! The fixed-size buffer behind `NiceU8`, `NiceU16`, `NiceU32` and
//! `NiceU64`, and the writer that fills it.

use crate::decimal::{
    all_ascii, ascii_str, dec, digit, grouped, lemma_dec_len, lemma_dec_shape, lemma_grouped_ascii,
    lemma_grouped_len, pad3, pow10, template,
};
use vstd::prelude::*;
use vstd::string::StringExecFns;
use vstd::string::StringSliceAdditionalSpecFns;

verus! {

/// # Nice Unsigned.
///
/// A fixed `S`-byte buffer whose tail, from `from` on, holds the formatted
/// number. This is the common body of [`NiceU8`](crate::NiceU8),
/// [`NiceU16`](crate::NiceU16), [`NiceU32`](crate::NiceU32) and
/// [`NiceU64`](crate::NiceU64).
#[derive(Debug, Clone, Copy)]
pub struct NiceWrapper<const S: usize> {
    pub(crate) inner: [u8; S],
    pub(crate) from: usize,
}

/// The bytes of an array.
pub open spec fn array_bytes<const S: usize>(a: [u8; S]) -> Seq<u8> {
    a@
}

/// Lexicographic comparison of two byte strings: `-1`, `0` or `1`.
pub open spec fn compare_bytes(a: Seq<u8>, b: Seq<u8>) -> int
    decreases a.len(),
{
    if a.len() == 0 {
        if b.len() == 0 { 0 } else { -1 }
    } else if b.len() == 0 {
        1
    } else if a[0] < b[0] {
        -1
    } else if a[0] > b[0] {
        1
    } else {
        compare_bytes(a.drop_first(), b.drop_first())
    }
}

/// Comparison gives `-1`, `0` or `1`.
pub proof fn lemma_compare_bytes_range(a: Seq<u8>, b: Seq<u8>)
    ensures
        compare_bytes(a, b) == -1 || compare_bytes(a, b) == 0 || compare_bytes(a, b) == 1,
    decreases a.len(),
{
    if a.len() > 0 && b.len() > 0 {
        lemma_compare_bytes_range(a.drop_first(), b.drop_first());
    }
}

/// # Order Bytes.
///
/// Compare two byte strings as strings are ordered: `-1`, `0` or `1`.
pub fn order_bytes(a: &[u8], b: &[u8]) -> (r: i8)
    ensures
        r == compare_bytes(a@, b@),
{
    let mut i: usize = 0;
    assert(a@.subrange(0, a@.len() as int) =~= a@);
    assert(b@.subrange(0, b@.len() as int) =~= b@);
    while i < a.len() && i < b.len()
        invariant
            i <= a.len(),
            i <= b.len(),
            compare_bytes(a@, b@) == compare_bytes(a@.subrange(i as int, a@.len() as int),
                b@.subrange(i as int, b@.len() as int)),
        decreases a.len() - i,
    {
        let ghost sa = a@.subrange(i as int, a@.len() as int);
        let ghost sb = b@.subrange(i as int, b@.len() as int);
        if a[i] < b[i] {
            return -1;
        }
        if a[i] > b[i] {
            return 1;
        }
        assert(sa.drop_first() =~= a@.subrange(i + 1, a@.len() as int));
        assert(sb.drop_first() =~= b@.subrange(i + 1, b@.len() as int));
        i += 1;
    }
    let ghost sa = a@.subrange(i as int, a@.len() as int);
    let ghost sb = b@.subrange(i as int, b@.len() as int);
    if a.len() == b.len() {
        assert(sa.len() == 0 && sb.len() == 0);
        0
    } else if i == a.len() {
        assert(sa.len() == 0 && sb.len() > 0);
        -1
    } else {
        assert(sa.len() > 0 && sb.len() == 0);
        1
    }
}

/// # Bytes Equal?
///
/// Whether two byte strings are the same.
pub fn bytes_eq(a: &[u8], b: &[u8]) -> (r: bool)
    ensures
        r == (a@ == b@),
{
    if a.len() != b.len() {
        assert(a@.len() != b@.len());
        return false;
    }
    let mut i: usize = 0;
    while i < a.len()
        invariant
            a.len() == b.len(),
            i <= a.len(),
            forall|j: int| 0 <= j < i ==> a@[j] == b@[j],
        decreases a.len() - i,
    {
        if a[i] != b[i] {
            assert(a@[i as int] != b@[i as int]);
            return false;
        }
        i += 1;
    }
    assert(a@ =~= b@);
    true
}

/// The whole buffer of a grouped number: the layout's padding, then the
/// grouped digits.
pub open spec fn nice_buffer(len: nat, n: nat, sep: u8) -> Seq<u8> {
    template(len, sep).subrange(0, len - grouped(n, sep).len()) + grouped(n, sep)
}

impl<const S: usize> View for NiceWrapper<S> {
    type V = Seq<u8>;

    /// The formatted bytes.
    closed spec fn view(&self) -> Seq<u8> {
        self.inner@.subrange(self.from as int, S as int)
    }
}

impl<const S: usize> NiceWrapper<S> {
    /// The buffer is ASCII and the start lies within it.
    #[verifier::type_invariant]
    pub(crate) closed spec fn wf(&self) -> bool {
        &&& self.from <= S
        &&& all_ascii(self.inner@)
    }

    /// The whole backing buffer, padding included.
    pub closed spec fn buffer(&self) -> Seq<u8> {
        self.inner@
    }

    /// Where the formatted bytes start within the buffer.
    pub closed spec fn start(&self) -> nat {
        self.from as nat
    }

    /// The formatted bytes are the buffer from the start on.
    pub proof fn lemma_view(&self)
        ensures
            self@ == self.buffer().subrange(self.start() as int, S as int),
            self.buffer().len() == S,
    {
    }

    /// The instance with the given buffer and start.
    pub closed spec fn with_buffer(buf: Seq<u8>, from: nat) -> Self {
        NiceWrapper { inner: choose|a: [u8; S]| #[trigger] array_bytes(a) == buf, from: from as usize }
    }

    /// An instance is determined by its buffer and start.
    pub proof fn lemma_with_buffer(&self)
        ensures
            *self == Self::with_buffer(self.buffer(), self.start()),
    {
        assert(array_bytes(self.inner) == self.inner@);
        let a = choose|a: [u8; S]| #[trigger] array_bytes(a) == self.inner@;
        assert(a@ == self.inner@);
        assert(a =~= self.inner) by {
            assert forall|i: int| 0 <= i < S implies a[i] == self.inner[i] by {
                assert(a@[i] == self.inner@[i]);
            }
        }
    }

    /// # From Parts.
    ///
    /// An instance over a given ASCII buffer and start.
    pub(crate) fn from_parts(inner: [u8; S], from: usize) -> (r: Self)
        requires
            from <= S,
            all_ascii(inner@),
        ensures
            r.buffer() == inner@,
            r.start() == from,
    {
        Self { inner, from }
    }

    /// # Start.
    ///
    /// Where the formatted bytes start within the buffer.
    pub(crate) fn start_index(&self) -> (r: usize)
        ensures
            r == self.start(),
            r <= S,
            all_ascii(self.buffer()),
            self.buffer().len() == S,
    {
        proof {
            use_type_invariant(self);
        }
        self.from
    }

    /// # Buffer.
    ///
    /// The whole backing buffer, padding included.
    pub(crate) fn buffer_slice(&self) -> (r: &[u8])
        ensures
            r@ == self.buffer(),
            all_ascii(r@),
            r@.len() == S,
    {
        proof {
            use_type_invariant(self);
        }
        self.inner.as_slice()
    }

    /// # As Bytes.
    ///
    /// Return the value as a byte string.
    pub fn as_bytes(&self) -> (r: &[u8])
        ensures
            r@ == self@,
            all_ascii(r@),
    {
        proof {
            use_type_invariant(self);
        }
        let (_, out) = self.inner.as_slice().split_at(self.from);
        out
    }

    /// # As Str.
    ///
    /// Return the value as a string slice.
    pub fn as_str(&self) -> (r: &str)
        ensures
            r.spec_bytes() == self@,
    {
        proof {
            use_type_invariant(self);
        }
        let b = self.as_bytes();
        assert(all_ascii(b@));
        ascii_str(b)
    }

    /// # Is Empty?
    pub fn is_empty(&self) -> (r: bool)
        ensures
            r == (self@.len() == 0),
    {
        proof {
            use_type_invariant(self);
        }
        S <= self.from
    }

    /// # Length.
    ///
    /// The length of the formatted value in bytes.
    pub fn len(&self) -> (r: usize)
        ensures
            r == self@.len(),
            r <= S,
    {
        proof {
            use_type_invariant(self);
        }
        S - self.from
    }

    /// # Order.
    ///
    /// Compare the formatted bytes of two values as strings are ordered:
    /// `-1`, `0` or `1`.
    pub fn order(&self, other: &Self) -> (r: i8)
        ensures
            r == compare_bytes(self@, other@),
    {
        order_bytes(self.as_bytes(), other.as_bytes())
    }

    /// # Compare.
    ///
    /// Order two values by their formatted bytes, as strings are ordered.
    pub fn cmp(&self, other: &Self) -> (r: core::cmp::Ordering)
        ensures
            r == core::cmp::Ordering::Less <==> compare_bytes(self@, other@) == -1,
            r == core::cmp::Ordering::Equal <==> compare_bytes(self@, other@) == 0,
            r == core::cmp::Ordering::Greater <==> compare_bytes(self@, other@) == 1,
    {
        let o = self.order(other);
        proof {
            lemma_compare_bytes_range(self@, other@);
        }
        if o < 0 {
            core::cmp::Ordering::Less
        } else if o == 0 {
            core::cmp::Ordering::Equal
        } else {
            core::cmp::Ordering::Greater
        }
    }

    /// # Empty.
    ///
    /// An instance that holds no formatted bytes at all.
    pub fn empty() -> (r: Self)
        ensures
            r@.len() == 0,
            r.buffer() == template(S as nat, 44u8),
            r.start() == S,
    {
        let inner = new_template::<S>(44u8);
        let r = Self { inner, from: S };
        proof {
            lemma_template_ascii(S as nat, 44u8);
        }
        r
    }
}

impl<const S: usize> NiceWrapper<S> {
    /// The separator of a grouped buffer: its fourth byte from the right.
    pub open spec fn separator(&self) -> u8 {
        self.buffer()[S - 4]
    }

    /// # New Grouped.
    ///
    /// `num` with `sep` between groups of three digits, over the separator
    /// template.
    pub(crate) fn new_grouped(num: u64, sep: u8) -> (r: Self)
        requires
            grouped(num as nat, sep).len() <= S,
            sep < 128,
            S >= 4,
        ensures
            r@ == grouped(num as nat, sep),
            r.buffer() == nice_buffer(S as nat, num as nat, sep),
            r.start() == S - grouped(num as nat, sep).len(),
            r.separator() == sep,
    {
        let mut inner = new_template::<S>(sep);
        let ghost t = inner@;
        let from = write_grouped(&mut inner, num, sep);
        proof {
            lemma_grouped_ascii(num as nat, sep);
            lemma_template_ascii(S as nat, sep);
            let g = grouped(num as nat, sep);
            assert(inner@ =~= t.subrange(0, from as int) + g);
            assert(all_ascii(inner@)) by {
                assert forall|i: int| 0 <= i < S implies #[trigger] inner@[i] < 128 by {
                    if i < from {
                        assert(inner@[i] == t[i]);
                    } else {
                        assert(inner@[i] == g[i - from]);
                    }
                }
            }
            lemma_grouped_separator(num as nat, sep);
            if from > S - 4 {
            } else {
                assert(inner@[S - 4] == g[S - 4 - from]);
            }
        }
        Self { inner, from }
    }

    /// # Replace Grouped.
    ///
    /// Write `num` over the buffer with the buffer's own separator.
    pub(crate) fn replace_grouped(&mut self, num: u64)
        requires
            S >= 4,
            grouped(num as nat, old(self).separator()).len() <= S,
        ensures
            final(self)@ == grouped(num as nat, old(self).separator()),
            final(self).separator() == old(self).separator(),
            final(self).start() == S - grouped(num as nat, old(self).separator()).len(),
    {
        proof {
            use_type_invariant(&*self);
        }
        let sep = self.inner[S - 4];
        let ghost before = self.inner@;
        let mut inner = self.inner;
        let from = write_grouped(&mut inner, num, sep);
        proof {
            lemma_grouped_ascii(num as nat, sep);
            let g = grouped(num as nat, sep);
            let after = inner@;
            assert(after =~= before.subrange(0, from as int) + g);
            assert(all_ascii(after)) by {
                assert forall|i: int| 0 <= i < S implies #[trigger] after[i] < 128 by {
                    if i < from {
                        assert(after[i] == before[i]);
                    } else {
                        assert(after[i] == g[i - from]);
                    }
                }
            }
            lemma_grouped_separator(num as nat, sep);
            if from > S - 4 {
                assert(after[S - 4] == before[S - 4]);
            } else {
                assert(after[S - 4] == g[S - 4 - from]);
            }
        }
        *self = Self { inner, from };
    }
}

/// Grouped text of at least four bytes has the separator fourth from the
/// right.
pub proof fn lemma_grouped_separator(n: nat, sep: u8)
    ensures
        grouped(n, sep).len() >= 4 ==> grouped(n, sep)[grouped(n, sep).len() - 4] == sep,
        grouped(n, sep).len() >= 4 <==> n >= 1000,
{
    lemma_grouped_len(n, sep);
    lemma_dec_shape(n);
    reveal_with_fuel(pow10, 4);
    lemma_dec_len(n, 3);
    if n >= 1000 {
        let a = grouped(n / 1000, sep);
        assert(grouped(n, sep) == a + seq![sep] + pad3(n % 1000));
        assert(grouped(n, sep)[a.len() as int] == sep);
    }
}

impl<const S: usize> PartialEq for NiceWrapper<S> {
    fn eq(&self, other: &Self) -> (r: bool) {
        bytes_eq(self.as_bytes(), other.as_bytes())
    }
}

impl<const S: usize> vstd::std_specs::cmp::PartialEqSpecImpl for NiceWrapper<S> {
    open spec fn obeys_eq_spec() -> bool {
        true
    }

    open spec fn eq_spec(&self, other: &Self) -> bool {
        self@ == other@
    }
}

impl<const S: usize> From<NiceWrapper<S>> for Vec<u8> {
    fn from(src: NiceWrapper<S>) -> (r: Vec<u8>)
        ensures
            r@ == src@,
    {
        vstd::slice::slice_to_vec(src.as_bytes())
    }
}

impl<const S: usize> vstd::std_specs::convert::FromSpecImpl<NiceWrapper<S>> for Vec<u8> {
    open spec fn obeys_from_spec() -> bool {
        false
    }

    open spec fn from_spec(src: NiceWrapper<S>) -> Vec<u8> {
        choose|v: Vec<u8>| v@ == src@
    }
}

impl<const S: usize> From<NiceWrapper<S>> for String {
    fn from(src: NiceWrapper<S>) -> (r: String)
        ensures
            vstd::utf8::encode_utf8(r@) == src@,
    {
        String::from_str(src.as_str())
    }
}

impl<const S: usize> vstd::std_specs::convert::FromSpecImpl<NiceWrapper<S>> for String {
    open spec fn obeys_from_spec() -> bool {
        false
    }

    open spec fn from_spec(src: NiceWrapper<S>) -> String {
        choose|v: String| vstd::utf8::encode_utf8(v@) == src@
    }
}

/// The template of an ASCII separator is ASCII.
pub proof fn lemma_template_ascii(len: nat, sep: u8)
    requires
        sep < 128,
    ensures
        all_ascii(template(len, sep)),
{
}

/// # Template.
///
/// A buffer of ASCII zeroes with `sep` in every fourth place from the right.
pub(crate) fn new_template<const S: usize>(sep: u8) -> (r: [u8; S])
    ensures
        r@ == template(S as nat, sep),
{
    let mut r = [48u8; S];
    let mut i: usize = 0;
    while i < S
        invariant
            i <= S,
            r@.len() == S,
            forall|j: int| 0 <= j < i ==> r@[j] == template(S as nat, sep)[j],
            forall|j: int| i <= j < S ==> r@[j] == 48u8,
        decreases S - i,
    {
        if (S - i) % 4 == 0 {
            r[i] = sep;
        }
        i += 1;
    }
    assert(r@ =~= template(S as nat, sep));
    r
}

/// # Write Grouped.
///
/// Write `n` with thousands separators to the end of `buf`, leaving the bytes
/// before it as they were, and return where it starts.
pub(crate) fn write_grouped<const S: usize>(buf: &mut [u8; S], n: u64, sep: u8) -> (from: usize)
    requires
        grouped(n as nat, sep).len() <= S,
    ensures
        from == S - grouped(n as nat, sep).len(),
        final(buf)@.subrange(from as int, S as int) == grouped(n as nat, sep),
        final(buf)@.subrange(0, from as int) == old(buf)@.subrange(0, from as int),
        final(buf)@.len() == S,
{
    let ghost g = grouped(n as nat, sep);
    let ghost start = old(buf)@;
    let mut pos: usize = S;
    let mut m: u64 = n;
    while m >= 1000
        invariant
            pos <= S,
            buf@.len() == S,
            g == grouped(m as nat, sep) + buf@.subrange(pos as int, S as int),
            g == grouped(n as nat, sep),
            g.len() <= S,
            start.len() == S,
            buf@.subrange(0, pos as int) == start.subrange(0, pos as int),
            S - g.len() <= pos - grouped(m as nat, sep).len(),
        decreases m,
    {
        let r = m % 1000;
        let ghost before = buf@;
        proof {
            lemma_grouped_len(m as nat, sep);
            reveal_with_fuel(pow10, 4);
            lemma_dec_len(m as nat, 3);
            lemma_grouped_len((m / 1000) as nat, sep);
            lemma_dec_shape((m / 1000) as nat);
            assert(grouped(m as nat, sep) == grouped((m / 1000) as nat, sep) + seq![sep] + pad3(
                r as nat,
            ));
        }
        buf[pos - 1] = (r % 10) as u8 + 48;
        buf[pos - 2] = ((r / 10) % 10) as u8 + 48;
        buf[pos - 3] = (r / 100) as u8 + 48;
        buf[pos - 4] = sep;
        proof {
            let tail = seq![sep] + pad3(r as nat);
            assert(buf@.subrange(pos - 4, pos as int) =~= tail);
            assert(buf@.subrange(pos - 4, S as int) =~= tail + before.subrange(pos as int, S as int));
            assert(buf@.subrange(0, pos - 4) =~= before.subrange(0, pos - 4));
            assert(start.subrange(0, pos - 4) =~= start.subrange(0, pos as int).subrange(0, pos - 4));
        }
        pos = pos - 4;
        m = m / 1000;
    }
    let ghost before = buf@;
    proof {
        lemma_dec_shape(m as nat);
        reveal_with_fuel(pow10, 4);
        lemma_dec_len(m as nat, 3);
        lemma_dec_len(m as nat, 2);
        lemma_dec_len(m as nat, 1);
        assert(grouped(m as nat, sep) == dec(m as nat));
    }
    if m >= 100 {
        buf[pos - 1] = (m % 10) as u8 + 48;
        buf[pos - 2] = ((m / 10) % 10) as u8 + 48;
        buf[pos - 3] = (m / 100) as u8 + 48;
        proof {
            reveal_with_fuel(dec, 3);
            assert((m / 10) / 10 == m / 100);
            assert(dec(m as nat) =~= seq![digit((m / 100) as nat), digit(((m / 10) % 10) as nat), digit((m % 10) as nat)]);
        }
        pos = pos - 3;
    } else if m >= 10 {
        buf[pos - 1] = (m % 10) as u8 + 48;
        buf[pos - 2] = (m / 10) as u8 + 48;
        proof {
            lemma_dec_len(m as nat, 2);
            reveal_with_fuel(dec, 2);
            assert(dec(m as nat) =~= seq![digit((m / 10) as nat), digit((m % 10) as nat)]);
        }
        pos = pos - 2;
    } else {
        buf[pos - 1] = m as u8 + 48;
        pos = pos - 1;
    }
    proof {
        assert(buf@.subrange(pos as int, before.len() as int) =~= dec(m as nat) + before.subrange(
            (pos + dec(m as nat).len()) as int,
            S as int,
        ));
        assert(buf@.subrange(0, pos as int) =~= before.subrange(0, pos as int));
        assert(start.subrange(0, pos as int) =~= start.subrange(0, (pos + dec(m as nat).len()) as int).subrange(0, pos as int));
    }
    pos
}

} // verus!

verus! {

impl<const S: usize> core::ops::Deref for NiceWrapper<S> {
    type Target = [u8];

    fn deref(&self) -> (r: &[u8])
        ensures
            r@ == self@,
    {
        self.as_bytes()
    }
}

/// The bytes of a byte slice.
pub open spec fn slice_bytes(s: &[u8]) -> Seq<u8> {
    s@
}

/// The UTF-8 bytes of a string slice.
pub open spec fn str_bytes(s: &str) -> Seq<u8> {
    s.spec_bytes()
}

impl<const S: usize> AsRef<[u8]> for NiceWrapper<S> {
    fn as_ref(&self) -> (r: &[u8])
        ensures
            slice_bytes(r) == self@,
    {
        self.as_bytes()
    }
}

impl<const S: usize> AsRef<str> for NiceWrapper<S> {
    fn as_ref(&self) -> (r: &str)
        ensures
            str_bytes(r) == self@,
    {
        self.as_str()
    }
}

impl<const S: usize> core::borrow::Borrow<str> for NiceWrapper<S> {
    fn borrow(&self) -> (r: &str)
        ensures
            str_bytes(r) == self@,
    {
        self.as_str()
    }
}

/// Feed `bytes` to a hasher, by `Hasher::write`. Nothing is stated: the
/// hasher's state is opaque here.
#[verifier::external_body]
pub(crate) fn hasher_write<H: core::hash::Hasher>(state: &mut H, bytes: &[u8]) {
    state.write(bytes);
}

impl<const S: usize> Eq for NiceWrapper<S> {}

impl<const S: usize> core::hash::Hash for NiceWrapper<S> {
    /// Hashes the formatted bytes, as equality compares them.
    fn hash<H: core::hash::Hasher>(&self, state: &mut H) {
        hasher_write(state, self.as_bytes());
    }
}

} // verus!

verus! {

/// The order that `compare_bytes` gives, as an `Ordering`.
pub open spec fn ordering_of(c: int) -> core::cmp::Ordering {
    if c < 0 {
        core::cmp::Ordering::Less
    } else if c == 0 {
        core::cmp::Ordering::Equal
    } else {
        core::cmp::Ordering::Greater
    }
}

impl<const S: usize> PartialOrd for NiceWrapper<S> {
    /// Values are ordered by their formatted bytes, as strings are.
    fn partial_cmp(&self, other: &Self) -> (r: Option<core::cmp::Ordering>) {
        proof {
            lemma_compare_bytes_range(self@, other@);
        }
        Some(self.cmp(other))
    }
}

impl<const S: usize> vstd::std_specs::cmp::PartialOrdSpecImpl for NiceWrapper<S> {
    open spec fn obeys_partial_cmp_spec() -> bool {
        true
    }

    open spec fn partial_cmp_spec(&self, other: &Self) -> Option<core::cmp::Ordering> {
        Some(ordering_of(compare_bytes(self@, other@)))
    }
}

} // verus!
