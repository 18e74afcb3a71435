//! `NicePercent`: a fraction as a percentage with two decimal places, from
//! `"0.00%"` to `"100.00%"`.

use crate::decimal::{all_ascii, dec, digit};
use crate::nice::clock::two;
use vstd::prelude::*;
use vstd::string::StringSliceAdditionalSpecFns;

verus! {

/// `"100.00%"`.
pub open spec fn percent_max_text() -> Seq<u8> {
    seq![49u8, 48u8, 48u8, 46u8, 48u8, 48u8, 37u8]
}

/// The text of `bp` hundredths of a percent: the whole percent, a point,
/// two decimal places and `%`; anything from `10000` up reads `"100.00%"`.
pub open spec fn percent_text(bp: nat) -> Seq<u8> {
    if bp >= 10000 {
        percent_max_text()
    } else {
        dec(bp / 100) + seq![46u8] + two(bp % 100) + seq![37u8]
    }
}

/// The whole seven-byte buffer of `bp` hundredths of a percent.
pub open spec fn percent_buf(bp: nat) -> Seq<u8> {
    if bp >= 10000 {
        percent_max_text()
    } else {
        seq![
            48u8,
            digit((bp / 100) / 10),
            digit((bp / 100) % 10),
            46u8,
            digit((bp % 100) / 10),
            digit((bp % 100) % 10),
            37u8,
        ]
    }
}

/// Where the text of `bp` starts in its buffer.
pub open spec fn percent_start(bp: nat) -> nat {
    if bp >= 10000 {
        0
    } else if (bp / 100) / 10 != 0 {
        1
    } else {
        2
    }
}

/// # Nice Percent.
///
/// A fraction between zero and one as a percentage with two decimal places,
/// like `"12.34%"`.
#[derive(Debug, Clone, Copy)]
pub struct NicePercent {
    data: [u8; 7],
    from: usize,
}

impl View for NicePercent {
    type V = Seq<u8>;

    /// The text.
    closed spec fn view(&self) -> Seq<u8> {
        self.data@.subrange(self.from as int, 7)
    }
}

impl NicePercent {
    /// The start is within the buffer, which is ASCII.
    #[verifier::type_invariant]
    spec fn wf(&self) -> bool {
        &&& self.from <= 7
        &&& all_ascii(self.data@)
    }

    /// The percentage of `bp` hundredths of a percent, as a value.
    pub closed spec fn of_basis_points(bp: nat) -> NicePercent {
        NicePercent {
            data: choose|a: [u8; 7]| #[trigger] crate::nice::wrapper::array_bytes(a) == percent_buf(bp),
            from: percent_start(bp) as usize,
        }
    }

    /// A percentage with the buffer and start of `bp` is the percentage
    /// of `bp`.
    proof fn lemma_of_basis_points(&self, bp: nat)
        requires
            self.data@ == percent_buf(bp),
            self.from == percent_start(bp),
        ensures
            *self == Self::of_basis_points(bp),
    {
        assert(crate::nice::wrapper::array_bytes(self.data) == percent_buf(bp));
        let a = choose|a: [u8; 7]| #[trigger] crate::nice::wrapper::array_bytes(a) == percent_buf(bp);
        assert(a =~= self.data) by {
            assert forall|i: int| 0 <= i < 7 implies a[i] == self.data[i] by {
                assert(a@[i] == self.data@[i]);
            }
        }
    }

    /// # From Basis Points.
    ///
    /// The percentage of `bp` hundredths of a percent (`10000` is all of
    /// it); larger values read as `"100.00%"`.
    pub fn from_basis_points(bp: u16) -> (r: Self)
        ensures
            r@ == percent_text(bp as nat),
            r == Self::of_basis_points(bp as nat),
    {
        if bp >= 10000 {
            let data = [49u8, 48u8, 48u8, 46u8, 48u8, 48u8, 37u8];
            assert(data@ =~= percent_max_text());
            assert(data@.subrange(0, 7) =~= data@);
            let r = NicePercent { data, from: 0 };
            proof {
                r.lemma_of_basis_points(bp as nat);
            }
            return r;
        }
        let whole = bp / 100;
        let frac = bp % 100;
        let d1 = (whole / 10) as u8;
        let d2 = (whole % 10) as u8;
        let d3 = (frac / 10) as u8;
        let d4 = (frac % 10) as u8;
        let data = [48u8, d1 + 48, d2 + 48, 46u8, d3 + 48, d4 + 48, 37u8];
        let from: usize = if d1 != 0 { 1 } else { 2 };
        proof {
            let w = whole as nat;
            if w >= 10 {
                assert(dec(w / 10) == seq![digit(w / 10)]);
                assert(dec(w) =~= seq![digit(w / 10), digit(w % 10)]);
            } else {
                assert(dec(w) == seq![digit(w)]);
            }
            assert(data@.subrange(from as int, 7) =~= percent_text(bp as nat));
            assert(data@ =~= percent_buf(bp as nat));
        }
        let r = NicePercent { data, from };
        proof {
            r.lemma_of_basis_points(bp as nat);
        }
        r
    }

    /// # Minimum.
    ///
    /// `"0.00%"`.
    pub fn min() -> (r: Self)
        ensures
            r@ == percent_text(0),
            r == Self::of_basis_points(0),
    {
        Self::from_basis_points(0)
    }

    /// # Maximum.
    ///
    /// `"100.00%"`.
    pub fn max() -> (r: Self)
        ensures
            r@ == percent_max_text(),
            r == Self::of_basis_points(10000),
    {
        Self::from_basis_points(10000)
    }

    /// # Replace.
    ///
    /// Hold the percentage of `bp` hundredths of a percent instead.
    pub fn replace_basis_points(&mut self, bp: u16)
        ensures
            final(self)@ == percent_text(bp as nat),
            *final(self) == Self::of_basis_points(bp as nat),
    {
        *self = Self::from_basis_points(bp);
    }

    /// # As Bytes.
    pub fn as_bytes(&self) -> (r: &[u8])
        ensures
            r@ == self@,
            all_ascii(r@),
    {
        proof {
            use_type_invariant(self);
        }
        let (_, out) = self.data.as_slice().split_at(self.from);
        out
    }

    /// # As Str.
    pub fn as_str(&self) -> (r: &str)
        ensures
            r.spec_bytes() == self@,
    {
        crate::decimal::ascii_str(self.as_bytes())
    }

    /// # Is Empty?
    ///
    /// Never.
    pub fn is_empty(&self) -> (r: bool)
        ensures
            r == (self@.len() == 0),
    {
        self.as_bytes().len() == 0
    }

    /// # Length.
    pub fn len(&self) -> (r: usize)
        ensures
            r == self@.len(),
    {
        self.as_bytes().len()
    }
}

impl Default for NicePercent {
    /// `"0.00%"`.
    fn default() -> (r: Self)
        ensures
            r@ == percent_text(0),
            r == NicePercent::of_basis_points(0),
    {
        Self::min()
    }
}

impl PartialEq for NicePercent {
    fn eq(&self, other: &Self) -> (r: bool) {
        crate::nice::wrapper::bytes_eq(self.as_bytes(), other.as_bytes())
    }
}

impl vstd::std_specs::cmp::PartialEqSpecImpl for NicePercent {
    open spec fn obeys_eq_spec() -> bool {
        true
    }

    open spec fn eq_spec(&self, other: &Self) -> bool {
        self@ == other@
    }
}

impl From<NicePercent> for String {
    fn from(src: NicePercent) -> (r: String)
        ensures
            vstd::utf8::encode_utf8(r@) == src@,
    {
        String::from_str(src.as_str())
    }
}

impl vstd::std_specs::convert::FromSpecImpl<NicePercent> for String {
    open spec fn obeys_from_spec() -> bool {
        false
    }

    open spec fn from_spec(src: NicePercent) -> String {
        choose|v: String| vstd::utf8::encode_utf8(v@) == src@
    }
}

} // verus!

verus! {

impl core::ops::Deref for NicePercent {
    type Target = [u8];

    fn deref(&self) -> (r: &[u8])
        ensures
            r@ == self@,
    {
        self.as_bytes()
    }
}

impl AsRef<[u8]> for NicePercent {
    fn as_ref(&self) -> (r: &[u8])
        ensures
            crate::nice::wrapper::slice_bytes(r) == self@,
    {
        self.as_bytes()
    }
}

impl AsRef<str> for NicePercent {
    fn as_ref(&self) -> (r: &str)
        ensures
            crate::nice::wrapper::str_bytes(r) == self@,
    {
        self.as_str()
    }
}

impl core::borrow::Borrow<str> for NicePercent {
    fn borrow(&self) -> (r: &str)
        ensures
            crate::nice::wrapper::str_bytes(r) == self@,
    {
        self.as_str()
    }
}

impl Eq for NicePercent {}

impl core::hash::Hash for NicePercent {
    /// Hashes the formatted bytes, as equality compares them.
    fn hash<H: core::hash::Hasher>(&self, state: &mut H) {
        crate::nice::wrapper::hasher_write(state, self.as_bytes());
    }
}

} // verus!

verus! {

impl PartialOrd for NicePercent {
    /// Values are ordered by their text, as strings are.
    fn partial_cmp(&self, other: &Self) -> (r: Option<core::cmp::Ordering>) {
        proof {
            crate::nice::wrapper::lemma_compare_bytes_range(self@, other@);
        }
        let o = crate::nice::wrapper::order_bytes(self.as_bytes(), other.as_bytes());
        if o < 0 {
            Some(core::cmp::Ordering::Less)
        } else if o == 0 {
            Some(core::cmp::Ordering::Equal)
        } else {
            Some(core::cmp::Ordering::Greater)
        }
    }
}

impl vstd::std_specs::cmp::PartialOrdSpecImpl for NicePercent {
    open spec fn obeys_partial_cmp_spec() -> bool {
        true
    }

    open spec fn partial_cmp_spec(&self, other: &Self) -> Option<core::cmp::Ordering> {
        Some(crate::nice::wrapper::ordering_of(crate::nice::wrapper::compare_bytes(self@, other@)))
    }
}

} // verus!
