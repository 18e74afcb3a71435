//! Singular or plural labels for counts, with or without the count itself
//! nicely formatted.

use crate::decimal::{dec, grouped};
use crate::nice::wrapper::NiceWrapper;
use vstd::prelude::*;
use vstd::string::StringSliceAdditionalSpecFns;

verus! {

/// # Inflection.
///
/// Pick the singular or plural form of a noun for a count: singular for
/// exactly one (or minus one), plural for anything else.
pub trait Inflection: Sized + Copy {
    /// Whether the count is one or minus one.
    spec fn spec_is_one(self) -> bool;

    /// # Inflect a Noun.
    fn inflect<'a>(self, singular: &'a str, plural: &'a str) -> (r: &'a str)
        ensures
            r == (if self.spec_is_one() { singular } else { plural }),
    ;
}

/// # Nice Inflection.
///
/// Like `Inflection`, but keeps the count too, nicely formatted as `T`.
pub trait NiceInflection<T: View<V = Seq<u8>>>: Inflection {
    /// Whether the count is below zero.
    spec fn spec_negative(self) -> bool;

    /// The formatted magnitude of the count.
    spec fn spec_nice(self) -> Seq<u8>;

    /// # Nice Inflect.
    fn nice_inflect<'a>(self, singular: &'a str, plural: &'a str) -> (r: NiceInflected<'a, T>)
        ensures
            r.negative() == self.spec_negative(),
            r.nice_view() == self.spec_nice(),
            r.unit_view() == (if self.spec_is_one() { singular } else { plural }),
    ;
}

/// # Nice Inflected.
///
/// A count, nicely formatted, and the noun that goes with it.
#[derive(Debug, Clone, Copy, PartialEq, Eq)]
pub struct NiceInflected<'a, T> {
    neg: bool,
    nice: T,
    unit: &'a str,
}

impl<'a, T: View<V = Seq<u8>>> NiceInflected<'a, T> {
    /// Whether the count is negative.
    pub closed spec fn negative(&self) -> bool {
        self.neg
    }

    /// The formatted magnitude.
    pub closed spec fn nice_view(&self) -> Seq<u8> {
        self.nice@
    }

    /// The noun.
    pub closed spec fn unit_view(&self) -> &'a str {
        self.unit
    }
}

impl<'a, T: Copy + View<V = Seq<u8>>> NiceInflected<'a, T> {
    /// # Is Negative?
    pub fn is_negative(&self) -> (r: bool)
        ensures
            r == self.negative(),
    {
        self.neg
    }

    /// # Nice Value.
    ///
    /// The formatted magnitude of the count.
    pub fn nice(&self) -> (r: T)
        ensures
            r@ == self.nice_view(),
    {
        self.nice
    }

    /// # Unit.
    pub fn unit(&self) -> (r: &'a str)
        ensures
            r == self.unit_view(),
    {
        self.unit
    }
}

impl<'a, const S: usize> NiceInflected<'a, NiceWrapper<S>> {
    /// # Length.
    ///
    /// The length of the text: an optional minus sign, the number, a space
    /// and the noun.
    pub fn len(&self) -> (r: usize)
        requires
            self.unit_view().spec_bytes().len() + S + 2 <= usize::MAX,
        ensures
            r == (if self.negative() { 1int } else { 0int }) + self.nice_view().len() + 1
                + self.unit_view().spec_bytes().len(),
    {
        let n = self.nice.len();
        let sign: usize = if self.neg { 1 } else { 0 };
        sign + n + 1 + self.unit.len()
    }

    /// # To String.
    ///
    /// The text: an optional minus sign, the number, a space and the noun.
    pub fn to_string(&self) -> (r: String)
        ensures
            r@ == (if self.negative() { seq!['-'] } else { Seq::<char>::empty() })
                + vstd::utf8::decode_utf8(self.nice_view()) + seq![' '] + self.unit_view()@,
    {
        let mut out = String::new();
        proof {
            reveal_strlit("-");
            reveal_strlit(" ");
        }
        if self.neg {
            out.append("-");
        }
        let ghost head = out@;
        let s = self.nice.as_str();
        proof {
            vstd::utf8::encode_utf8_decode_utf8(s@);
            assert(vstd::utf8::decode_utf8(self.nice_view()) == s@);
        }
        out.append(s);
        out.append(" ");
        out.append(self.unit);
        assert(out@ =~= head + s@ + seq![' '] + self.unit@);
        out
    }
}

impl Inflection for u8 {
    open spec fn spec_is_one(self) -> bool {
        self == 1
    }

    fn inflect<'a>(self, singular: &'a str, plural: &'a str) -> (r: &'a str) {
        if self == 1 {
            singular
        } else {
            plural
        }
    }
}

impl NiceInflection<NiceWrapper<3>> for u8 {
    open spec fn spec_negative(self) -> bool {
        false
    }

    open spec fn spec_nice(self) -> Seq<u8> {
        grouped(self as nat, 44u8)
    }

    fn nice_inflect<'a>(self, singular: &'a str, plural: &'a str) -> (r: NiceInflected<'a, NiceWrapper<3>>) {
        let nice = NiceWrapper::<3>::from_u8(self);
        let unit = self.inflect(singular, plural);
        NiceInflected { neg: false, nice, unit }
    }
}

impl Inflection for u16 {
    open spec fn spec_is_one(self) -> bool {
        self == 1
    }

    fn inflect<'a>(self, singular: &'a str, plural: &'a str) -> (r: &'a str) {
        if self == 1 {
            singular
        } else {
            plural
        }
    }
}

impl NiceInflection<NiceWrapper<6>> for u16 {
    open spec fn spec_negative(self) -> bool {
        false
    }

    open spec fn spec_nice(self) -> Seq<u8> {
        grouped(self as nat, 44u8)
    }

    fn nice_inflect<'a>(self, singular: &'a str, plural: &'a str) -> (r: NiceInflected<'a, NiceWrapper<6>>) {
        let nice = NiceWrapper::<6>::from_u16(self);
        let unit = self.inflect(singular, plural);
        NiceInflected { neg: false, nice, unit }
    }
}

impl Inflection for u32 {
    open spec fn spec_is_one(self) -> bool {
        self == 1
    }

    fn inflect<'a>(self, singular: &'a str, plural: &'a str) -> (r: &'a str) {
        if self == 1 {
            singular
        } else {
            plural
        }
    }
}

impl NiceInflection<NiceWrapper<13>> for u32 {
    open spec fn spec_negative(self) -> bool {
        false
    }

    open spec fn spec_nice(self) -> Seq<u8> {
        grouped(self as nat, 44u8)
    }

    fn nice_inflect<'a>(self, singular: &'a str, plural: &'a str) -> (r: NiceInflected<'a, NiceWrapper<13>>) {
        let nice = NiceWrapper::<13>::from_u32(self);
        let unit = self.inflect(singular, plural);
        NiceInflected { neg: false, nice, unit }
    }
}

impl Inflection for u64 {
    open spec fn spec_is_one(self) -> bool {
        self == 1
    }

    fn inflect<'a>(self, singular: &'a str, plural: &'a str) -> (r: &'a str) {
        if self == 1 {
            singular
        } else {
            plural
        }
    }
}

impl NiceInflection<NiceWrapper<26>> for u64 {
    open spec fn spec_negative(self) -> bool {
        false
    }

    open spec fn spec_nice(self) -> Seq<u8> {
        grouped(self as nat, 44u8)
    }

    fn nice_inflect<'a>(self, singular: &'a str, plural: &'a str) -> (r: NiceInflected<'a, NiceWrapper<26>>) {
        let nice = NiceWrapper::<26>::from_u64(self);
        let unit = self.inflect(singular, plural);
        NiceInflected { neg: false, nice, unit }
    }
}

impl Inflection for usize {
    open spec fn spec_is_one(self) -> bool {
        self == 1
    }

    fn inflect<'a>(self, singular: &'a str, plural: &'a str) -> (r: &'a str) {
        if self == 1 {
            singular
        } else {
            plural
        }
    }
}

impl NiceInflection<NiceWrapper<26>> for usize {
    open spec fn spec_negative(self) -> bool {
        false
    }

    open spec fn spec_nice(self) -> Seq<u8> {
        grouped(self as nat, 44u8)
    }

    fn nice_inflect<'a>(self, singular: &'a str, plural: &'a str) -> (r: NiceInflected<'a, NiceWrapper<26>>) {
        let nice = NiceWrapper::<26>::from_u64(self as u64);
        let unit = self.inflect(singular, plural);
        NiceInflected { neg: false, nice, unit }
    }
}

impl Inflection for i8 {
    open spec fn spec_is_one(self) -> bool {
        self == 1 || self == -1
    }

    fn inflect<'a>(self, singular: &'a str, plural: &'a str) -> (r: &'a str) {
        if self == 1 || self == -1 {
            singular
        } else {
            plural
        }
    }
}

impl NiceInflection<NiceWrapper<3>> for i8 {
    open spec fn spec_negative(self) -> bool {
        self < 0
    }

    open spec fn spec_nice(self) -> Seq<u8> {
        grouped(if self < 0 { (0 - self) as nat } else { self as nat }, 44u8)
    }

    fn nice_inflect<'a>(self, singular: &'a str, plural: &'a str) -> (r: NiceInflected<'a, NiceWrapper<3>>) {
        let neg = self < 0;
        let abs: u8 = if neg { (0i16 - self as i16) as u8 } else { self as u8 };
        let nice = NiceWrapper::<3>::from_u8(abs);
        let unit = self.inflect(singular, plural);
        NiceInflected { neg, nice, unit }
    }
}

impl Inflection for i16 {
    open spec fn spec_is_one(self) -> bool {
        self == 1 || self == -1
    }

    fn inflect<'a>(self, singular: &'a str, plural: &'a str) -> (r: &'a str) {
        if self == 1 || self == -1 {
            singular
        } else {
            plural
        }
    }
}

impl NiceInflection<NiceWrapper<6>> for i16 {
    open spec fn spec_negative(self) -> bool {
        self < 0
    }

    open spec fn spec_nice(self) -> Seq<u8> {
        grouped(if self < 0 { (0 - self) as nat } else { self as nat }, 44u8)
    }

    fn nice_inflect<'a>(self, singular: &'a str, plural: &'a str) -> (r: NiceInflected<'a, NiceWrapper<6>>) {
        let neg = self < 0;
        let abs: u16 = if neg { (0i32 - self as i32) as u16 } else { self as u16 };
        let nice = NiceWrapper::<6>::from_u16(abs);
        let unit = self.inflect(singular, plural);
        NiceInflected { neg, nice, unit }
    }
}

impl Inflection for i32 {
    open spec fn spec_is_one(self) -> bool {
        self == 1 || self == -1
    }

    fn inflect<'a>(self, singular: &'a str, plural: &'a str) -> (r: &'a str) {
        if self == 1 || self == -1 {
            singular
        } else {
            plural
        }
    }
}

impl NiceInflection<NiceWrapper<13>> for i32 {
    open spec fn spec_negative(self) -> bool {
        self < 0
    }

    open spec fn spec_nice(self) -> Seq<u8> {
        grouped(if self < 0 { (0 - self) as nat } else { self as nat }, 44u8)
    }

    fn nice_inflect<'a>(self, singular: &'a str, plural: &'a str) -> (r: NiceInflected<'a, NiceWrapper<13>>) {
        let neg = self < 0;
        let abs: u32 = if neg { (0i64 - self as i64) as u32 } else { self as u32 };
        let nice = NiceWrapper::<13>::from_u32(abs);
        let unit = self.inflect(singular, plural);
        NiceInflected { neg, nice, unit }
    }
}

impl Inflection for i64 {
    open spec fn spec_is_one(self) -> bool {
        self == 1 || self == -1
    }

    fn inflect<'a>(self, singular: &'a str, plural: &'a str) -> (r: &'a str) {
        if self == 1 || self == -1 {
            singular
        } else {
            plural
        }
    }
}

impl NiceInflection<NiceWrapper<26>> for i64 {
    open spec fn spec_negative(self) -> bool {
        self < 0
    }

    open spec fn spec_nice(self) -> Seq<u8> {
        grouped(if self < 0 { (0 - self) as nat } else { self as nat }, 44u8)
    }

    fn nice_inflect<'a>(self, singular: &'a str, plural: &'a str) -> (r: NiceInflected<'a, NiceWrapper<26>>) {
        let neg = self < 0;
        let abs: u64 = if neg { (0i128 - self as i128) as u64 } else { self as u64 };
        let nice = NiceWrapper::<26>::from_u64(abs);
        let unit = self.inflect(singular, plural);
        NiceInflected { neg, nice, unit }
    }
}

impl Inflection for isize {
    open spec fn spec_is_one(self) -> bool {
        self == 1 || self == -1
    }

    fn inflect<'a>(self, singular: &'a str, plural: &'a str) -> (r: &'a str) {
        if self == 1 || self == -1 {
            singular
        } else {
            plural
        }
    }
}

impl NiceInflection<NiceWrapper<26>> for isize {
    open spec fn spec_negative(self) -> bool {
        self < 0
    }

    open spec fn spec_nice(self) -> Seq<u8> {
        grouped(if self < 0 { (0 - self) as nat } else { self as nat }, 44u8)
    }

    fn nice_inflect<'a>(self, singular: &'a str, plural: &'a str) -> (r: NiceInflected<'a, NiceWrapper<26>>) {
        let neg = self < 0;
        let abs: u64 = if neg { (0i128 - self as i128) as u64 } else { self as u64 };
        let nice = NiceWrapper::<26>::from_u64(abs);
        let unit = self.inflect(singular, plural);
        NiceInflected { neg, nice, unit }
    }
}

impl Inflection for u128 {
    open spec fn spec_is_one(self) -> bool {
        self == 1
    }

    fn inflect<'a>(self, singular: &'a str, plural: &'a str) -> (r: &'a str) {
        if self == 1 {
            singular
        } else {
            plural
        }
    }
}

impl Inflection for i128 {
    open spec fn spec_is_one(self) -> bool {
        self == 1 || self == -1
    }

    fn inflect<'a>(self, singular: &'a str, plural: &'a str) -> (r: &'a str) {
        if self == 1 || self == -1 {
            singular
        } else {
            plural
        }
    }
}

} // verus!
