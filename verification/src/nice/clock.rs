//! `NiceClock`: seconds as an `HH:MM:SS` 24-hour clock.

use crate::decimal::{all_ascii, digit};
use crate::nice::time::{day_clamp, hms, hms_spec, law_hms_total};
use std::time::Duration;
use vstd::prelude::*;
use vstd::string::StringSliceAdditionalSpecFns;

verus! {

/// The two zero-padded digits of `x` (`0..100`).
pub open spec fn two(x: nat) -> Seq<u8> {
    seq![digit(x / 10), digit(x % 10)]
}

/// The `HH:MM:SS` text of `c` seconds (`c < 86400`).
pub open spec fn clock_text(c: nat) -> Seq<u8> {
    two(c / 3600) + seq![58u8] + two((c / 60) % 60) + seq![58u8] + two(c % 60)
}

/// # Nice Clock.
///
/// A number of seconds as an `HH:MM:SS` 24-hour clock, from `00:00:00` up to
/// `23:59:59`. Negative values count as zero; values past the end of a day
/// stay at `23:59:59`.
#[derive(Debug, Clone, Copy)]
pub struct NiceClock {
    inner: [u8; 8],
}

impl View for NiceClock {
    type V = Seq<u8>;

    /// The clock's text.
    closed spec fn view(&self) -> Seq<u8> {
        self.inner@
    }
}

/// The clock text of a time of day.
pub proof fn lemma_clock_text(c: nat)
    requires
        c < 86400,
    ensures
        clock_text(c).len() == 8,
        all_ascii(clock_text(c)),
        clock_text(c)[2] == 58u8,
        clock_text(c)[5] == 58u8,
        clock_text(c)[0] == digit(c / 3600 / 10),
        clock_text(c)[1] == digit(c / 3600 % 10),
        clock_text(c)[3] == digit((c / 60) % 60 / 10),
        clock_text(c)[4] == digit((c / 60) % 60 % 10),
        clock_text(c)[6] == digit(c % 60 / 10),
        clock_text(c)[7] == digit(c % 60 % 10),
        c / 3600 < 24,
{
    assert(c / 3600 < 24) by (nonlinear_arith)
        requires
            c < 86400,
    ;
    assert((c / 3600) / 10 < 10);
    assert(((c / 60) % 60) / 10 < 10);
    assert((c % 60) / 10 < 10);
    let t = clock_text(c);
    assert forall|i: int| 0 <= i < t.len() implies #[trigger] t[i] < 128 by {}
}

/// Two times of day with the same clock text are the same time.
pub proof fn lemma_clock_text_injective(a: nat, b: nat)
    requires
        a < 86400,
        b < 86400,
        clock_text(a) == clock_text(b),
    ensures
        a == b,
{
    lemma_clock_text(a);
    lemma_clock_text(b);
    lemma_two_injective(a / 3600, b / 3600);
    assert(clock_text(a)[0] == clock_text(b)[0]);
    assert(clock_text(a)[1] == clock_text(b)[1]);
    assert(clock_text(a)[3] == clock_text(b)[3]);
    assert(clock_text(a)[4] == clock_text(b)[4]);
    assert(clock_text(a)[6] == clock_text(b)[6]);
    assert(clock_text(a)[7] == clock_text(b)[7]);
    lemma_two_injective((a / 60) % 60, (b / 60) % 60);
    lemma_two_injective(a % 60, b % 60);
    law_hms_total(a);
    law_hms_total(b);
}

/// Two digits determine a number below a hundred.
pub proof fn lemma_two_injective(a: nat, b: nat)
    requires
        a < 100,
        b < 100,
        digit(a / 10) == digit(b / 10),
        digit(a % 10) == digit(b % 10),
    ensures
        a == b,
{
}

impl NiceClock {
    /// The clock is the text of some time of day.
    #[verifier::type_invariant]
    spec fn wf(&self) -> bool {
        exists|c: nat| c < 86400 && #[trigger] clock_text(c) == self.inner@
    }

    /// The number of seconds the clock shows.
    pub closed spec fn total(&self) -> nat {
        choose|c: nat| c < 86400 && #[trigger] clock_text(c) == self.inner@
    }

    /// The clock that shows `c` seconds.
    pub closed spec fn of_total(c: nat) -> NiceClock {
        NiceClock { inner: choose|a: [u8; 8]| #[trigger] crate::nice::wrapper::array_bytes(a) == clock_text(c) }
    }

    /// # New.
    ///
    /// The clock for `num` seconds, capped at `23:59:59`.
    pub fn from_secs(num: u32) -> (r: Self)
        ensures
            r@ == clock_text(day_clamp(num as nat)),
            r.total() == day_clamp(num as nat),
            r == Self::of_total(day_clamp(num as nat)),
    {
        let t = hms(num);
        let inner = [
            t[0] / 10 + 48,
            t[0] % 10 + 48,
            58u8,
            t[1] / 10 + 48,
            t[1] % 10 + 48,
            58u8,
            t[2] / 10 + 48,
            t[2] % 10 + 48,
        ];
        let ghost c = day_clamp(num as nat);
        proof {
            lemma_clock_text(c);
            assert(inner@ =~= clock_text(c));
        }
        let r = NiceClock { inner };
        proof {
            let k = r.total();
            lemma_clock_text_injective(k, c);
            r.lemma_of_total();
        }
        r
    }

    /// A clock is the clock of its total.
    proof fn lemma_of_total(&self)
        requires
            self.total() < 86400,
            clock_text(self.total()) == self.inner@,
        ensures
            *self == Self::of_total(self.total()),
    {
        let c = self.total();
        assert(crate::nice::wrapper::array_bytes(self.inner) == clock_text(c));
        let a = choose|a: [u8; 8]| #[trigger] crate::nice::wrapper::array_bytes(a) == clock_text(c);
        assert(a =~= self.inner) by {
            assert forall|i: int| 0 <= i < 8 implies a[i] == self.inner[i] by {
                assert(a@[i] == self.inner@[i]);
            }
        }
    }

    /// # Minimum Value.
    ///
    /// `00:00:00`.
    pub fn min() -> (r: Self)
        ensures
            r.total() == 0,
            r@ == clock_text(0),
            r == Self::of_total(0),
    {
        Self::from_secs(0)
    }

    /// # Maximum Value.
    ///
    /// `23:59:59`.
    pub fn max() -> (r: Self)
        ensures
            r.total() == 86399,
            r@ == clock_text(86399),
            r == Self::of_total(86399),
    {
        Self::from_secs(86399)
    }

    /// # Replace.
    ///
    /// Update the clock time, in place.
    pub fn replace(&mut self, num: u32)
        ensures
            final(self)@ == clock_text(day_clamp(num as nat)),
            final(self).total() == day_clamp(num as nat),
    {
        *self = Self::from_secs(num);
    }

    /// # As Bytes.
    pub fn as_bytes(&self) -> (r: &[u8])
        ensures
            r@ == self@,
    {
        self.inner.as_slice()
    }

    /// # As Str.
    pub fn as_str(&self) -> (r: &str)
        ensures
            r.spec_bytes() == self@,
    {
        proof {
            use_type_invariant(self);
            lemma_clock_text(self.total());
        }
        crate::decimal::ascii_str(self.inner.as_slice())
    }

    /// # Is Empty?
    ///
    /// Never: a clock always shows eight bytes.
    pub fn is_empty(&self) -> (r: bool)
        ensures
            r == (self@.len() == 0),
            !r,
    {
        false
    }

    /// # Length.
    ///
    /// Always `8`.
    pub fn len(&self) -> (r: usize)
        ensures
            r == self@.len(),
            r == 8,
    {
        8
    }

    /// # Hours.
    ///
    /// The hours part as a number.
    pub fn hours(&self) -> (r: u8)
        ensures
            r == self.total() / 3600,
            r < 24,
            self.total() < 86400,
    {
        proof {
            use_type_invariant(self);
            lemma_clock_text(self.total());
        }
        (self.inner[0] - 48) * 10 + (self.inner[1] - 48)
    }

    /// # Minutes.
    ///
    /// The minutes part as a number.
    pub fn minutes(&self) -> (r: u8)
        ensures
            r == (self.total() / 60) % 60,
            self.total() < 86400,
    {
        proof {
            use_type_invariant(self);
            lemma_clock_text(self.total());
        }
        (self.inner[3] - 48) * 10 + (self.inner[4] - 48)
    }

    /// # Seconds.
    ///
    /// The seconds part as a number.
    pub fn seconds(&self) -> (r: u8)
        ensures
            r == self.total() % 60,
            self.total() < 86400,
    {
        proof {
            use_type_invariant(self);
            lemma_clock_text(self.total());
        }
        (self.inner[6] - 48) * 10 + (self.inner[7] - 48)
    }
}

impl PartialEq for NiceClock {
    fn eq(&self, other: &Self) -> (r: bool) {
        let mut i: usize = 0;
        while i < 8
            invariant
                i <= 8,
                self.inner@.len() == 8,
                other.inner@.len() == 8,
                forall|j: int| 0 <= j < i ==> self.inner@[j] == other.inner@[j],
            decreases 8 - i,
        {
            if self.inner[i] != other.inner[i] {
                assert(self.inner@[i as int] != other.inner@[i as int]);
                return false;
            }
            i += 1;
        }
        assert(self.inner@ =~= other.inner@);
        true
    }
}

impl vstd::std_specs::cmp::PartialEqSpecImpl for NiceClock {
    open spec fn obeys_eq_spec() -> bool {
        true
    }

    open spec fn eq_spec(&self, other: &Self) -> bool {
        self@ == other@
    }
}

impl Default for NiceClock {
    fn default() -> (r: Self)
        ensures
            r.total() == 0,
    {
        Self::from_secs(0)
    }
}

impl From<NiceClock> for [u8; 8] {
    fn from(src: NiceClock) -> (r: [u8; 8])
        ensures
            r@ == src@,
    {
        src.inner
    }
}

impl vstd::std_specs::convert::FromSpecImpl<NiceClock> for [u8; 8] {
    open spec fn obeys_from_spec() -> bool {
        true
    }

    closed spec fn from_spec(src: NiceClock) -> [u8; 8] {
        src.inner
    }
}

impl From<u8> for NiceClock {
    fn from(num: u8) -> (r: Self)
        ensures
            r.total() == day_clamp(num as nat),
    {
        Self::from_secs(num as u32)
    }
}

impl vstd::std_specs::convert::FromSpecImpl<u8> for NiceClock {
    open spec fn obeys_from_spec() -> bool {
        true
    }

    open spec fn from_spec(num: u8) -> NiceClock {
        NiceClock::of_total(day_clamp(num as nat))
    }
}

impl From<u16> for NiceClock {
    fn from(num: u16) -> (r: Self)
        ensures
            r.total() == day_clamp(num as nat),
    {
        Self::from_secs(num as u32)
    }
}

impl vstd::std_specs::convert::FromSpecImpl<u16> for NiceClock {
    open spec fn obeys_from_spec() -> bool {
        true
    }

    open spec fn from_spec(num: u16) -> NiceClock {
        NiceClock::of_total(day_clamp(num as nat))
    }
}

impl From<u32> for NiceClock {
    fn from(num: u32) -> (r: Self)
        ensures
            r.total() == day_clamp(num as nat),
    {
        Self::from_secs(num as u32)
    }
}

impl vstd::std_specs::convert::FromSpecImpl<u32> for NiceClock {
    open spec fn obeys_from_spec() -> bool {
        true
    }

    open spec fn from_spec(num: u32) -> NiceClock {
        NiceClock::of_total(day_clamp(num as nat))
    }
}

impl From<u64> for NiceClock {
    fn from(num: u64) -> (r: Self)
        ensures
            r.total() == day_clamp(num as nat),
            r@ == clock_text(day_clamp(num as nat)),
    {
        if num < 86400 {
            Self::from_secs(num as u32)
        } else {
            Self::max()
        }
    }
}

impl vstd::std_specs::convert::FromSpecImpl<u64> for NiceClock {
    open spec fn obeys_from_spec() -> bool {
        true
    }

    open spec fn from_spec(num: u64) -> NiceClock {
        NiceClock::of_total(day_clamp(num as nat))
    }
}

impl From<u128> for NiceClock {
    fn from(num: u128) -> (r: Self)
        ensures
            r.total() == day_clamp(num as nat),
    {
        if num < 86400 {
            Self::from_secs(num as u32)
        } else {
            Self::max()
        }
    }
}

impl vstd::std_specs::convert::FromSpecImpl<u128> for NiceClock {
    open spec fn obeys_from_spec() -> bool {
        true
    }

    open spec fn from_spec(num: u128) -> NiceClock {
        NiceClock::of_total(day_clamp(num as nat))
    }
}

impl From<usize> for NiceClock {
    fn from(num: usize) -> (r: Self)
        ensures
            r.total() == day_clamp(num as nat),
    {
        if num < 86400 {
            Self::from_secs(num as u32)
        } else {
            Self::max()
        }
    }
}

impl vstd::std_specs::convert::FromSpecImpl<usize> for NiceClock {
    open spec fn obeys_from_spec() -> bool {
        true
    }

    open spec fn from_spec(num: usize) -> NiceClock {
        NiceClock::of_total(day_clamp(num as nat))
    }
}

impl From<i8> for NiceClock {
    fn from(num: i8) -> (r: Self)
        ensures
            r.total() == if num <= 0 { 0 } else { day_clamp(num as nat) },
    {
        if num <= 0 {
            Self::min()
        } else {
            Self::from_secs(num as u32)
        }
    }
}

impl vstd::std_specs::convert::FromSpecImpl<i8> for NiceClock {
    open spec fn obeys_from_spec() -> bool {
        true
    }

    open spec fn from_spec(num: i8) -> NiceClock {
        NiceClock::of_total(if num <= 0 { 0 } else { day_clamp(num as nat) })
    }
}

impl From<i16> for NiceClock {
    fn from(num: i16) -> (r: Self)
        ensures
            r.total() == if num <= 0 { 0 } else { day_clamp(num as nat) },
    {
        if num <= 0 {
            Self::min()
        } else {
            Self::from_secs(num as u32)
        }
    }
}

impl vstd::std_specs::convert::FromSpecImpl<i16> for NiceClock {
    open spec fn obeys_from_spec() -> bool {
        true
    }

    open spec fn from_spec(num: i16) -> NiceClock {
        NiceClock::of_total(if num <= 0 { 0 } else { day_clamp(num as nat) })
    }
}

impl From<i32> for NiceClock {
    fn from(num: i32) -> (r: Self)
        ensures
            r.total() == if num <= 0 { 0 } else { day_clamp(num as nat) },
    {
        if num <= 0 {
            Self::min()
        } else if num < 86400 {
            Self::from_secs(num as u32)
        } else {
            Self::max()
        }
    }
}

impl vstd::std_specs::convert::FromSpecImpl<i32> for NiceClock {
    open spec fn obeys_from_spec() -> bool {
        true
    }

    open spec fn from_spec(num: i32) -> NiceClock {
        NiceClock::of_total(if num <= 0 { 0 } else { day_clamp(num as nat) })
    }
}

impl From<i64> for NiceClock {
    fn from(num: i64) -> (r: Self)
        ensures
            r.total() == if num <= 0 { 0 } else { day_clamp(num as nat) },
    {
        if num <= 0 {
            Self::min()
        } else if num < 86400 {
            Self::from_secs(num as u32)
        } else {
            Self::max()
        }
    }
}

impl vstd::std_specs::convert::FromSpecImpl<i64> for NiceClock {
    open spec fn obeys_from_spec() -> bool {
        true
    }

    open spec fn from_spec(num: i64) -> NiceClock {
        NiceClock::of_total(if num <= 0 { 0 } else { day_clamp(num as nat) })
    }
}

impl From<i128> for NiceClock {
    fn from(num: i128) -> (r: Self)
        ensures
            r.total() == if num <= 0 { 0 } else { day_clamp(num as nat) },
    {
        if num <= 0 {
            Self::min()
        } else if num < 86400 {
            Self::from_secs(num as u32)
        } else {
            Self::max()
        }
    }
}

impl vstd::std_specs::convert::FromSpecImpl<i128> for NiceClock {
    open spec fn obeys_from_spec() -> bool {
        true
    }

    open spec fn from_spec(num: i128) -> NiceClock {
        NiceClock::of_total(if num <= 0 { 0 } else { day_clamp(num as nat) })
    }
}

impl From<isize> for NiceClock {
    fn from(num: isize) -> (r: Self)
        ensures
            r.total() == if num <= 0 { 0 } else { day_clamp(num as nat) },
    {
        if num <= 0 {
            Self::min()
        } else if num < 86400 {
            Self::from_secs(num as u32)
        } else {
            Self::max()
        }
    }
}

impl vstd::std_specs::convert::FromSpecImpl<isize> for NiceClock {
    open spec fn obeys_from_spec() -> bool {
        true
    }

    open spec fn from_spec(num: isize) -> NiceClock {
        NiceClock::of_total(if num <= 0 { 0 } else { day_clamp(num as nat) })
    }
}

impl From<Duration> for NiceClock {
    /// The whole seconds of the duration, capped to a day.
    fn from(src: Duration) -> (r: Self)
        ensures
            r.total() == day_clamp(crate::nice::time::secs_of(src) as nat),
            r@ == clock_text(day_clamp(crate::nice::time::secs_of(src) as nat)),
    {
        let secs = crate::nice::time::duration_secs(&src);
        <NiceClock as From<u64>>::from(secs)
    }
}

impl vstd::std_specs::convert::FromSpecImpl<Duration> for NiceClock {
    open spec fn obeys_from_spec() -> bool {
        true
    }

    open spec fn from_spec(src: Duration) -> NiceClock {
        NiceClock::of_total(day_clamp(crate::nice::time::secs_of(src) as nat))
    }
}

} // verus!

verus! {

impl core::ops::Deref for NiceClock {
    type Target = [u8];

    fn deref(&self) -> (r: &[u8])
        ensures
            r@ == self@,
    {
        self.as_bytes()
    }
}

impl AsRef<[u8]> for NiceClock {
    fn as_ref(&self) -> (r: &[u8])
        ensures
            crate::nice::wrapper::slice_bytes(r) == self@,
    {
        self.as_bytes()
    }
}

impl AsRef<str> for NiceClock {
    fn as_ref(&self) -> (r: &str)
        ensures
            crate::nice::wrapper::str_bytes(r) == self@,
    {
        self.as_str()
    }
}

impl core::borrow::Borrow<str> for NiceClock {
    fn borrow(&self) -> (r: &str)
        ensures
            crate::nice::wrapper::str_bytes(r) == self@,
    {
        self.as_str()
    }
}

impl Eq for NiceClock {}

impl core::hash::Hash for NiceClock {
    /// Hashes the formatted bytes, as equality compares them.
    fn hash<H: core::hash::Hasher>(&self, state: &mut H) {
        crate::nice::wrapper::hasher_write(state, self.as_bytes());
    }
}

} // verus!

verus! {

impl PartialOrd for NiceClock {
    /// Values are ordered by their text, as strings are.
    fn partial_cmp(&self, other: &Self) -> (r: Option<core::cmp::Ordering>) {
        proof {
            crate::nice::wrapper::lemma_compare_bytes_range(self@, other@);
        }
        let o = crate::nice::wrapper::order_bytes(self.as_bytes(), other.as_bytes());
        if o < 0 {
            Some(core::cmp::Ordering::Less)
        } else if o == 0 {
            Some(core::cmp::Ordering::Equal)
        } else {
            Some(core::cmp::Ordering::Greater)
        }
    }
}

impl vstd::std_specs::cmp::PartialOrdSpecImpl for NiceClock {
    open spec fn obeys_partial_cmp_spec() -> bool {
        true
    }

    open spec fn partial_cmp_spec(&self, other: &Self) -> Option<core::cmp::Ordering> {
        Some(crate::nice::wrapper::ordering_of(crate::nice::wrapper::compare_bytes(self@, other@)))
    }
}

} // verus!
