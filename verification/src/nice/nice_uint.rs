//! `NiceU16`, `NiceU32` and `NiceU64`: integers as decimal text with
//! thousands separators.

use crate::decimal::{dec, grouped, lemma_grouped_fits, pow10};
use crate::nice::separator::NiceSeparator;
use crate::nice::wrapper::{nice_buffer, NiceWrapper};
use vstd::prelude::*;

verus! {

/// # Nice `u16`.
///
/// A `u16` as decimal text with a separator between each group of three
/// digits: `65535` is `"65,535"`.
pub type NiceU16 = NiceWrapper<6>;

/// # Nice `u32`.
///
/// A `u32` as decimal text with a separator between each group of three
/// digits: `4294967295` is `"4,294,967,295"`.
pub type NiceU32 = NiceWrapper<13>;

/// # Nice `u64`.
///
/// A `u64` (or `usize`) as decimal text with a separator between each group
/// of three digits.
pub type NiceU64 = NiceWrapper<26>;

/// Every `u16` fits a `NiceU16`, with any separator.
pub proof fn lemma_fits_u16(n: u16, sep: u8)
    ensures
        grouped(n as nat, sep).len() <= 6,
{
    reveal_with_fuel(pow10, 6);
    lemma_grouped_fits(n as nat, 5, sep);
}

/// Every `u32` fits a `NiceU32`, with any separator.
pub proof fn lemma_fits_u32(n: u32, sep: u8)
    ensures
        grouped(n as nat, sep).len() <= 13,
{
    reveal_with_fuel(pow10, 11);
    lemma_grouped_fits(n as nat, 10, sep);
}

/// Every `u64` fits a `NiceU64`, with any separator.
pub proof fn lemma_fits_u64(n: u64, sep: u8)
    ensures
        grouped(n as nat, sep).len() <= 26,
{
    reveal_with_fuel(pow10, 21);
    lemma_grouped_fits(n as nat, 20, sep);
}

impl NiceWrapper<6> {
    /// # New.
    ///
    /// `num` with commas between groups of three digits.
    pub fn from_u16(num: u16) -> (r: Self)
        ensures
            r@ == grouped(num as nat, 44u8),
            r.buffer() == nice_buffer(6, num as nat, 44u8),
            r.start() == 6 - grouped(num as nat, 44u8).len(),
            r.separator() == 44u8,
    {
        proof {
            lemma_fits_u16(num, 44u8);
        }
        Self::new_grouped(num as u64, 44u8)
    }

    /// # New (w/ Alternative Thousands Separator).
    ///
    /// `num` with `sep` between groups of three digits.
    pub fn with_separator(num: u16, sep: NiceSeparator) -> (r: Self)
        ensures
            r@ == grouped(num as nat, sep.spec_byte()),
            r.buffer() == nice_buffer(6, num as nat, sep.spec_byte()),
            r.separator() == sep.spec_byte(),
    {
        let b = sep.as_byte();
        proof {
            lemma_fits_u16(num, b);
        }
        Self::new_grouped(num as u64, b)
    }

    /// # Replace.
    ///
    /// Reuse the backing storage behind `self` to hold a new nice number;
    /// the separator stays as it was.
    pub fn replace(&mut self, num: u16)
        ensures
            final(self)@ == grouped(num as nat, old(self).separator()),
            final(self).separator() == old(self).separator(),
    {
        proof {
            lemma_fits_u16(num, self.separator());
        }
        self.replace_grouped(num as u64);
    }

    /// # Minimum Value.
    ///
    /// `"0"`, the nice equivalent of `u16::MIN`.
    pub fn min() -> (r: Self)
        ensures
            r@ == dec(0),
    {
        Self::from_u16(0)
    }

    /// # Maximum Value.
    ///
    /// `"65,535"`, the nice equivalent of `u16::MAX`.
    pub fn max() -> (r: Self)
        ensures
            r@ == grouped(65535, 44u8),
    {
        Self::from_u16(65535)
    }
}

impl From<u16> for NiceWrapper<6> {
    fn from(num: u16) -> (r: Self)
        ensures
            r@ == grouped(num as nat, 44u8),
            r.buffer() == nice_buffer(6, num as nat, 44u8),
            r.start() == 6 - grouped(num as nat, 44u8).len(),
            r.separator() == 44u8,
    {
        let r = Self::from_u16(num);
        proof {
            r.lemma_with_buffer();
        }
        r
    }
}

impl vstd::std_specs::convert::FromSpecImpl<u16> for NiceWrapper<6> {
    open spec fn obeys_from_spec() -> bool {
        true
    }

    open spec fn from_spec(num: u16) -> Self {
        NiceWrapper::<6>::with_buffer(
            nice_buffer(6, num as nat, 44u8),
            (6 - grouped(num as nat, 44u8).len()) as nat,
        )
    }
}

impl From<Option<u16>> for NiceWrapper<6> {
    fn from(num: Option<u16>) -> (r: Self)
        ensures
            r@ == grouped(num.unwrap_or(0) as nat, 44u8),
            r.buffer() == nice_buffer(6, num.unwrap_or(0) as nat, 44u8),
            r.start() == 6 - grouped(num.unwrap_or(0) as nat, 44u8).len(),
            r.separator() == 44u8,
    {
        let n = match num {
            Some(n) => n,
            None => 0,
        };
        let r = Self::from_u16(n);
        proof {
            r.lemma_with_buffer();
        }
        r
    }
}

impl vstd::std_specs::convert::FromSpecImpl<Option<u16>> for NiceWrapper<6> {
    open spec fn obeys_from_spec() -> bool {
        true
    }

    open spec fn from_spec(num: Option<u16>) -> Self {
        let n = num.unwrap_or(0) as nat;
        NiceWrapper::<6>::with_buffer(nice_buffer(6, n, 44u8), (6 - grouped(n, 44u8).len()) as nat)
    }
}

impl Default for NiceWrapper<6> {
    fn default() -> (r: Self)
        ensures
            r@ == dec(0),
            r.buffer() == nice_buffer(6, 0, 44u8),
            r.start() == 6 - grouped(0, 44u8).len(),
            r.separator() == 44u8,
    {
        Self::from_u16(0)
    }
}

impl NiceWrapper<13> {
    /// # New.
    ///
    /// `num` with commas between groups of three digits.
    pub fn from_u32(num: u32) -> (r: Self)
        ensures
            r@ == grouped(num as nat, 44u8),
            r.buffer() == nice_buffer(13, num as nat, 44u8),
            r.start() == 13 - grouped(num as nat, 44u8).len(),
            r.separator() == 44u8,
    {
        proof {
            lemma_fits_u32(num, 44u8);
        }
        Self::new_grouped(num as u64, 44u8)
    }

    /// # New (w/ Alternative Thousands Separator).
    ///
    /// `num` with `sep` between groups of three digits.
    pub fn with_separator(num: u32, sep: NiceSeparator) -> (r: Self)
        ensures
            r@ == grouped(num as nat, sep.spec_byte()),
            r.buffer() == nice_buffer(13, num as nat, sep.spec_byte()),
            r.separator() == sep.spec_byte(),
    {
        let b = sep.as_byte();
        proof {
            lemma_fits_u32(num, b);
        }
        Self::new_grouped(num as u64, b)
    }

    /// # Replace.
    ///
    /// Reuse the backing storage behind `self` to hold a new nice number;
    /// the separator stays as it was.
    pub fn replace(&mut self, num: u32)
        ensures
            final(self)@ == grouped(num as nat, old(self).separator()),
            final(self).separator() == old(self).separator(),
    {
        proof {
            lemma_fits_u32(num, self.separator());
        }
        self.replace_grouped(num as u64);
    }

    /// # Minimum Value.
    ///
    /// `"0"`, the nice equivalent of `u32::MIN`.
    pub fn min() -> (r: Self)
        ensures
            r@ == dec(0),
    {
        Self::from_u32(0)
    }

    /// # Maximum Value.
    ///
    /// `"4,294,967,295"`, the nice equivalent of `u32::MAX`.
    pub fn max() -> (r: Self)
        ensures
            r@ == grouped(4294967295, 44u8),
    {
        Self::from_u32(4294967295)
    }
}

impl From<u32> for NiceWrapper<13> {
    fn from(num: u32) -> (r: Self)
        ensures
            r@ == grouped(num as nat, 44u8),
            r.buffer() == nice_buffer(13, num as nat, 44u8),
            r.start() == 13 - grouped(num as nat, 44u8).len(),
            r.separator() == 44u8,
    {
        let r = Self::from_u32(num);
        proof {
            r.lemma_with_buffer();
        }
        r
    }
}

impl vstd::std_specs::convert::FromSpecImpl<u32> for NiceWrapper<13> {
    open spec fn obeys_from_spec() -> bool {
        true
    }

    open spec fn from_spec(num: u32) -> Self {
        NiceWrapper::<13>::with_buffer(
            nice_buffer(13, num as nat, 44u8),
            (13 - grouped(num as nat, 44u8).len()) as nat,
        )
    }
}

impl From<Option<u32>> for NiceWrapper<13> {
    fn from(num: Option<u32>) -> (r: Self)
        ensures
            r@ == grouped(num.unwrap_or(0) as nat, 44u8),
            r.buffer() == nice_buffer(13, num.unwrap_or(0) as nat, 44u8),
            r.start() == 13 - grouped(num.unwrap_or(0) as nat, 44u8).len(),
            r.separator() == 44u8,
    {
        let n = match num {
            Some(n) => n,
            None => 0,
        };
        let r = Self::from_u32(n);
        proof {
            r.lemma_with_buffer();
        }
        r
    }
}

impl vstd::std_specs::convert::FromSpecImpl<Option<u32>> for NiceWrapper<13> {
    open spec fn obeys_from_spec() -> bool {
        true
    }

    open spec fn from_spec(num: Option<u32>) -> Self {
        let n = num.unwrap_or(0) as nat;
        NiceWrapper::<13>::with_buffer(nice_buffer(13, n, 44u8), (13 - grouped(n, 44u8).len()) as nat)
    }
}

impl Default for NiceWrapper<13> {
    fn default() -> (r: Self)
        ensures
            r@ == dec(0),
            r.buffer() == nice_buffer(13, 0, 44u8),
            r.start() == 13 - grouped(0, 44u8).len(),
            r.separator() == 44u8,
    {
        Self::from_u32(0)
    }
}

impl NiceWrapper<26> {
    /// # New.
    ///
    /// `num` with commas between groups of three digits.
    pub fn from_u64(num: u64) -> (r: Self)
        ensures
            r@ == grouped(num as nat, 44u8),
            r.buffer() == nice_buffer(26, num as nat, 44u8),
            r.start() == 26 - grouped(num as nat, 44u8).len(),
            r.separator() == 44u8,
    {
        proof {
            lemma_fits_u64(num, 44u8);
        }
        Self::new_grouped(num as u64, 44u8)
    }

    /// # New (w/ Alternative Thousands Separator).
    ///
    /// `num` with `sep` between groups of three digits.
    pub fn with_separator(num: u64, sep: NiceSeparator) -> (r: Self)
        ensures
            r@ == grouped(num as nat, sep.spec_byte()),
            r.buffer() == nice_buffer(26, num as nat, sep.spec_byte()),
            r.separator() == sep.spec_byte(),
    {
        let b = sep.as_byte();
        proof {
            lemma_fits_u64(num, b);
        }
        Self::new_grouped(num as u64, b)
    }

    /// # Replace.
    ///
    /// Reuse the backing storage behind `self` to hold a new nice number;
    /// the separator stays as it was.
    pub fn replace(&mut self, num: u64)
        ensures
            final(self)@ == grouped(num as nat, old(self).separator()),
            final(self).separator() == old(self).separator(),
    {
        proof {
            lemma_fits_u64(num, self.separator());
        }
        self.replace_grouped(num as u64);
    }

    /// # Minimum Value.
    ///
    /// `"0"`, the nice equivalent of `u64::MIN`.
    pub fn min() -> (r: Self)
        ensures
            r@ == dec(0),
    {
        Self::from_u64(0)
    }

    /// # Maximum Value.
    ///
    /// `"18,446,744,073,709,551,615"`, the nice equivalent of `u64::MAX`.
    pub fn max() -> (r: Self)
        ensures
            r@ == grouped(18446744073709551615, 44u8),
    {
        Self::from_u64(18446744073709551615)
    }
}

impl From<u64> for NiceWrapper<26> {
    fn from(num: u64) -> (r: Self)
        ensures
            r@ == grouped(num as nat, 44u8),
            r.buffer() == nice_buffer(26, num as nat, 44u8),
            r.start() == 26 - grouped(num as nat, 44u8).len(),
            r.separator() == 44u8,
    {
        let r = Self::from_u64(num);
        proof {
            r.lemma_with_buffer();
        }
        r
    }
}

impl vstd::std_specs::convert::FromSpecImpl<u64> for NiceWrapper<26> {
    open spec fn obeys_from_spec() -> bool {
        true
    }

    open spec fn from_spec(num: u64) -> Self {
        NiceWrapper::<26>::with_buffer(
            nice_buffer(26, num as nat, 44u8),
            (26 - grouped(num as nat, 44u8).len()) as nat,
        )
    }
}

impl From<Option<u64>> for NiceWrapper<26> {
    fn from(num: Option<u64>) -> (r: Self)
        ensures
            r@ == grouped(num.unwrap_or(0) as nat, 44u8),
            r.buffer() == nice_buffer(26, num.unwrap_or(0) as nat, 44u8),
            r.start() == 26 - grouped(num.unwrap_or(0) as nat, 44u8).len(),
            r.separator() == 44u8,
    {
        let n = match num {
            Some(n) => n,
            None => 0,
        };
        let r = Self::from_u64(n);
        proof {
            r.lemma_with_buffer();
        }
        r
    }
}

impl vstd::std_specs::convert::FromSpecImpl<Option<u64>> for NiceWrapper<26> {
    open spec fn obeys_from_spec() -> bool {
        true
    }

    open spec fn from_spec(num: Option<u64>) -> Self {
        let n = num.unwrap_or(0) as nat;
        NiceWrapper::<26>::with_buffer(nice_buffer(26, n, 44u8), (26 - grouped(n, 44u8).len()) as nat)
    }
}

impl Default for NiceWrapper<26> {
    fn default() -> (r: Self)
        ensures
            r@ == dec(0),
            r.buffer() == nice_buffer(26, 0, 44u8),
            r.start() == 26 - grouped(0, 44u8).len(),
            r.separator() == 44u8,
    {
        Self::from_u64(0)
    }
}

impl From<usize> for NiceWrapper<26> {
    fn from(num: usize) -> (r: Self)
        ensures
            r@ == grouped(num as nat, 44u8),
            r.buffer() == nice_buffer(26, num as nat, 44u8),
            r.start() == 26 - grouped(num as nat, 44u8).len(),
            r.separator() == 44u8,
    {
        let r = Self::from_u64(num as u64);
        proof {
            r.lemma_with_buffer();
        }
        r
    }
}

impl vstd::std_specs::convert::FromSpecImpl<usize> for NiceWrapper<26> {
    open spec fn obeys_from_spec() -> bool {
        true
    }

    open spec fn from_spec(num: usize) -> Self {
        NiceWrapper::<26>::with_buffer(
            nice_buffer(26, num as nat, 44u8),
            (26 - grouped(num as nat, 44u8).len()) as nat,
        )
    }
}

impl From<Option<usize>> for NiceWrapper<26> {
    fn from(num: Option<usize>) -> (r: Self)
        ensures
            r@ == grouped(num.unwrap_or(0) as nat, 44u8),
            r.buffer() == nice_buffer(26, num.unwrap_or(0) as nat, 44u8),
            r.start() == 26 - grouped(num.unwrap_or(0) as nat, 44u8).len(),
            r.separator() == 44u8,
    {
        let n = match num {
            Some(n) => n,
            None => 0,
        };
        let r = Self::from_u64(n as u64);
        proof {
            r.lemma_with_buffer();
        }
        r
    }
}

impl vstd::std_specs::convert::FromSpecImpl<Option<usize>> for NiceWrapper<26> {
    open spec fn obeys_from_spec() -> bool {
        true
    }

    open spec fn from_spec(num: Option<usize>) -> Self {
        let n = num.unwrap_or(0) as nat;
        NiceWrapper::<26>::with_buffer(nice_buffer(26, n, 44u8), (26 - grouped(n, 44u8).len()) as nat)
    }
}

} // verus!
