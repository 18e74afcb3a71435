//! Thousands separators.

use vstd::prelude::*;

verus! {

/// # Nice Thousands Separator.
///
/// The characters that the `NiceU*` types can put between groups of three
/// digits.
#[derive(Debug, Clone, Copy, PartialEq, Eq, Structural)]
pub enum NiceSeparator {
    /// `'`
    Apostrophe,
    /// `,`
    Comma,
    /// `-`
    Dash,
    /// `.`
    Period,
    /// ` `
    Space,
    /// `_`
    Underscore,
}

impl NiceSeparator {
    /// The ASCII byte of the separator.
    pub open spec fn spec_byte(self) -> u8 {
        match self {
            NiceSeparator::Apostrophe => 39u8,
            NiceSeparator::Comma => 44u8,
            NiceSeparator::Dash => 45u8,
            NiceSeparator::Period => 46u8,
            NiceSeparator::Space => 32u8,
            NiceSeparator::Underscore => 95u8,
        }
    }

    /// # As Byte.
    ///
    /// Return the separator's ASCII byte.
    pub fn as_byte(self) -> (b: u8)
        ensures
            b == self.spec_byte(),
            b < 128,
            !crate::decimal::is_digit(b),
    {
        match self {
            NiceSeparator::Apostrophe => 39u8,
            NiceSeparator::Comma => 44u8,
            NiceSeparator::Dash => 45u8,
            NiceSeparator::Period => 46u8,
            NiceSeparator::Space => 32u8,
            NiceSeparator::Underscore => 95u8,
        }
    }
}

} // verus!
