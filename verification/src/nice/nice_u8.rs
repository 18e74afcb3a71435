//! `NiceU8`: a `u8` as decimal text.

use crate::decimal::{all_ascii, dec, digit, lemma_dec_len, lemma_pad3_dec, pad3, pow10, zero_pad};
use crate::nice::wrapper::NiceWrapper;
use vstd::prelude::*;
use vstd::string::StringSliceAdditionalSpecFns;

verus! {

/// # Nice `u8`.
///
/// A `u8` as decimal text (`255` needs no separators), in a three-byte
/// buffer that also holds the zero-padded form.
pub type NiceU8 = NiceWrapper<3>;

/// The three-byte buffer of `n` holds the text of `n` at its end.
pub proof fn lemma_pad3_tail(n: nat)
    requires
        n < 256,
    ensures
        dec(n).len() <= 3,
        pad3(n).subrange(3 - dec(n).len(), 3) == dec(n),
        all_ascii(pad3(n)),
        pad3(n) == zero_pad(dec(n), 3),
{
    reveal_with_fuel(pow10, 4);
    lemma_dec_len(n, 3);
    lemma_pad3_dec(n);
    assert(pad3(n).subrange(3 - dec(n).len(), 3) =~= dec(n));
}

/// # Inner and From.
///
/// The zero-padded three digits of `num`, and where its unpadded text
/// starts among them.
pub fn inner_from(num: u8) -> (r: ([u8; 3], usize))
    ensures
        r.0@ == pad3(num as nat),
        r.1 == 3 - dec(num as nat).len(),
{
    proof {
        lemma_pad3_tail(num as nat);
        reveal_with_fuel(pow10, 4);
        lemma_dec_len(num as nat, 2);
        lemma_dec_len(num as nat, 1);
    }
    let c = num % 10 + 48;
    let b = (num / 10) % 10 + 48;
    let a = num / 100 + 48;
    let inner = [a, b, c];
    assert(inner@ =~= pad3(num as nat));
    if 99 < num {
        (inner, 0)
    } else if 9 < num {
        (inner, 1)
    } else {
        (inner, 2)
    }
}

impl NiceWrapper<3> {
    /// # Minimum Value.
    ///
    /// `"0"`, the nice equivalent of `u8::MIN`.
    pub fn min() -> (r: Self)
        ensures
            r@ == dec(0),
            r.buffer() == pad3(0),
            r.start() == 3 - dec(0).len(),
    {
        Self::from_u8(0)
    }

    /// # Maximum Value.
    ///
    /// `"255"`, the nice equivalent of `u8::MAX`.
    pub fn max() -> (r: Self)
        ensures
            r@ == dec(255),
            r.buffer() == pad3(255),
    {
        Self::from_u8(255)
    }

    /// # New.
    ///
    /// The decimal text of `num`.
    pub fn from_u8(num: u8) -> (r: Self)
        ensures
            r@ == dec(num as nat),
            r.buffer() == pad3(num as nat),
            r.start() == 3 - dec(num as nat).len(),
    {
        let (inner, from) = inner_from(num);
        proof {
            lemma_pad3_tail(num as nat);
        }
        let r = Self::from_parts(inner, from);
        proof {
            r.lemma_view();
        }
        r
    }

    /// # Replace.
    ///
    /// Reuse the backing storage behind `self` to hold a new nice number.
    pub fn replace(&mut self, num: u8)
        ensures
            final(self)@ == dec(num as nat),
            final(self).buffer() == pad3(num as nat),
            final(self).start() == 3 - dec(num as nat).len(),
    {
        *self = Self::from_u8(num);
    }

    /// # Double Digit Bytes.
    ///
    /// The value left-padded with a zero to at least two bytes.
    pub fn as_bytes2(&self) -> (r: &[u8])
        ensures
            r@ == if self.start() == 0 {
                self.buffer()
            } else {
                self.buffer().subrange(1, 3)
            },
            all_ascii(r@),
    {
        let buf = self.buffer_slice();
        if self.start_index() == 0 {
            buf
        } else {
            let (_, rest) = buf.split_at(1);
            rest
        }
    }

    /// # Triple Digit Bytes.
    ///
    /// The value left-padded with zeroes to three bytes.
    pub fn as_bytes3(&self) -> (r: &[u8])
        ensures
            r@ == self.buffer(),
    {
        self.buffer_slice()
    }

    /// # Double Digit Str.
    ///
    /// The value left-padded with a zero to at least two characters.
    pub fn as_str2(&self) -> (r: &str)
        ensures
            r.spec_bytes() == if self.start() == 0 {
                self.buffer()
            } else {
                self.buffer().subrange(1, 3)
            },
    {
        crate::decimal::ascii_str(self.as_bytes2())
    }

    /// # Triple Digit Str.
    ///
    /// The value left-padded with zeroes to three characters.
    pub fn as_str3(&self) -> (r: &str)
        ensures
            r.spec_bytes() == self.buffer(),
    {
        crate::decimal::ascii_str(self.buffer_slice())
    }
}

impl From<u8> for NiceWrapper<3> {
    fn from(num: u8) -> (r: Self)
        ensures
            r@ == dec(num as nat),
            r.buffer() == pad3(num as nat),
            r.start() == 3 - dec(num as nat).len(),
    {
        let r = Self::from_u8(num);
        proof {
            r.lemma_with_buffer();
        }
        r
    }
}

impl vstd::std_specs::convert::FromSpecImpl<u8> for NiceWrapper<3> {
    open spec fn obeys_from_spec() -> bool {
        true
    }

    open spec fn from_spec(num: u8) -> Self {
        NiceWrapper::<3>::with_buffer(pad3(num as nat), (3 - dec(num as nat).len()) as nat)
    }
}

impl From<Option<u8>> for NiceWrapper<3> {
    fn from(num: Option<u8>) -> (r: Self)
        ensures
            r@ == dec(num.unwrap_or(0) as nat),
            r.buffer() == pad3(num.unwrap_or(0) as nat),
            r.start() == 3 - dec(num.unwrap_or(0) as nat).len(),
    {
        let r = match num {
            Some(n) => Self::from_u8(n),
            None => Self::from_u8(0),
        };
        proof {
            r.lemma_with_buffer();
        }
        r
    }
}

impl vstd::std_specs::convert::FromSpecImpl<Option<u8>> for NiceWrapper<3> {
    open spec fn obeys_from_spec() -> bool {
        true
    }

    open spec fn from_spec(num: Option<u8>) -> Self {
        let n = num.unwrap_or(0) as nat;
        NiceWrapper::<3>::with_buffer(pad3(n), (3 - dec(n).len()) as nat)
    }
}

impl Default for NiceWrapper<3> {
    fn default() -> (r: Self)
        ensures
            r@ == dec(0),
            r.buffer() == pad3(0),
            r.start() == 3 - dec(0).len(),
    {
        Self::from_u8(0)
    }
}

} // verus!
