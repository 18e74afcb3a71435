//! A pass-through hasher for integer keys, whose value is its own hash.

use std::hash::{BuildHasherDefault, Hasher};
use vstd::prelude::*;

verus! {

/// # No-Hash Builder.
///
/// A `BuildHasher` for `HashMap`s and `HashSet`s keyed by integers (or types
/// that hash as one integer): each key is its own hash.
pub type NoHash = BuildHasherDefault<NoHasher>;

/// # No Hasher.
///
/// A hasher that keeps the single integer written to it and hands it back
/// from `finish`. Signed values are kept by their bits, unsigned ones by
/// value.
#[derive(Debug, Default, Copy, Clone)]
pub struct NoHasher(u64);

impl NoHasher {
    /// The state: the last integer written, as a `u64`.
    pub closed spec fn value(&self) -> u64 {
        self.0
    }
}

impl Hasher for NoHasher {
    /// Byte slices are not taken: only the integer writes change the state.
    fn write(&mut self, bytes: &[u8])
        ensures
            final(self).value() == old(self).value(),
    {
    }

    fn write_u8(&mut self, val: u8)
        ensures
            final(self).value() == val as u64,
    {
        self.0 = val as u64;
    }

    fn write_u16(&mut self, val: u16)
        ensures
            final(self).value() == val as u64,
    {
        self.0 = val as u64;
    }

    fn write_u32(&mut self, val: u32)
        ensures
            final(self).value() == val as u64,
    {
        self.0 = val as u64;
    }

    fn write_u64(&mut self, val: u64)
        ensures
            final(self).value() == val,
    {
        self.0 = val;
    }

    fn write_usize(&mut self, val: usize)
        ensures
            final(self).value() == val as u64,
    {
        self.0 = val as u64;
    }

    fn write_i8(&mut self, val: i8)
        ensures
            final(self).value() == (val as u8) as u64,
    {
        self.0 = (val as u8) as u64;
    }

    fn write_i16(&mut self, val: i16)
        ensures
            final(self).value() == (val as u16) as u64,
    {
        self.0 = (val as u16) as u64;
    }

    fn write_i32(&mut self, val: i32)
        ensures
            final(self).value() == (val as u32) as u64,
    {
        self.0 = (val as u32) as u64;
    }

    fn write_i64(&mut self, val: i64)
        ensures
            final(self).value() == val as u64,
    {
        self.0 = val as u64;
    }

    /// Wider than the state: like byte slices, not taken.
    fn write_u128(&mut self, val: u128)
        ensures
            final(self).value() == old(self).value(),
    {
    }

    /// Wider than the state: like byte slices, not taken.
    fn write_i128(&mut self, val: i128)
        ensures
            final(self).value() == old(self).value(),
    {
    }

    fn write_isize(&mut self, val: isize)
        ensures
            final(self).value() == (val as usize) as u64,
    {
        self.0 = (val as usize) as u64;
    }

    fn finish(&self) -> (r: u64)
        ensures
            r == self.value(),
    {
        self.0
    }
}

} // verus!
