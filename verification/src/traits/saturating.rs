//! Saturating conversion between the primitive integers: values out of the
//! target's range are clamped to its bounds rather than wrapped.

use vstd::prelude::*;

verus! {

/// `v` clamped to `lo..=hi`.
pub open spec fn clamp(v: int, lo: int, hi: int) -> int {
    if v <= lo {
        lo
    } else if hi <= v {
        hi
    } else {
        v
    }
}

/// # Saturating From.
///
/// Recast an integer to another integer type, clamping values to the target
/// type's `MIN..=MAX` instead of wrapping.
pub trait SaturatingFrom<T>: Sized {
    /// The value of the conversion.
    spec fn spec_saturating_from(src: T) -> Self;

    /// # Saturating From.
    fn saturating_from(src: T) -> (r: Self)
        ensures
            r == Self::spec_saturating_from(src),
    ;
}

impl SaturatingFrom<u8> for u8 {
    open spec fn spec_saturating_from(src: u8) -> u8 {
        clamp(src as int, u8::MIN as int, u8::MAX as int) as u8
    }

    fn saturating_from(src: u8) -> (r: u8) {
        src as u8
    }
}

impl SaturatingFrom<u16> for u8 {
    open spec fn spec_saturating_from(src: u16) -> u8 {
        clamp(src as int, u8::MIN as int, u8::MAX as int) as u8
    }

    fn saturating_from(src: u16) -> (r: u8) {
        if (u8::MAX as u128) <= (src as u128) {
            u8::MAX
        } else {
            src as u8
        }
    }
}

impl SaturatingFrom<u32> for u8 {
    open spec fn spec_saturating_from(src: u32) -> u8 {
        clamp(src as int, u8::MIN as int, u8::MAX as int) as u8
    }

    fn saturating_from(src: u32) -> (r: u8) {
        if (u8::MAX as u128) <= (src as u128) {
            u8::MAX
        } else {
            src as u8
        }
    }
}

impl SaturatingFrom<u64> for u8 {
    open spec fn spec_saturating_from(src: u64) -> u8 {
        clamp(src as int, u8::MIN as int, u8::MAX as int) as u8
    }

    fn saturating_from(src: u64) -> (r: u8) {
        if (u8::MAX as u128) <= (src as u128) {
            u8::MAX
        } else {
            src as u8
        }
    }
}

impl SaturatingFrom<u128> for u8 {
    open spec fn spec_saturating_from(src: u128) -> u8 {
        clamp(src as int, u8::MIN as int, u8::MAX as int) as u8
    }

    fn saturating_from(src: u128) -> (r: u8) {
        if (u8::MAX as u128) <= (src as u128) {
            u8::MAX
        } else {
            src as u8
        }
    }
}

impl SaturatingFrom<usize> for u8 {
    open spec fn spec_saturating_from(src: usize) -> u8 {
        clamp(src as int, u8::MIN as int, u8::MAX as int) as u8
    }

    fn saturating_from(src: usize) -> (r: u8) {
        if (u8::MAX as u128) <= (src as u128) {
            u8::MAX
        } else {
            src as u8
        }
    }
}

impl SaturatingFrom<i8> for u8 {
    open spec fn spec_saturating_from(src: i8) -> u8 {
        clamp(src as int, u8::MIN as int, u8::MAX as int) as u8
    }

    fn saturating_from(src: i8) -> (r: u8) {
        if (src as i128) <= (u8::MIN as i128) {
            u8::MIN
        } else {
            src as u8
        }
    }
}

impl SaturatingFrom<i16> for u8 {
    open spec fn spec_saturating_from(src: i16) -> u8 {
        clamp(src as int, u8::MIN as int, u8::MAX as int) as u8
    }

    fn saturating_from(src: i16) -> (r: u8) {
        if (src as i128) <= (u8::MIN as i128) {
            u8::MIN
        } else if (u8::MAX as i128) <= (src as i128) {
            u8::MAX
        } else {
            src as u8
        }
    }
}

impl SaturatingFrom<i32> for u8 {
    open spec fn spec_saturating_from(src: i32) -> u8 {
        clamp(src as int, u8::MIN as int, u8::MAX as int) as u8
    }

    fn saturating_from(src: i32) -> (r: u8) {
        if (src as i128) <= (u8::MIN as i128) {
            u8::MIN
        } else if (u8::MAX as i128) <= (src as i128) {
            u8::MAX
        } else {
            src as u8
        }
    }
}

impl SaturatingFrom<i64> for u8 {
    open spec fn spec_saturating_from(src: i64) -> u8 {
        clamp(src as int, u8::MIN as int, u8::MAX as int) as u8
    }

    fn saturating_from(src: i64) -> (r: u8) {
        if (src as i128) <= (u8::MIN as i128) {
            u8::MIN
        } else if (u8::MAX as i128) <= (src as i128) {
            u8::MAX
        } else {
            src as u8
        }
    }
}

impl SaturatingFrom<i128> for u8 {
    open spec fn spec_saturating_from(src: i128) -> u8 {
        clamp(src as int, u8::MIN as int, u8::MAX as int) as u8
    }

    fn saturating_from(src: i128) -> (r: u8) {
        if (src as i128) <= (u8::MIN as i128) {
            u8::MIN
        } else if (u8::MAX as i128) <= (src as i128) {
            u8::MAX
        } else {
            src as u8
        }
    }
}

impl SaturatingFrom<isize> for u8 {
    open spec fn spec_saturating_from(src: isize) -> u8 {
        clamp(src as int, u8::MIN as int, u8::MAX as int) as u8
    }

    fn saturating_from(src: isize) -> (r: u8) {
        if (src as i128) <= (u8::MIN as i128) {
            u8::MIN
        } else if (u8::MAX as i128) <= (src as i128) {
            u8::MAX
        } else {
            src as u8
        }
    }
}

impl SaturatingFrom<u8> for u16 {
    open spec fn spec_saturating_from(src: u8) -> u16 {
        clamp(src as int, u16::MIN as int, u16::MAX as int) as u16
    }

    fn saturating_from(src: u8) -> (r: u16) {
        src as u16
    }
}

impl SaturatingFrom<u16> for u16 {
    open spec fn spec_saturating_from(src: u16) -> u16 {
        clamp(src as int, u16::MIN as int, u16::MAX as int) as u16
    }

    fn saturating_from(src: u16) -> (r: u16) {
        src as u16
    }
}

impl SaturatingFrom<u32> for u16 {
    open spec fn spec_saturating_from(src: u32) -> u16 {
        clamp(src as int, u16::MIN as int, u16::MAX as int) as u16
    }

    fn saturating_from(src: u32) -> (r: u16) {
        if (u16::MAX as u128) <= (src as u128) {
            u16::MAX
        } else {
            src as u16
        }
    }
}

impl SaturatingFrom<u64> for u16 {
    open spec fn spec_saturating_from(src: u64) -> u16 {
        clamp(src as int, u16::MIN as int, u16::MAX as int) as u16
    }

    fn saturating_from(src: u64) -> (r: u16) {
        if (u16::MAX as u128) <= (src as u128) {
            u16::MAX
        } else {
            src as u16
        }
    }
}

impl SaturatingFrom<u128> for u16 {
    open spec fn spec_saturating_from(src: u128) -> u16 {
        clamp(src as int, u16::MIN as int, u16::MAX as int) as u16
    }

    fn saturating_from(src: u128) -> (r: u16) {
        if (u16::MAX as u128) <= (src as u128) {
            u16::MAX
        } else {
            src as u16
        }
    }
}

impl SaturatingFrom<usize> for u16 {
    open spec fn spec_saturating_from(src: usize) -> u16 {
        clamp(src as int, u16::MIN as int, u16::MAX as int) as u16
    }

    fn saturating_from(src: usize) -> (r: u16) {
        if (u16::MAX as u128) <= (src as u128) {
            u16::MAX
        } else {
            src as u16
        }
    }
}

impl SaturatingFrom<i8> for u16 {
    open spec fn spec_saturating_from(src: i8) -> u16 {
        clamp(src as int, u16::MIN as int, u16::MAX as int) as u16
    }

    fn saturating_from(src: i8) -> (r: u16) {
        if (src as i128) <= (u16::MIN as i128) {
            u16::MIN
        } else {
            src as u16
        }
    }
}

impl SaturatingFrom<i16> for u16 {
    open spec fn spec_saturating_from(src: i16) -> u16 {
        clamp(src as int, u16::MIN as int, u16::MAX as int) as u16
    }

    fn saturating_from(src: i16) -> (r: u16) {
        if (src as i128) <= (u16::MIN as i128) {
            u16::MIN
        } else {
            src as u16
        }
    }
}

impl SaturatingFrom<i32> for u16 {
    open spec fn spec_saturating_from(src: i32) -> u16 {
        clamp(src as int, u16::MIN as int, u16::MAX as int) as u16
    }

    fn saturating_from(src: i32) -> (r: u16) {
        if (src as i128) <= (u16::MIN as i128) {
            u16::MIN
        } else if (u16::MAX as i128) <= (src as i128) {
            u16::MAX
        } else {
            src as u16
        }
    }
}

impl SaturatingFrom<i64> for u16 {
    open spec fn spec_saturating_from(src: i64) -> u16 {
        clamp(src as int, u16::MIN as int, u16::MAX as int) as u16
    }

    fn saturating_from(src: i64) -> (r: u16) {
        if (src as i128) <= (u16::MIN as i128) {
            u16::MIN
        } else if (u16::MAX as i128) <= (src as i128) {
            u16::MAX
        } else {
            src as u16
        }
    }
}

impl SaturatingFrom<i128> for u16 {
    open spec fn spec_saturating_from(src: i128) -> u16 {
        clamp(src as int, u16::MIN as int, u16::MAX as int) as u16
    }

    fn saturating_from(src: i128) -> (r: u16) {
        if (src as i128) <= (u16::MIN as i128) {
            u16::MIN
        } else if (u16::MAX as i128) <= (src as i128) {
            u16::MAX
        } else {
            src as u16
        }
    }
}

impl SaturatingFrom<isize> for u16 {
    open spec fn spec_saturating_from(src: isize) -> u16 {
        clamp(src as int, u16::MIN as int, u16::MAX as int) as u16
    }

    fn saturating_from(src: isize) -> (r: u16) {
        if (src as i128) <= (u16::MIN as i128) {
            u16::MIN
        } else if (u16::MAX as i128) <= (src as i128) {
            u16::MAX
        } else {
            src as u16
        }
    }
}

impl SaturatingFrom<u8> for u32 {
    open spec fn spec_saturating_from(src: u8) -> u32 {
        clamp(src as int, u32::MIN as int, u32::MAX as int) as u32
    }

    fn saturating_from(src: u8) -> (r: u32) {
        src as u32
    }
}

impl SaturatingFrom<u16> for u32 {
    open spec fn spec_saturating_from(src: u16) -> u32 {
        clamp(src as int, u32::MIN as int, u32::MAX as int) as u32
    }

    fn saturating_from(src: u16) -> (r: u32) {
        src as u32
    }
}

impl SaturatingFrom<u32> for u32 {
    open spec fn spec_saturating_from(src: u32) -> u32 {
        clamp(src as int, u32::MIN as int, u32::MAX as int) as u32
    }

    fn saturating_from(src: u32) -> (r: u32) {
        src as u32
    }
}

impl SaturatingFrom<u64> for u32 {
    open spec fn spec_saturating_from(src: u64) -> u32 {
        clamp(src as int, u32::MIN as int, u32::MAX as int) as u32
    }

    fn saturating_from(src: u64) -> (r: u32) {
        if (u32::MAX as u128) <= (src as u128) {
            u32::MAX
        } else {
            src as u32
        }
    }
}

impl SaturatingFrom<u128> for u32 {
    open spec fn spec_saturating_from(src: u128) -> u32 {
        clamp(src as int, u32::MIN as int, u32::MAX as int) as u32
    }

    fn saturating_from(src: u128) -> (r: u32) {
        if (u32::MAX as u128) <= (src as u128) {
            u32::MAX
        } else {
            src as u32
        }
    }
}

impl SaturatingFrom<usize> for u32 {
    open spec fn spec_saturating_from(src: usize) -> u32 {
        clamp(src as int, u32::MIN as int, u32::MAX as int) as u32
    }

    fn saturating_from(src: usize) -> (r: u32) {
        if (u32::MAX as u128) <= (src as u128) {
            u32::MAX
        } else {
            src as u32
        }
    }
}

impl SaturatingFrom<i8> for u32 {
    open spec fn spec_saturating_from(src: i8) -> u32 {
        clamp(src as int, u32::MIN as int, u32::MAX as int) as u32
    }

    fn saturating_from(src: i8) -> (r: u32) {
        if (src as i128) <= (u32::MIN as i128) {
            u32::MIN
        } else {
            src as u32
        }
    }
}

impl SaturatingFrom<i16> for u32 {
    open spec fn spec_saturating_from(src: i16) -> u32 {
        clamp(src as int, u32::MIN as int, u32::MAX as int) as u32
    }

    fn saturating_from(src: i16) -> (r: u32) {
        if (src as i128) <= (u32::MIN as i128) {
            u32::MIN
        } else {
            src as u32
        }
    }
}

impl SaturatingFrom<i32> for u32 {
    open spec fn spec_saturating_from(src: i32) -> u32 {
        clamp(src as int, u32::MIN as int, u32::MAX as int) as u32
    }

    fn saturating_from(src: i32) -> (r: u32) {
        if (src as i128) <= (u32::MIN as i128) {
            u32::MIN
        } else {
            src as u32
        }
    }
}

impl SaturatingFrom<i64> for u32 {
    open spec fn spec_saturating_from(src: i64) -> u32 {
        clamp(src as int, u32::MIN as int, u32::MAX as int) as u32
    }

    fn saturating_from(src: i64) -> (r: u32) {
        if (src as i128) <= (u32::MIN as i128) {
            u32::MIN
        } else if (u32::MAX as i128) <= (src as i128) {
            u32::MAX
        } else {
            src as u32
        }
    }
}

impl SaturatingFrom<i128> for u32 {
    open spec fn spec_saturating_from(src: i128) -> u32 {
        clamp(src as int, u32::MIN as int, u32::MAX as int) as u32
    }

    fn saturating_from(src: i128) -> (r: u32) {
        if (src as i128) <= (u32::MIN as i128) {
            u32::MIN
        } else if (u32::MAX as i128) <= (src as i128) {
            u32::MAX
        } else {
            src as u32
        }
    }
}

impl SaturatingFrom<isize> for u32 {
    open spec fn spec_saturating_from(src: isize) -> u32 {
        clamp(src as int, u32::MIN as int, u32::MAX as int) as u32
    }

    fn saturating_from(src: isize) -> (r: u32) {
        if (src as i128) <= (u32::MIN as i128) {
            u32::MIN
        } else if (u32::MAX as i128) <= (src as i128) {
            u32::MAX
        } else {
            src as u32
        }
    }
}

impl SaturatingFrom<u8> for u64 {
    open spec fn spec_saturating_from(src: u8) -> u64 {
        clamp(src as int, u64::MIN as int, u64::MAX as int) as u64
    }

    fn saturating_from(src: u8) -> (r: u64) {
        src as u64
    }
}

impl SaturatingFrom<u16> for u64 {
    open spec fn spec_saturating_from(src: u16) -> u64 {
        clamp(src as int, u64::MIN as int, u64::MAX as int) as u64
    }

    fn saturating_from(src: u16) -> (r: u64) {
        src as u64
    }
}

impl SaturatingFrom<u32> for u64 {
    open spec fn spec_saturating_from(src: u32) -> u64 {
        clamp(src as int, u64::MIN as int, u64::MAX as int) as u64
    }

    fn saturating_from(src: u32) -> (r: u64) {
        src as u64
    }
}

impl SaturatingFrom<u64> for u64 {
    open spec fn spec_saturating_from(src: u64) -> u64 {
        clamp(src as int, u64::MIN as int, u64::MAX as int) as u64
    }

    fn saturating_from(src: u64) -> (r: u64) {
        src as u64
    }
}

impl SaturatingFrom<u128> for u64 {
    open spec fn spec_saturating_from(src: u128) -> u64 {
        clamp(src as int, u64::MIN as int, u64::MAX as int) as u64
    }

    fn saturating_from(src: u128) -> (r: u64) {
        if (u64::MAX as u128) <= (src as u128) {
            u64::MAX
        } else {
            src as u64
        }
    }
}

impl SaturatingFrom<usize> for u64 {
    open spec fn spec_saturating_from(src: usize) -> u64 {
        clamp(src as int, u64::MIN as int, u64::MAX as int) as u64
    }

    fn saturating_from(src: usize) -> (r: u64) {
        src as u64
    }
}

impl SaturatingFrom<i8> for u64 {
    open spec fn spec_saturating_from(src: i8) -> u64 {
        clamp(src as int, u64::MIN as int, u64::MAX as int) as u64
    }

    fn saturating_from(src: i8) -> (r: u64) {
        if (src as i128) <= (u64::MIN as i128) {
            u64::MIN
        } else {
            src as u64
        }
    }
}

impl SaturatingFrom<i16> for u64 {
    open spec fn spec_saturating_from(src: i16) -> u64 {
        clamp(src as int, u64::MIN as int, u64::MAX as int) as u64
    }

    fn saturating_from(src: i16) -> (r: u64) {
        if (src as i128) <= (u64::MIN as i128) {
            u64::MIN
        } else {
            src as u64
        }
    }
}

impl SaturatingFrom<i32> for u64 {
    open spec fn spec_saturating_from(src: i32) -> u64 {
        clamp(src as int, u64::MIN as int, u64::MAX as int) as u64
    }

    fn saturating_from(src: i32) -> (r: u64) {
        if (src as i128) <= (u64::MIN as i128) {
            u64::MIN
        } else {
            src as u64
        }
    }
}

impl SaturatingFrom<i64> for u64 {
    open spec fn spec_saturating_from(src: i64) -> u64 {
        clamp(src as int, u64::MIN as int, u64::MAX as int) as u64
    }

    fn saturating_from(src: i64) -> (r: u64) {
        if (src as i128) <= (u64::MIN as i128) {
            u64::MIN
        } else {
            src as u64
        }
    }
}

impl SaturatingFrom<i128> for u64 {
    open spec fn spec_saturating_from(src: i128) -> u64 {
        clamp(src as int, u64::MIN as int, u64::MAX as int) as u64
    }

    fn saturating_from(src: i128) -> (r: u64) {
        if (src as i128) <= (u64::MIN as i128) {
            u64::MIN
        } else if (u64::MAX as i128) <= (src as i128) {
            u64::MAX
        } else {
            src as u64
        }
    }
}

impl SaturatingFrom<isize> for u64 {
    open spec fn spec_saturating_from(src: isize) -> u64 {
        clamp(src as int, u64::MIN as int, u64::MAX as int) as u64
    }

    fn saturating_from(src: isize) -> (r: u64) {
        if (src as i128) <= (u64::MIN as i128) {
            u64::MIN
        } else {
            src as u64
        }
    }
}

impl SaturatingFrom<u8> for u128 {
    open spec fn spec_saturating_from(src: u8) -> u128 {
        clamp(src as int, u128::MIN as int, u128::MAX as int) as u128
    }

    fn saturating_from(src: u8) -> (r: u128) {
        src as u128
    }
}

impl SaturatingFrom<u16> for u128 {
    open spec fn spec_saturating_from(src: u16) -> u128 {
        clamp(src as int, u128::MIN as int, u128::MAX as int) as u128
    }

    fn saturating_from(src: u16) -> (r: u128) {
        src as u128
    }
}

impl SaturatingFrom<u32> for u128 {
    open spec fn spec_saturating_from(src: u32) -> u128 {
        clamp(src as int, u128::MIN as int, u128::MAX as int) as u128
    }

    fn saturating_from(src: u32) -> (r: u128) {
        src as u128
    }
}

impl SaturatingFrom<u64> for u128 {
    open spec fn spec_saturating_from(src: u64) -> u128 {
        clamp(src as int, u128::MIN as int, u128::MAX as int) as u128
    }

    fn saturating_from(src: u64) -> (r: u128) {
        src as u128
    }
}

impl SaturatingFrom<u128> for u128 {
    open spec fn spec_saturating_from(src: u128) -> u128 {
        clamp(src as int, u128::MIN as int, u128::MAX as int) as u128
    }

    fn saturating_from(src: u128) -> (r: u128) {
        src as u128
    }
}

impl SaturatingFrom<usize> for u128 {
    open spec fn spec_saturating_from(src: usize) -> u128 {
        clamp(src as int, u128::MIN as int, u128::MAX as int) as u128
    }

    fn saturating_from(src: usize) -> (r: u128) {
        src as u128
    }
}

impl SaturatingFrom<i8> for u128 {
    open spec fn spec_saturating_from(src: i8) -> u128 {
        clamp(src as int, u128::MIN as int, u128::MAX as int) as u128
    }

    fn saturating_from(src: i8) -> (r: u128) {
        if (src as i128) <= (u128::MIN as i128) {
            u128::MIN
        } else {
            src as u128
        }
    }
}

impl SaturatingFrom<i16> for u128 {
    open spec fn spec_saturating_from(src: i16) -> u128 {
        clamp(src as int, u128::MIN as int, u128::MAX as int) as u128
    }

    fn saturating_from(src: i16) -> (r: u128) {
        if (src as i128) <= (u128::MIN as i128) {
            u128::MIN
        } else {
            src as u128
        }
    }
}

impl SaturatingFrom<i32> for u128 {
    open spec fn spec_saturating_from(src: i32) -> u128 {
        clamp(src as int, u128::MIN as int, u128::MAX as int) as u128
    }

    fn saturating_from(src: i32) -> (r: u128) {
        if (src as i128) <= (u128::MIN as i128) {
            u128::MIN
        } else {
            src as u128
        }
    }
}

impl SaturatingFrom<i64> for u128 {
    open spec fn spec_saturating_from(src: i64) -> u128 {
        clamp(src as int, u128::MIN as int, u128::MAX as int) as u128
    }

    fn saturating_from(src: i64) -> (r: u128) {
        if (src as i128) <= (u128::MIN as i128) {
            u128::MIN
        } else {
            src as u128
        }
    }
}

impl SaturatingFrom<i128> for u128 {
    open spec fn spec_saturating_from(src: i128) -> u128 {
        clamp(src as int, u128::MIN as int, u128::MAX as int) as u128
    }

    fn saturating_from(src: i128) -> (r: u128) {
        if (src as i128) <= (u128::MIN as i128) {
            u128::MIN
        } else {
            src as u128
        }
    }
}

impl SaturatingFrom<isize> for u128 {
    open spec fn spec_saturating_from(src: isize) -> u128 {
        clamp(src as int, u128::MIN as int, u128::MAX as int) as u128
    }

    fn saturating_from(src: isize) -> (r: u128) {
        if (src as i128) <= (u128::MIN as i128) {
            u128::MIN
        } else {
            src as u128
        }
    }
}

impl SaturatingFrom<u8> for usize {
    open spec fn spec_saturating_from(src: u8) -> usize {
        clamp(src as int, usize::MIN as int, usize::MAX as int) as usize
    }

    fn saturating_from(src: u8) -> (r: usize) {
        src as usize
    }
}

impl SaturatingFrom<u16> for usize {
    open spec fn spec_saturating_from(src: u16) -> usize {
        clamp(src as int, usize::MIN as int, usize::MAX as int) as usize
    }

    fn saturating_from(src: u16) -> (r: usize) {
        src as usize
    }
}

impl SaturatingFrom<u32> for usize {
    open spec fn spec_saturating_from(src: u32) -> usize {
        clamp(src as int, usize::MIN as int, usize::MAX as int) as usize
    }

    fn saturating_from(src: u32) -> (r: usize) {
        src as usize
    }
}

impl SaturatingFrom<u64> for usize {
    open spec fn spec_saturating_from(src: u64) -> usize {
        clamp(src as int, usize::MIN as int, usize::MAX as int) as usize
    }

    fn saturating_from(src: u64) -> (r: usize) {
        if (usize::MAX as u128) <= (src as u128) {
            usize::MAX
        } else {
            src as usize
        }
    }
}

impl SaturatingFrom<u128> for usize {
    open spec fn spec_saturating_from(src: u128) -> usize {
        clamp(src as int, usize::MIN as int, usize::MAX as int) as usize
    }

    fn saturating_from(src: u128) -> (r: usize) {
        if (usize::MAX as u128) <= (src as u128) {
            usize::MAX
        } else {
            src as usize
        }
    }
}

impl SaturatingFrom<usize> for usize {
    open spec fn spec_saturating_from(src: usize) -> usize {
        clamp(src as int, usize::MIN as int, usize::MAX as int) as usize
    }

    fn saturating_from(src: usize) -> (r: usize) {
        src as usize
    }
}

impl SaturatingFrom<i8> for usize {
    open spec fn spec_saturating_from(src: i8) -> usize {
        clamp(src as int, usize::MIN as int, usize::MAX as int) as usize
    }

    fn saturating_from(src: i8) -> (r: usize) {
        if (src as i128) <= (usize::MIN as i128) {
            usize::MIN
        } else {
            src as usize
        }
    }
}

impl SaturatingFrom<i16> for usize {
    open spec fn spec_saturating_from(src: i16) -> usize {
        clamp(src as int, usize::MIN as int, usize::MAX as int) as usize
    }

    fn saturating_from(src: i16) -> (r: usize) {
        if (src as i128) <= (usize::MIN as i128) {
            usize::MIN
        } else {
            src as usize
        }
    }
}

impl SaturatingFrom<i32> for usize {
    open spec fn spec_saturating_from(src: i32) -> usize {
        clamp(src as int, usize::MIN as int, usize::MAX as int) as usize
    }

    fn saturating_from(src: i32) -> (r: usize) {
        if (src as i128) <= (usize::MIN as i128) {
            usize::MIN
        } else {
            src as usize
        }
    }
}

impl SaturatingFrom<i64> for usize {
    open spec fn spec_saturating_from(src: i64) -> usize {
        clamp(src as int, usize::MIN as int, usize::MAX as int) as usize
    }

    fn saturating_from(src: i64) -> (r: usize) {
        if (src as i128) <= (usize::MIN as i128) {
            usize::MIN
        } else if (usize::MAX as i128) <= (src as i128) {
            usize::MAX
        } else {
            src as usize
        }
    }
}

impl SaturatingFrom<i128> for usize {
    open spec fn spec_saturating_from(src: i128) -> usize {
        clamp(src as int, usize::MIN as int, usize::MAX as int) as usize
    }

    fn saturating_from(src: i128) -> (r: usize) {
        if (src as i128) <= (usize::MIN as i128) {
            usize::MIN
        } else if (usize::MAX as i128) <= (src as i128) {
            usize::MAX
        } else {
            src as usize
        }
    }
}

impl SaturatingFrom<isize> for usize {
    open spec fn spec_saturating_from(src: isize) -> usize {
        clamp(src as int, usize::MIN as int, usize::MAX as int) as usize
    }

    fn saturating_from(src: isize) -> (r: usize) {
        if (src as i128) <= (usize::MIN as i128) {
            usize::MIN
        } else {
            src as usize
        }
    }
}

impl SaturatingFrom<u8> for i8 {
    open spec fn spec_saturating_from(src: u8) -> i8 {
        clamp(src as int, i8::MIN as int, i8::MAX as int) as i8
    }

    fn saturating_from(src: u8) -> (r: i8) {
        if (i8::MAX as u128) <= (src as u128) {
            i8::MAX
        } else {
            src as i8
        }
    }
}

impl SaturatingFrom<u16> for i8 {
    open spec fn spec_saturating_from(src: u16) -> i8 {
        clamp(src as int, i8::MIN as int, i8::MAX as int) as i8
    }

    fn saturating_from(src: u16) -> (r: i8) {
        if (i8::MAX as u128) <= (src as u128) {
            i8::MAX
        } else {
            src as i8
        }
    }
}

impl SaturatingFrom<u32> for i8 {
    open spec fn spec_saturating_from(src: u32) -> i8 {
        clamp(src as int, i8::MIN as int, i8::MAX as int) as i8
    }

    fn saturating_from(src: u32) -> (r: i8) {
        if (i8::MAX as u128) <= (src as u128) {
            i8::MAX
        } else {
            src as i8
        }
    }
}

impl SaturatingFrom<u64> for i8 {
    open spec fn spec_saturating_from(src: u64) -> i8 {
        clamp(src as int, i8::MIN as int, i8::MAX as int) as i8
    }

    fn saturating_from(src: u64) -> (r: i8) {
        if (i8::MAX as u128) <= (src as u128) {
            i8::MAX
        } else {
            src as i8
        }
    }
}

impl SaturatingFrom<u128> for i8 {
    open spec fn spec_saturating_from(src: u128) -> i8 {
        clamp(src as int, i8::MIN as int, i8::MAX as int) as i8
    }

    fn saturating_from(src: u128) -> (r: i8) {
        if (i8::MAX as u128) <= (src as u128) {
            i8::MAX
        } else {
            src as i8
        }
    }
}

impl SaturatingFrom<usize> for i8 {
    open spec fn spec_saturating_from(src: usize) -> i8 {
        clamp(src as int, i8::MIN as int, i8::MAX as int) as i8
    }

    fn saturating_from(src: usize) -> (r: i8) {
        if (i8::MAX as u128) <= (src as u128) {
            i8::MAX
        } else {
            src as i8
        }
    }
}

impl SaturatingFrom<i8> for i8 {
    open spec fn spec_saturating_from(src: i8) -> i8 {
        clamp(src as int, i8::MIN as int, i8::MAX as int) as i8
    }

    fn saturating_from(src: i8) -> (r: i8) {
        src as i8
    }
}

impl SaturatingFrom<i16> for i8 {
    open spec fn spec_saturating_from(src: i16) -> i8 {
        clamp(src as int, i8::MIN as int, i8::MAX as int) as i8
    }

    fn saturating_from(src: i16) -> (r: i8) {
        if (src as i128) <= (i8::MIN as i128) {
            i8::MIN
        } else if (i8::MAX as i128) <= (src as i128) {
            i8::MAX
        } else {
            src as i8
        }
    }
}

impl SaturatingFrom<i32> for i8 {
    open spec fn spec_saturating_from(src: i32) -> i8 {
        clamp(src as int, i8::MIN as int, i8::MAX as int) as i8
    }

    fn saturating_from(src: i32) -> (r: i8) {
        if (src as i128) <= (i8::MIN as i128) {
            i8::MIN
        } else if (i8::MAX as i128) <= (src as i128) {
            i8::MAX
        } else {
            src as i8
        }
    }
}

impl SaturatingFrom<i64> for i8 {
    open spec fn spec_saturating_from(src: i64) -> i8 {
        clamp(src as int, i8::MIN as int, i8::MAX as int) as i8
    }

    fn saturating_from(src: i64) -> (r: i8) {
        if (src as i128) <= (i8::MIN as i128) {
            i8::MIN
        } else if (i8::MAX as i128) <= (src as i128) {
            i8::MAX
        } else {
            src as i8
        }
    }
}

impl SaturatingFrom<i128> for i8 {
    open spec fn spec_saturating_from(src: i128) -> i8 {
        clamp(src as int, i8::MIN as int, i8::MAX as int) as i8
    }

    fn saturating_from(src: i128) -> (r: i8) {
        if (src as i128) <= (i8::MIN as i128) {
            i8::MIN
        } else if (i8::MAX as i128) <= (src as i128) {
            i8::MAX
        } else {
            src as i8
        }
    }
}

impl SaturatingFrom<isize> for i8 {
    open spec fn spec_saturating_from(src: isize) -> i8 {
        clamp(src as int, i8::MIN as int, i8::MAX as int) as i8
    }

    fn saturating_from(src: isize) -> (r: i8) {
        if (src as i128) <= (i8::MIN as i128) {
            i8::MIN
        } else if (i8::MAX as i128) <= (src as i128) {
            i8::MAX
        } else {
            src as i8
        }
    }
}

impl SaturatingFrom<u8> for i16 {
    open spec fn spec_saturating_from(src: u8) -> i16 {
        clamp(src as int, i16::MIN as int, i16::MAX as int) as i16
    }

    fn saturating_from(src: u8) -> (r: i16) {
        src as i16
    }
}

impl SaturatingFrom<u16> for i16 {
    open spec fn spec_saturating_from(src: u16) -> i16 {
        clamp(src as int, i16::MIN as int, i16::MAX as int) as i16
    }

    fn saturating_from(src: u16) -> (r: i16) {
        if (i16::MAX as u128) <= (src as u128) {
            i16::MAX
        } else {
            src as i16
        }
    }
}

impl SaturatingFrom<u32> for i16 {
    open spec fn spec_saturating_from(src: u32) -> i16 {
        clamp(src as int, i16::MIN as int, i16::MAX as int) as i16
    }

    fn saturating_from(src: u32) -> (r: i16) {
        if (i16::MAX as u128) <= (src as u128) {
            i16::MAX
        } else {
            src as i16
        }
    }
}

impl SaturatingFrom<u64> for i16 {
    open spec fn spec_saturating_from(src: u64) -> i16 {
        clamp(src as int, i16::MIN as int, i16::MAX as int) as i16
    }

    fn saturating_from(src: u64) -> (r: i16) {
        if (i16::MAX as u128) <= (src as u128) {
            i16::MAX
        } else {
            src as i16
        }
    }
}

impl SaturatingFrom<u128> for i16 {
    open spec fn spec_saturating_from(src: u128) -> i16 {
        clamp(src as int, i16::MIN as int, i16::MAX as int) as i16
    }

    fn saturating_from(src: u128) -> (r: i16) {
        if (i16::MAX as u128) <= (src as u128) {
            i16::MAX
        } else {
            src as i16
        }
    }
}

impl SaturatingFrom<usize> for i16 {
    open spec fn spec_saturating_from(src: usize) -> i16 {
        clamp(src as int, i16::MIN as int, i16::MAX as int) as i16
    }

    fn saturating_from(src: usize) -> (r: i16) {
        if (i16::MAX as u128) <= (src as u128) {
            i16::MAX
        } else {
            src as i16
        }
    }
}

impl SaturatingFrom<i8> for i16 {
    open spec fn spec_saturating_from(src: i8) -> i16 {
        clamp(src as int, i16::MIN as int, i16::MAX as int) as i16
    }

    fn saturating_from(src: i8) -> (r: i16) {
        src as i16
    }
}

impl SaturatingFrom<i16> for i16 {
    open spec fn spec_saturating_from(src: i16) -> i16 {
        clamp(src as int, i16::MIN as int, i16::MAX as int) as i16
    }

    fn saturating_from(src: i16) -> (r: i16) {
        src as i16
    }
}

impl SaturatingFrom<i32> for i16 {
    open spec fn spec_saturating_from(src: i32) -> i16 {
        clamp(src as int, i16::MIN as int, i16::MAX as int) as i16
    }

    fn saturating_from(src: i32) -> (r: i16) {
        if (src as i128) <= (i16::MIN as i128) {
            i16::MIN
        } else if (i16::MAX as i128) <= (src as i128) {
            i16::MAX
        } else {
            src as i16
        }
    }
}

impl SaturatingFrom<i64> for i16 {
    open spec fn spec_saturating_from(src: i64) -> i16 {
        clamp(src as int, i16::MIN as int, i16::MAX as int) as i16
    }

    fn saturating_from(src: i64) -> (r: i16) {
        if (src as i128) <= (i16::MIN as i128) {
            i16::MIN
        } else if (i16::MAX as i128) <= (src as i128) {
            i16::MAX
        } else {
            src as i16
        }
    }
}

impl SaturatingFrom<i128> for i16 {
    open spec fn spec_saturating_from(src: i128) -> i16 {
        clamp(src as int, i16::MIN as int, i16::MAX as int) as i16
    }

    fn saturating_from(src: i128) -> (r: i16) {
        if (src as i128) <= (i16::MIN as i128) {
            i16::MIN
        } else if (i16::MAX as i128) <= (src as i128) {
            i16::MAX
        } else {
            src as i16
        }
    }
}

impl SaturatingFrom<isize> for i16 {
    open spec fn spec_saturating_from(src: isize) -> i16 {
        clamp(src as int, i16::MIN as int, i16::MAX as int) as i16
    }

    fn saturating_from(src: isize) -> (r: i16) {
        if (src as i128) <= (i16::MIN as i128) {
            i16::MIN
        } else if (i16::MAX as i128) <= (src as i128) {
            i16::MAX
        } else {
            src as i16
        }
    }
}

impl SaturatingFrom<u8> for i32 {
    open spec fn spec_saturating_from(src: u8) -> i32 {
        clamp(src as int, i32::MIN as int, i32::MAX as int) as i32
    }

    fn saturating_from(src: u8) -> (r: i32) {
        src as i32
    }
}

impl SaturatingFrom<u16> for i32 {
    open spec fn spec_saturating_from(src: u16) -> i32 {
        clamp(src as int, i32::MIN as int, i32::MAX as int) as i32
    }

    fn saturating_from(src: u16) -> (r: i32) {
        src as i32
    }
}

impl SaturatingFrom<u32> for i32 {
    open spec fn spec_saturating_from(src: u32) -> i32 {
        clamp(src as int, i32::MIN as int, i32::MAX as int) as i32
    }

    fn saturating_from(src: u32) -> (r: i32) {
        if (i32::MAX as u128) <= (src as u128) {
            i32::MAX
        } else {
            src as i32
        }
    }
}

impl SaturatingFrom<u64> for i32 {
    open spec fn spec_saturating_from(src: u64) -> i32 {
        clamp(src as int, i32::MIN as int, i32::MAX as int) as i32
    }

    fn saturating_from(src: u64) -> (r: i32) {
        if (i32::MAX as u128) <= (src as u128) {
            i32::MAX
        } else {
            src as i32
        }
    }
}

impl SaturatingFrom<u128> for i32 {
    open spec fn spec_saturating_from(src: u128) -> i32 {
        clamp(src as int, i32::MIN as int, i32::MAX as int) as i32
    }

    fn saturating_from(src: u128) -> (r: i32) {
        if (i32::MAX as u128) <= (src as u128) {
            i32::MAX
        } else {
            src as i32
        }
    }
}

impl SaturatingFrom<usize> for i32 {
    open spec fn spec_saturating_from(src: usize) -> i32 {
        clamp(src as int, i32::MIN as int, i32::MAX as int) as i32
    }

    fn saturating_from(src: usize) -> (r: i32) {
        if (i32::MAX as u128) <= (src as u128) {
            i32::MAX
        } else {
            src as i32
        }
    }
}

impl SaturatingFrom<i8> for i32 {
    open spec fn spec_saturating_from(src: i8) -> i32 {
        clamp(src as int, i32::MIN as int, i32::MAX as int) as i32
    }

    fn saturating_from(src: i8) -> (r: i32) {
        src as i32
    }
}

impl SaturatingFrom<i16> for i32 {
    open spec fn spec_saturating_from(src: i16) -> i32 {
        clamp(src as int, i32::MIN as int, i32::MAX as int) as i32
    }

    fn saturating_from(src: i16) -> (r: i32) {
        src as i32
    }
}

impl SaturatingFrom<i32> for i32 {
    open spec fn spec_saturating_from(src: i32) -> i32 {
        clamp(src as int, i32::MIN as int, i32::MAX as int) as i32
    }

    fn saturating_from(src: i32) -> (r: i32) {
        src as i32
    }
}

impl SaturatingFrom<i64> for i32 {
    open spec fn spec_saturating_from(src: i64) -> i32 {
        clamp(src as int, i32::MIN as int, i32::MAX as int) as i32
    }

    fn saturating_from(src: i64) -> (r: i32) {
        if (src as i128) <= (i32::MIN as i128) {
            i32::MIN
        } else if (i32::MAX as i128) <= (src as i128) {
            i32::MAX
        } else {
            src as i32
        }
    }
}

impl SaturatingFrom<i128> for i32 {
    open spec fn spec_saturating_from(src: i128) -> i32 {
        clamp(src as int, i32::MIN as int, i32::MAX as int) as i32
    }

    fn saturating_from(src: i128) -> (r: i32) {
        if (src as i128) <= (i32::MIN as i128) {
            i32::MIN
        } else if (i32::MAX as i128) <= (src as i128) {
            i32::MAX
        } else {
            src as i32
        }
    }
}

impl SaturatingFrom<isize> for i32 {
    open spec fn spec_saturating_from(src: isize) -> i32 {
        clamp(src as int, i32::MIN as int, i32::MAX as int) as i32
    }

    fn saturating_from(src: isize) -> (r: i32) {
        if (src as i128) <= (i32::MIN as i128) {
            i32::MIN
        } else if (i32::MAX as i128) <= (src as i128) {
            i32::MAX
        } else {
            src as i32
        }
    }
}

impl SaturatingFrom<u8> for i64 {
    open spec fn spec_saturating_from(src: u8) -> i64 {
        clamp(src as int, i64::MIN as int, i64::MAX as int) as i64
    }

    fn saturating_from(src: u8) -> (r: i64) {
        src as i64
    }
}

impl SaturatingFrom<u16> for i64 {
    open spec fn spec_saturating_from(src: u16) -> i64 {
        clamp(src as int, i64::MIN as int, i64::MAX as int) as i64
    }

    fn saturating_from(src: u16) -> (r: i64) {
        src as i64
    }
}

impl SaturatingFrom<u32> for i64 {
    open spec fn spec_saturating_from(src: u32) -> i64 {
        clamp(src as int, i64::MIN as int, i64::MAX as int) as i64
    }

    fn saturating_from(src: u32) -> (r: i64) {
        src as i64
    }
}

impl SaturatingFrom<u64> for i64 {
    open spec fn spec_saturating_from(src: u64) -> i64 {
        clamp(src as int, i64::MIN as int, i64::MAX as int) as i64
    }

    fn saturating_from(src: u64) -> (r: i64) {
        if (i64::MAX as u128) <= (src as u128) {
            i64::MAX
        } else {
            src as i64
        }
    }
}

impl SaturatingFrom<u128> for i64 {
    open spec fn spec_saturating_from(src: u128) -> i64 {
        clamp(src as int, i64::MIN as int, i64::MAX as int) as i64
    }

    fn saturating_from(src: u128) -> (r: i64) {
        if (i64::MAX as u128) <= (src as u128) {
            i64::MAX
        } else {
            src as i64
        }
    }
}

impl SaturatingFrom<usize> for i64 {
    open spec fn spec_saturating_from(src: usize) -> i64 {
        clamp(src as int, i64::MIN as int, i64::MAX as int) as i64
    }

    fn saturating_from(src: usize) -> (r: i64) {
        if (i64::MAX as u128) <= (src as u128) {
            i64::MAX
        } else {
            src as i64
        }
    }
}

impl SaturatingFrom<i8> for i64 {
    open spec fn spec_saturating_from(src: i8) -> i64 {
        clamp(src as int, i64::MIN as int, i64::MAX as int) as i64
    }

    fn saturating_from(src: i8) -> (r: i64) {
        src as i64
    }
}

impl SaturatingFrom<i16> for i64 {
    open spec fn spec_saturating_from(src: i16) -> i64 {
        clamp(src as int, i64::MIN as int, i64::MAX as int) as i64
    }

    fn saturating_from(src: i16) -> (r: i64) {
        src as i64
    }
}

impl SaturatingFrom<i32> for i64 {
    open spec fn spec_saturating_from(src: i32) -> i64 {
        clamp(src as int, i64::MIN as int, i64::MAX as int) as i64
    }

    fn saturating_from(src: i32) -> (r: i64) {
        src as i64
    }
}

impl SaturatingFrom<i64> for i64 {
    open spec fn spec_saturating_from(src: i64) -> i64 {
        clamp(src as int, i64::MIN as int, i64::MAX as int) as i64
    }

    fn saturating_from(src: i64) -> (r: i64) {
        src as i64
    }
}

impl SaturatingFrom<i128> for i64 {
    open spec fn spec_saturating_from(src: i128) -> i64 {
        clamp(src as int, i64::MIN as int, i64::MAX as int) as i64
    }

    fn saturating_from(src: i128) -> (r: i64) {
        if (src as i128) <= (i64::MIN as i128) {
            i64::MIN
        } else if (i64::MAX as i128) <= (src as i128) {
            i64::MAX
        } else {
            src as i64
        }
    }
}

impl SaturatingFrom<isize> for i64 {
    open spec fn spec_saturating_from(src: isize) -> i64 {
        clamp(src as int, i64::MIN as int, i64::MAX as int) as i64
    }

    fn saturating_from(src: isize) -> (r: i64) {
        src as i64
    }
}

impl SaturatingFrom<u8> for i128 {
    open spec fn spec_saturating_from(src: u8) -> i128 {
        clamp(src as int, i128::MIN as int, i128::MAX as int) as i128
    }

    fn saturating_from(src: u8) -> (r: i128) {
        src as i128
    }
}

impl SaturatingFrom<u16> for i128 {
    open spec fn spec_saturating_from(src: u16) -> i128 {
        clamp(src as int, i128::MIN as int, i128::MAX as int) as i128
    }

    fn saturating_from(src: u16) -> (r: i128) {
        src as i128
    }
}

impl SaturatingFrom<u32> for i128 {
    open spec fn spec_saturating_from(src: u32) -> i128 {
        clamp(src as int, i128::MIN as int, i128::MAX as int) as i128
    }

    fn saturating_from(src: u32) -> (r: i128) {
        src as i128
    }
}

impl SaturatingFrom<u64> for i128 {
    open spec fn spec_saturating_from(src: u64) -> i128 {
        clamp(src as int, i128::MIN as int, i128::MAX as int) as i128
    }

    fn saturating_from(src: u64) -> (r: i128) {
        src as i128
    }
}

impl SaturatingFrom<u128> for i128 {
    open spec fn spec_saturating_from(src: u128) -> i128 {
        clamp(src as int, i128::MIN as int, i128::MAX as int) as i128
    }

    fn saturating_from(src: u128) -> (r: i128) {
        if (i128::MAX as u128) <= (src as u128) {
            i128::MAX
        } else {
            src as i128
        }
    }
}

impl SaturatingFrom<usize> for i128 {
    open spec fn spec_saturating_from(src: usize) -> i128 {
        clamp(src as int, i128::MIN as int, i128::MAX as int) as i128
    }

    fn saturating_from(src: usize) -> (r: i128) {
        src as i128
    }
}

impl SaturatingFrom<i8> for i128 {
    open spec fn spec_saturating_from(src: i8) -> i128 {
        clamp(src as int, i128::MIN as int, i128::MAX as int) as i128
    }

    fn saturating_from(src: i8) -> (r: i128) {
        src as i128
    }
}

impl SaturatingFrom<i16> for i128 {
    open spec fn spec_saturating_from(src: i16) -> i128 {
        clamp(src as int, i128::MIN as int, i128::MAX as int) as i128
    }

    fn saturating_from(src: i16) -> (r: i128) {
        src as i128
    }
}

impl SaturatingFrom<i32> for i128 {
    open spec fn spec_saturating_from(src: i32) -> i128 {
        clamp(src as int, i128::MIN as int, i128::MAX as int) as i128
    }

    fn saturating_from(src: i32) -> (r: i128) {
        src as i128
    }
}

impl SaturatingFrom<i64> for i128 {
    open spec fn spec_saturating_from(src: i64) -> i128 {
        clamp(src as int, i128::MIN as int, i128::MAX as int) as i128
    }

    fn saturating_from(src: i64) -> (r: i128) {
        src as i128
    }
}

impl SaturatingFrom<i128> for i128 {
    open spec fn spec_saturating_from(src: i128) -> i128 {
        clamp(src as int, i128::MIN as int, i128::MAX as int) as i128
    }

    fn saturating_from(src: i128) -> (r: i128) {
        src as i128
    }
}

impl SaturatingFrom<isize> for i128 {
    open spec fn spec_saturating_from(src: isize) -> i128 {
        clamp(src as int, i128::MIN as int, i128::MAX as int) as i128
    }

    fn saturating_from(src: isize) -> (r: i128) {
        src as i128
    }
}

impl SaturatingFrom<u8> for isize {
    open spec fn spec_saturating_from(src: u8) -> isize {
        clamp(src as int, isize::MIN as int, isize::MAX as int) as isize
    }

    fn saturating_from(src: u8) -> (r: isize) {
        src as isize
    }
}

impl SaturatingFrom<u16> for isize {
    open spec fn spec_saturating_from(src: u16) -> isize {
        clamp(src as int, isize::MIN as int, isize::MAX as int) as isize
    }

    fn saturating_from(src: u16) -> (r: isize) {
        src as isize
    }
}

impl SaturatingFrom<u32> for isize {
    open spec fn spec_saturating_from(src: u32) -> isize {
        clamp(src as int, isize::MIN as int, isize::MAX as int) as isize
    }

    fn saturating_from(src: u32) -> (r: isize) {
        if (isize::MAX as u128) <= (src as u128) {
            isize::MAX
        } else {
            src as isize
        }
    }
}

impl SaturatingFrom<u64> for isize {
    open spec fn spec_saturating_from(src: u64) -> isize {
        clamp(src as int, isize::MIN as int, isize::MAX as int) as isize
    }

    fn saturating_from(src: u64) -> (r: isize) {
        if (isize::MAX as u128) <= (src as u128) {
            isize::MAX
        } else {
            src as isize
        }
    }
}

impl SaturatingFrom<u128> for isize {
    open spec fn spec_saturating_from(src: u128) -> isize {
        clamp(src as int, isize::MIN as int, isize::MAX as int) as isize
    }

    fn saturating_from(src: u128) -> (r: isize) {
        if (isize::MAX as u128) <= (src as u128) {
            isize::MAX
        } else {
            src as isize
        }
    }
}

impl SaturatingFrom<usize> for isize {
    open spec fn spec_saturating_from(src: usize) -> isize {
        clamp(src as int, isize::MIN as int, isize::MAX as int) as isize
    }

    fn saturating_from(src: usize) -> (r: isize) {
        if (isize::MAX as u128) <= (src as u128) {
            isize::MAX
        } else {
            src as isize
        }
    }
}

impl SaturatingFrom<i8> for isize {
    open spec fn spec_saturating_from(src: i8) -> isize {
        clamp(src as int, isize::MIN as int, isize::MAX as int) as isize
    }

    fn saturating_from(src: i8) -> (r: isize) {
        src as isize
    }
}

impl SaturatingFrom<i16> for isize {
    open spec fn spec_saturating_from(src: i16) -> isize {
        clamp(src as int, isize::MIN as int, isize::MAX as int) as isize
    }

    fn saturating_from(src: i16) -> (r: isize) {
        src as isize
    }
}

impl SaturatingFrom<i32> for isize {
    open spec fn spec_saturating_from(src: i32) -> isize {
        clamp(src as int, isize::MIN as int, isize::MAX as int) as isize
    }

    fn saturating_from(src: i32) -> (r: isize) {
        src as isize
    }
}

impl SaturatingFrom<i64> for isize {
    open spec fn spec_saturating_from(src: i64) -> isize {
        clamp(src as int, isize::MIN as int, isize::MAX as int) as isize
    }

    fn saturating_from(src: i64) -> (r: isize) {
        if (src as i128) <= (isize::MIN as i128) {
            isize::MIN
        } else if (isize::MAX as i128) <= (src as i128) {
            isize::MAX
        } else {
            src as isize
        }
    }
}

impl SaturatingFrom<i128> for isize {
    open spec fn spec_saturating_from(src: i128) -> isize {
        clamp(src as int, isize::MIN as int, isize::MAX as int) as isize
    }

    fn saturating_from(src: i128) -> (r: isize) {
        if (src as i128) <= (isize::MIN as i128) {
            isize::MIN
        } else if (isize::MAX as i128) <= (src as i128) {
            isize::MAX
        } else {
            src as isize
        }
    }
}

impl SaturatingFrom<isize> for isize {
    open spec fn spec_saturating_from(src: isize) -> isize {
        clamp(src as int, isize::MIN as int, isize::MAX as int) as isize
    }

    fn saturating_from(src: isize) -> (r: isize) {
        src as isize
    }
}

} // verus!
