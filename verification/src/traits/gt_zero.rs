//! Whether a value is greater than zero.

use vstd::prelude::*;

verus! {

/// # Greater Than Zero.
///
/// Types with a zero, which can say whether a value lies above it.
pub trait GtZero: Copy + PartialEq {
    /// Whether the value is above zero.
    spec fn spec_gt_zero(self) -> bool;

    /// The type's zero.
    spec fn spec_zero() -> Self;

    /// # Zero.
    fn gtzero_zero() -> (r: Self)
        ensures
            r == Self::spec_zero(),
            !r.spec_gt_zero(),
    ;

    /// # Is Greater Than Zero?
    fn is_gt_zero(self) -> (r: bool)
        ensures
            r == self.spec_gt_zero(),
    ;
}

impl GtZero for u8 {
    open spec fn spec_gt_zero(self) -> bool {
        self > 0
    }

    open spec fn spec_zero() -> u8 {
        0
    }

    fn gtzero_zero() -> (r: u8) {
        0
    }

    fn is_gt_zero(self) -> (r: bool) {
        self > 0
    }
}

impl GtZero for u16 {
    open spec fn spec_gt_zero(self) -> bool {
        self > 0
    }

    open spec fn spec_zero() -> u16 {
        0
    }

    fn gtzero_zero() -> (r: u16) {
        0
    }

    fn is_gt_zero(self) -> (r: bool) {
        self > 0
    }
}

impl GtZero for u32 {
    open spec fn spec_gt_zero(self) -> bool {
        self > 0
    }

    open spec fn spec_zero() -> u32 {
        0
    }

    fn gtzero_zero() -> (r: u32) {
        0
    }

    fn is_gt_zero(self) -> (r: bool) {
        self > 0
    }
}

impl GtZero for u64 {
    open spec fn spec_gt_zero(self) -> bool {
        self > 0
    }

    open spec fn spec_zero() -> u64 {
        0
    }

    fn gtzero_zero() -> (r: u64) {
        0
    }

    fn is_gt_zero(self) -> (r: bool) {
        self > 0
    }
}

impl GtZero for u128 {
    open spec fn spec_gt_zero(self) -> bool {
        self > 0
    }

    open spec fn spec_zero() -> u128 {
        0
    }

    fn gtzero_zero() -> (r: u128) {
        0
    }

    fn is_gt_zero(self) -> (r: bool) {
        self > 0
    }
}

impl GtZero for usize {
    open spec fn spec_gt_zero(self) -> bool {
        self > 0
    }

    open spec fn spec_zero() -> usize {
        0
    }

    fn gtzero_zero() -> (r: usize) {
        0
    }

    fn is_gt_zero(self) -> (r: bool) {
        self > 0
    }
}

impl GtZero for i8 {
    open spec fn spec_gt_zero(self) -> bool {
        self > 0
    }

    open spec fn spec_zero() -> i8 {
        0
    }

    fn gtzero_zero() -> (r: i8) {
        0
    }

    fn is_gt_zero(self) -> (r: bool) {
        self > 0
    }
}

impl GtZero for i16 {
    open spec fn spec_gt_zero(self) -> bool {
        self > 0
    }

    open spec fn spec_zero() -> i16 {
        0
    }

    fn gtzero_zero() -> (r: i16) {
        0
    }

    fn is_gt_zero(self) -> (r: bool) {
        self > 0
    }
}

impl GtZero for i32 {
    open spec fn spec_gt_zero(self) -> bool {
        self > 0
    }

    open spec fn spec_zero() -> i32 {
        0
    }

    fn gtzero_zero() -> (r: i32) {
        0
    }

    fn is_gt_zero(self) -> (r: bool) {
        self > 0
    }
}

impl GtZero for i64 {
    open spec fn spec_gt_zero(self) -> bool {
        self > 0
    }

    open spec fn spec_zero() -> i64 {
        0
    }

    fn gtzero_zero() -> (r: i64) {
        0
    }

    fn is_gt_zero(self) -> (r: bool) {
        self > 0
    }
}

impl GtZero for i128 {
    open spec fn spec_gt_zero(self) -> bool {
        self > 0
    }

    open spec fn spec_zero() -> i128 {
        0
    }

    fn gtzero_zero() -> (r: i128) {
        0
    }

    fn is_gt_zero(self) -> (r: bool) {
        self > 0
    }
}

impl GtZero for isize {
    open spec fn spec_gt_zero(self) -> bool {
        self > 0
    }

    open spec fn spec_zero() -> isize {
        0
    }

    fn gtzero_zero() -> (r: isize) {
        0
    }

    fn is_gt_zero(self) -> (r: bool) {
        self > 0
    }
}

} // verus!
