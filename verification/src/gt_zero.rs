//! `GreaterThanZero`: a value together with the question of whether it lies
//! above zero, with `Option`-like helpers.

use crate::traits::GtZero;
use core::ops::{Add, Div, Mul, Rem, Sub};
use vstd::prelude::*;
use vstd::std_specs::cmp::{PartialEqSpec, PartialOrdSpec};
use vstd::std_specs::ops::{AddSpec, AddSpecImpl, DivSpec, DivSpecImpl, MulSpec, MulSpecImpl, RemSpec, RemSpecImpl, SubSpec, SubSpecImpl};

verus! {

/// # Greater Than Zero.
///
/// A value that counts as "something" only when it is above zero, much like
/// an `Option` whose `None` is any value at or below zero.
#[derive(Debug, Copy, Clone, Hash)]
pub struct GreaterThanZero<T: GtZero>(T);

impl<T: GtZero> GreaterThanZero<T> {
    /// The held value.
    pub closed spec fn value(&self) -> T {
        self.0
    }

    /// The instance holding `v`.
    pub closed spec fn of(v: T) -> Self {
        GreaterThanZero(v)
    }

    /// The instance holding `v` holds `v`, and two instances holding the
    /// same value are the same.
    pub proof fn lemma_of(v: T, w: T)
        ensures
            Self::of(v).value() == v,
            (Self::of(v) == Self::of(w)) == (v == w),
    {
    }

    /// An instance is determined by its value.
    pub proof fn lemma_of_value(&self)
        ensures
            Self::of(self.value()) == *self,
            Self::of(self.value()).value() == self.value(),
    {
    }

    /// # Filter.
    ///
    /// Test a value above zero with `f`, keeping it if `f` says `true` and
    /// zeroing it otherwise. A value at or below zero is left as it is.
    pub fn filter<F>(self, f: F) -> (r: Self)
        where
            F: FnOnce(T) -> bool,
        requires
            self.value().spec_gt_zero() ==> f.requires((self.value(),)),
        ensures
            !self.value().spec_gt_zero() ==> r == self,
            self.value().spec_gt_zero() ==> exists|b: bool|
                #[trigger] f.ensures((self.value(),), b) && r == (if b {
                    self
                } else {
                    Self::of(T::spec_zero())
                }) && r.value() == (if b {
                    self.value()
                } else {
                    T::spec_zero()
                }),
    {
        if self.0.is_gt_zero() {
            let b = f(self.0);
            if b {
                self
            } else {
                GreaterThanZero(T::gtzero_zero())
            }
        } else {
            self
        }
    }

    /// # Get.
    ///
    /// The value if it is above zero, otherwise `None`.
    pub fn get(self) -> (r: Option<T>)
        ensures
            r == (if self.value().spec_gt_zero() {
                Some(self.value())
            } else {
                None
            }),
    {
        if self.0.is_gt_zero() {
            Some(self.0)
        } else {
            None
        }
    }

    /// # Get Unchecked.
    ///
    /// The value, whether or not it is above zero.
    pub fn get_unchecked(self) -> (r: T)
        ensures
            r == self.value(),
    {
        self.0
    }

    /// # Is Greater Than Zero?
    pub fn is_gt_zero(&self) -> (r: bool)
        ensures
            r == self.value().spec_gt_zero(),
    {
        self.0.is_gt_zero()
    }

    /// # Map.
    ///
    /// Replace a value above zero by what `f` makes of it; a value at or
    /// below zero is left as it is.
    pub fn map<F>(self, f: F) -> (r: Self)
        where
            F: FnOnce(T) -> T,
        requires
            self.value().spec_gt_zero() ==> f.requires((self.value(),)),
        ensures
            !self.value().spec_gt_zero() ==> r == self,
            self.value().spec_gt_zero() ==> f.ensures((self.value(),), r.value()),
    {
        if self.0.is_gt_zero() {
            GreaterThanZero(f(self.0))
        } else {
            self
        }
    }

    /// # Replace.
    ///
    /// Hold `b` in place of the current value.
    pub fn replace(&mut self, b: T)
        ensures
            final(self).value() == b,
    {
        self.0 = b;
    }

    /// # Zip.
    ///
    /// Both values, if both are above zero.
    pub fn zip<U: GtZero>(self, b: GreaterThanZero<U>) -> (r: Option<(T, U)>)
        ensures
            r == (if self.value().spec_gt_zero() && b.value().spec_gt_zero() {
                Some((self.value(), b.value()))
            } else {
                None
            }),
    {
        if self.is_gt_zero() && b.is_gt_zero() {
            Some((self.0, b.0))
        } else {
            None
        }
    }
}

impl<T: GtZero> Default for GreaterThanZero<T> {
    /// The instance holding zero.
    fn default() -> (r: Self)
        ensures
            r.value() == T::spec_zero(),
    {
        GreaterThanZero(T::gtzero_zero())
    }
}

impl<T: GtZero> From<T> for GreaterThanZero<T> {
    fn from(src: T) -> (r: Self)
        ensures
            r.value() == src,
    {
        GreaterThanZero(src)
    }
}

impl<T: GtZero> vstd::std_specs::convert::FromSpecImpl<T> for GreaterThanZero<T> {
    open spec fn obeys_from_spec() -> bool {
        true
    }

    open spec fn from_spec(src: T) -> GreaterThanZero<T> {
        GreaterThanZero::of(src)
    }
}

impl<T: GtZero> From<GreaterThanZero<T>> for Option<T> {
    fn from(src: GreaterThanZero<T>) -> (r: Option<T>) {
        src.get()
    }
}

impl<T: GtZero> vstd::std_specs::convert::FromSpecImpl<GreaterThanZero<T>> for Option<T> {
    open spec fn obeys_from_spec() -> bool {
        true
    }

    open spec fn from_spec(src: GreaterThanZero<T>) -> Option<T> {
        if src.value().spec_gt_zero() {
            Some(src.value())
        } else {
            None
        }
    }
}

impl<T: GtZero> PartialEq for GreaterThanZero<T> {
    fn eq(&self, other: &Self) -> (r: bool) {
        self.0 == other.0
    }
}

impl<T: GtZero> vstd::std_specs::cmp::PartialEqSpecImpl for GreaterThanZero<T> {
    open spec fn obeys_eq_spec() -> bool {
        T::obeys_eq_spec()
    }

    open spec fn eq_spec(&self, other: &Self) -> bool {
        self.value().eq_spec(&other.value())
    }
}

impl<T: GtZero + Add<Output = T>> Add for GreaterThanZero<T> {
    type Output = Self;

    fn add(self, other: Self) -> (r: Self) {
        GreaterThanZero(self.0 + other.0)
    }
}

impl<T: GtZero + Add<Output = T>> AddSpecImpl for GreaterThanZero<T> {
    open spec fn obeys_add_spec() -> bool {
        T::obeys_add_spec()
    }

    open spec fn add_req(self, other: Self) -> bool {
        self.value().add_req(other.value())
    }

    open spec fn add_spec(self, other: Self) -> Self {
        GreaterThanZero::of(self.value().add_spec(other.value()))
    }
}

impl<T: GtZero + Sub<Output = T>> Sub for GreaterThanZero<T> {
    type Output = Self;

    fn sub(self, other: Self) -> (r: Self) {
        GreaterThanZero(self.0 - other.0)
    }
}

impl<T: GtZero + Sub<Output = T>> SubSpecImpl for GreaterThanZero<T> {
    open spec fn obeys_sub_spec() -> bool {
        T::obeys_sub_spec()
    }

    open spec fn sub_req(self, other: Self) -> bool {
        self.value().sub_req(other.value())
    }

    open spec fn sub_spec(self, other: Self) -> Self {
        GreaterThanZero::of(self.value().sub_spec(other.value()))
    }
}

impl<T: GtZero + Mul<Output = T>> Mul for GreaterThanZero<T> {
    type Output = Self;

    fn mul(self, other: Self) -> (r: Self) {
        GreaterThanZero(self.0 * other.0)
    }
}

impl<T: GtZero + Mul<Output = T>> MulSpecImpl for GreaterThanZero<T> {
    open spec fn obeys_mul_spec() -> bool {
        T::obeys_mul_spec()
    }

    open spec fn mul_req(self, other: Self) -> bool {
        self.value().mul_req(other.value())
    }

    open spec fn mul_spec(self, other: Self) -> Self {
        GreaterThanZero::of(self.value().mul_spec(other.value()))
    }
}

impl<T: GtZero + Div<Output = T>> Div for GreaterThanZero<T> {
    type Output = Self;

    fn div(self, other: Self) -> (r: Self) {
        GreaterThanZero(self.0 / other.0)
    }
}

impl<T: GtZero + Div<Output = T>> DivSpecImpl for GreaterThanZero<T> {
    open spec fn obeys_div_spec() -> bool {
        T::obeys_div_spec()
    }

    open spec fn div_req(self, other: Self) -> bool {
        self.value().div_req(other.value())
    }

    open spec fn div_spec(self, other: Self) -> Self {
        GreaterThanZero::of(self.value().div_spec(other.value()))
    }
}

impl<T: GtZero + Rem<Output = T>> Rem for GreaterThanZero<T> {
    type Output = Self;

    fn rem(self, other: Self) -> (r: Self) {
        GreaterThanZero(self.0 % other.0)
    }
}

impl<T: GtZero + Rem<Output = T>> RemSpecImpl for GreaterThanZero<T> {
    open spec fn obeys_rem_spec() -> bool {
        T::obeys_rem_spec()
    }

    open spec fn rem_req(self, other: Self) -> bool {
        self.value().rem_req(other.value())
    }

    open spec fn rem_spec(self, other: Self) -> Self {
        GreaterThanZero::of(self.value().rem_spec(other.value()))
    }
}

impl<T: GtZero> core::ops::Deref for GreaterThanZero<T> {
    type Target = T;

    fn deref(&self) -> (r: &T)
        ensures
            *r == self.value(),
    {
        &self.0
    }
}

impl<T: GtZero + Eq> Eq for GreaterThanZero<T> {}

impl<T: GtZero> PartialEq<T> for GreaterThanZero<T> {
    fn eq(&self, other: &T) -> (r: bool) {
        self.0 == *other
    }
}

impl<T: GtZero> vstd::std_specs::cmp::PartialEqSpecImpl<T> for GreaterThanZero<T> {
    open spec fn obeys_eq_spec() -> bool {
        T::obeys_eq_spec()
    }

    open spec fn eq_spec(&self, other: &T) -> bool {
        self.value().eq_spec(other)
    }
}

impl<T: GtZero + PartialOrd> PartialOrd for GreaterThanZero<T> {
    /// Values are ordered as their held values are.
    fn partial_cmp(&self, other: &Self) -> (r: Option<core::cmp::Ordering>) {
        self.0.partial_cmp(&other.0)
    }
}

impl<T: GtZero + PartialOrd> vstd::std_specs::cmp::PartialOrdSpecImpl for GreaterThanZero<T> {
    open spec fn obeys_partial_cmp_spec() -> bool {
        T::obeys_partial_cmp_spec()
    }

    open spec fn partial_cmp_spec(&self, other: &Self) -> Option<core::cmp::Ordering> {
        self.value().partial_cmp_spec(&other.value())
    }
}

} // verus!
