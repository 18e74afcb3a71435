//! `Digiter`: the decimal digits of an integer, least significant first.

use crate::decimal::{dec, digit};
use vstd::prelude::*;

verus! {

/// The number of decimal digits of `n`, none for zero.
pub open spec fn digit_count(n: nat) -> nat
    decreases n,
{
    if n == 0 {
        0
    } else {
        1 + digit_count(n / 10)
    }
}

/// A positive number has as many digits as its decimal representation.
pub proof fn lemma_digit_count_dec(n: nat)
    requires
        n > 0,
    ensures
        digit_count(n) == dec(n).len(),
    decreases n,
{
    if n >= 10 {
        lemma_digit_count_dec(n / 10);
    } else {
        assert(digit_count(0) == 0);
    }
}

/// # Digit Iterator.
///
/// Hands out the ASCII decimal digits of an integer, least significant
/// first, until none are left.
#[derive(Debug, Clone, Copy)]
pub struct Digiter<T>(T);

impl Digiter<u8> {
    /// The digits still to come, as a number.
    pub closed spec fn value(&self) -> nat {
        self.0 as nat
    }

    /// # New.
    ///
    /// An iterator over the digits of `num`, or `None` for zero, which has
    /// none.
    pub fn new(num: u8) -> (r: Option<Self>)
        ensures
            num == 0 ==> r.is_none(),
            num != 0 ==> r.is_some() && r.unwrap().value() == num,
    {
        if num == 0 {
            None
        } else {
            Some(Digiter(num))
        }
    }

    /// # Next.
    ///
    /// The next digit, least significant first, or `None` when done.
    pub fn next(&mut self) -> (r: Option<u8>)
        ensures
            old(self).value() == 0 ==> r.is_none() && final(self).value() == 0,
            old(self).value() != 0 ==> r == Some(digit(old(self).value() % 10))
                && final(self).value() == old(self).value() / 10,
    {
        if self.0 == 0 {
            None
        } else {
            let d = (self.0 % 10) as u8 + 48;
            self.0 = self.0 / 10;
            Some(d)
        }
    }

    /// # Length.
    ///
    /// The number of digits still to come.
    pub fn len(&self) -> (r: usize)
        ensures
            r == digit_count(self.value()),
    {
        let mut x = self.0;
        let mut c: usize = 0;
        proof {
            lemma_digit_count_bound(x as nat);
        }
        while x > 0
            invariant
                c + digit_count(x as nat) == digit_count(self.value()),
                c <= 20 - digit_count(x as nat),
                digit_count(x as nat) <= 20,
            decreases x,
        {
            proof {
                lemma_digit_count_bound(x as nat);
            }
            x = x / 10;
            c += 1;
        }
        c
    }
}

impl Digiter<u16> {
    /// The digits still to come, as a number.
    pub closed spec fn value(&self) -> nat {
        self.0 as nat
    }

    /// # New.
    ///
    /// An iterator over the digits of `num`, or `None` for zero, which has
    /// none.
    pub fn new(num: u16) -> (r: Option<Self>)
        ensures
            num == 0 ==> r.is_none(),
            num != 0 ==> r.is_some() && r.unwrap().value() == num,
    {
        if num == 0 {
            None
        } else {
            Some(Digiter(num))
        }
    }

    /// # Next.
    ///
    /// The next digit, least significant first, or `None` when done.
    pub fn next(&mut self) -> (r: Option<u8>)
        ensures
            old(self).value() == 0 ==> r.is_none() && final(self).value() == 0,
            old(self).value() != 0 ==> r == Some(digit(old(self).value() % 10))
                && final(self).value() == old(self).value() / 10,
    {
        if self.0 == 0 {
            None
        } else {
            let d = (self.0 % 10) as u8 + 48;
            self.0 = self.0 / 10;
            Some(d)
        }
    }

    /// # Length.
    ///
    /// The number of digits still to come.
    pub fn len(&self) -> (r: usize)
        ensures
            r == digit_count(self.value()),
    {
        let mut x = self.0;
        let mut c: usize = 0;
        proof {
            lemma_digit_count_bound(x as nat);
        }
        while x > 0
            invariant
                c + digit_count(x as nat) == digit_count(self.value()),
                c <= 20 - digit_count(x as nat),
                digit_count(x as nat) <= 20,
            decreases x,
        {
            proof {
                lemma_digit_count_bound(x as nat);
            }
            x = x / 10;
            c += 1;
        }
        c
    }
}

impl Digiter<u32> {
    /// The digits still to come, as a number.
    pub closed spec fn value(&self) -> nat {
        self.0 as nat
    }

    /// # New.
    ///
    /// An iterator over the digits of `num`, or `None` for zero, which has
    /// none.
    pub fn new(num: u32) -> (r: Option<Self>)
        ensures
            num == 0 ==> r.is_none(),
            num != 0 ==> r.is_some() && r.unwrap().value() == num,
    {
        if num == 0 {
            None
        } else {
            Some(Digiter(num))
        }
    }

    /// # Next.
    ///
    /// The next digit, least significant first, or `None` when done.
    pub fn next(&mut self) -> (r: Option<u8>)
        ensures
            old(self).value() == 0 ==> r.is_none() && final(self).value() == 0,
            old(self).value() != 0 ==> r == Some(digit(old(self).value() % 10))
                && final(self).value() == old(self).value() / 10,
    {
        if self.0 == 0 {
            None
        } else {
            let d = (self.0 % 10) as u8 + 48;
            self.0 = self.0 / 10;
            Some(d)
        }
    }

    /// # Length.
    ///
    /// The number of digits still to come.
    pub fn len(&self) -> (r: usize)
        ensures
            r == digit_count(self.value()),
    {
        let mut x = self.0;
        let mut c: usize = 0;
        proof {
            lemma_digit_count_bound(x as nat);
        }
        while x > 0
            invariant
                c + digit_count(x as nat) == digit_count(self.value()),
                c <= 20 - digit_count(x as nat),
                digit_count(x as nat) <= 20,
            decreases x,
        {
            proof {
                lemma_digit_count_bound(x as nat);
            }
            x = x / 10;
            c += 1;
        }
        c
    }
}

impl Digiter<u64> {
    /// The digits still to come, as a number.
    pub closed spec fn value(&self) -> nat {
        self.0 as nat
    }

    /// # New.
    ///
    /// An iterator over the digits of `num`, or `None` for zero, which has
    /// none.
    pub fn new(num: u64) -> (r: Option<Self>)
        ensures
            num == 0 ==> r.is_none(),
            num != 0 ==> r.is_some() && r.unwrap().value() == num,
    {
        if num == 0 {
            None
        } else {
            Some(Digiter(num))
        }
    }

    /// # Next.
    ///
    /// The next digit, least significant first, or `None` when done.
    pub fn next(&mut self) -> (r: Option<u8>)
        ensures
            old(self).value() == 0 ==> r.is_none() && final(self).value() == 0,
            old(self).value() != 0 ==> r == Some(digit(old(self).value() % 10))
                && final(self).value() == old(self).value() / 10,
    {
        if self.0 == 0 {
            None
        } else {
            let d = (self.0 % 10) as u8 + 48;
            self.0 = self.0 / 10;
            Some(d)
        }
    }

    /// # Length.
    ///
    /// The number of digits still to come.
    pub fn len(&self) -> (r: usize)
        ensures
            r == digit_count(self.value()),
    {
        let mut x = self.0;
        let mut c: usize = 0;
        proof {
            lemma_digit_count_bound(x as nat);
        }
        while x > 0
            invariant
                c + digit_count(x as nat) == digit_count(self.value()),
                c <= 20 - digit_count(x as nat),
                digit_count(x as nat) <= 20,
            decreases x,
        {
            proof {
                lemma_digit_count_bound(x as nat);
            }
            x = x / 10;
            c += 1;
        }
        c
    }
}

/// Integers below `10^20` have at most twenty digits.
pub proof fn lemma_digit_count_bound(n: nat)
    requires
        n <= 0xFFFF_FFFF_FFFF_FFFF,
    ensures
        digit_count(n) <= 20,
{
    reveal_with_fuel(crate::decimal::pow10, 21);
    lemma_digit_count_le(n, 20);
}

/// A number below `10^k` has at most `k` digits.
pub proof fn lemma_digit_count_le(n: nat, k: nat)
    requires
        n < crate::decimal::pow10(k),
    ensures
        digit_count(n) <= k,
    decreases k,
{
    if n > 0 && k > 0 {
        assert(n / 10 < crate::decimal::pow10((k - 1) as nat));
        lemma_digit_count_le(n / 10, (k - 1) as nat);
    } else if n > 0 {
        assert(crate::decimal::pow10(0) == 1);
    }
}

} // verus!
