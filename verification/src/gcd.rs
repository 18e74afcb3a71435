//! Greatest common divisors, used to reduce a fraction before it is divided
//! out as a float.

use vstd::arithmetic::div_mod::{lemma_fundamental_div_mod, lemma_mod_multiples_basic, lemma_mod_multiples_vanish};
use vstd::prelude::*;

verus! {

/// The greatest common divisor of `a` and `b` (`gcd(0, 0)` is `0`), by
/// Euclid's recurrence; `law_gcd_greatest` shows that it is the greatest
/// number dividing both.
pub open spec fn gcd(a: nat, b: nat) -> nat
    decreases b,
{
    if b == 0 {
        a
    } else {
        gcd(b, a % b)
    }
}

/// Whether `d` divides `a`.
pub open spec fn divides(d: nat, a: nat) -> bool {
    d > 0 && a % d == 0
}

/// A multiple of `d` plus a multiple of `d` is a multiple of `d`.
proof fn lemma_divides_combo(d: nat, b: nat, r: nat, q: nat)
    requires
        divides(d, b),
        divides(d, r),
    ensures
        divides(d, q * b + r),
{
    lemma_fundamental_div_mod(b as int, d as int);
    lemma_fundamental_div_mod(r as int, d as int);
    let k = q * (b / d) + r / d;
    assert(q * b + r == d * k) by (nonlinear_arith)
        requires
            b == d * (b / d),
            r == d * (r / d),
            k == q * (b / d) + r / d,
    ;
    lemma_mod_multiples_basic(k as int, d as int);
    assert(k * d == d * k) by (nonlinear_arith);
}

/// The remainder of a multiple of `d` by a multiple of `d` is a multiple
/// of `d`.
proof fn lemma_divides_rem(d: nat, a: nat, b: nat)
    requires
        divides(d, a),
        divides(d, b),
        b > 0,
    ensures
        divides(d, a % b),
{
    lemma_fundamental_div_mod(a as int, b as int);
    lemma_fundamental_div_mod(a as int, d as int);
    lemma_fundamental_div_mod(b as int, d as int);
    let q = a / b;
    let r = a % b;
    let k = a / d - q * (b / d);
    assert(r == d * k) by (nonlinear_arith)
        requires
            a == b * q + r,
            a == d * (a / d),
            b == d * (b / d),
            k == a / d - q * (b / d),
    ;
    lemma_mod_multiples_vanish(k, 0, d as int);
}

/// Unless both are zero, the divisor divides both numbers.
pub proof fn law_gcd_divides(a: nat, b: nat)
    requires
        a > 0 || b > 0,
    ensures
        divides(gcd(a, b), a),
        divides(gcd(a, b), b),
    decreases b,
{
    if b > 0 {
        let r = a % b;
        law_gcd_divides(b, r);
        let g = gcd(b, r);
        lemma_divides_combo(g, b, r, a / b);
        lemma_fundamental_div_mod(a as int, b as int);
        assert(a == (a / b) * b + r) by (nonlinear_arith)
            requires
                a == b * (a / b) + r,
        ;
    } else {
        lemma_mod_multiples_basic(1, a as int);
        assert(0nat % a == 0);
    }
}

/// Every common divisor divides the greatest one.
pub proof fn law_gcd_greatest(a: nat, b: nat, d: nat)
    requires
        divides(d, a),
        divides(d, b),
    ensures
        gcd(a, b) % d == 0,
        gcd(a, b) > 0 ==> d <= gcd(a, b),
    decreases b,
{
    if b > 0 {
        lemma_divides_rem(d, a, b);
        law_gcd_greatest(b, a % b, d);
    }
    let g = gcd(a, b);
    if g > 0 {
        lemma_fundamental_div_mod(g as int, d as int);
        assert(d <= g) by (nonlinear_arith)
            requires
                g == d * (g / d),
                g > 0,
                d > 0,
        ;
    }
}

/// The divisor of two numbers is at most the larger one.
proof fn lemma_gcd_bound(a: nat, b: nat)
    ensures
        gcd(a, b) <= (if a >= b { a } else { b }),
    decreases b,
{
    if b > 0 {
        lemma_gcd_bound(b, a % b);
    }
}

/// # Euclid.
fn euclid(a: u128, b: u128) -> (r: u128)
    ensures
        r == gcd(a as nat, b as nat),
{
    let mut x = a;
    let mut y = b;
    while y != 0
        invariant
            gcd(x as nat, y as nat) == gcd(a as nat, b as nat),
        decreases y,
    {
        let t = x % y;
        x = y;
        y = t;
    }
    x
}

/// # GCD (`u64`).
///
/// The greatest common divisor of `m` and `n`, when it is more than one.
pub fn gcd_u64(m: u64, n: u64) -> (r: Option<u64>)
    ensures
        r == (if gcd(m as nat, n as nat) > 1 {
            Some(gcd(m as nat, n as nat) as u64)
        } else {
            None
        }),
{
    proof {
        lemma_gcd_bound(m as nat, n as nat);
    }
    let g = euclid(m as u128, n as u128);
    if g > 1 {
        Some(g as u64)
    } else {
        None
    }
}

/// # GCD (`u128`).
///
/// The greatest common divisor of `m` and `n`, when it is more than one.
pub fn gcd_u128(m: u128, n: u128) -> (r: Option<u128>)
    ensures
        r == (if gcd(m as nat, n as nat) > 1 {
            Some(gcd(m as nat, n as nat) as u128)
        } else {
            None
        }),
{
    let g = euclid(m, n);
    if g > 1 {
        Some(g)
    } else {
        None
    }
}

/// The magnitude of an integer.
pub open spec fn abs(x: int) -> nat {
    if x < 0 {
        (-x) as nat
    } else {
        x as nat
    }
}

/// # GCD (`i64`).
///
/// The greatest common divisor of the magnitudes of `m` and `n`, when it is
/// more than one. Its result must fit `i64`: it may not be `2^63`.
pub fn gcd_i64(m: i64, n: i64) -> (r: Option<i64>)
    requires
        gcd(abs(m as int), abs(n as int)) < 0x8000_0000_0000_0000,
    ensures
        r == (if gcd(abs(m as int), abs(n as int)) > 1 {
            Some(gcd(abs(m as int), abs(n as int)) as i64)
        } else {
            None
        }),
{
    let a: u128 = if m < 0 { (0i128 - m as i128) as u128 } else { m as u128 };
    let b: u128 = if n < 0 { (0i128 - n as i128) as u128 } else { n as u128 };
    let g = euclid(a, b);
    if g > 1 {
        Some(g as i64)
    } else {
        None
    }
}

/// # GCD (`i128`).
///
/// The greatest common divisor of the magnitudes of `m` and `n`, when it is
/// more than one. Its result must fit `i128`: it may not be `2^127`.
pub fn gcd_i128(m: i128, n: i128) -> (r: Option<i128>)
    requires
        gcd(abs(m as int), abs(n as int)) < 0x8000_0000_0000_0000_0000_0000_0000_0000,
    ensures
        r == (if gcd(abs(m as int), abs(n as int)) > 1 {
            Some(gcd(abs(m as int), abs(n as int)) as i128)
        } else {
            None
        }),
{
    let a: u128 = if m == i128::MIN {
        0x8000_0000_0000_0000_0000_0000_0000_0000u128
    } else if m < 0 {
        (0 - m) as u128
    } else {
        m as u128
    };
    let b: u128 = if n == i128::MIN {
        0x8000_0000_0000_0000_0000_0000_0000_0000u128
    } else if n < 0 {
        (0 - n) as u128
    } else {
        n as u128
    };
    let g = euclid(a, b);
    if g > 1 {
        Some(g as i128)
    } else {
        None
    }
}

} // verus!
