//! Splitting a number of seconds into days, hours, minutes and seconds.

use std::time::Duration;
use vstd::prelude::*;

verus! {

/// The whole seconds of a duration, as `Duration::as_secs` gives them.
pub uninterp spec fn secs_of(d: Duration) -> u64;

/// The fractional part of a duration in whole milliseconds, as
/// `Duration::subsec_millis` gives it.
pub uninterp spec fn subsec_millis_of(d: Duration) -> u32;

/// The whole seconds of a duration, by `Duration::as_secs`. The claim is
/// only that the result is a function of the duration, named `secs_of`.
#[verifier::external_body]
pub(crate) fn duration_secs(d: &Duration) -> (r: u64)
    ensures
        r == secs_of(*d),
{
    d.as_secs()
}

/// The fractional part of a duration in whole milliseconds, by
/// `Duration::subsec_millis`: a function of the duration, named
/// `subsec_millis_of`, which the documentation gives as under one thousand.
#[verifier::external_body]
pub(crate) fn duration_subsec_millis(d: &Duration) -> (r: u32)
    ensures
        r == subsec_millis_of(*d),
        r < 1000,
{
    d.subsec_millis()
}

/// `num` capped to the last second of a day.
pub open spec fn day_clamp(num: nat) -> nat {
    if num < 86399 { num } else { 86399 }
}

/// The hours, minutes and seconds of `num` seconds, capped to a day.
pub open spec fn hms_spec(num: nat) -> (nat, nat, nat) {
    let c = day_clamp(num);
    (c / 3600, (c / 60) % 60, c % 60)
}

/// The whole days of `num` seconds, and the hours, minutes and seconds left.
pub open spec fn dhms_spec(num: nat) -> (nat, nat, nat, nat) {
    let r = num % 86400;
    (num / 86400, r / 3600, (r / 60) % 60, r % 60)
}

/// Multiplying by `0x91A3` and shifting right by 27 divides by 3600, for
/// anything under a day.
pub proof fn lemma_div_3600(num: u32)
    requires
        num < 86400,
    ensures
        ((num * 0x91A3u32) as u32 >> 27u32) == num / 3600,
{
    assert(num < 86400 ==> ((num * 0x91A3u32) as u32 >> 27u32) == num / 3600) by (bit_vector);
}

/// Multiplying by `0x889` and shifting right by 17 divides by 60, for
/// anything under an hour.
pub proof fn lemma_div_60(num: u32)
    requires
        num < 3600,
    ensures
        ((num * 0x889u32) as u32 >> 17u32) == num / 60,
{
    assert(num < 3600 ==> ((num * 0x889u32) as u32 >> 17u32) == num / 60) by (bit_vector);
}

/// # Time Chunks.
///
/// Split seconds into hours, minutes and seconds. Days are not supported;
/// the biggest result is `[23, 59, 59]`.
pub fn hms(num: u32) -> (r: [u8; 3])
    ensures
        r@ == seq![hms_spec(num as nat).0 as u8, hms_spec(num as nat).1 as u8, hms_spec(num as nat).2 as u8],
        r[0] < 24,
        r[1] < 60,
        r[2] < 60,
{
    if num < 60 {
        let r = [0u8, 0u8, num as u8];
        assert(r@ =~= seq![hms_spec(num as nat).0 as u8, hms_spec(num as nat).1 as u8, hms_spec(num as nat).2 as u8]);
        r
    } else if num < 86399 {
        let mut rest = num;
        let mut h: u8 = 0;
        if rest >= 3600 {
            proof {
                lemma_div_3600(rest);
            }
            h = ((rest * 0x91A3) >> 27) as u8;
            rest -= h as u32 * 3600;
        }
        assert(h as nat == num / 3600);
        assert(rest == num % 3600);
        let mut m: u8 = 0;
        let mut s: u8 = 0;
        if rest >= 60 {
            proof {
                lemma_div_60(rest);
            }
            m = ((rest * 0x889) >> 17) as u8;
            s = (rest - m as u32 * 60) as u8;
        } else if rest > 0 {
            s = rest as u8;
        }
        assert((num / 60) % 60 == (num % 3600) / 60) by (nonlinear_arith);
        assert(num % 60 == (num % 3600) % 60) by (nonlinear_arith);
        let r = [h, m, s];
        assert(r@ =~= seq![hms_spec(num as nat).0 as u8, hms_spec(num as nat).1 as u8, hms_spec(num as nat).2 as u8]);
        r
    } else {
        let r = [23u8, 59u8, 59u8];
        assert(r@ =~= seq![hms_spec(num as nat).0 as u8, hms_spec(num as nat).1 as u8, hms_spec(num as nat).2 as u8]);
        r
    }
}

/// # Time Chunks (with Days).
///
/// Like [`hms`], but counting whole days too (up to `49,710` for a `u32`).
pub fn dhms(num: u32) -> (r: (u16, u8, u8, u8))
    ensures
        r.0 == dhms_spec(num as nat).0,
        r.1 == dhms_spec(num as nat).1,
        r.2 == dhms_spec(num as nat).2,
        r.3 == dhms_spec(num as nat).3,
        r.1 < 24,
        r.2 < 60,
        r.3 < 60,
{
    if num < 86400 {
        let t = hms(num);
        (0, t[0], t[1], t[2])
    } else {
        let t = hms(num % 86400);
        assert(num / 86400 < 65536) by (nonlinear_arith)
            requires
                num <= 4294967295,
        ;
        ((num / 86400) as u16, t[0], t[1], t[2])
    }
}

/// Days, hours, minutes and seconds add back up to the seconds they were
/// split from.
pub proof fn law_dhms_total(num: nat)
    ensures
        dhms_spec(num).0 * 86400 + dhms_spec(num).1 * 3600 + dhms_spec(num).2 * 60
            + dhms_spec(num).3 == num,
        dhms_spec(num).1 < 24,
        dhms_spec(num).2 < 60,
        dhms_spec(num).3 < 60,
{
    let r = num % 86400;
    assert(num == (num / 86400) * 86400 + r) by (nonlinear_arith)
        requires
            r == num % 86400,
    ;
    assert(r == (r / 3600) * 3600 + ((r / 60) % 60) * 60 + r % 60) by (nonlinear_arith)
        requires
            r < 86400,
    ;
    assert(r / 3600 < 24) by (nonlinear_arith)
        requires
            r < 86400,
    ;
}

/// Hours, minutes and seconds add back up to the (capped) seconds they were
/// split from.
pub proof fn law_hms_total(num: nat)
    ensures
        hms_spec(num).0 * 3600 + hms_spec(num).1 * 60 + hms_spec(num).2 == day_clamp(num),
        hms_spec(num).0 < 24,
        hms_spec(num).1 < 60,
        hms_spec(num).2 < 60,
{
    let c = day_clamp(num);
    assert(c == (c / 3600) * 3600 + ((c / 60) % 60) * 60 + c % 60) by (nonlinear_arith)
        requires
            c < 86400,
    ;
    assert(c / 3600 < 24) by (nonlinear_arith)
        requires
            c < 86400,
    ;
}

} // verus!
