//! `NiceElapsed`: seconds as an Oxford-joined list of days, hours, minutes
//! and seconds, like `"3 hours, 2 minutes, and 1 second"`.

use crate::decimal::{all_ascii, dec, digit, grouped, lemma_dec_len, lemma_grouped_ascii, pow10};
use crate::nice::clock::two;
use crate::nice::nice_uint::lemma_fits_u16;
use crate::nice::time::{dhms, dhms_spec};
use crate::nice::wrapper::NiceWrapper;
use std::time::Duration;
use vstd::prelude::*;
use vstd::string::StringSliceAdditionalSpecFns;

verus! {

/// `" day"`
pub open spec fn txt_day() -> Seq<u8> {
    seq![32u8, 100u8, 97u8, 121u8]
}

/// `" days"`
pub open spec fn txt_days() -> Seq<u8> {
    seq![32u8, 100u8, 97u8, 121u8, 115u8]
}

/// `" hour"`
pub open spec fn txt_hour() -> Seq<u8> {
    seq![32u8, 104u8, 111u8, 117u8, 114u8]
}

/// `" hours"`
pub open spec fn txt_hours() -> Seq<u8> {
    seq![32u8, 104u8, 111u8, 117u8, 114u8, 115u8]
}

/// `" minute"`
pub open spec fn txt_minute() -> Seq<u8> {
    seq![32u8, 109u8, 105u8, 110u8, 117u8, 116u8, 101u8]
}

/// `" minutes"`
pub open spec fn txt_minutes() -> Seq<u8> {
    seq![32u8, 109u8, 105u8, 110u8, 117u8, 116u8, 101u8, 115u8]
}

/// `" second"`
pub open spec fn txt_second() -> Seq<u8> {
    seq![32u8, 115u8, 101u8, 99u8, 111u8, 110u8, 100u8]
}

/// `" seconds"`
pub open spec fn txt_seconds() -> Seq<u8> {
    seq![32u8, 115u8, 101u8, 99u8, 111u8, 110u8, 100u8, 115u8]
}

/// `"0 seconds"`, the text of no time at all.
pub open spec fn txt_zero() -> Seq<u8> {
    seq![48u8, 32u8, 115u8, 101u8, 99u8, 111u8, 110u8, 100u8, 115u8]
}

/// The singular label for exactly one, the plural for anything else.
pub open spec fn unit(n: nat, one: Seq<u8>, many: Seq<u8>) -> Seq<u8> {
    if n == 1 { one } else { many }
}

/// `"N day(s)"`, the count with thousands separators.
pub open spec fn day_part(d: nat) -> Seq<u8> {
    grouped(d, 44u8) + unit(d, txt_day(), txt_days())
}

/// `"N hour(s)"`
pub open spec fn hour_part(h: nat) -> Seq<u8> {
    dec(h) + unit(h, txt_hour(), txt_hours())
}

/// `"N minute(s)"`
pub open spec fn minute_part(m: nat) -> Seq<u8> {
    dec(m) + unit(m, txt_minute(), txt_minutes())
}

/// `"N second(s)"`, or `"N.HH seconds"` with hundredths when there are any.
pub open spec fn second_part(s: nat, cs: nat) -> Seq<u8> {
    if cs == 0 {
        dec(s) + unit(s, txt_second(), txt_seconds())
    } else {
        dec(s) + seq![46u8] + two(cs) + txt_seconds()
    }
}

/// The non-zero parts of a duration, largest first.
pub open spec fn elapsed_parts(d: nat, h: nat, m: nat, s: nat, cs: nat) -> Seq<Seq<u8>> {
    let p0 = if d > 0 { seq![day_part(d)] } else { Seq::empty() };
    let p1 = if h > 0 { p0.push(hour_part(h)) } else { p0 };
    let p2 = if m > 0 { p1.push(minute_part(m)) } else { p1 };
    if s > 0 || cs > 0 { p2.push(second_part(s, cs)) } else { p2 }
}

/// What follows the `i`-th of `n` list items: nothing after the last,
/// `" and "` between a pair, `", and "` before the last of three or more,
/// `", "` elsewhere.
pub open spec fn glue(i: nat, n: nat) -> Seq<u8> {
    if i + 1 >= n {
        Seq::empty()
    } else if n == 2 {
        seq![32u8, 97u8, 110u8, 100u8, 32u8]
    } else if i + 2 == n {
        seq![44u8, 32u8, 97u8, 110u8, 100u8, 32u8]
    } else {
        seq![44u8, 32u8]
    }
}

/// The first `k` items of an `n`-item list, each followed by its glue.
pub open spec fn join_upto(parts: Seq<Seq<u8>>, k: nat, n: nat) -> Seq<u8>
    decreases k,
{
    if k == 0 {
        Seq::empty()
    } else {
        join_upto(parts, (k - 1) as nat, n) + parts[k - 1] + glue((k - 1) as nat, n)
    }
}

/// A list joined Oxford-style, or `"0 seconds"` when it is empty.
pub open spec fn oxford(parts: Seq<Seq<u8>>) -> Seq<u8> {
    if parts.len() == 0 {
        txt_zero()
    } else {
        join_upto(parts, parts.len(), parts.len())
    }
}

/// The text of a duration of `d` days, `h` hours, `m` minutes, `s` seconds
/// and `cs` hundredths of a second.
pub open spec fn elapsed_text(d: nat, h: nat, m: nat, s: nat, cs: nat) -> Seq<u8> {
    oxford(elapsed_parts(d, h, m, s, cs))
}

/// The text of `num` seconds.
pub open spec fn elapsed_secs_text(num: nat) -> Seq<u8> {
    let t = dhms_spec(num);
    elapsed_text(t.0, t.1, t.2, t.3, 0)
}

/// The text of `secs` seconds (capped to `u32::MAX`) and `millis`
/// milliseconds, truncated to hundredths.
pub open spec fn elapsed_duration_text(secs: u64, millis: u32) -> Seq<u8> {
    let t = dhms_spec(if secs <= 4294967295 { secs as nat } else { 4294967295 });
    elapsed_text(t.0, t.1, t.2, t.3, (millis / 10) as nat)
}

/// Joining only looks at the first `k` items.
pub proof fn lemma_join_prefix(parts: Seq<Seq<u8>>, p: Seq<u8>, k: nat, n: nat)
    requires
        k <= parts.len(),
    ensures
        join_upto(parts.push(p), k, n) == join_upto(parts, k, n),
    decreases k,
{
    if k > 0 {
        lemma_join_prefix(parts, p, (k - 1) as nat, n);
        assert(parts.push(p)[k - 1] == parts[k - 1]);
    }
}

/// The length of a joined list: the items' lengths plus their glue.
proof fn lemma_join_len_step(parts: Seq<Seq<u8>>, k: nat, n: nat)
    requires
        0 < k <= parts.len(),
    ensures
        join_upto(parts, k, n).len() == join_upto(parts, (k - 1) as nat, n).len()
            + parts[k - 1].len() + glue((k - 1) as nat, n).len(),
{
}

/// The text of any duration `from_parts` takes is one to fifty-two bytes
/// long.
pub proof fn lemma_elapsed_len(d: nat, h: nat, m: nat, s: nat, cs: nat)
    requires
        d < 65536,
        h < 100,
        m < 100,
        s < 100,
        cs < 100,
    ensures
        1 <= elapsed_text(d, h, m, s, cs).len() <= 52,
{
    let parts = elapsed_parts(d, h, m, s, cs);
    let n = parts.len();
    reveal_with_fuel(pow10, 3);
    lemma_fits_u16(d as u16, 44u8);
    lemma_dec_len(h, 2);
    lemma_dec_len(m, 2);
    lemma_dec_len(s, 2);
    crate::decimal::lemma_dec_shape(s);
    assert(day_part(d).len() <= 11);
    assert(hour_part(h).len() <= 8);
    assert(minute_part(m).len() <= 10);
    assert(second_part(s, cs).len() <= 13);
    assert(second_part(s, cs).len() >= 1);
    assert(forall|i: int| 0 <= i < n ==> (#[trigger] parts[i]).len() >= 1) by {
        crate::decimal::lemma_dec_shape(h);
        crate::decimal::lemma_dec_shape(m);
        crate::decimal::lemma_grouped_len(d, 44u8);
    }
    if n == 0 {
        assert(elapsed_text(d, h, m, s, cs) == txt_zero());
    } else {
        lemma_join_len_step(parts, 1, n);
        if n >= 2 {
            lemma_join_len_step(parts, 2, n);
        }
        if n >= 3 {
            lemma_join_len_step(parts, 3, n);
        }
        if n >= 4 {
            lemma_join_len_step(parts, 4, n);
        }
        assert(join_upto(parts, 0, n).len() == 0);
        assert(n <= 4);
    }
}

/// # Nice Elapsed.
///
/// A number of seconds as a human-readable, Oxford-joined list of days,
/// hours, minutes and seconds, like `"3 hours, 2 minutes, and 1 second"`.
/// Durations carry hundredths of a second too, when there are any.
#[derive(Debug, Clone, Copy)]
pub struct NiceElapsed {
    inner: [u8; 72],
    len: usize,
}

impl View for NiceElapsed {
    type V = Seq<u8>;

    /// The text.
    closed spec fn view(&self) -> Seq<u8> {
        self.inner@.subrange(0, self.len as int)
    }
}

/// # Write Piece.
///
/// Copy `piece` into `buf` at `len`, returning the new length.
fn write_piece(buf: &mut [u8; 72], len: usize, piece: &[u8]) -> (r: usize)
    requires
        len + piece@.len() <= 72,
        all_ascii(piece@),
        all_ascii(old(buf)@),
    ensures
        r == len + piece@.len(),
        final(buf)@.subrange(0, r as int) == old(buf)@.subrange(0, len as int) + piece@,
        all_ascii(final(buf)@),
{
    let mut i: usize = 0;
    while i < piece.len()
        invariant
            i <= piece@.len(),
            len + piece@.len() <= 72,
            buf@.len() == 72,
            all_ascii(piece@),
            all_ascii(buf@),
            buf@.subrange(0, len as int) == old(buf)@.subrange(0, len as int),
            buf@.subrange(len as int, (len + i) as int) == piece@.subrange(0, i as int),
        decreases piece@.len() - i,
    {
        let ghost before = buf@;
        buf[len + i] = piece[i];
        proof {
            assert(buf@.subrange(0, len as int) =~= before.subrange(0, len as int));
            assert(buf@.subrange(len as int, (len + i + 1) as int) =~= piece@.subrange(
                0,
                (i + 1) as int,
            ));
            assert forall|j: int| 0 <= j < 72 implies #[trigger] buf@[j] < 128 by {
                if j != len + i {
                    assert(buf@[j] == before[j]);
                }
            }
        }
        i += 1;
    }
    proof {
        assert(buf@.subrange(0, (len + piece@.len()) as int) =~= buf@.subrange(0, len as int)
            + buf@.subrange(len as int, (len + piece@.len()) as int));
        assert(piece@.subrange(0, piece@.len() as int) =~= piece@);
    }
    len + piece.len()
}

/// # Glue.
///
/// The bytes that follow the `i`-th of `n` list items.
fn glue_bytes(i: u8, n: u8) -> (r: &'static [u8])
    ensures
        r@ == glue(i as nat, n as nat),
        r@.len() <= 6,
        all_ascii(r@),
{
    if i as u16 + 1 >= n as u16 {
        let r: &[u8] = &[];
        assert(r@ =~= glue(i as nat, n as nat));
        r
    } else if n == 2 {
        let r: &[u8] = &[32u8, 97u8, 110u8, 100u8, 32u8];
        assert(r@ =~= glue(i as nat, n as nat));
        r
    } else if i as u16 + 2 == n as u16 {
        let r: &[u8] = &[44u8, 32u8, 97u8, 110u8, 100u8, 32u8];
        assert(r@ =~= glue(i as nat, n as nat));
        r
    } else {
        let r: &[u8] = &[44u8, 32u8];
        assert(r@ =~= glue(i as nat, n as nat));
        r
    }
}

/// # Unit Label.
///
/// The singular label for exactly one, the plural otherwise.
fn unit_bytes(n: u16, one: &'static [u8], many: &'static [u8]) -> (r: &'static [u8])
    ensures
        r@ == unit(n as nat, one@, many@),
{
    if n == 1 {
        one
    } else {
        many
    }
}

/// # Append Part.
///
/// Write one list item (digits, an optional middle and a label) and the glue
/// that follows it.
fn append_part(
    buf: &mut [u8; 72],
    len: usize,
    digits: &[u8],
    mid: &[u8],
    label: &[u8],
    done: u8,
    total: u8,
    Ghost(cur): Ghost<Seq<Seq<u8>>>,
) -> (r: usize)
    requires
        old(buf)@.subrange(0, len as int) == join_upto(cur, cur.len(), total as nat),
        cur.len() == done,
        done < total <= 4,
        len <= 17 * done,
        digits@.len() <= 6,
        mid@.len() <= 3,
        label@.len() <= 8,
        done == 0 || digits@.len() <= 2,
        digits@.len() + label@.len() <= 11,
        mid@.len() > 0 ==> done + 1 == total,
        all_ascii(digits@),
        all_ascii(mid@),
        all_ascii(label@),
        all_ascii(old(buf)@),
    ensures
        final(buf)@.subrange(0, r as int) == join_upto(
            cur.push(digits@ + mid@ + label@),
            (done + 1) as nat,
            total as nat,
        ),
        done + 1 < total ==> r <= 17 * (done + 1),
        r <= 72,
        all_ascii(final(buf)@),
{
    let ghost p = digits@ + mid@ + label@;
    let g = glue_bytes(done, total);
    let l1 = write_piece(buf, len, digits);
    let l2 = write_piece(buf, l1, mid);
    let l3 = write_piece(buf, l2, label);
    let l4 = write_piece(buf, l3, g);
    proof {
        lemma_join_prefix(cur, p, cur.len(), total as nat);
        let np = cur.push(p);
        assert(np[done as int] == p);
        assert(join_upto(np, (done + 1) as nat, total as nat) == join_upto(np, done as nat, total as nat) + p + glue(done as nat, total as nat));
        assert(buf@.subrange(0, l4 as int) =~= join_upto(cur, cur.len(), total as nat) + p + g@);
    }
    l4
}

impl NiceElapsed {
    /// The length fits the buffer, and the buffer is ASCII.
    #[verifier::type_invariant]
    spec fn wf(&self) -> bool {
        &&& 1 <= self.len <= 52
        &&& all_ascii(self.inner@)
    }

    /// # Minimum Value.
    ///
    /// `"0 seconds"`.
    pub fn min() -> (r: Self)
        ensures
            r@ == txt_zero(),
    {
        let mut inner = [32u8; 72];
        assert(all_ascii(inner@));
        let zero: &[u8] = &[48u8, 32u8, 115u8, 101u8, 99u8, 111u8, 110u8, 100u8, 115u8];
        assert(zero@ =~= txt_zero());
        let len = write_piece(&mut inner, 0, zero);
        assert(inner@.subrange(0, 0) =~= Seq::<u8>::empty());
        assert(Seq::<u8>::empty() + zero@ =~= zero@);
        NiceElapsed { inner, len }
    }

    /// # Time Chunks.
    ///
    /// Split seconds into hours, minutes and seconds, capped at
    /// `[23, 59, 59]`.
    pub fn hms(num: u32) -> (r: [u8; 3])
        ensures
            r@ == seq![
                crate::nice::time::hms_spec(num as nat).0 as u8,
                crate::nice::time::hms_spec(num as nat).1 as u8,
                crate::nice::time::hms_spec(num as nat).2 as u8,
            ],
    {
        crate::nice::time::hms(num)
    }

    /// # Time Chunks (with Days).
    ///
    /// Split seconds into days, hours, minutes and seconds.
    pub fn dhms(num: u32) -> (r: (u16, u8, u8, u8))
        ensures
            r.0 == dhms_spec(num as nat).0,
            r.1 == dhms_spec(num as nat).1,
            r.2 == dhms_spec(num as nat).2,
            r.3 == dhms_spec(num as nat).3,
    {
        dhms(num)
    }

    /// # From Parts.
    ///
    /// The text of `d` days, `h` hours, `m` minutes, `s` seconds and `cs`
    /// hundredths of a second.
    pub fn from_parts(d: u16, h: u8, m: u8, s: u8, cs: u8) -> (r: Self)
        requires
            h < 100,
            m < 100,
            s < 100,
            cs < 100,
        ensures
            r@ == elapsed_text(d as nat, h as nat, m as nat, s as nat, cs as nat),
    {
        let ghost parts = elapsed_parts(d as nat, h as nat, m as nat, s as nat, cs as nat);
        let total: u8 = (if d > 0 { 1u8 } else { 0u8 }) + (if h > 0 { 1u8 } else { 0u8 }) + (if m
            > 0 {
            1u8
        } else {
            0u8
        }) + (if s > 0 || cs > 0 {
            1u8
        } else {
            0u8
        });
        assert(total == parts.len());
        if total == 0 {
            return Self::min();
        }
        let mut inner = [32u8; 72];
        assert(all_ascii(inner@));
        let mut len: usize = 0;
        let mut done: u8 = 0;
        let ghost mut cur: Seq<Seq<u8>> = Seq::empty();
        assert(inner@.subrange(0, 0) =~= join_upto(cur, 0, total as nat));
        let none: &[u8] = &[];

        if d > 0 {
            let nice = NiceWrapper::<6>::from_u16(d);
            let digits = nice.as_bytes();
            proof {
                lemma_fits_u16(d, 44u8);
            }
            let label = unit_bytes(d, &[32u8, 100u8, 97u8, 121u8], &[32u8, 100u8, 97u8, 121u8, 115u8]);
            len = append_part(&mut inner, len, digits, none, label, done, total, Ghost(cur));
            proof {
                assert(digits@ + none@ + label@ =~= day_part(d as nat));
                cur = cur.push(day_part(d as nat));
            }
            done = done + 1;
        }
        if h > 0 {
            let nice = NiceWrapper::<3>::from_u8(h);
            let digits = nice.as_bytes();
            proof {
                reveal_with_fuel(pow10, 3);
                lemma_dec_len(h as nat, 2);
            }
            let label = unit_bytes(h as u16, &[32u8, 104u8, 111u8, 117u8, 114u8], &[32u8, 104u8, 111u8, 117u8, 114u8, 115u8]);
            len = append_part(&mut inner, len, digits, none, label, done, total, Ghost(cur));
            proof {
                assert(digits@ + none@ + label@ =~= hour_part(h as nat));
                cur = cur.push(hour_part(h as nat));
            }
            done = done + 1;
        }
        if m > 0 {
            let nice = NiceWrapper::<3>::from_u8(m);
            let digits = nice.as_bytes();
            proof {
                reveal_with_fuel(pow10, 3);
                lemma_dec_len(m as nat, 2);
            }
            let label = unit_bytes(m as u16, &[32u8, 109u8, 105u8, 110u8, 117u8, 116u8, 101u8], &[32u8, 109u8, 105u8, 110u8, 117u8, 116u8, 101u8, 115u8]);
            len = append_part(&mut inner, len, digits, none, label, done, total, Ghost(cur));
            proof {
                assert(digits@ + none@ + label@ =~= minute_part(m as nat));
                cur = cur.push(minute_part(m as nat));
            }
            done = done + 1;
        }
        if s > 0 || cs > 0 {
            let nice = NiceWrapper::<3>::from_u8(s);
            let digits = nice.as_bytes();
            proof {
                reveal_with_fuel(pow10, 3);
                lemma_dec_len(s as nat, 2);
            }
            let frac = [46u8, cs / 10 + 48, cs % 10 + 48];
            let mid: &[u8] = if cs == 0 { none } else { frac.as_slice() };
            let label = if cs == 0 {
                unit_bytes(s as u16, &[32u8, 115u8, 101u8, 99u8, 111u8, 110u8, 100u8], &[32u8, 115u8, 101u8, 99u8, 111u8, 110u8, 100u8, 115u8])
            } else {
                let l: &[u8] = &[32u8, 115u8, 101u8, 99u8, 111u8, 110u8, 100u8, 115u8];
                l
            };
            len = append_part(&mut inner, len, digits, mid, label, done, total, Ghost(cur));
            proof {
                if cs == 0 {
                    assert(digits@ + mid@ + label@ =~= second_part(s as nat, cs as nat));
                } else {
                    assert(mid@ =~= seq![46u8] + two(cs as nat));
                    assert(label@ =~= txt_seconds());
                    assert(digits@ + mid@ + label@ =~= second_part(s as nat, cs as nat));
                }
                cur = cur.push(second_part(s as nat, cs as nat));
            }
            done = done + 1;
        }
        assert(cur =~= parts);
        proof {
            lemma_elapsed_len(d as nat, h as nat, m as nat, s as nat, cs as nat);
        }
        NiceElapsed { inner, len }
    }

    /// # As Bytes.
    pub fn as_bytes(&self) -> (r: &[u8])
        ensures
            r@ == self@,
    {
        proof {
            use_type_invariant(self);
        }
        let (out, _) = self.inner.as_slice().split_at(self.len);
        out
    }

    /// # As Str.
    pub fn as_str(&self) -> (r: &str)
        ensures
            r.spec_bytes() == self@,
    {
        proof {
            use_type_invariant(self);
        }
        let b = self.as_bytes();
        assert(all_ascii(b@));
        crate::decimal::ascii_str(b)
    }

    /// # Is Empty?
    ///
    /// Never: even no time at all reads `"0 seconds"`.
    pub fn is_empty(&self) -> (r: bool)
        ensures
            r == (self@.len() == 0),
            !r,
    {
        proof {
            use_type_invariant(self);
        }
        self.len == 0
    }

    /// # Length.
    pub fn len(&self) -> (r: usize)
        ensures
            r == self@.len(),
            1 <= r <= 52,
    {
        proof {
            use_type_invariant(self);
        }
        self.len
    }

    /// # From Seconds.
    ///
    /// The text of `num` seconds.
    pub fn from_secs(num: u32) -> (r: Self)
        ensures
            r@ == elapsed_secs_text(num as nat),
    {
        if num == 0 {
            let r = Self::min();
            assert(elapsed_parts(0, 0, 0, 0, 0) =~= Seq::<Seq<u8>>::empty());
            r
        } else {
            let (d, h, m, s) = dhms(num);
            Self::from_parts(d, h, m, s, 0)
        }
    }

    /// # From Seconds and Milliseconds.
    ///
    /// The text of `secs` seconds (capped at `u32::MAX`) and `millis`
    /// milliseconds, the latter truncated to hundredths of a second.
    pub fn from_secs_millis(secs: u64, millis: u32) -> (r: Self)
        requires
            millis < 1000,
        ensures
            r@ == elapsed_duration_text(secs, millis),
    {
        let cs = (millis / 10) as u8;
        let capped: u32 = if secs <= 4294967295 { secs as u32 } else { 4294967295u32 };
        if capped == 0 && cs == 0 {
            let r = Self::min();
            assert(elapsed_parts(0, 0, 0, 0, 0) =~= Seq::<Seq<u8>>::empty());
            r
        } else {
            let (d, h, m, s) = dhms(capped);
            Self::from_parts(d, h, m, s, cs)
        }
    }
}

impl PartialEq for NiceElapsed {
    fn eq(&self, other: &Self) -> (r: bool) {
        crate::nice::wrapper::bytes_eq(self.as_bytes(), other.as_bytes())
    }
}

impl vstd::std_specs::cmp::PartialEqSpecImpl for NiceElapsed {
    open spec fn obeys_eq_spec() -> bool {
        true
    }

    open spec fn eq_spec(&self, other: &Self) -> bool {
        self@ == other@
    }
}

impl Default for NiceElapsed {
    /// `"0 seconds"`.
    fn default() -> (r: Self)
        ensures
            r@ == txt_zero(),
    {
        Self::min()
    }
}

impl From<u32> for NiceElapsed {
    fn from(num: u32) -> (r: Self)
        ensures
            r@ == elapsed_secs_text(num as nat),
    {
        Self::from_secs(num)
    }
}

impl vstd::std_specs::convert::FromSpecImpl<u32> for NiceElapsed {
    open spec fn obeys_from_spec() -> bool {
        false
    }

    open spec fn from_spec(num: u32) -> NiceElapsed {
        choose|r: NiceElapsed| r@ == elapsed_secs_text(num as nat)
    }
}

impl From<u64> for NiceElapsed {
    /// Values past `u32::MAX` are capped to it.
    fn from(num: u64) -> (r: Self)
        ensures
            r@ == elapsed_secs_text(if num <= 4294967295 { num as nat } else { 4294967295 }),
    {
        let capped: u32 = if num <= 4294967295 { num as u32 } else { 4294967295u32 };
        Self::from_secs(capped)
    }
}

impl vstd::std_specs::convert::FromSpecImpl<u64> for NiceElapsed {
    open spec fn obeys_from_spec() -> bool {
        false
    }

    open spec fn from_spec(num: u64) -> NiceElapsed {
        choose|r: NiceElapsed|
            r@ == elapsed_secs_text(if num <= 4294967295 { num as nat } else { 4294967295 })
    }
}

impl From<u128> for NiceElapsed {
    /// Values past `u32::MAX` are capped to it.
    fn from(num: u128) -> (r: Self)
        ensures
            r@ == elapsed_secs_text(if num <= 4294967295 { num as nat } else { 4294967295 }),
    {
        let capped: u32 = if num <= 4294967295 { num as u32 } else { 4294967295u32 };
        Self::from_secs(capped)
    }
}

impl vstd::std_specs::convert::FromSpecImpl<u128> for NiceElapsed {
    open spec fn obeys_from_spec() -> bool {
        false
    }

    open spec fn from_spec(num: u128) -> NiceElapsed {
        choose|r: NiceElapsed|
            r@ == elapsed_secs_text(if num <= 4294967295 { num as nat } else { 4294967295 })
    }
}

impl From<usize> for NiceElapsed {
    /// Values past `u32::MAX` are capped to it.
    fn from(num: usize) -> (r: Self)
        ensures
            r@ == elapsed_secs_text(if num <= 4294967295 { num as nat } else { 4294967295 }),
    {
        let capped: u32 = if num as u64 <= 4294967295 { num as u32 } else { 4294967295u32 };
        Self::from_secs(capped)
    }
}

impl vstd::std_specs::convert::FromSpecImpl<usize> for NiceElapsed {
    open spec fn obeys_from_spec() -> bool {
        false
    }

    open spec fn from_spec(num: usize) -> NiceElapsed {
        choose|r: NiceElapsed|
            r@ == elapsed_secs_text(if num <= 4294967295 { num as nat } else { 4294967295 })
    }
}

impl From<Duration> for NiceElapsed {
    /// The whole seconds (capped to `u32::MAX`) and the hundredths of the
    /// duration.
    fn from(src: Duration) -> (r: Self)
        ensures
            r@ == elapsed_duration_text(
                crate::nice::time::secs_of(src),
                crate::nice::time::subsec_millis_of(src),
            ),
    {
        let secs = crate::nice::time::duration_secs(&src);
        let millis = crate::nice::time::duration_subsec_millis(&src);
        Self::from_secs_millis(secs, millis)
    }
}

impl vstd::std_specs::convert::FromSpecImpl<Duration> for NiceElapsed {
    open spec fn obeys_from_spec() -> bool {
        false
    }

    open spec fn from_spec(src: Duration) -> NiceElapsed {
        choose|r: NiceElapsed|
            r@ == elapsed_duration_text(
                crate::nice::time::secs_of(src),
                crate::nice::time::subsec_millis_of(src),
            )
    }
}

impl From<NiceElapsed> for String {
    fn from(src: NiceElapsed) -> (r: String)
        ensures
            vstd::utf8::encode_utf8(r@) == src@,
    {
        String::from_str(src.as_str())
    }
}

impl vstd::std_specs::convert::FromSpecImpl<NiceElapsed> for String {
    open spec fn obeys_from_spec() -> bool {
        false
    }

    open spec fn from_spec(src: NiceElapsed) -> String {
        choose|v: String| vstd::utf8::encode_utf8(v@) == src@
    }
}

} // verus!

verus! {

impl core::ops::Deref for NiceElapsed {
    type Target = [u8];

    fn deref(&self) -> (r: &[u8])
        ensures
            r@ == self@,
    {
        self.as_bytes()
    }
}

impl AsRef<[u8]> for NiceElapsed {
    fn as_ref(&self) -> (r: &[u8])
        ensures
            crate::nice::wrapper::slice_bytes(r) == self@,
    {
        self.as_bytes()
    }
}

impl AsRef<str> for NiceElapsed {
    fn as_ref(&self) -> (r: &str)
        ensures
            crate::nice::wrapper::str_bytes(r) == self@,
    {
        self.as_str()
    }
}

impl core::borrow::Borrow<str> for NiceElapsed {
    fn borrow(&self) -> (r: &str)
        ensures
            crate::nice::wrapper::str_bytes(r) == self@,
    {
        self.as_str()
    }
}

impl Eq for NiceElapsed {}

impl core::hash::Hash for NiceElapsed {
    /// Hashes the formatted bytes, as equality compares them.
    fn hash<H: core::hash::Hasher>(&self, state: &mut H) {
        crate::nice::wrapper::hasher_write(state, self.as_bytes());
    }
}

} // verus!

verus! {

impl PartialOrd for NiceElapsed {
    /// Values are ordered by their text, as strings are.
    fn partial_cmp(&self, other: &Self) -> (r: Option<core::cmp::Ordering>) {
        proof {
            crate::nice::wrapper::lemma_compare_bytes_range(self@, other@);
        }
        let o = crate::nice::wrapper::order_bytes(self.as_bytes(), other.as_bytes());
        if o < 0 {
            Some(core::cmp::Ordering::Less)
        } else if o == 0 {
            Some(core::cmp::Ordering::Equal)
        } else {
            Some(core::cmp::Ordering::Greater)
        }
    }
}

impl vstd::std_specs::cmp::PartialOrdSpecImpl for NiceElapsed {
    open spec fn obeys_partial_cmp_spec() -> bool {
        true
    }

    open spec fn partial_cmp_spec(&self, other: &Self) -> Option<core::cmp::Ordering> {
        Some(crate::nice::wrapper::ordering_of(crate::nice::wrapper::compare_bytes(self@, other@)))
    }
}

} // verus!
