//! Decimal literals such as `12.375`, read into fixed-point numbers.
//!
//! The integer part is shifted into the high 16 bits and the fraction's bits
//! fill the low 16, as `FixedI32::from_components` builds a number; for a
//! negative integer part the fraction therefore counts upwards, so `-1.5`
//! reads as -1 + 0.5 = -0.5.
use crate::fixed::{fx, pow10, FixedI32};
use vstd::arithmetic::div_mod::{lemma_div_denominator, lemma_hoist_over_denominator};
use vstd::prelude::*;
use vstd::string::StringSliceAdditionalSpecFns;

verus! {

/// An ASCII decimal digit.
pub open spec fn is_digit(c: u8) -> bool {
    48 <= c <= 57
}

pub open spec fn all_digits(s: Seq<u8>) -> bool {
    forall|i: int| 0 <= i < s.len() ==> is_digit(#[trigger] s[i])
}

/// The number that a string of decimal digits writes, most significant first.
pub open spec fn digits_value(s: Seq<u8>) -> int
    decreases s.len(),
{
    if s.len() == 0 {
        0
    } else {
        digits_value(s.drop_last()) * 10 + (s.last() - 48)
    }
}

/// Position of the first `.` in `s`, or its length when it has none.
pub open spec fn dot_pos(s: Seq<u8>) -> int
    decreases s.len(),
{
    if s.len() == 0 || s[0] == 46 {
        0
    } else {
        1 + dot_pos(s.drop_first())
    }
}

/// What stands before the first `.`.
pub open spec fn whole_part(s: Seq<u8>) -> Seq<u8> {
    s.subrange(0, dot_pos(s))
}

/// What stands after the first `.`; empty when there is none.
pub open spec fn frac_part(s: Seq<u8>) -> Seq<u8> {
    if dot_pos(s) < s.len() {
        s.subrange(dot_pos(s) + 1, s.len() as int)
    } else {
        Seq::empty()
    }
}

/// The digits of an integer part, after a leading `-` or `+`.
pub open spec fn unsigned_digits(w: Seq<u8>) -> Seq<u8> {
    if w.len() > 0 && (w[0] == 45 || w[0] == 43) {
        w.drop_first()
    } else {
        w
    }
}

/// The signed integer that an integer part writes.
pub open spec fn whole_value(w: Seq<u8>) -> int {
    if w.len() > 0 && w[0] == 45 {
        -digits_value(unsigned_digits(w))
    } else {
        digits_value(unsigned_digits(w))
    }
}

/// A decimal literal: an optional sign, at least one digit, and optionally a
/// `.` followed by any number of digits; its integer part fits in an `i32`.
pub open spec fn is_literal(s: Seq<u8>) -> bool {
    let d = unsigned_digits(whole_part(s));
    &&& d.len() > 0
    &&& all_digits(d)
    &&& all_digits(frac_part(s))
    &&& i32::MIN <= whole_value(whole_part(s)) <= i32::MAX
}

/// The fractional digits `f` as 16 binary places, rounded down.
pub open spec fn frac_bits(f: Seq<u8>) -> int {
    (65536 * digits_value(f)) / (pow10(f.len()) as int)
}

/// The value of a literal: its integer part shifted by 16 bits (truncated to
/// 32 bits), with the fraction's bits in the low half.
pub open spec fn literal_value(s: Seq<u8>) -> FixedI32 {
    fx(whole_value(whole_part(s)) * 65536 + frac_bits(frac_part(s)))
}

proof fn lemma_dot_pos(s: Seq<u8>, i: int)
    requires
        0 <= i <= s.len(),
        forall|j: int| 0 <= j < i ==> s[j] != 46,
        i == s.len() || s[i] == 46,
    ensures
        dot_pos(s) == i,
    decreases i,
{
    if i > 0 {
        let t = s.drop_first();
        assert forall|j: int| 0 <= j < i - 1 implies t[j] != 46 by {
            assert(t[j] == s[j + 1]);
        }
        if i - 1 < t.len() {
            assert(t[i - 1] == s[i]);
        }
        lemma_dot_pos(t, i - 1);
    }
}

proof fn lemma_pow10_positive(n: nat)
    ensures
        pow10(n) >= 1,
    decreases n,
{
    if n > 0 {
        lemma_pow10_positive((n - 1) as nat);
    }
}

proof fn lemma_digits_prepend(c: u8, s: Seq<u8>)
    ensures
        digits_value(seq![c] + s) == (c - 48) * pow10(s.len()) + digits_value(s),
    decreases s.len(),
{
    let t = seq![c] + s;
    let dc = c - 48;
    if s.len() == 0 {
        assert(t.drop_last() =~= Seq::<u8>::empty());
        assert(t.last() == c);
        assert(t.len() == 1);
        assert(digits_value(t.drop_last()) == 0);
        assert(digits_value(t) == digits_value(t.drop_last()) * 10 + dc);
        assert(digits_value(t) == dc);
        assert(pow10(0) == 1);
        assert(dc * pow10(s.len()) == dc);
    } else {
        let u = s.drop_last();
        assert(t.drop_last() =~= seq![c] + u);
        assert(t.last() == s.last());
        let l = s.last() - 48;
        lemma_digits_prepend(c, u);
        let p = pow10(u.len()) as int;
        let v = digits_value(u);
        assert(digits_value(seq![c] + u) == dc * p + v);
        assert(digits_value(t) == (dc * p + v) * 10 + l);
        assert(digits_value(s) == v * 10 + l);
        assert(pow10(s.len()) == 10 * p);
        assert((dc * p + v) * 10 + l == dc * (10 * p) + (v * 10 + l)) by (nonlinear_arith);
    }
}

/// One step of the right-to-left fraction conversion.
proof fn lemma_frac_step(c: u8, s: Seq<u8>, acc: int)
    requires
        is_digit(c),
        digits_value(s) >= 0,
        acc == frac_bits(s),
    ensures
        (65536 * (c - 48) + acc) / 10 == frac_bits(seq![c] + s),
{
    let p = pow10(s.len()) as int;
    lemma_pow10_positive(s.len());
    lemma_digits_prepend(c, s);
    let x = 65536 * digits_value(s);
    let j = 65536 * (c - 48);
    lemma_hoist_over_denominator(x, j, p as nat);
    assert(x + j * p == 65536 * digits_value(seq![c] + s)) by (nonlinear_arith)
        requires
            digits_value(seq![c] + s) == (c - 48) * p + digits_value(s),
            x == 65536 * digits_value(s),
            j == 65536 * (c - 48),
    ;
    assert(x + j * p >= 0) by (nonlinear_arith)
        requires x >= 0, j >= 0, p >= 1;
    lemma_div_denominator(x + j * p, p, 10);
    assert((seq![c] + s).len() == s.len() + 1);
    assert(pow10((seq![c] + s).len()) == p * 10);
}

proof fn lemma_digits_nonneg(s: Seq<u8>)
    requires
        all_digits(s),
    ensures
        digits_value(s) >= 0,
    decreases s.len(),
{
    if s.len() > 0 {
        lemma_digits_nonneg(s.drop_last());
    }
}

proof fn lemma_digits_below_pow10(s: Seq<u8>)
    requires
        all_digits(s),
    ensures
        0 <= digits_value(s) < pow10(s.len()),
    decreases s.len(),
{
    if s.len() > 0 {
        let u = s.drop_last();
        assert(all_digits(u)) by {
            assert forall|i: int| 0 <= i < u.len() implies is_digit(#[trigger] u[i]) by {
                assert(u[i] == s[i]);
            }
        }
        lemma_digits_below_pow10(u);
        assert(is_digit(s[s.len() - 1]));
        assert(pow10(s.len()) == 10 * pow10(u.len()));
    }
}

/// A literal whose integer part fits in 16 bits reads as the number built from
/// that integer part and the fraction's 16 binary places (`1.625` reads as
/// whole 1 and fraction bits `0b1010_0000_0000_0000`).
pub proof fn lemma_literal_matches_components(s: Seq<u8>)
    requires
        is_literal(s),
        i16::MIN <= whole_value(whole_part(s)) <= i16::MAX,
    ensures
        0 <= frac_bits(frac_part(s)) < 65536,
        literal_value(s).value == whole_value(whole_part(s)) * 65536 + frac_bits(frac_part(s)),
{
    let f = frac_part(s);
    lemma_digits_below_pow10(f);
    lemma_pow10_positive(f.len());
    let p = pow10(f.len()) as int;
    let v = digits_value(f);
    assert(65536 * v < 65536 * p) by (nonlinear_arith)
        requires v < p;
    assert(0 <= 65536 * v) by (nonlinear_arith)
        requires v >= 0;
    assert((65536 * v) / p < 65536) by (nonlinear_arith)
        requires 0 <= 65536 * v < 65536 * p, p >= 1;
    assert((65536 * v) / p >= 0) by (nonlinear_arith)
        requires 0 <= 65536 * v, p >= 1;
}

/// A string of digits, a `.`, and more digits is a literal whose integer and
/// fraction parts are those digit strings; when the integer part is below
/// 2^15 it reads as the number built from that integer part and the
/// fraction's 16 binary places, as `FixedI32::from_components` builds it.
pub proof fn lemma_digits_dot_digits(w: Seq<u8>, f: Seq<u8>)
    requires
        w.len() > 0,
        all_digits(w),
        all_digits(f),
        digits_value(w) < 0x8000,
    ensures
        is_literal(w + seq![46u8] + f),
        whole_part(w + seq![46u8] + f) == w,
        frac_part(w + seq![46u8] + f) == f,
        0 <= frac_bits(f) < 65536,
        literal_value(w + seq![46u8] + f).value == digits_value(w) * 65536 + frac_bits(f),
{
    let s = w + seq![46u8] + f;
    assert forall|j: int| 0 <= j < w.len() implies s[j] != 46 by {
        assert(s[j] == w[j]);
        assert(is_digit(w[j]));
    }
    assert(s[w.len() as int] == 46);
    lemma_dot_pos(s, w.len() as int);
    assert(s.subrange(0, w.len() as int) =~= w);
    assert(s.subrange(w.len() as int + 1, s.len() as int) =~= f);
    assert(is_digit(w[0]));
    assert(unsigned_digits(w) == w);
    lemma_digits_nonneg(w);
    lemma_literal_matches_components(s);
}

/// A nonempty string of digits below 2^15 is a literal that reads as that
/// integer.
pub proof fn lemma_digits_only(w: Seq<u8>)
    requires
        w.len() > 0,
        all_digits(w),
        digits_value(w) < 0x8000,
    ensures
        is_literal(w),
        literal_value(w).value == digits_value(w) * 65536,
{
    assert forall|j: int| 0 <= j < w.len() implies w[j] != 46 by {
        assert(is_digit(w[j]));
    }
    lemma_dot_pos(w, w.len() as int);
    assert(w.subrange(0, w.len() as int) =~= w);
    assert(is_digit(w[0]));
    assert(unsigned_digits(w) == w);
    lemma_digits_nonneg(w);
    assert(frac_part(w) =~= Seq::<u8>::empty());
    assert(digits_value(Seq::<u8>::empty()) == 0);
    assert(frac_bits(Seq::<u8>::empty()) == 0);
}

impl FixedI32 {
    /// Reads a decimal literal such as `12.375`; `None` when `s` is not one.
    /// The fraction may have any number of digits and is rounded down to 16
    /// binary places.
    pub fn parse(s: &str) -> (r: Option<Self>)
        ensures
            r == (if is_literal(s.spec_bytes()) {
                Some(literal_value(s.spec_bytes()))
            } else {
                None
            }),
    {
        let b: &[u8] = s.as_bytes();
        let ghost bs = b@;
        let n: usize = b.len();
        let mut k: usize = 0;
        while k < n && b[k] != 46
            invariant
                k <= n == bs.len(),
                b@ == bs,
                forall|j: int| 0 <= j < k ==> bs[j] != 46,
            decreases n - k,
        {
            k = k + 1;
        }
        proof {
            lemma_dot_pos(bs, k as int);
        }
        let ghost w = bs.subrange(0, k as int);
        let negative = k > 0 && b[0] == 45;
        let start: usize = if k > 0 && (b[0] == 45 || b[0] == 43) { 1 } else { 0 };
        assert(unsigned_digits(w) =~= bs.subrange(start as int, k as int));
        assert(whole_part(bs) =~= w);
        if start >= k {
            return None;
        }
        // The magnitude of the integer part, saturated just above what an i32 can hold.
        let limit: u64 = 0x8000_0001;
        let mut acc: u64 = 0;
        let mut i: usize = start;
        while i < k
            invariant
                start <= i <= k <= n == bs.len(),
                b@ == bs,
                bs == s.spec_bytes(),
                limit == 0x8000_0001,
                dot_pos(bs) == k,
                w == bs.subrange(0, k as int),
                whole_part(bs) == w,
                unsigned_digits(w) == bs.subrange(start as int, k as int),
                all_digits(bs.subrange(start as int, i as int)),
                acc <= limit,
                acc as int == (if digits_value(bs.subrange(start as int, i as int)) < limit {
                    digits_value(bs.subrange(start as int, i as int))
                } else {
                    limit as int
                }),
            decreases k - i,
        {
            let c = b[i];
            if c < 48 || c > 57 {
                proof {
                    let d = bs.subrange(start as int, k as int);
                    assert(d[i - start] == bs[i as int]);
                    assert(!is_digit(d[i - start]));
                    assert(whole_part(bs) =~= w);
                    assert(unsigned_digits(whole_part(bs)) =~= d);
                    assert(!all_digits(d));
                    assert(!is_literal(bs));
                }
                return None;
            }
            let ghost prev = bs.subrange(start as int, i as int);
            let ghost next = bs.subrange(start as int, i as int + 1);
            assert(next.drop_last() =~= prev);
            assert(next.last() == c);
            proof {
                lemma_digits_nonneg(prev);
            }
            let grown: u64 = acc * 10 + (c - 48) as u64;
            acc = if grown < limit { grown } else { limit };
            i = i + 1;
            assert(all_digits(next)) by {
                assert forall|j: int| 0 <= j < next.len() implies is_digit(#[trigger] next[j]) by {
                    if j < prev.len() {
                        assert(next[j] == prev[j]);
                    }
                }
            }
        }
        proof {
            lemma_digits_nonneg(unsigned_digits(w));
        }
        if (negative && acc > 0x8000_0000) || (!negative && acc > 0x7fff_ffff) {
            return None;
        }
        let whole: i64 = if negative { -(acc as i64) } else { acc as i64 };
        assert(whole == whole_value(w));
        let mut frac: u64 = 0;
        let mut i: usize = n;
        let lo: usize = if k < n { k + 1 } else { n };
        assert(frac_part(bs) =~= bs.subrange(lo as int, n as int));
        assert(bs.subrange(n as int, n as int) =~= Seq::<u8>::empty());
        while i > lo
            invariant
                lo <= i <= n == bs.len(),
                b@ == bs,
                bs == s.spec_bytes(),
                frac_part(bs) == bs.subrange(lo as int, n as int),
                all_digits(bs.subrange(i as int, n as int)),
                frac as int == frac_bits(bs.subrange(i as int, n as int)),
                frac < 65536,
            decreases i,
        {
            let c = b[i - 1];
            if c < 48 || c > 57 {
                proof {
                    let f = bs.subrange(lo as int, n as int);
                    assert(f[i - 1 - lo] == bs[i - 1]);
                    assert(!is_digit(f[i - 1 - lo]));
                    assert(!all_digits(f));
                    assert(!is_literal(bs));
                }
                return None;
            }
            let ghost prev = bs.subrange(i as int, n as int);
            let ghost next = bs.subrange(i as int - 1, n as int);
            assert(next =~= seq![c] + prev);
            proof {
                lemma_digits_nonneg(prev);
                lemma_frac_step(c, prev, frac as int);
            }
            frac = (65536 * (c - 48) as u64 + frac) / 10;
            i = i - 1;
            assert(all_digits(next)) by {
                assert forall|j: int| 0 <= j < next.len() implies is_digit(#[trigger] next[j]) by {
                    if j > 0 {
                        assert(next[j] == prev[j - 1]);
                    }
                }
            }
        }
        Some(FixedI32 { value: #[verifier::truncate] ((whole * 65536 + frac as i64) as i32) })
    }
}

/// The error of reading a string that is not a decimal literal.
#[derive(Clone, Copy, Debug, PartialEq, Eq, Structural)]
pub struct MalformedLiteral;

/// Reads a decimal literal, as `FixedI32::parse` does; a string that is not
/// one is rejected with `MalformedLiteral`.
impl<'a> std::convert::TryFrom<&'a str> for FixedI32 {
    type Error = MalformedLiteral;

    fn try_from(value: &'a str) -> Result<FixedI32, MalformedLiteral> {
        match FixedI32::parse(value) {
            Some(x) => Ok(x),
            None => Err(MalformedLiteral),
        }
    }
}

impl<'a> vstd::std_specs::convert::TryFromSpecImpl<&'a str> for FixedI32 {
    open spec fn obeys_try_from_spec() -> bool {
        true
    }

    open spec fn try_from_spec(value: &'a str) -> Result<FixedI32, MalformedLiteral> {
        if is_literal(value.spec_bytes()) {
            Ok(literal_value(value.spec_bytes()))
        } else {
            Err(MalformedLiteral)
        }
    }
}

} // verus!
