//! Histogram bucket boundaries.
//!
//! Boundaries are fixed-point numbers carrying nine fractional decimal
//! digits (see [`FIXED_SCALE`]): a stored `i128` value `v` denotes the
//! boundary `v / FIXED_SCALE`. Every boundary sequence is strictly
//! increasing.
//!
//! The module also provides a total-order comparison of IEEE-754 double
//! bit patterns, usable for validating externally supplied boundary lists
//! without relying on the platform's floating-point ordering.

use vstd::prelude::*;

use crate::text::FIXED_SCALE;

verus! {

pub const FRACTION_MASK: u64 = 0xF_FFFF_FFFF_FFFF;

pub const EXPONENT_MASK: u64 = 0x7FF0_0000_0000_0000;

pub const SIGN_MASK: u64 = 0x8000_0000_0000_0000;

pub open spec fn spec_sign_bit(bits: u64) -> u64 {
    bits & SIGN_MASK
}

pub open spec fn spec_exponent_bits(bits: u64) -> u64 {
    bits & EXPONENT_MASK
}

pub open spec fn spec_fraction_bits(bits: u64) -> u64 {
    bits & FRACTION_MASK
}

pub open spec fn spec_is_zero(bits: u64) -> bool {
    spec_exponent_bits(bits) == 0 && spec_fraction_bits(bits) == 0
}

pub open spec fn spec_is_subnormal(bits: u64) -> bool {
    spec_exponent_bits(bits) == 0 && spec_fraction_bits(bits) != 0
}

pub open spec fn spec_is_nan(bits: u64) -> bool {
    spec_exponent_bits(bits) == EXPONENT_MASK && spec_fraction_bits(bits) != 0
}

pub open spec fn spec_compare_u64(lhs: u64, rhs: u64) -> core::cmp::Ordering {
    if lhs < rhs {
        core::cmp::Ordering::Less
    } else if lhs > rhs {
        core::cmp::Ordering::Greater
    } else {
        core::cmp::Ordering::Equal
    }
}

pub open spec fn spec_reverse_ordering(o: core::cmp::Ordering) -> core::cmp::Ordering {
    match o {
        core::cmp::Ordering::Less => core::cmp::Ordering::Greater,
        core::cmp::Ordering::Equal => core::cmp::Ordering::Equal,
        core::cmp::Ordering::Greater => core::cmp::Ordering::Less,
    }
}

/// The total order on IEEE-754 double bit patterns: `None` for NaNs and
/// subnormals, equality for the two zeros, and otherwise ordering by sign,
/// then exponent, then fraction (both reversed for negative values).
pub open spec fn spec_compare_f64_bits(lhs: u64, rhs: u64) -> Option<core::cmp::Ordering> {
    if spec_is_nan(lhs) || spec_is_nan(rhs) || spec_is_subnormal(lhs) || spec_is_subnormal(rhs) {
        None
    } else if spec_is_zero(lhs) && spec_is_zero(rhs) {
        Some(core::cmp::Ordering::Equal)
    } else {
        let sign_ordering = spec_reverse_ordering(
            spec_compare_u64(spec_sign_bit(lhs), spec_sign_bit(rhs)),
        );
        if sign_ordering != core::cmp::Ordering::Equal {
            Some(sign_ordering)
        } else {
            let exponent_ordering = if spec_sign_bit(lhs) != 0 {
                spec_reverse_ordering(
                    spec_compare_u64(spec_exponent_bits(lhs), spec_exponent_bits(rhs)),
                )
            } else {
                spec_compare_u64(spec_exponent_bits(lhs), spec_exponent_bits(rhs))
            };
            if exponent_ordering != core::cmp::Ordering::Equal {
                Some(exponent_ordering)
            } else if spec_sign_bit(lhs) != 0 {
                Some(
                    spec_reverse_ordering(
                        spec_compare_u64(spec_fraction_bits(lhs), spec_fraction_bits(rhs)),
                    ),
                )
            } else {
                Some(spec_compare_u64(spec_fraction_bits(lhs), spec_fraction_bits(rhs)))
            }
        }
    }
}

/// Compares two unsigned 64-bit values.
pub fn compare_u64(lhs: u64, rhs: u64) -> (r: core::cmp::Ordering)
    ensures
        r == spec_compare_u64(lhs, rhs),
{
    if lhs < rhs {
        core::cmp::Ordering::Less
    } else if lhs > rhs {
        core::cmp::Ordering::Greater
    } else {
        core::cmp::Ordering::Equal
    }
}

fn reverse_ordering(o: core::cmp::Ordering) -> (r: core::cmp::Ordering)
    ensures
        r == spec_reverse_ordering(o),
{
    match o {
        core::cmp::Ordering::Less => core::cmp::Ordering::Greater,
        core::cmp::Ordering::Equal => core::cmp::Ordering::Equal,
        core::cmp::Ordering::Greater => core::cmp::Ordering::Less,
    }
}

fn ordering_is_eq(o: core::cmp::Ordering) -> (r: bool)
    ensures
        r == (o == core::cmp::Ordering::Equal),
{
    match o {
        core::cmp::Ordering::Equal => true,
        _ => false,
    }
}

/// Compares two IEEE-754 double values given by their bit patterns,
/// decomposing them into sign, exponent and fraction. NaNs and subnormal
/// values are not comparable; positive and negative zero are equal.
pub fn compare_f64_bits(lhs_bits: u64, rhs_bits: u64) -> (r: Option<core::cmp::Ordering>)
    ensures
        r == spec_compare_f64_bits(lhs_bits, rhs_bits),
{
    let lhs_sign = lhs_bits & SIGN_MASK;
    let lhs_exponent = lhs_bits & EXPONENT_MASK;
    let lhs_fraction = lhs_bits & FRACTION_MASK;
    let rhs_sign = rhs_bits & SIGN_MASK;
    let rhs_exponent = rhs_bits & EXPONENT_MASK;
    let rhs_fraction = rhs_bits & FRACTION_MASK;

    let lhs_nan = lhs_exponent == EXPONENT_MASK && lhs_fraction != 0;
    let rhs_nan = rhs_exponent == EXPONENT_MASK && rhs_fraction != 0;
    let lhs_subnormal = lhs_exponent == 0 && lhs_fraction != 0;
    let rhs_subnormal = rhs_exponent == 0 && rhs_fraction != 0;
    if lhs_nan || rhs_nan || lhs_subnormal || rhs_subnormal {
        return None;
    }
    if (lhs_exponent == 0 && lhs_fraction == 0) && (rhs_exponent == 0 && rhs_fraction == 0) {
        return Some(core::cmp::Ordering::Equal);
    }

    let sign_ordering = reverse_ordering(compare_u64(lhs_sign, rhs_sign));
    if !ordering_is_eq(sign_ordering) {
        return Some(sign_ordering);
    }

    let mut exponent_ordering = compare_u64(lhs_exponent, rhs_exponent);
    if lhs_sign != 0 {
        exponent_ordering = reverse_ordering(exponent_ordering);
    }
    if !ordering_is_eq(exponent_ordering) {
        return Some(exponent_ordering);
    }

    let mut fraction_ordering = compare_u64(lhs_fraction, rhs_fraction);
    if lhs_sign != 0 {
        fraction_ordering = reverse_ordering(fraction_ordering);
    }
    Some(fraction_ordering)
}

/// Whether the first double (as a bit pattern) is strictly greater than
/// the second under the total order.
pub fn is_f64_bits_greater(lhs_bits: u64, rhs_bits: u64) -> (r: bool)
    ensures
        r == (spec_compare_f64_bits(lhs_bits, rhs_bits) == Some(core::cmp::Ordering::Greater)),
{
    match compare_f64_bits(lhs_bits, rhs_bits) {
        Some(core::cmp::Ordering::Greater) => true,
        _ => false,
    }
}

/// Whether consecutive elements strictly increase.
pub open spec fn spec_strictly_increasing(s: Seq<i128>) -> bool {
    forall|i: int| 0 <= i < s.len() - 1 ==> #[trigger] s[i] < s[i + 1]
}

/// The linear boundary sequence `cur, cur + step, ...` up to `end`.
pub open spec fn spec_linear_from(cur: int, end: int, step: int) -> Seq<i128>
    decreases end + step - cur,
    when step > 0
{
    if cur > end {
        Seq::<i128>::empty()
    } else {
        seq![cur as i128] + spec_linear_from(cur + step, end, step)
    }
}

/// The exponential boundary sequence: each next boundary is the previous
/// one multiplied by the fixed-point `factor`; generation stops past `end`
/// or when fixed-point truncation stops making progress.
pub open spec fn spec_exponential_from(cur: int, end: int, factor: int) -> Seq<i128>
    decreases end - cur,
    when cur <= end
{
    let next = cur * factor / (FIXED_SCALE as int);
    seq![cur as i128] + if cur < next <= end {
        spec_exponential_from(next, end, factor)
    } else {
        Seq::<i128>::empty()
    }
}

/// One octave of the scaled sequence: the products of `base` with each
/// harmonic factor, keeping only values that fit below `end` and strictly
/// increase past `prev`.
pub open spec fn spec_scaled_row(
    base: int,
    end: int,
    factors: Seq<i128>,
    i: int,
    prev: int,
) -> Seq<i128>
    decreases factors.len() - i,
    when 0 <= i
{
    if i >= factors.len() {
        Seq::<i128>::empty()
    } else {
        let v = base * factors[i] / (FIXED_SCALE as int);
        if v > end {
            Seq::<i128>::empty()
        } else if v > prev {
            seq![v as i128] + spec_scaled_row(base, end, factors, i + 1, v)
        } else {
            spec_scaled_row(base, end, factors, i + 1, prev)
        }
    }
}

/// Last element of a sequence with a fallback for the empty one.
pub open spec fn spec_last_or(s: Seq<i128>, fallback: int) -> int {
    if s.len() == 0 {
        fallback
    } else {
        s.last() as int
    }
}

/// The scaled boundary sequence: every octave starts at `base`, walks the
/// harmonic factors except the last, and the next octave is `base` times
/// the last factor.
pub open spec fn spec_scaled_from(base: int, end: int, factors: Seq<i128>) -> Seq<i128>
    decreases end - base,
    when base <= end && factors.len() > 0
{
    let row = seq![base as i128] + spec_scaled_row(
        base,
        end,
        factors.drop_last(),
        0,
        base,
    );
    let next = base * factors.last() / (FIXED_SCALE as int);
    row + if base < next && spec_last_or(row, base) < next && next <= end {
        spec_scaled_from(next, end, factors)
    } else {
        Seq::<i128>::empty()
    }
}

/// The mirrored sequence: every strictly positive boundary reflected to
/// its negation, prepended in ascending order, then the original sequence.
pub open spec fn spec_mirror(s: Seq<i128>) -> Seq<i128> {
    let npos: int = if s[0] == 0 {
        s.len() - 1
    } else {
        s.len() as int
    };
    Seq::new(npos as nat, |i: int| (-s[s.len() - 1 - i]) as i128) + s
}

/// Appending a strictly larger element keeps a sequence strictly
/// increasing.
proof fn lemma_push_increasing(s: Seq<i128>, last: i128)
    requires
        spec_strictly_increasing(s),
        s.len() > 0 ==> s.last() < last,
    ensures
        spec_strictly_increasing(s.push(last)),
{
    assert forall|i: int| 0 <= i < s.push(last).len() - 1 implies #[trigger] s.push(last)[i]
        < s.push(last)[i + 1] by {
        if i + 1 < s.len() {
            assert(s.push(last)[i] == s[i] && s.push(last)[i + 1] == s[i + 1]);
        } else {
            assert(s.push(last)[i] == s[i] && s.push(last)[i + 1] == last);
            assert(s[i] <= s.last()) by {
                if i < s.len() - 1 {
                    lemma_increasing_pairwise(s, i, s.len() - 1);
                }
            }
        }
    }
}

/// Mirroring a strictly increasing sequence whose smallest element is
/// non-negative yields a strictly increasing sequence.
proof fn lemma_mirror_increasing(s: Seq<i128>)
    requires
        spec_strictly_increasing(s),
        s.len() > 0,
        s[0] >= 0,
    ensures
        spec_strictly_increasing(spec_mirror(s)),
{
    let m = spec_mirror(s);
    let npos: int = if s[0] == 0 {
        s.len() - 1
    } else {
        s.len() as int
    };
    assert forall|i: int| 0 <= i < m.len() - 1 implies #[trigger] m[i] < m[i + 1] by {
        if i + 1 < npos {
            let a = s.len() - 1 - i;
            assert(s[a - 1] < s[a]);
            assert(s[a - 1] > 0) by {
                if s[0] == 0 {
                    assert(a - 1 >= 1);
                    lemma_increasing_pairwise(s, 1, a - 1);
                    assert(s[0] < s[1]);
                } else {
                    lemma_increasing_pairwise(s, 0, a - 1);
                }
            }
            assert(m[i] == -s[a] && m[i + 1] == -s[a - 1]);
        } else if i + 1 == npos {
            assert(m[i] == -s[s.len() - 1 - i]);
            assert(m[i + 1] == s[0]);
            if s[0] == 0 {
                assert(s.len() - 1 - i == 1);
                assert(s[0] < s[1]);
            } else {
                assert(s.len() - 1 - i == 0);
            }
        } else {
            assert(m[i] == s[i - npos] && m[i + 1] == s[i + 1 - npos]);
        }
    }
}

/// Adjacent strict increase gives pairwise non-strict increase.
proof fn lemma_increasing_pairwise(s: Seq<i128>, i: int, j: int)
    requires
        spec_strictly_increasing(s),
        0 <= i <= j < s.len(),
    ensures
        s[i] <= s[j],
    decreases j - i,
{
    if i < j {
        lemma_increasing_pairwise(s, i, j - 1);
        assert(s[j - 1] < s[j]);
    }
}

/// Bucket boundaries for a histogram: a non-empty, strictly increasing
/// sequence of fixed-point values.
#[derive(Debug, Clone)]
pub struct Buckets {
    /// Fixed-point boundary values, scaled by [`FIXED_SCALE`].
    pub values: Vec<i128>,
}

impl Buckets {
    /// A non-empty, strictly increasing boundary sequence.
    pub open spec fn well_formed(&self) -> bool {
        &&& self.values@.len() > 0
        &&& spec_strictly_increasing(self.values@)
    }

    /// Copies the boundary sequence.
    pub fn duplicate(&self) -> (r: Buckets)
        ensures
            r.values@ == self.values@,
    {
        let mut values: Vec<i128> = Vec::new();
        let mut i: usize = 0;
        while i < self.values.len()
            invariant
                0 <= i <= self.values@.len(),
                values@ =~= self.values@.take(i as int),
            decreases self.values@.len() - i,
        {
            values.push(self.values[i]);
            proof {
                assert(values@ =~= self.values@.take(i + 1 as int));
            }
            i += 1;
        }
        proof {
            assert(self.values@.take(self.values@.len() as int) =~= self.values@);
        }
        Buckets { values }
    }

    /// Creates buckets from explicitly given boundaries, which must be
    /// non-empty and strictly increasing; use [`Buckets::try_values`] to
    /// test arbitrary input.
    pub fn values(values: Vec<i128>) -> (r: Buckets)
        requires
            values@.len() > 0,
            spec_strictly_increasing(values@),
        ensures
            r.values@ == values@,
            r.well_formed(),
    {
        Buckets { values }
    }

    /// Creates buckets from explicitly given boundaries if they are
    /// non-empty and strictly increasing.
    pub fn try_values(values: Vec<i128>) -> (r: Option<Buckets>)
        ensures
            r is Some <==> (values@.len() > 0 && spec_strictly_increasing(values@)),
            r matches Some(b) ==> b.values@ == values@ && b.well_formed(),
    {
        if values.len() == 0 {
            return None;
        }
        let mut i: usize = 0;
        while i < values.len() - 1
            invariant
                0 < values@.len(),
                0 <= i < values@.len(),
                forall|j: int| 0 <= j < i ==> #[trigger] values@[j] < values@[j + 1],
            decreases values@.len() - i,
        {
            if values[i] >= values[i + 1] {
                return None;
            }
            i += 1;
        }
        Some(Buckets { values })
    }

    /// Creates linear buckets `start, start + step, ...` up to `end`
    /// (potentially inclusive).
    pub fn linear(start: i128, end: i128, step: i128) -> (r: Buckets)
        requires
            step > 0,
            start <= end,
            end <= i128::MAX - step,
        ensures
            r.values@ == spec_linear_from(start as int, end as int, step as int),
            r.well_formed(),
    {
        let ghost full = spec_linear_from(start as int, end as int, step as int);
        let mut values: Vec<i128> = Vec::new();
        let mut cur: i128 = start;
        loop
            invariant_except_break
                step > 0,
                start <= cur <= end,
                end <= i128::MAX - step,
                full == values@ + spec_linear_from(cur as int, end as int, step as int),
                spec_strictly_increasing(values@),
                values@.len() > 0 ==> values@.last() < cur,
            ensures
                full == values@,
                spec_strictly_increasing(values@),
                values@.len() > 0,
            decreases end - cur,
        {
            proof {
                lemma_push_increasing(values@, cur);
            }
            values.push(cur);
            if cur + step > end {
                proof {
                    assert(spec_linear_from(cur + step as int, end as int, step as int)
                        =~= Seq::<i128>::empty());
                    assert(full =~= values@);
                }
                break;
            }
            cur = cur + step;
            proof {
                assert(full =~= values@ + spec_linear_from(cur as int, end as int, step as int));
            }
        }
        Buckets { values }
    }

    /// Creates exponential buckets `start, start * factor, ...` up to
    /// `end` (potentially inclusive), with the fixed-point `factor`.
    /// Generation stops early if fixed-point truncation stops making
    /// progress.
    pub fn exponential(start: i128, end: i128, factor: i128) -> (r: Buckets)
        requires
            start > 0,
            end > start,
            factor > FIXED_SCALE,
            (end as int) * (factor as int) <= i128::MAX as int,
        ensures
            r.values@ == spec_exponential_from(start as int, end as int, factor as int),
            r.well_formed(),
    {
        let ghost full = spec_exponential_from(start as int, end as int, factor as int);
        let mut values: Vec<i128> = Vec::new();
        let mut cur: i128 = start;
        loop
            invariant_except_break
                0 < cur <= end,
                factor > FIXED_SCALE,
                (end as int) * (factor as int) <= i128::MAX as int,
                full == values@ + spec_exponential_from(cur as int, end as int, factor as int),
                spec_strictly_increasing(values@),
                values@.len() > 0 ==> values@.last() < cur,
            ensures
                full == values@,
                spec_strictly_increasing(values@),
                values@.len() > 0,
            decreases end - cur,
        {
            proof {
                lemma_push_increasing(values@, cur);
            }
            values.push(cur);
            proof {
                assert(0 <= (cur as int) * (factor as int) <= (end as int) * (
                factor as int)) by (nonlinear_arith)
                    requires
                        0 < cur <= end,
                        factor > 0,
                ;
            }
            let prod: i128 = cur * factor;
            let next: i128 = prod / (FIXED_SCALE as i128);
            if cur < next && next <= end {
                cur = next;
                proof {
                    assert(full =~= values@ + spec_exponential_from(
                        cur as int,
                        end as int,
                        factor as int,
                    ));
                }
            } else {
                proof {
                    assert(full =~= values@);
                }
                break;
            }
        }
        Buckets { values }
    }

    /// Creates scaled buckets: each octave starts at a base (initially
    /// `start`), walks the products of the base with every harmonic
    /// factor but the last, and the next octave's base is the current
    /// base times the last factor; generation runs up to `end`
    /// (potentially inclusive). Values that fixed-point truncation fails
    /// to strictly increase are skipped.
    pub fn scaled(start: i128, end: i128, factors: &Vec<i128>) -> (r: Buckets)
        requires
            start > 0,
            start <= end,
            factors@.len() > 0,
            forall|i: int| 0 <= i < factors@.len() ==> #[trigger] factors@[i] > 0,
            forall|i: int|
                0 <= i < factors@.len() ==> (end as int) * (#[trigger] factors@[i] as int)
                    <= i128::MAX as int,
        ensures
            r.values@ == spec_scaled_from(start as int, end as int, factors@),
            r.well_formed(),
    {
        let ghost full = spec_scaled_from(start as int, end as int, factors@);
        let ghost ff = factors@.drop_last();
        let mut values: Vec<i128> = Vec::new();
        let mut base: i128 = start;
        loop
            invariant_except_break
                0 < base <= end,
                factors@.len() > 0,
                ff == factors@.drop_last(),
                forall|i: int| 0 <= i < factors@.len() ==> #[trigger] factors@[i] > 0,
                forall|i: int|
                    0 <= i < factors@.len() ==> (end as int) * (#[trigger] factors@[i] as int)
                        <= i128::MAX as int,
                full == values@ + spec_scaled_from(base as int, end as int, factors@),
                spec_strictly_increasing(values@),
                values@.len() > 0 ==> values@.last() < base,
            ensures
                full == values@,
                spec_strictly_increasing(values@),
                values@.len() > 0,
            decreases end - base,
        {
            let ghost len0 = values@.len() as int;
            let ghost values0 = values@;
            let ghost row_full = spec_scaled_row(base as int, end as int, ff, 0, base as int);
            proof {
                lemma_push_increasing(values@, base);
            }
            values.push(base);
            let mut prev: i128 = base;
            let mut i: usize = 0;
            proof {
                assert(values@.skip(len0) =~= seq![base]);
            }
            loop
                invariant_except_break
                    0 <= i <= ff.len(),
                    ff == factors@.drop_last(),
                    0 < base <= prev <= end,
                    factors@.len() > 0,
                    forall|k: int| 0 <= k < factors@.len() ==> #[trigger] factors@[k] > 0,
                    forall|k: int|
                        0 <= k < factors@.len() ==> (end as int) * (#[trigger] factors@[k] as int)
                            <= i128::MAX as int,
                    0 <= len0,
                    values@.len() > len0,
                    values@.take(len0) == values0,
                    seq![base] + row_full == values@.skip(len0) + spec_scaled_row(
                        base as int,
                        end as int,
                        ff,
                        i as int,
                        prev as int,
                    ),
                    spec_strictly_increasing(values@),
                    values@.last() == prev,
                ensures
                    values@.len() > len0,
                    values@.take(len0) == values0,
                    seq![base] + row_full == values@.skip(len0),
                    spec_strictly_increasing(values@),
                    values@.last() == prev,
                    0 < base <= prev <= end,
                decreases ff.len() - i,
            {
                if i >= factors.len() - 1 {
                    proof {
                        assert(spec_scaled_row(base as int, end as int, ff, i as int, prev as int)
                            =~= Seq::<i128>::empty());
                        assert(seq![base] + row_full =~= values@.skip(len0));
                    }
                    break;
                }
                let f = factors[i];
                proof {
                    assert(ff[i as int] == factors@[i as int]);
                    assert(0 <= (base as int) * (f as int) <= (end as int) * (
                    f as int)) by (nonlinear_arith)
                        requires
                            0 < base <= end,
                            f > 0,
                    ;
                }
                let v = (base * f) / (FIXED_SCALE as i128);
                if v > end {
                    proof {
                        assert(spec_scaled_row(base as int, end as int, ff, i as int, prev as int)
                            =~= Seq::<i128>::empty());
                        assert(seq![base] + row_full =~= values@.skip(len0));
                    }
                    break;
                }
                if v > prev {
                    proof {
                        lemma_push_increasing(values@, v);
                        assert(values@.push(v).take(len0) =~= values@.take(len0));
                        assert(values@.push(v).skip(len0) =~= values@.skip(len0).push(v));
                        assert(values@.skip(len0).push(v) =~= values@.skip(len0) + seq![v]);
                    }
                    values.push(v);
                    prev = v;
                }
                i += 1;
            }
            let lastf = factors[factors.len() - 1];
            proof {
                assert(factors@.last() == lastf);
                assert(0 <= (base as int) * (lastf as int) <= (end as int) * (
                lastf as int)) by (nonlinear_arith)
                    requires
                        0 < base <= end,
                        lastf > 0,
                ;
            }
            let next = (base * lastf) / (FIXED_SCALE as i128);
            proof {
                let row = seq![base as i128] + spec_scaled_row(
                    base as int,
                    end as int,
                    ff,
                    0,
                    base as int,
                );
                assert(values@.skip(len0) == row);
                assert(spec_last_or(row, base as int) == prev as int) by {
                    assert(row.last() == values@.last());
                }
            }
            if base < next && prev < next && next <= end {
                base = next;
                proof {
                    assert(full =~= values@ + spec_scaled_from(
                        base as int,
                        end as int,
                        factors@,
                    ));
                }
            } else {
                proof {
                    assert(full =~= values@);
                }
                break;
            }
        }
        Buckets { values }
    }

    /// Reflects every strictly positive boundary to its negation,
    /// prepending the reflections in ascending order. The smallest
    /// boundary must be non-negative.
    #[verifier::rlimit(50)]
    pub fn mirror(self) -> (r: Buckets)
        requires
            self.well_formed(),
            self.values@[0] >= 0,
        ensures
            r.values@ == spec_mirror(self.values@),
            r.well_formed(),
    {
        let ghost s = self.values@;
        let n = self.values.len();
        let count: usize = if self.values[0] == 0 {
            n - 1
        } else {
            n
        };
        let mut out: Vec<i128> = Vec::new();
        let mut i: usize = 0;
        while i < count
            invariant
                s == self.values@,
                self.well_formed(),
                s[0] >= 0,
                n == s.len(),
                count == if s[0] == 0 {
                    n - 1
                } else {
                    n as int
                },
                0 <= i <= count,
                out@ =~= Seq::new(i as nat, |k: int| (-s[s.len() - 1 - k]) as i128),
            decreases count - i,
        {
            proof {
                lemma_increasing_pairwise(s, 0, n - 1 - i);
                if s[0] == 0 {
                    assert(n - 1 - i >= 1);
                    lemma_increasing_pairwise(s, 1, n - 1 - i);
                    assert(s[0] < s[1]);
                }
                assert(s[n - 1 - i] > 0);
            }
            let v = self.values[n - 1 - i];
            out.push(-v);
            i += 1;
        }
        let mut j: usize = 0;
        while j < n
            invariant
                s == self.values@,
                n == s.len(),
                0 <= j <= n,
                out@ =~= Seq::new(count as nat, |k: int| (-s[s.len() - 1 - k]) as i128) + s.take(
                    j as int,
                ),
                count == if s[0] == 0 {
                    n - 1
                } else {
                    n as int
                },
            decreases n - j,
        {
            let v = self.values[j];
            out.push(v);
            j += 1;
        }
        proof {
            assert(s.take(n as int) =~= s);
            assert(out@ =~= spec_mirror(s));
            lemma_mirror_increasing(s);
        }
        Buckets { values: out }
    }

    /// Shifts every boundary by `offset`.
    pub fn bias(self, offset: i128) -> (r: Buckets)
        requires
            self.well_formed(),
            i128::MIN <= self.values@[0] + offset,
            self.values@.last() + offset <= i128::MAX,
        ensures
            r.values@ == Seq::new(self.values@.len(), |i: int| (self.values@[i] + offset) as i128),
            r.well_formed(),
    {
        let ghost s = self.values@;
        let n = self.values.len();
        let mut out: Vec<i128> = Vec::new();
        let mut i: usize = 0;
        while i < n
            invariant
                s == self.values@,
                self.well_formed(),
                n == s.len(),
                i128::MIN <= s[0] + offset,
                s.last() + offset <= i128::MAX,
                0 <= i <= n,
                out@ =~= Seq::new(i as nat, |k: int| (s[k] + offset) as i128),
            decreases n - i,
        {
            proof {
                lemma_increasing_pairwise(s, 0, i as int);
                lemma_increasing_pairwise(s, i as int, n - 1);
            }
            let v = self.values[i];
            out.push(v + offset);
            i += 1;
        }
        proof {
            assert forall|k: int| 0 <= k < out@.len() - 1 implies #[trigger] out@[k] < out@[k
                + 1] by {
                lemma_increasing_pairwise(s, 0, k);
                lemma_increasing_pairwise(s, k + 1, s.len() - 1);
                assert(s[k] < s[k + 1]);
                assert(i128::MIN <= s[k] + offset <= i128::MAX);
                assert(i128::MIN <= s[k + 1] + offset <= i128::MAX);
            }
        }
        Buckets { values: out }
    }

    /// Default bucket boundaries for latencies in seconds.
    pub fn latencies() -> (r: Buckets)
        ensures
            r.well_formed(),
            r.values@ =~= seq![
                1_000_000i128,
                5_000_000i128,
                25_000_000i128,
                100_000_000i128,
                250_000_000i128,
                1_000_000_000i128,
                5_000_000_000i128,
                30_000_000_000i128,
                120_000_000_000i128,
            ],
    {
        let mut values: Vec<i128> = Vec::new();
        values.push(1_000_000);
        values.push(5_000_000);
        values.push(25_000_000);
        values.push(100_000_000);
        values.push(250_000_000);
        values.push(1_000_000_000);
        values.push(5_000_000_000);
        values.push(30_000_000_000);
        values.push(120_000_000_000);
        proof {
            assert(spec_strictly_increasing(values@));
        }
        Buckets { values }
    }

    /// Linear buckets covering the open unit interval in steps of a tenth.
    pub fn zero_to_one() -> (r: Buckets)
        ensures
            r.well_formed(),
            r.values@ =~= seq![
                100_000_000i128,
                200_000_000i128,
                300_000_000i128,
                400_000_000i128,
                500_000_000i128,
                600_000_000i128,
                700_000_000i128,
                800_000_000i128,
                900_000_000i128,
            ],
    {
        let mut values: Vec<i128> = Vec::new();
        values.push(100_000_000);
        values.push(200_000_000);
        values.push(300_000_000);
        values.push(400_000_000);
        values.push(500_000_000);
        values.push(600_000_000);
        values.push(700_000_000);
        values.push(800_000_000);
        values.push(900_000_000);
        proof {
            assert(spec_strictly_increasing(values@));
        }
        Buckets { values }
    }
}

} // verus!
