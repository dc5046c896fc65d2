//! What it means for a count, an amount or a distribution to grow.
//!
//! The laws of the providers are stated in these words: which counters one record raises and
//! by how much, and what stays as it was.

use vstd::prelude::*;
use crate::distribution::{total, with_sample, Observed, MAX_TERM};
use crate::def::SampleValue;
use crate::quant::{quantised_real, real_of, real_of_is_the_quotient, rounded, rounded_is_monotone, rounded_is_nearest, rounded_multiple, Real, MAX_DEN, NANO};
use crate::stats::{proportion_of, whole_sums_ratio, ConfidenceLevel, Counts, Estimate, RatioEstimate};
use crate::tally::amount;

verus! {

/// True if `x` billionths are as near to `num / den` as any other number of them.
pub open spec fn nearest_billionth(x: int, num: int, den: int) -> bool {
    -den <= 2 * (x * den - num * 1_000_000_000) <= den
}

/// True if `after` is `before` with one more observation, of `num / den`.
pub open spec fn gained(before: Observed, after: Observed, num: int, den: int) -> bool {
    &&& after.rejected == before.rejected
    &&& after.samples.len() == before.samples.len() + 1
    &&& exists|x: i128| #[trigger]
        nearest_billionth(x as int, num, den) && after.samples.to_multiset()
            == before.samples.to_multiset().insert(x)
}

/// True if `after` is `before` with `n` more for `k`, and the same for every other key.
pub open spec fn raised<R>(before: Map<R, u64>, after: Map<R, u64>, k: R, n: int) -> bool {
    &&& after.contains_key(k)
    &&& amount(after, k) == amount(before, k) + n
    &&& forall|r: R| r != k ==> (#[trigger] after.contains_key(r) <==> before.contains_key(r))
    &&& forall|r: R| r != k ==> #[trigger] amount(after, r) == amount(before, r)
}

/// True if `after` is `before` with one more trial.
pub open spec fn tried(before: Counts, after: Counts, success: bool) -> bool {
    &&& after.trials == before.trials + 1
    &&& success ==> after.successes == before.successes + 1
    &&& !success ==> after.successes == before.successes
}

/// An observation of a quotient is kept to the nearest billionth, and the observations
/// before it are kept too.
pub proof fn an_observation_is_kept(o: Observed, num: int, den: int)
    requires
        0 < den <= MAX_TERM,
        -MAX_TERM <= num <= MAX_TERM,
    ensures
        gained(o, o.and_quotient(num, den), num, den),
{
    broadcast use vstd::seq_lib::group_to_multiset_ensures;

    let x = rounded(num * NANO, den);
    rounded_is_nearest(num * NANO, den);
    let top = MAX_TERM * NANO;
    assert((num * NANO) * 1 <= top * den) by (nonlinear_arith)
        requires
            num <= MAX_TERM,
            den >= 1,
            top == MAX_TERM * NANO,
            MAX_TERM > 0,
            NANO == 1_000_000_000,
    ;
    assert(-top * den <= (num * NANO) * 1) by (nonlinear_arith)
        requires
            -MAX_TERM <= num,
            den >= 1,
            top == MAX_TERM * NANO,
            MAX_TERM > 0,
            NANO == 1_000_000_000,
    ;
    rounded_is_monotone(num * NANO, den, top, 1);
    rounded_is_monotone(-top, 1, num * NANO, den);
    rounded_multiple(top, 1);
    rounded_multiple(-top, 1);
    assert(i128::MIN <= x <= i128::MAX);
    let y = x as i128;
    let after = o.and_quotient(num, den);
    assert(nearest_billionth(y as int, num, den));
    sample_is_inserted(o.samples, y);
    assert(after.samples == with_sample(o.samples, y));
}

proof fn sample_is_inserted(s: Seq<i128>, x: i128)
    ensures
        with_sample(s, x).len() == s.len() + 1,
        with_sample(s, x).to_multiset() == s.to_multiset().insert(x),
{
    broadcast use vstd::seq_lib::group_to_multiset_ensures;

    slot_in_range(s, x);
    let p = crate::distribution::slot(s, x);
    let t = with_sample(s, x);
    assert(t.remove(p) =~= s);
    s.to_multiset_ensures();
    t.to_multiset_ensures();
    assert(t[p] == x);
    assert(t.to_multiset().count(x) > 0);
    assert(t.to_multiset().remove(x).insert(x) =~= t.to_multiset());
}

proof fn slot_in_range(s: Seq<i128>, x: i128)
    ensures
        0 <= crate::distribution::slot(s, x) <= s.len(),
    decreases s.len(),
{
    if s.len() > 0 {
        slot_in_range(s.drop_last(), x);
    }
}

/// A sample that is put in its place adds itself to the total.
pub proof fn a_sample_adds_to_the_total(s: Seq<i128>, x: i128)
    ensures
        total(with_sample(s, x)) == total(s) + x,
        with_sample(s, x).len() == s.len() + 1,
{
    slot_in_range(s, x);
    total_after_insert(s, crate::distribution::slot(s, x), x);
}

proof fn total_after_insert(s: Seq<i128>, p: int, x: i128)
    requires
        0 <= p <= s.len(),
    ensures
        total(s.insert(p, x)) == total(s) + x,
    decreases s.len(),
{
    let t = s.insert(p, x);
    if p == s.len() {
        assert(t.drop_last() =~= s);
    } else {
        assert(t.drop_last() =~= s.drop_last().insert(p, x));
        assert(t.last() == s.last());
        total_after_insert(s.drop_last(), p, x);
    }
}

/// True if a number is `num / den` to the nearest point of a grid.
pub open spec fn reads(x: Real, num: int, den: int, per_unit: int) -> bool {
    &&& x@.den == per_unit
    &&& -den <= 2 * (x@.num * den - num * per_unit) <= den
}

/// True if a value says what share `successes` of `trials` is, to the nearest point of a
/// grid, with the coverage that an interval around it is to have; or refuses to, where there
/// is no trial or where fewer observations than `least`, or none, are independent of one
/// another.
pub open spec fn says_share(
    v: SampleValue,
    successes: u64,
    trials: u64,
    independent: u64,
    least: u64,
    per_unit: int,
    level: ConfidenceLevel,
) -> bool {
    if trials == 0 || independent == 0 || independent < least {
        v.refused()
    } else {
        match v {
            SampleValue::Ratio(
                RatioEstimate::Proportion { point, level: l, successes: s, trials: t, effective, .. },
            ) => l == level && s == successes && t == trials && effective == independent && reads(
                point,
                successes as int,
                trials as int,
                per_unit,
            ),
            _ => false,
        }
    }
}

/// True if a value says what `num / den` is, to the nearest point of a grid, on `n`
/// observations.
pub open spec fn says_number(v: SampleValue, num: int, den: int, n: u64, per_unit: int) -> bool {
    v matches SampleValue::Scalar(Estimate::Value { point, n: m }) && m == n && reads(
        point,
        num,
        den,
        per_unit,
    )
}

/// A quotient is rounded to the nearest point of a grid.
pub proof fn a_quotient_is_read(num: int, den: int, per_unit: int)
    requires
        0 < den <= MAX_DEN,
        0 < per_unit <= 1_000_000,
        i128::MIN <= num <= i128::MAX,
        i128::MIN <= rounded(num * per_unit, den) <= i128::MAX,
    ensures
        reads(quantised_real(real_of(num, den), per_unit), num, den, per_unit),
{
    real_of_is_the_quotient(num, den);
    rounded_is_nearest(num * per_unit, den);
    real_of_is_the_quotient(rounded(num * per_unit, den), per_unit);
}

/// A small quotient, on any grid, is one that a number holds.
pub proof fn a_small_quotient_fits(num: int, den: int, per_unit: int)
    requires
        0 < den,
        0 < per_unit <= 1_000_000,
        -0x1_0000_0000_0000_0000_0000_0000int <= num <= 0x1_0000_0000_0000_0000_0000_0000int,
    ensures
        i128::MIN <= rounded(num * per_unit, den) <= i128::MAX,
{
    let top = 0x1_0000_0000_0000_0000_0000_0000int * 1_000_000;
    let a = num * per_unit;
    assert(-top <= a <= top) by (nonlinear_arith)
        requires
            a == num * per_unit,
            0 < per_unit <= 1_000_000,
            -0x1_0000_0000_0000_0000_0000_0000int <= num <= 0x1_0000_0000_0000_0000_0000_0000int,
            top == 0x1_0000_0000_0000_0000_0000_0000int * 1_000_000,
    ;
    assert(a * 1 <= top * den && -top * den <= a * 1) by (nonlinear_arith)
        requires
            -top <= a <= top,
            den >= 1,
            top > 0,
    ;
    rounded_is_monotone(a, den, top, 1);
    rounded_is_monotone(-top, 1, a, den);
    rounded_multiple(top, 1);
    rounded_multiple(-top, 1);
}

/// A larger one does, too, on a grid of ten thousand points at most.
pub proof fn a_large_quotient_fits(num: int, den: int, per_unit: int)
    requires
        0 < den,
        0 < per_unit <= 10_000,
        -0x1_0000_0000_0000_0000_0000_0000_0000int <= num
            <= 0x1_0000_0000_0000_0000_0000_0000_0000int,
    ensures
        i128::MIN <= rounded(num * per_unit, den) <= i128::MAX,
{
    let top = 0x1_0000_0000_0000_0000_0000_0000_0000int * 10_000;
    let a = num * per_unit;
    assert(-top <= a <= top) by (nonlinear_arith)
        requires
            a == num * per_unit,
            0 < per_unit <= 10_000,
            -0x1_0000_0000_0000_0000_0000_0000_0000int <= num
                <= 0x1_0000_0000_0000_0000_0000_0000_0000int,
            top == 0x1_0000_0000_0000_0000_0000_0000_0000int * 10_000,
    ;
    assert(a * 1 <= top * den && -top * den <= a * 1) by (nonlinear_arith)
        requires
            -top <= a <= top,
            den >= 1,
            top > 0,
    ;
    rounded_is_monotone(a, den, top, 1);
    rounded_is_monotone(-top, 1, a, den);
    rounded_multiple(top, 1);
    rounded_multiple(-top, 1);
}

/// A proportion says what share the successes are of the trials.
pub proof fn a_proportion_says_its_share(
    successes: u64,
    trials: u64,
    independent: u64,
    least: u64,
    level: ConfidenceLevel,
    per_unit: int,
)
    requires
        0 < per_unit <= 1_000_000,
    ensures
        says_share(
            SampleValue::Ratio(proportion_of(successes, trials, independent, least, level)).on(
                per_unit,
            ),
            successes,
            trials,
            independent,
            least,
            per_unit,
            level,
        ),
{
    if trials > 0 {
        a_small_quotient_fits(successes as int, trials as int, per_unit);
        a_quotient_is_read(successes as int, trials as int, per_unit);
    }
}

/// True if a value says what one sum is over another, to the nearest point of a grid; or
/// refuses to, where there is nothing to divide by or nothing was observed.
pub open spec fn says_ratio(v: SampleValue, num: u64, den: u64, n: u64, per_unit: int) -> bool {
    if den == 0 || n == 0 {
        v.refused()
    } else {
        match v {
            SampleValue::Ratio(
                RatioEstimate::RatioOfSums { point, numerator, denominator, n: m },
            ) => {
                &&& m == n
                &&& reads(point, num as int, den as int, per_unit)
                &&& numerator@.den == 1_000 && numerator@.num == 1_000 * num
                &&& denominator@.den == 1_000 && denominator@.num == 1_000 * den
            },
            _ => false,
        }
    }
}

/// A ratio of two whole sums says what one is over the other.
pub proof fn a_ratio_says_its_quotient(num: u64, den: u64, n: u64, per_unit: int)
    requires
        0 < per_unit <= 1_000_000,
    ensures
        says_ratio(
            SampleValue::Ratio(whole_sums_ratio(num, den, n, 1)).on(per_unit),
            num,
            den,
            n,
            per_unit,
        ),
{
    if den > 0 {
        a_small_quotient_fits(num as int, den as int, per_unit);
        a_quotient_is_read(num as int, den as int, per_unit);
        real_of_is_the_quotient(num as int, 1);
        real_of_is_the_quotient(den as int, 1);
        rounded_multiple(num * 1_000, 1);
        rounded_multiple(den * 1_000, 1);
        real_of_is_the_quotient(num * 1_000, 1_000);
        real_of_is_the_quotient(den * 1_000, 1_000);
    }
}

} // verus!
