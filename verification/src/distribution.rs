//! Distributions: the sorted observations of one quantity and the summary of them.
//!
//! Observations are whole billionths of the metric's unit. They are kept sorted, so a
//! distribution is a function of what was observed and not of when. A value that is no
//! number is not observed, and counted as refused.

use vstd::prelude::*;
use crate::quant::{quantised_real, real_of, real_of_is_the_quotient, rounded, rounded_is_monotone, rounded_multiple, Quantum, Real, NANO};
use crate::stats::needed;
use crate::wide::{of_at_most, WideSum};

verus! {

/// The rule by which a percentile between two observations is interpolated.
#[derive(Clone, Copy, Debug, PartialEq, Eq, Structural)]
pub enum Interpolation {
    /// Linear interpolation between the two neighbours, at `(n - 1) p`.
    Type7Linear,
}

impl Interpolation {
    /// The name of the rule as it appears in a table.
    pub open spec fn name(self) -> Seq<char> {
        "hyndman-fan-type-7-linear"@
    }

    /// The name of the rule as it appears in a table.
    pub fn as_str(self) -> (r: &'static str)
        ensures
            r@ == self.name(),
    {
        "hyndman-fan-type-7-linear"
    }
}

/// The percentiles a summary reports.
#[derive(Clone, Copy, Debug, PartialEq, Eq, Structural)]
pub enum Percentile {
    /// The median.
    P50,
    /// The ninety-fifth percentile.
    P95,
    /// The ninety-ninth percentile.
    P99,
}

/// A distribution reduced to its extremes, its mean and three percentiles, or a refusal.
#[derive(Clone, Copy, Debug, PartialEq, Eq, Structural)]
pub enum DistributionSummary {
    /// A summary.
    Summary {
        /// The number of observations.
        n: u64,
        /// The least observation.
        min: Real,
        /// The greatest observation.
        max: Real,
        /// The arithmetic mean.
        mean: Real,
        /// The median.
        p50: Real,
        /// The ninety-fifth percentile.
        p95: Real,
        /// The ninety-ninth percentile.
        p99: Real,
        /// How percentiles between two observations were interpolated.
        interpolation: Interpolation,
        /// Observations that were refused.
        rejected: u64,
    },
    /// Too few observations.
    Insufficient {
        /// The observations there were.
        n: u64,
        /// The observations that were asked for.
        required: u64,
    },
}

impl DistributionSummary {
    /// The mean, where there is one.
    pub fn mean(&self) -> (r: Option<Real>)
        ensures
            r == match *self {
                DistributionSummary::Summary { mean, .. } => Some(mean),
                DistributionSummary::Insufficient { .. } => None,
            },
    {
        match *self {
            DistributionSummary::Summary { mean, .. } => Some(mean),
            DistributionSummary::Insufficient { .. } => None,
        }
    }

    /// A percentile, where there is one.
    pub fn quantile(&self, p: Percentile) -> (r: Option<Real>)
        ensures
            r == match *self {
                DistributionSummary::Summary { p50, p95, p99, .. } => Some(
                    match p {
                        Percentile::P50 => p50,
                        Percentile::P95 => p95,
                        Percentile::P99 => p99,
                    },
                ),
                DistributionSummary::Insufficient { .. } => None,
            },
    {
        match *self {
            DistributionSummary::Summary { p50, p95, p99, .. } => Some(
                match p {
                    Percentile::P50 => p50,
                    Percentile::P95 => p95,
                    Percentile::P99 => p99,
                },
            ),
            DistributionSummary::Insufficient { .. } => None,
        }
    }

    /// The number of observations.
    pub open spec fn observations(self) -> u64 {
        match self {
            DistributionSummary::Summary { n, .. } => n,
            DistributionSummary::Insufficient { n, .. } => n,
        }
    }

    /// The number of observations.
    pub fn n(&self) -> (r: u64)
        ensures
            r == self.observations(),
    {
        match *self {
            DistributionSummary::Summary { n, .. } => n,
            DistributionSummary::Insufficient { n, .. } => n,
        }
    }

    /// True for a refusal.
    pub fn is_insufficient(&self) -> (r: bool)
        ensures
            r == (*self is Insufficient),
    {
        match *self {
            DistributionSummary::Summary { .. } => false,
            DistributionSummary::Insufficient { .. } => true,
        }
    }

    /// The summary with every number rounded onto a grid.
    pub open spec fn on(self, q: int) -> DistributionSummary {
        match self {
            DistributionSummary::Summary {
                n,
                min,
                max,
                mean,
                p50,
                p95,
                p99,
                interpolation,
                rejected,
            } => DistributionSummary::Summary {
                n,
                min: quantised_real(min, q),
                max: quantised_real(max, q),
                mean: quantised_real(mean, q),
                p50: quantised_real(p50, q),
                p95: quantised_real(p95, q),
                p99: quantised_real(p99, q),
                interpolation,
                rejected,
            },
            DistributionSummary::Insufficient { .. } => self,
        }
    }

    /// The summary with every number rounded onto the grid `q`.
    pub fn quantised(self, q: Quantum) -> (r: DistributionSummary)
        ensures
            r == self.on(q@),
    {
        match self {
            DistributionSummary::Summary {
                n,
                min,
                max,
                mean,
                p50,
                p95,
                p99,
                interpolation,
                rejected,
            } => DistributionSummary::Summary {
                n,
                min: q.quantise(min),
                max: q.quantise(max),
                mean: q.quantise(mean),
                p50: q.quantise(p50),
                p95: q.quantise(p95),
                p99: q.quantise(p99),
                interpolation,
                rejected,
            },
            DistributionSummary::Insufficient { n, required } => DistributionSummary::Insufficient {
                n,
                required,
            },
        }
    }
}

/// True if `s` does not decrease.
pub open spec fn ascending(s: Seq<i128>) -> bool {
    forall|i: int, j: int| 0 <= i <= j < s.len() ==> s[i] <= s[j]
}

/// Where `x` goes in the ascending sequence `s`: behind everything that is not greater.
pub open spec fn slot(s: Seq<i128>, x: i128) -> int
    decreases s.len(),
{
    if s.len() == 0 || s.last() <= x {
        s.len() as int
    } else {
        slot(s.drop_last(), x)
    }
}

/// The ascending sequence `s` with `x` put in its place.
pub open spec fn with_sample(s: Seq<i128>, x: i128) -> Seq<i128> {
    s.insert(slot(s, x), x)
}

proof fn slot_is(s: Seq<i128>, x: i128, p: int)
    requires
        0 <= p <= s.len(),
        p > 0 ==> s[p - 1] <= x,
        forall|i: int| p <= i < s.len() ==> x < s[i],
    ensures
        slot(s, x) == p,
    decreases s.len(),
{
    if p < s.len() {
        assert(x < s[s.len() - 1]);
        slot_is(s.drop_last(), x, p);
    }
}

proof fn slot_bounds(s: Seq<i128>, x: i128)
    ensures
        0 <= slot(s, x) <= s.len(),
        slot(s, x) > 0 ==> s[slot(s, x) - 1] <= x,
        forall|i: int| slot(s, x) <= i < s.len() ==> x < s[i],
    decreases s.len(),
{
    if s.len() > 0 && s.last() > x {
        slot_bounds(s.drop_last(), x);
        assert forall|i: int| slot(s, x) <= i < s.len() implies x < s[i] by {
            if i < s.len() - 1 {
                assert(s.drop_last()[i] == s[i]);
            }
        }
    }
}

/// A sample put in its place keeps the sequence ascending, and adds just that sample.
pub proof fn with_sample_is_sorted(s: Seq<i128>, x: i128)
    requires
        ascending(s),
    ensures
        ascending(with_sample(s, x)),
        with_sample(s, x).to_multiset() == s.to_multiset().insert(x),
{
    slot_bounds(s, x);
    let p = slot(s, x);
    let t = with_sample(s, x);
    assert forall|i: int, j: int| 0 <= i <= j < t.len() implies t[i] <= t[j] by {
        if i < p && p > 0 {
            assert(s[i] <= s[p - 1]);
        }
    }
    s.to_multiset_ensures();
    t.to_multiset_ensures();
    assert(t.remove(p) =~= s);
    assert(t.to_multiset().remove(x).insert(x) =~= t.to_multiset()) by {
        assert(t[p] == x);
        assert(t.to_multiset().count(x) > 0);
    }
}

/// Observing two values in either order gives the same distribution.
pub proof fn samples_commute(s: Seq<i128>, x: i128, y: i128)
    requires
        ascending(s),
    ensures
        with_sample(with_sample(s, x), y) == with_sample(with_sample(s, y), x),
{
    with_sample_is_sorted(s, x);
    with_sample_is_sorted(s, y);
    let a = with_sample(with_sample(s, x), y);
    let b = with_sample(with_sample(s, y), x);
    with_sample_is_sorted(with_sample(s, x), y);
    with_sample_is_sorted(with_sample(s, y), x);
    assert(a.to_multiset() =~= b.to_multiset());
    let leq = |p: i128, q: i128| p <= q;
    assert(vstd::relations::sorted_by(a, leq));
    assert(vstd::relations::sorted_by(b, leq));
    vstd::seq_lib::lemma_sorted_unique(a, b, leq);
}

/// The sum of `s`.
pub open spec fn total(s: Seq<i128>) -> int
    decreases s.len(),
{
    if s.len() == 0 {
        0
    } else {
        total(s.drop_last()) + s.last()
    }
}

/// The percentile `percent` of the ascending sequence `s`, in hundredths: at
/// `(n - 1) percent / 100`, interpolated linearly between the two neighbours.
pub open spec fn percentile_hundredths(s: Seq<i128>, percent: int) -> int {
    let h = (s.len() - 1) * percent;
    let lo = h / 100;
    let left = h % 100;
    let next = if left == 0 {
        lo
    } else {
        lo + 1
    };
    s[lo] * (100 - left) + s[next] * left
}

/// A percentile lies between its two neighbours, and moves from one to the other in
/// proportion.
pub proof fn percentile_between(s: Seq<i128>, percent: int)
    requires
        ascending(s),
        s.len() > 0,
        0 <= percent <= 100,
    ensures
        ({
            let h = (s.len() - 1) * percent;
            &&& 0 <= h / 100 < s.len()
            &&& h % 100 > 0 ==> h / 100 + 1 < s.len()
            &&& 100 * s[h / 100] <= percentile_hundredths(s, percent)
            &&& h % 100 > 0 ==> percentile_hundredths(s, percent) <= 100 * s[h / 100 + 1]
            &&& h % 100 == 0 ==> percentile_hundredths(s, percent) == 100 * s[h / 100]
            &&& h % 100 > 0 ==> percentile_hundredths(s, percent) == 100 * s[h / 100] + (h % 100)
                * (s[h / 100 + 1] - s[h / 100])
        }),
{
    let h = (s.len() - 1) * percent;
    assert(0 <= h <= 100 * (s.len() - 1)) by (nonlinear_arith)
        requires
            h == (s.len() - 1) * percent,
            s.len() > 0,
            0 <= percent <= 100,
    ;
    let left = h % 100;
    let a = s[h / 100] as int;
    if left > 0 {
        let b = s[h / 100 + 1] as int;
        assert(a <= b);
        assert(a * (100 - left) + b * left == 100 * a + left * (b - a)) by (nonlinear_arith);
        assert(0 <= left * (b - a) <= 100 * (b - a)) by (nonlinear_arith)
            requires
                0 <= left <= 100,
                a <= b,
        ;
    }
}

/// A higher percentile is no smaller a value: all of them lie between the least and the
/// greatest observation.
pub proof fn percentiles_are_in_order(s: Seq<i128>, p: int, q: int)
    requires
        ascending(s),
        s.len() > 0,
        0 <= p <= q <= 100,
    ensures
        100 * s[0] <= percentile_hundredths(s, p),
        percentile_hundredths(s, p) <= percentile_hundredths(s, q),
        percentile_hundredths(s, q) <= 100 * s.last(),
{
    percentile_between(s, p);
    percentile_between(s, q);
    let h = (s.len() - 1) * p;
    let k = (s.len() - 1) * q;
    assert(h <= k) by (nonlinear_arith)
        requires
            h == (s.len() - 1) * p,
            k == (s.len() - 1) * q,
            s.len() > 0,
            p <= q,
    ;
    if h / 100 == k / 100 {
        if h % 100 > 0 {
            let step = s[h / 100 + 1] - s[h / 100];
            assert((h % 100) * step <= (k % 100) * step) by (nonlinear_arith)
                requires
                    h % 100 <= k % 100,
                    step >= 0,
            ;
        }
    } else {
        assert(h / 100 + 1 <= k / 100);
        assert(s[h / 100 + 1] <= s[k / 100]);
        assert(s[h / 100] <= s[k / 100]);
    }
    assert(s[0] <= s[h / 100]);
    assert(s[k / 100] <= s[s.len() - 1]);
}

/// Of observations at even steps, a percentile is that part of the way from the first to the
/// last.
pub proof fn a_percentile_of_even_steps(first: int, step: int, n: nat, percent: int)
    requires
        n > 0,
        step >= 0,
        0 <= percent <= 100,
        i128::MIN <= first,
        first + (n - 1) * step <= i128::MAX,
    ensures
        percentile_hundredths(
            Seq::new(n, |i: int| (first + i * step) as i128),
            percent,
        ) == 100 * first + (n - 1) * step * percent,
{
    let s = Seq::new(n, |i: int| (first + i * step) as i128);
    assert forall|i: int| 0 <= i < n implies #[trigger] s[i] == first + i * step by {
        assert(0 <= i * step <= (n - 1) * step) by (nonlinear_arith)
            requires
                0 <= i <= n - 1,
                step >= 0,
        ;
    }
    assert forall|i: int, j: int| 0 <= i <= j < s.len() implies s[i] <= s[j] by {
        assert(i * step <= j * step) by (nonlinear_arith)
            requires
                i <= j,
                step >= 0,
        ;
    }
    percentile_between(s, percent);
    let h = (n - 1) * percent;
    let (lo, left) = (h / 100, h % 100);
    assert(h == 100 * lo + left);
    assert(100 * (lo * step) + left * step == (n - 1) * step * percent) by (nonlinear_arith)
        requires
            (n - 1) * percent == 100 * lo + left,
    ;
    if left > 0 {
        assert((lo + 1) * step - lo * step == step) by (nonlinear_arith);
        assert(left * (s[lo + 1] - s[lo]) == left * step);
    } else {
        assert(left * step == 0) by (nonlinear_arith)
            requires
                left == 0,
        ;
    }
}

/// The mean lies between the least and the greatest observation.
pub proof fn the_mean_is_within_the_range(s: Seq<i128>)
    requires
        ascending(s),
        s.len() > 0,
    ensures
        s.len() * s[0] <= total(s) <= s.len() * s.last(),
    decreases s.len(),
{
    let init = s.drop_last();
    let n = init.len() as int;
    if n > 0 {
        assert forall|i: int, j: int| 0 <= i <= j < init.len() implies init[i] <= init[j] by {
            assert(s[i] <= s[j]);
        }
        the_mean_is_within_the_range(init);
        assert(init[0] == s[0]);
        assert(init.last() == s[s.len() - 2]);
        assert(s[s.len() - 2] <= s[s.len() - 1]);
        assert(s[0] <= s[s.len() - 1]);
        assert(n * init.last() <= n * s.last()) by (nonlinear_arith)
            requires
                n > 0,
                init.last() <= s.last(),
        ;
        assert(s.len() * s[0] == n * s[0] + s[0]) by (nonlinear_arith)
            requires
                s.len() == n + 1,
        ;
        assert(s.len() * s.last() == n * s.last() + s.last()) by (nonlinear_arith)
            requires
                s.len() == n + 1,
        ;
    } else {
        assert(total(init) == 0);
        assert(s.len() * s[0] == s[0]) by (nonlinear_arith)
            requires
                s.len() == 1,
        ;
    }
}

/// The mean of `s`: the total over how many there are, or, where the total is too large for
/// a number, that in whole billionths.
pub open spec fn mean_of(s: Seq<i128>) -> Real {
    if i128::MIN <= total(s) <= i128::MAX {
        real_of(total(s), s.len() * NANO)
    } else {
        real_of(rounded(total(s), s.len() as int), NANO as int)
    }
}

/// The summary of the ascending observations `s`.
pub open spec fn summary_of(s: Seq<i128>, rejected: u64, min_samples: u64) -> DistributionSummary {
    if s.len() < needed(min_samples) {
        DistributionSummary::Insufficient { n: s.len() as u64, required: needed(min_samples) }
    } else {
        DistributionSummary::Summary {
            n: s.len() as u64,
            min: real_of(s[0] as int, NANO as int),
            max: real_of(s.last() as int, NANO as int),
            mean: mean_of(s),
            p50: real_of(percentile_hundredths(s, 50), 100 * NANO),
            p95: real_of(percentile_hundredths(s, 95), 100 * NANO),
            p99: real_of(percentile_hundredths(s, 99), 100 * NANO),
            interpolation: Interpolation::Type7Linear,
            rejected,
        }
    }
}

/// What a summary says of its observations: how many there are; the least and the greatest of
/// them; a mean that, times their number, is their sum; and the three percentiles. Below the
/// number that is asked for, or without any, it says only how many there are.
pub proof fn a_summary_says_what_was_observed(o: Observed, least: u64)
    requires
        ascending(o.samples),
        forall|i: int| 0 <= i < o.samples.len() ==> -MAX_SAMPLE <= #[trigger] o.samples[i] <= MAX_SAMPLE,
        o.samples.len() <= u64::MAX,
        i128::MIN <= total(o.samples) <= i128::MAX,
    ensures
        ({
            let s = o.samples;
            let asked = if least == 0 {
                1u64
            } else {
                least
            };
            match o.summary(least) {
                DistributionSummary::Insufficient { n, required } => s.len() < asked && n == s.len()
                    && required == asked,
                DistributionSummary::Summary { n, min, max, mean, p50, p95, p99, rejected, .. } => {
                    &&& s.len() >= asked && n == s.len() && rejected == o.rejected
                    &&& min@.den == 1_000_000_000 && s.contains(min@.num as i128)
                    &&& max@.den == 1_000_000_000 && s.contains(max@.num as i128)
                    &&& forall|i: int| 0 <= i < s.len() ==> min@.num <= #[trigger] s[i] <= max@.num
                    &&& mean@.num * (s.len() * 1_000_000_000) == total(s) * mean@.den
                    &&& mean@.den > 0
                    &&& p50@.den == 100_000_000_000 && p50@.num == percentile_hundredths(s, 50)
                    &&& p95@.den == 100_000_000_000 && p95@.num == percentile_hundredths(s, 95)
                    &&& p99@.den == 100_000_000_000 && p99@.num == percentile_hundredths(s, 99)
                },
            }
        }),
{
    let s = o.samples;
    if s.len() > 0 {
        real_of_is_the_quotient(s[0] as int, 1_000_000_000);
        real_of_is_the_quotient(s.last() as int, 1_000_000_000);
        assert(s[0] == s[0] && s[s.len() - 1] == s.last());
        let n = s.len() as int;
        assert(0 < n * 1_000_000_000 <= 0xffff_ffff_ffff_ffff * 1_000_000_000);
        real_of_is_the_quotient(total(s), n * 1_000_000_000);
        percentiles_are_in_order(s, 50, 95);
        percentiles_are_in_order(s, 95, 99);
        real_of_is_the_quotient(percentile_hundredths(s, 50), 100_000_000_000);
        real_of_is_the_quotient(percentile_hundredths(s, 95), 100_000_000_000);
        real_of_is_the_quotient(percentile_hundredths(s, 99), 100_000_000_000);
    }
}

/// The largest term of a quotient that can be observed: two to the power of ninety.
pub const MAX_TERM: i128 = 1237940039285380274899124224;

/// The largest observation, in billionths: that of the largest term.
pub const MAX_SAMPLE: i128 = 1237940039285380274899124224000000000;

/// The observations of one quantity.
#[derive(Debug)]
pub struct Distribution {
    samples: Vec<i128>,
    rejected: u64,
}

/// What a [`Distribution`] holds: its observations in ascending order, and how many were
/// refused.
#[verifier::ext_equal]
pub ghost struct Observed {
    pub samples: Seq<i128>,
    pub rejected: u64,
}

/// Nothing observed yet.
pub open spec fn nothing_observed() -> Observed {
    Observed { samples: Seq::empty(), rejected: 0 }
}

impl Observed {
    /// After one more observation.
    pub open spec fn and(self, x: i128) -> Observed {
        Observed { samples: with_sample(self.samples, x), rejected: self.rejected }
    }

    /// After one more observation of `num / den`, rounded to billionths.
    pub open spec fn and_quotient(self, num: int, den: int) -> Observed {
        self.and(rounded(num * NANO, den) as i128)
    }

    /// After one more value that is no number.
    pub open spec fn and_refusal(self) -> Observed {
        Observed { samples: self.samples, rejected: (self.rejected + 1) as u64 }
    }

    /// The summary of what was observed.
    pub open spec fn summary(self, min_samples: u64) -> DistributionSummary {
        summary_of(self.samples, self.rejected, min_samples)
    }
}

impl View for Distribution {
    type V = Observed;

    closed spec fn view(&self) -> Observed {
        Observed { samples: self.samples@, rejected: self.rejected }
    }
}

/// True if every observation is within the range.
spec fn in_range(s: Seq<i128>) -> bool {
    forall|i: int| 0 <= i < s.len() ==> -MAX_SAMPLE <= #[trigger] s[i] <= MAX_SAMPLE
}

proof fn total_bounds(s: Seq<i128>)
    requires
        in_range(s),
    ensures
        -MAX_SAMPLE * s.len() <= total(s) <= MAX_SAMPLE * s.len(),
    decreases s.len(),
{
    if s.len() > 0 {
        let init = s.drop_last();
        assert forall|i: int| 0 <= i < init.len() implies -MAX_SAMPLE <= #[trigger] init[i]
            <= MAX_SAMPLE by {
            assert(init[i] == s[i]);
        }
        total_bounds(init);
        assert(-MAX_SAMPLE <= s[s.len() - 1] <= MAX_SAMPLE);
        assert(MAX_SAMPLE * s.len() == MAX_SAMPLE * init.len() + MAX_SAMPLE) by (nonlinear_arith)
            requires
                s.len() == init.len() + 1,
        ;
        assert(-MAX_SAMPLE * s.len() == -MAX_SAMPLE * init.len() - MAX_SAMPLE) by (nonlinear_arith)
            requires
                s.len() == init.len() + 1,
        ;
    } else {
        assert(MAX_SAMPLE * s.len() == 0) by (nonlinear_arith)
            requires
                s.len() == 0,
        ;
        assert(-MAX_SAMPLE * s.len() == 0) by (nonlinear_arith)
            requires
                s.len() == 0,
        ;
    }
}

proof fn totals_are_few(s: Seq<i128>)
    requires
        in_range(s),
        s.len() <= usize::MAX,
    ensures
        of_at_most(total(s), 0x7fff_ffff_ffff_ffff),
{
    total_bounds(s);
    let n = s.len() as int;
    assert(MAX_SAMPLE * n <= MAX_SAMPLE * 0xffff_ffff_ffff_ffff) by (nonlinear_arith)
        requires
            0 <= n <= 0xffff_ffff_ffff_ffff,
    ;
    assert(-MAX_SAMPLE * n >= -MAX_SAMPLE * 0xffff_ffff_ffff_ffff) by (nonlinear_arith)
        requires
            0 <= n <= 0xffff_ffff_ffff_ffff,
    ;
}

impl Distribution {
    #[verifier::type_invariant]
    spec fn sorted(self) -> bool {
        ascending(self.samples@) && in_range(self.samples@)
    }

    /// Nothing observed yet.
    pub fn new() -> (r: Distribution)
        ensures
            r@ == nothing_observed(),
    {
        Distribution { samples: Vec::new(), rejected: 0 }
    }

    /// The number of observations; they stand in ascending order.
    pub fn len(&self) -> (n: usize)
        ensures
            n == self@.samples.len(),
            ascending(self@.samples),
    {
        proof {
            use_type_invariant(self);
        }
        self.samples.len()
    }

    /// How many observations were refused.
    pub fn rejected(&self) -> (n: u64)
        ensures
            n == self@.rejected,
    {
        self.rejected
    }

    /// Takes one observation, in billionths.
    pub fn observe(&mut self, x: i128)
        requires
            -MAX_SAMPLE <= x <= MAX_SAMPLE,
        ensures
            final(self)@ == old(self)@.and(x),
    {
        proof {
            use_type_invariant(&*self);
        }
        let mut taken = Distribution::new();
        core::mem::swap(self, &mut taken);
        let Distribution { mut samples, rejected } = taken;
        let ghost before = samples@;
        let mut lo: usize = 0;
        let mut hi: usize = samples.len();
        while lo < hi
            invariant
                lo <= hi <= samples.len(),
                samples@ == before,
                ascending(before),
                in_range(before),
                forall|i: int| 0 <= i < lo ==> before[i] <= x,
                forall|i: int| hi <= i < before.len() ==> x < before[i],
            decreases hi - lo,
        {
            let mid: usize = lo + (hi - lo) / 2;
            if samples[mid] <= x {
                lo = mid + 1;
            } else {
                hi = mid;
            }
        }
        samples.insert(lo, x);
        proof {
            slot_is(before, x, lo as int);
            with_sample_is_sorted(before, x);
            assert forall|i: int| 0 <= i < samples@.len() implies -MAX_SAMPLE <= #[trigger] samples@[i]
                <= MAX_SAMPLE by {
                if i < lo {
                    assert(samples@[i] == before[i]);
                } else if i > lo {
                    assert(samples@[i] == before[i - 1]);
                }
            }
        }
        *self = Distribution { samples, rejected };
    }

    /// Takes one observation of `num / den`, rounded to billionths.
    pub fn observe_quotient(&mut self, num: i128, den: u128)
        requires
            0 < den <= MAX_TERM,
            -MAX_TERM <= num <= MAX_TERM,
        ensures
            final(self)@ == old(self)@.and_quotient(num as int, den as int),
    {
        let negative: bool = num < 0;
        let m: u128 = if negative {
            (-num) as u128
        } else {
            num as u128
        };
        let a: u128 = m * 1_000_000_000;
        let q: u128 = (2 * a + den) / (2 * den);
        proof {
            assert(2 * a + den <= (2 * a + 1) * den) by (nonlinear_arith)
                requires
                    den >= 1,
                    a >= 0,
            ;
            assert(q <= a) by (nonlinear_arith)
                requires
                    q == (2 * a + den) / (2 * den),
                    2 * a + den <= (2 * a + 1) * den,
                    den >= 1,
            ;
        }
        if negative {
            self.observe(-(q as i128));
        } else {
            self.observe(q as i128);
        }
    }

    /// Counts a value that is no number.
    pub fn refuse(&mut self)
        requires
            old(self)@.rejected < u64::MAX,
        ensures
            final(self)@ == old(self)@.and_refusal(),
    {
        proof {
            use_type_invariant(&*self);
        }
        let mut taken = Distribution::new();
        core::mem::swap(self, &mut taken);
        let Distribution { samples, rejected } = taken;
        *self = Distribution { samples, rejected: rejected + 1 };
    }

    /// Empties the distribution, and hands back what it held.
    pub fn drain(&mut self) -> (r: Distribution)
        ensures
            r@ == old(self)@,
            final(self)@ == nothing_observed(),
    {
        let mut taken = Distribution::new();
        core::mem::swap(self, &mut taken);
        taken
    }

    fn sum(&self) -> (r: WideSum)
        ensures
            r@ == total(self@.samples),
            of_at_most(r@, 0x7fff_ffff_ffff_ffff),
    {
        proof {
            use_type_invariant(self);
        }
        let mut acc = WideSum::new();
        let mut i: usize = 0;
        while i < self.samples.len()
            invariant
                i <= self.samples@.len(),
                in_range(self.samples@),
                acc@ == total(self.samples@.subrange(0, i as int)),
            decreases self.samples@.len() - i,
        {
            proof {
                let part = self.samples@.subrange(0, i as int);
                assert(in_range(part));
                totals_are_few(part);
                assert(self.samples@.subrange(0, i as int + 1).drop_last() =~= part);
            }
            acc = acc.plus(self.samples[i]);
            i = i + 1;
        }
        assert(self.samples@.subrange(0, i as int) =~= self.samples@);
        proof {
            totals_are_few(self.samples@);
        }
        acc
    }

    fn mean(&self) -> (r: Real)
        requires
            self@.samples.len() > 0,
        ensures
            r == mean_of(self@.samples),
    {
        let n: usize = self.samples.len();
        let sum = self.sum();
        assert(n * NANO <= 0xffff_ffff_ffff_ffff * 1_000_000_000) by (nonlinear_arith)
            requires
                n <= 0xffff_ffff_ffff_ffff,
                NANO == 1_000_000_000,
        ;
        if sum.fits() {
            Real::new(sum.fit(), (n as u128) * 1_000_000_000)
        } else {
            proof {
                use_type_invariant(self);
                total_bounds(self.samples@);
                let t = total(self.samples@);
                let m = n as int;
                assert(-MAX_SAMPLE * m <= t <= MAX_SAMPLE * m);
                assert(t * 1 <= MAX_SAMPLE * m);
                rounded_is_monotone(t, m, MAX_SAMPLE as int, 1);
                rounded_is_monotone(-MAX_SAMPLE, 1, t, m);
                rounded_multiple(MAX_SAMPLE as int, 1);
                rounded_multiple(-MAX_SAMPLE, 1);
            }
            Real::new(sum.over(n as u64), 1_000_000_000)
        }
    }

    fn percentile(&self, percent: u8) -> (r: Real)
        requires
            self@.samples.len() > 0,
            percent <= 100,
        ensures
            r == real_of(percentile_hundredths(self@.samples, percent as int), 100 * NANO),
    {
        let n: u128 = self.samples.len() as u128;
        assert(0 <= (n - 1) * percent <= (n - 1) * 100) by (nonlinear_arith)
            requires
                n >= 1,
                percent <= 100,
        ;
        let h: u128 = (n - 1) * (percent as u128);
        let lo: usize = (h / 100) as usize;
        let left: i128 = (h % 100) as i128;
        let next: usize = if left == 0 {
            lo
        } else {
            lo + 1
        };
        assert(left != 0 ==> lo + 1 < n) by {
            assert(h <= (n - 1) * 100);
        }
        let a: i128 = self.samples[lo];
        let b: i128 = self.samples[next];
        proof {
            use_type_invariant(self);
            assert(-MAX_SAMPLE * (100 - left) <= a * (100 - left) <= MAX_SAMPLE * (100 - left))
                by (nonlinear_arith)
                requires
                    -MAX_SAMPLE <= a <= MAX_SAMPLE,
                    0 <= left < 100,
            ;
            assert(-MAX_SAMPLE * left <= b * left <= MAX_SAMPLE * left) by (nonlinear_arith)
                requires
                    -MAX_SAMPLE <= b <= MAX_SAMPLE,
                    0 <= left < 100,
            ;
            assert(MAX_SAMPLE * (100 - left) + MAX_SAMPLE * left == MAX_SAMPLE * 100)
                by (nonlinear_arith);
        }
        Real::new(a * (100 - left) + b * left, 100_000_000_000)
    }

    /// The summary of the observations, or a refusal below `min_samples` of them.
    pub fn summary(&self, min_samples: u64) -> (r: DistributionSummary)
        ensures
            r == self@.summary(min_samples),
    {
        let n: usize = self.samples.len();
        let required: u64 = if min_samples == 0 {
            1
        } else {
            min_samples
        };
        if (n as u64) < required {
            DistributionSummary::Insufficient { n: n as u64, required }
        } else {
            DistributionSummary::Summary {
                n: n as u64,
                min: Real::new(self.samples[0], 1_000_000_000),
                max: Real::new(self.samples[n - 1], 1_000_000_000),
                mean: self.mean(),
                p50: self.percentile(50),
                p95: self.percentile(95),
                p99: self.percentile(99),
                interpolation: Interpolation::Type7Linear,
                rejected: self.rejected,
            }
        }
    }
}

} // verus!
