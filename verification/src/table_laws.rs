//! What a sample and the rows of the tables say of the numbers that they are made from.

use vstd::prelude::*;
use crate::arrow_out::{matrix_row, row_of, table_row, table_rows, MatrixEntry, RowView};
use crate::basic::SimTime;
use crate::def::{sample_of, DefView, DimList, SampleValue, SampleView};
use crate::detection::{Cell, ConfusionMatrix};
use crate::distribution::DistributionSummary;
use crate::error::ErrorView;
use crate::gains::{a_quotient_is_read, a_small_quotient_fits, reads};
use crate::quant::{index_of, quantised_real, real_of_is_the_quotient, rounded, rounded_is_nearest, rounded_multiple, Real};
use crate::stats::{ConfidenceLevel, Estimate, Interval, RatioEstimate};

verus! {

/// True if a number is small enough for the grid of `per_unit` points per unit.
pub open spec fn fits(x: Real, per_unit: int) -> bool {
    &&& x@.den > 0
    &&& i64::MIN <= rounded(x@.num * per_unit, x@.den) <= i64::MAX
}

/// True if `y` is the point nearest to `x` on the grid of `per_unit` points per unit, for an
/// `x` that is not too large for it.
pub open spec fn put_on(y: Real, x: Real, per_unit: int) -> bool {
    fits(x, per_unit) ==> reads(y, x@.num, x@.den, per_unit)
}

proof fn quantised_is_put_on(x: Real, per_unit: int)
    requires
        0 < per_unit <= 1_000_000,
    ensures
        put_on(quantised_real(x, per_unit), x, per_unit),
{
    if fits(x, per_unit) {
        rounded_is_nearest(x@.num * per_unit, x@.den);
        real_of_is_the_quotient(index_of(x@, per_unit), per_unit);
    }
}

/// True if one value says what another says, with each number at the nearest point of its
/// grid: the metric's for what is measured, millionths for the bounds of an interval, and
/// thousandths for the sums of a ratio.
pub open spec fn says_on_grid(v: SampleValue, w: SampleValue, k: int) -> bool {
    match (v, w) {
        (
            SampleValue::Scalar(Estimate::Value { point: x, n }),
            SampleValue::Scalar(Estimate::Value { point: y, n: m }),
        ) => n == m && put_on(y, x, k),
        (
            SampleValue::Ratio(
                RatioEstimate::Proportion { point: x, interval: i, level: l, successes: s, trials: t, effective: e },
            ),
            SampleValue::Ratio(
                RatioEstimate::Proportion { point: y, interval: j, level: m, successes: u, trials: r, effective: f },
            ),
        ) => {
            &&& l == m && s == u && t == r && e == f
            &&& put_on(y, x, k)
            &&& i is Some <==> j is Some
            &&& i is Some ==> put_on(j->0.lo, i->0.lo, 1_000_000) && put_on(
                j->0.hi,
                i->0.hi,
                1_000_000,
            )
        },
        (
            SampleValue::Ratio(
                RatioEstimate::RatioOfSums { point: x, numerator: a, denominator: b, n },
            ),
            SampleValue::Ratio(
                RatioEstimate::RatioOfSums { point: y, numerator: c, denominator: d, n: m },
            ),
        ) => n == m && put_on(y, x, k) && put_on(c, a, 1_000) && put_on(d, b, 1_000),
        (
            SampleValue::Distribution(
                DistributionSummary::Summary { n, min, max, mean, p50, p95, p99, interpolation, rejected },
            ),
            SampleValue::Distribution(
                DistributionSummary::Summary {
                    n: m,
                    min: min1,
                    max: max1,
                    mean: mean1,
                    p50: q50,
                    p95: q95,
                    p99: q99,
                    interpolation: kind,
                    rejected: r,
                },
            ),
        ) => {
            &&& n == m && interpolation == kind && rejected == r
            &&& put_on(min1, min, k) && put_on(max1, max, k) && put_on(mean1, mean, k)
            &&& put_on(q50, p50, k) && put_on(q95, p95, k) && put_on(q99, p99, k)
        },
        _ => v == w && (v.refused() || v is Count),
    }
}

/// A sample is of its definition, at its instant, and says the value that it was made from,
/// each number at the nearest point of its grid.
pub proof fn a_sample_says_its_value(def: DefView, t: SimTime, dims: DimList, value: SampleValue)
    requires
        0 < def.per_unit <= 1_000_000,
    ensures
        ({
            let s = sample_of(def, t, dims, value);
            &&& s.t == t && s.dims == dims
            &&& s.metric == def.name && s.unit == def.unit && s.agg == def.agg.tag()
            &&& s.visibility == def.visibility && s.diagnostic == def.diagnostic
            &&& s.per_unit == def.per_unit
            &&& says_on_grid(value, s.value, def.per_unit)
        }),
{
    let k = def.per_unit;
    assert forall|x: Real, p: int| 0 < p <= 1_000_000 implies put_on(
        #[trigger] quantised_real(x, p),
        x,
        p,
    ) by {
        quantised_is_put_on(x, p);
    }
}

/// True if a cell of a table holds a number, to the nearest point of a grid.
pub open spec fn cell_is(cell: Option<Real>, x: Real, per_unit: int) -> bool {
    cell is Some && put_on(cell->0, x, per_unit)
}

/// True if a row has a number as its value, and the grid index of that number beside it.
pub open spec fn valued(r: RowView, x: Real, per_unit: int) -> bool {
    &&& cell_is(r.value, x, per_unit)
    &&& r.value_grid is Some
    &&& fits(x, per_unit) ==> r.value_grid->0 == r.value->0@.num
}

proof fn a_point_is_valued(x: Real, k: int)
    requires
        0 < k <= 1_000_000,
    ensures
        fits(x, k) ==> crate::quant::grid_of(quantised_real(x, k)@, k) == quantised_real(x, k)@.num
            && i64::MIN <= quantised_real(x, k)@.num <= i64::MAX,
{
    if fits(x, k) {
        let g = index_of(x@, k);
        real_of_is_the_quotient(g, k);
        rounded_multiple(g, k);
    }
}

/// A row says what its sample says: when, of what, for whom, on how many observations, and
/// the numbers under their own names. A column that has no meaning for the shape of the
/// value is empty.
#[verifier::rlimit(60)]
pub proof fn a_row_says_what_its_sample_says(s: SampleView, dims: Seq<char>)
    requires
        0 < s.per_unit <= 1_000_000,
        row_of(s, dims) is Ok,
    ensures
        ({
            let r = row_of(s, dims)->Ok_0;
            &&& r.t_ns == s.t && r.metric == s.metric && r.unit == s.unit && r.agg == s.agg
            &&& r.visibility == s.visibility.text() && r.diagnostic == s.diagnostic
            &&& r.dims == dims
            &&& r.quantum@.num == 1 && r.quantum@.den == s.per_unit
            &&& r.n == s.value.observations()
            &&& r.state == "insufficient"@ <==> s.value.refused()
            &&& r.required_n is Some <==> s.value.refused()
            &&& s.value.refused() ==> r.value is None && r.value_grid is None
            &&& r.count is Some <==> s.value is Count
            &&& r.successes is Some <==> (s.value matches SampleValue::Ratio(e)
                && e is Proportion)
            &&& r.ci_level is Some <==> r.successes is Some
            &&& r.numerator is Some <==> (s.value matches SampleValue::Ratio(e)
                && e is RatioOfSums)
            &&& r.denominator is Some <==> r.numerator is Some
            &&& r.mean is Some <==> (s.value matches SampleValue::Distribution(d)
                && d is Summary)
        }),
        row_of(s, dims)->Ok_0.reports(s),
{
    let k = s.per_unit;
    let r = row_of(s, dims)->Ok_0;
    reveal_strlit("insufficient");
    reveal_strlit("scalar");
    reveal_strlit("proportion");
    reveal_strlit("ratio-of-sums");
    reveal_strlit("distribution");
    reveal_strlit("count");
    assert("insufficient"@.len() == 12 && "distribution"@.len() == 12);
    assert("insufficient"@[0] != "distribution"@[0]);
    real_of_is_the_quotient(1, k);
    assert forall|x: Real, p: int| 0 < p <= 1_000_000 implies put_on(
        #[trigger] quantised_real(x, p),
        x,
        p,
    ) by {
        quantised_is_put_on(x, p);
    }
    match s.value {
        SampleValue::Scalar(Estimate::Value { point, .. }) => {
            a_point_is_valued(point, k);
        },
        SampleValue::Ratio(RatioEstimate::Proportion { point, level, .. }) => {
            a_point_is_valued(point, k);
            real_of_is_the_quotient(level.percent(), 100);
        },
        SampleValue::Ratio(RatioEstimate::RatioOfSums { point, .. }) => {
            a_point_is_valued(point, k);
        },
        SampleValue::Distribution(DistributionSummary::Summary { mean, .. }) => {
            a_point_is_valued(mean, k);
        },
        SampleValue::Count { count } => {
            real_of_is_the_quotient(count as int, 1);
        },
        _ => {},
    }
}

impl RowView {
    /// True if the row has the numbers of a sample in the columns that they belong in.
    pub open spec fn reports(self, s: SampleView) -> bool {
        let k = s.per_unit;
        match s.value {
            SampleValue::Scalar(Estimate::Value { point, .. }) => {
                &&& self.state == "scalar"@
                &&& valued(self, point, k)
            },
            SampleValue::Scalar(Estimate::Insufficient { required, .. }) => self.required_n == Some(
                required,
            ),
            SampleValue::Ratio(RatioEstimate::Insufficient { required, .. }) => self.required_n
                == Some(required),
            SampleValue::Distribution(DistributionSummary::Insufficient { required, .. }) =>
                self.required_n == Some(required),
            SampleValue::Ratio(
                RatioEstimate::Proportion { point, interval, level, successes, .. },
            ) => {
                &&& self.state == "proportion"@
                &&& valued(self, point, k)
                &&& self.successes == Some(successes)
                &&& interval is None ==> self.ci_lo is None && self.ci_hi is None
                &&& interval matches Some(i) ==> cell_is(self.ci_lo, i.lo, 1_000_000) && cell_is(
                    self.ci_hi,
                    i.hi,
                    1_000_000,
                )
                &&& self.ci_level is Some && 100 * self.ci_level->0@.num == level.percent()
                    * self.ci_level->0@.den
            },
            SampleValue::Ratio(RatioEstimate::RatioOfSums { point, numerator, denominator, .. }) => {
                &&& self.state == "ratio-of-sums"@
                &&& valued(self, point, k)
                &&& cell_is(self.numerator, numerator, 1_000)
                &&& cell_is(self.denominator, denominator, 1_000)
            },
            SampleValue::Distribution(
                DistributionSummary::Summary { min, max, mean, p50, p95, p99, interpolation, rejected, .. },
            ) => {
                &&& self.state == "distribution"@
                &&& valued(self, mean, k)
                &&& cell_is(self.min, min, k) && cell_is(self.max, max, k)
                &&& cell_is(self.mean, mean, k)
                &&& cell_is(self.p50, p50, k) && cell_is(self.p95, p95, k)
                &&& cell_is(self.p99, p99, k)
                &&& self.interpolation == Some(interpolation.name())
                &&& self.rejected == Some(rejected)
            },
            SampleValue::Count { count } => {
                &&& self.state == "count"@
                &&& self.count == Some(count)
                &&& self.value is Some && self.value->0@.num == count && self.value->0@.den == 1
                &&& self.value_grid is Some && (self.value_grid->0 - count) % 0x1_0000_0000_0000_0000
                    == 0
            },
        }
    }
}

/// Row for row, a table is of its samples: each row is that of the sample in its place.
pub proof fn a_table_is_of_its_samples(s: Seq<SampleView>, i: int)
    requires
        table_rows(s) is Ok,
        0 <= i < s.len(),
    ensures
        table_rows(s)->Ok_0.len() == s.len(),
        table_row(s[i]) == Ok::<RowView, ErrorView>(table_rows(s)->Ok_0[i]),
    decreases s.len(),
{
    crate::arrow_out::a_table_has_a_row_per_sample(s);
    crate::arrow_out::a_table_has_a_row_per_sample(s.drop_last());
    if i < s.len() - 1 {
        a_table_is_of_its_samples(s.drop_last(), i);
        assert(s.drop_last()[i] == s[i]);
    }
}

/// One subject more in a matrix is one more in the cell of what was predicted of it and
/// what it is, and nothing in the other cells.
pub proof fn a_subject_is_in_one_cell(m: ConfusionMatrix, predicted: bool, truth: bool, c: Cell)
    requires
        m.sum() < u64::MAX,
    ensures
        ({
            let its = match c {
                Cell::Tp => predicted && truth,
                Cell::Fp => predicted && !truth,
                Cell::Fn => !predicted && truth,
                Cell::Tn => !predicted && !truth,
            };
            &&& its ==> m.and(predicted, truth).at(c) == m.at(c) + 1
            &&& !its ==> m.and(predicted, truth).at(c) == m.at(c)
        }),
{
}

/// True if a cell of a table holds `num / den` in ten-thousandths; or nothing, where there
/// are fewer than `least` to divide by, or none.
pub open spec fn share_cell(cell: Option<Real>, num: int, den: int, least: u64) -> bool {
    if den == 0 || den < least {
        cell is None
    } else {
        cell is Some && reads(cell->0, num, den, 10_000)
    }
}

proof fn a_small_share(num: u64, den: u64)
    requires
        den > 0,
    ensures
        reads(
            quantised_real(crate::quant::real_of(num as int, den as int), 10_000),
            num as int,
            den as int,
            10_000,
        ),
{
    a_small_quotient_fits(num as int, den as int, 10_000);
    a_quotient_is_read(num as int, den as int, 10_000);
}

/// The row of a matrix has its level and its counts, and beside them the recall (of the
/// misbehaving, those predicted), the false positives (of the benign, those predicted), the
/// precision (of those predicted, the misbehaving), the accuracy (of all, those predicted as
/// they are), and the harmonic mean of recall and precision.
pub proof fn a_matrix_row_says_its_shares(e: MatrixEntry, least: u64, level: ConfidenceLevel)
    requires
        e.matrix.sum() <= u64::MAX,
    ensures
        ({
            let r = matrix_row(e, least, level);
            let m = e.matrix;
            &&& r.level == e.level.text()
            &&& r.cells.tp == m.tp && r.cells.fp == m.fp && r.cells.fn_ == m.fn_
            &&& r.cells.tn == m.tn
            &&& r.total == m.tp + m.fp + m.fn_ + m.tn
            &&& share_cell(r.recall, m.tp as int, m.tp + m.fn_, least)
            &&& share_cell(r.fpr, m.fp as int, m.fp + m.tn, least)
            &&& share_cell(r.precision, m.tp as int, m.tp + m.fp, least)
            &&& share_cell(r.accuracy, m.tp + m.tn, r.total, least)
            &&& r.f1 is None <==> r.total < least || m.tp + m.fp + m.fn_ == 0
            &&& r.f1 is Some ==> reads(
                r.f1->0,
                2 * m.tp as int,
                (m.tp + m.fn_) + (m.tp + m.fp),
                10_000,
            )
            &&& bounds_are(r.recall_bounds, r.recall is Some, e.recall_interval)
            &&& bounds_are(r.precision_bounds, r.precision is Some, e.precision_interval)
            &&& 100 * r.ci_level@.num == level.percent() * r.ci_level@.den
        }),
{
    let m = e.matrix;
    if m.tp + m.fn_ > 0 {
        a_small_share(m.tp, (m.tp + m.fn_) as u64);
    }
    if m.fp + m.tn > 0 {
        a_small_share(m.fp, (m.fp + m.tn) as u64);
    }
    if m.tp + m.fp > 0 {
        a_small_share(m.tp, (m.tp + m.fp) as u64);
    }
    if m.sum() > 0 {
        a_small_share((m.tp + m.tn) as u64, m.sum() as u64);
    }
    if m.tp + m.fp + m.fn_ > 0 {
        let num = 2 * m.tp as int;
        let den = 2 * m.tp + m.fp + m.fn_;
        a_small_quotient_fits(num, den, 10_000);
        a_quotient_is_read(num, den, 10_000);
    }
    assert forall|x: Real, p: int| 0 < p <= 1_000_000 implies put_on(
        #[trigger] quantised_real(x, p),
        x,
        p,
    ) by {
        quantised_is_put_on(x, p);
    }
    real_of_is_the_quotient(level.percent(), 100);
}

/// True if two cells hold the bounds of an interval, the lower one first; or nothing, where
/// there is no interval or nothing that it is around.
pub open spec fn bounds_are(
    cells: (Option<Real>, Option<Real>),
    around: bool,
    interval: Option<Interval>,
) -> bool {
    match interval {
        Some(i) if around => cell_is(cells.0, i.lo, 1_000_000) && cell_is(cells.1, i.hi, 1_000_000),
        _ => cells.0 is None && cells.1 is None,
    }
}

} // verus!
