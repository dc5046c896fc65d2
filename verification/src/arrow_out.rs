//! The tabular form of a run's metrics.
//!
//! One wide table holds every sample: its `state` column says which shape a row's value has,
//! and the columns of the other shapes are empty. A number that is off its grid is refused
//! by name, never rounded in silence.

use vstd::prelude::*;
use vstd::pervasive::unreached;
use vstd::string::*;
use std::sync::Arc;
use arrow::array::RecordBatch;
use arrow::datatypes::{DataType, Field, Metadata, Schema};
use arrow::error::ArrowError;
use arrow::ipc::writer::StreamWriter;
use crate::arrange::{ranked, sort, sorted};
use crate::basic::SimTime;
use crate::card::{group_views, views};
use crate::def::{sample_of, written_numbers_are_on_their_grids, DefView, DimList, DimText, DimValue, Dims, MetricSample, SampleValue, SampleView};
use crate::detection::{Cell, ConfusionMatrix, DetectionLevel};
use crate::distribution::DistributionSummary;
use crate::error::{ErrorView, MetricError};
use crate::keyed::Key;
use crate::outside::{json_string, json_text};
use crate::quant::{grid_of, on_grid, quantised_real, real_of, Quantum, Real, MAX_PER_UNIT};
use crate::stats::{ConfidenceLevel, Estimate, Interval, RatioEstimate};
use crate::text::{decimal, numeral};

verus! {

/// The id of the schema of the table of samples.
pub const SAMPLE_SCHEMA_ID: &'static str = "v2xw/metric-sample/1";

/// The id of the schema of the table of confusion matrices.
pub const CONFUSION_SCHEMA_ID: &'static str = "v2xw/confusion-matrix/1";

/// The shape of a value: its name in the `state` column.
pub open spec fn state_name(v: SampleValue) -> Seq<char> {
    match v {
        SampleValue::Scalar(Estimate::Insufficient { .. }) => "insufficient"@,
        SampleValue::Ratio(RatioEstimate::Insufficient { .. }) => "insufficient"@,
        SampleValue::Distribution(DistributionSummary::Insufficient { .. }) => "insufficient"@,
        SampleValue::Scalar(_) => "scalar"@,
        SampleValue::Ratio(RatioEstimate::Proportion { .. }) => "proportion"@,
        SampleValue::Ratio(RatioEstimate::RatioOfSums { .. }) => "ratio-of-sums"@,
        SampleValue::Distribution(_) => "distribution"@,
        SampleValue::Count { .. } => "count"@,
    }
}

/// The shape of a value: its name in the `state` column.
pub fn state_of(v: &SampleValue) -> (r: &'static str)
    ensures
        r@ == state_name(*v),
{
    match v {
        SampleValue::Scalar(Estimate::Insufficient { .. }) => "insufficient",
        SampleValue::Ratio(RatioEstimate::Insufficient { .. }) => "insufficient",
        SampleValue::Distribution(DistributionSummary::Insufficient { .. }) => "insufficient",
        SampleValue::Scalar(_) => "scalar",
        SampleValue::Ratio(RatioEstimate::Proportion { .. }) => "proportion",
        SampleValue::Ratio(RatioEstimate::RatioOfSums { .. }) => "ratio-of-sums",
        SampleValue::Distribution(_) => "distribution",
        SampleValue::Count { .. } => "count",
    }
}

/// What a column holds.
#[derive(Clone, Copy, Debug, PartialEq, Eq, Structural)]
pub enum Kind {
    /// Unsigned integers.
    Unsigned,
    /// Signed integers.
    Signed,
    /// Numbers.
    Number,
    /// Texts.
    Text,
    /// Truth values.
    Flag,
}

/// One column of a table.
#[derive(Clone, Copy, Debug)]
pub struct Column {
    /// Its name.
    pub name: &'static str,
    /// What it holds.
    pub kind: Kind,
    /// True if it may be empty in a row.
    pub nullable: bool,
}

impl View for Column {
    type V = (Seq<char>, Kind, bool);

    open spec fn view(&self) -> (Seq<char>, Kind, bool) {
        (self.name@, self.kind, self.nullable)
    }
}

/// The columns of the table of samples, in order.
pub open spec fn sample_fields() -> Seq<(Seq<char>, Kind, bool)> {
    seq![
        ("t_ns"@, Kind::Unsigned, false),
        ("metric"@, Kind::Text, false),
        ("unit"@, Kind::Text, false),
        ("agg"@, Kind::Text, false),
        ("visibility"@, Kind::Text, false),
        ("diagnostic"@, Kind::Flag, false),
        ("dims"@, Kind::Text, false),
        ("state"@, Kind::Text, false),
        ("quantum"@, Kind::Number, false),
        ("n"@, Kind::Unsigned, false),
        ("required_n"@, Kind::Unsigned, true),
        ("value"@, Kind::Number, true),
        ("value_grid"@, Kind::Signed, true),
        ("count"@, Kind::Unsigned, true),
        ("successes"@, Kind::Unsigned, true),
        ("ci_lo"@, Kind::Number, true),
        ("ci_hi"@, Kind::Number, true),
        ("ci_level"@, Kind::Number, true),
        ("numerator"@, Kind::Number, true),
        ("denominator"@, Kind::Number, true),
        ("min"@, Kind::Number, true),
        ("max"@, Kind::Number, true),
        ("mean"@, Kind::Number, true),
        ("p50"@, Kind::Number, true),
        ("p95"@, Kind::Number, true),
        ("p99"@, Kind::Number, true),
        ("interpolation"@, Kind::Text, true),
        ("rejected"@, Kind::Unsigned, true),
    ]
}

/// The columns of the table of samples, in order.
pub fn sample_columns() -> (r: Vec<Column>)
    ensures
        views(r@) == sample_fields(),
{
    broadcast use group_views;

    let mut r: Vec<Column> = Vec::new();
    r.push(Column { name: "t_ns", kind: Kind::Unsigned, nullable: false });
    r.push(Column { name: "metric", kind: Kind::Text, nullable: false });
    r.push(Column { name: "unit", kind: Kind::Text, nullable: false });
    r.push(Column { name: "agg", kind: Kind::Text, nullable: false });
    r.push(Column { name: "visibility", kind: Kind::Text, nullable: false });
    r.push(Column { name: "diagnostic", kind: Kind::Flag, nullable: false });
    r.push(Column { name: "dims", kind: Kind::Text, nullable: false });
    r.push(Column { name: "state", kind: Kind::Text, nullable: false });
    r.push(Column { name: "quantum", kind: Kind::Number, nullable: false });
    r.push(Column { name: "n", kind: Kind::Unsigned, nullable: false });
    r.push(Column { name: "required_n", kind: Kind::Unsigned, nullable: true });
    r.push(Column { name: "value", kind: Kind::Number, nullable: true });
    r.push(Column { name: "value_grid", kind: Kind::Signed, nullable: true });
    r.push(Column { name: "count", kind: Kind::Unsigned, nullable: true });
    r.push(Column { name: "successes", kind: Kind::Unsigned, nullable: true });
    r.push(Column { name: "ci_lo", kind: Kind::Number, nullable: true });
    r.push(Column { name: "ci_hi", kind: Kind::Number, nullable: true });
    r.push(Column { name: "ci_level", kind: Kind::Number, nullable: true });
    r.push(Column { name: "numerator", kind: Kind::Number, nullable: true });
    r.push(Column { name: "denominator", kind: Kind::Number, nullable: true });
    r.push(Column { name: "min", kind: Kind::Number, nullable: true });
    r.push(Column { name: "max", kind: Kind::Number, nullable: true });
    r.push(Column { name: "mean", kind: Kind::Number, nullable: true });
    r.push(Column { name: "p50", kind: Kind::Number, nullable: true });
    r.push(Column { name: "p95", kind: Kind::Number, nullable: true });
    r.push(Column { name: "p99", kind: Kind::Number, nullable: true });
    r.push(Column { name: "interpolation", kind: Kind::Text, nullable: true });
    r.push(Column { name: "rejected", kind: Kind::Unsigned, nullable: true });
    assert(views(r@) =~= sample_fields());
    r
}

/// The columns of the table of confusion matrices, in order.
pub open spec fn confusion_fields() -> Seq<(Seq<char>, Kind, bool)> {
    seq![
        ("level"@, Kind::Text, false),
        ("tp"@, Kind::Unsigned, false),
        ("fp"@, Kind::Unsigned, false),
        ("fn"@, Kind::Unsigned, false),
        ("tn"@, Kind::Unsigned, false),
        ("total"@, Kind::Unsigned, false),
        ("recall"@, Kind::Number, true),
        ("recall_ci_lo"@, Kind::Number, true),
        ("recall_ci_hi"@, Kind::Number, true),
        ("fpr"@, Kind::Number, true),
        ("precision"@, Kind::Number, true),
        ("precision_ci_lo"@, Kind::Number, true),
        ("precision_ci_hi"@, Kind::Number, true),
        ("f1"@, Kind::Number, true),
        ("accuracy"@, Kind::Number, true),
        ("ci_level"@, Kind::Number, false),
    ]
}

/// The columns of the table of confusion matrices, in order.
pub fn confusion_columns() -> (r: Vec<Column>)
    ensures
        views(r@) == confusion_fields(),
{
    broadcast use group_views;

    let mut r: Vec<Column> = Vec::new();
    r.push(Column { name: "level", kind: Kind::Text, nullable: false });
    r.push(Column { name: "tp", kind: Kind::Unsigned, nullable: false });
    r.push(Column { name: "fp", kind: Kind::Unsigned, nullable: false });
    r.push(Column { name: "fn", kind: Kind::Unsigned, nullable: false });
    r.push(Column { name: "tn", kind: Kind::Unsigned, nullable: false });
    r.push(Column { name: "total", kind: Kind::Unsigned, nullable: false });
    r.push(Column { name: "recall", kind: Kind::Number, nullable: true });
    r.push(Column { name: "recall_ci_lo", kind: Kind::Number, nullable: true });
    r.push(Column { name: "recall_ci_hi", kind: Kind::Number, nullable: true });
    r.push(Column { name: "fpr", kind: Kind::Number, nullable: true });
    r.push(Column { name: "precision", kind: Kind::Number, nullable: true });
    r.push(Column { name: "precision_ci_lo", kind: Kind::Number, nullable: true });
    r.push(Column { name: "precision_ci_hi", kind: Kind::Number, nullable: true });
    r.push(Column { name: "f1", kind: Kind::Number, nullable: true });
    r.push(Column { name: "accuracy", kind: Kind::Number, nullable: true });
    r.push(Column { name: "ci_level", kind: Kind::Number, nullable: false });
    assert(views(r@) =~= confusion_fields());
    r
}

/// The metadata of a table's schema: one entry, the schema's id.
pub open spec fn metadata_of(id: Seq<char>) -> Seq<(Seq<char>, Seq<char>)> {
    seq![("schema"@, id)]
}

/// The metadata of a table's schema: exactly one entry, the schema's id.
pub fn schema_metadata(id: &str) -> (r: Vec<(String, String)>)
    ensures
        r@.len() == 1,
        r@[0].0@ == metadata_of(id@)[0].0,
        r@[0].1@ == metadata_of(id@)[0].1,
        metadata_of(id@).len() == 1,
{
    let mut r: Vec<(String, String)> = Vec::new();
    r.push(("schema".to_owned(), id.to_owned()));
    r
}

/// One row of the table of samples.
#[derive(Debug)]
pub struct SampleRow {
    /// The instant, in nanoseconds.
    pub t_ns: u64,
    /// The metric's name.
    pub metric: String,
    /// Its unit.
    pub unit: String,
    /// Its aggregation's tag.
    pub agg: String,
    /// The tag of its visibility.
    pub visibility: String,
    /// True for a machine-dependent diagnostic.
    pub diagnostic: bool,
    /// The dimension values as canonical JSON.
    pub dims: String,
    /// The shape of the value.
    pub state: &'static str,
    /// The grid that the value is on.
    pub quantum: Real,
    /// The observations behind the value.
    pub n: u64,
    /// For a refusal, the observations that were asked for.
    pub required_n: Option<u64>,
    /// The point estimate.
    pub value: Option<Real>,
    /// The point estimate as a multiple of the grid.
    pub value_grid: Option<i64>,
    /// The exact count.
    pub count: Option<u64>,
    /// The successes of a proportion.
    pub successes: Option<u64>,
    /// The lower bound of a proportion.
    pub ci_lo: Option<Real>,
    /// The upper bound of a proportion.
    pub ci_hi: Option<Real>,
    /// The coverage of the bounds.
    pub ci_level: Option<Real>,
    /// The sum above the line.
    pub numerator: Option<Real>,
    /// The sum below the line.
    pub denominator: Option<Real>,
    /// The least observation.
    pub min: Option<Real>,
    /// The greatest observation.
    pub max: Option<Real>,
    /// The mean.
    pub mean: Option<Real>,
    /// The median.
    pub p50: Option<Real>,
    /// The ninety-fifth percentile.
    pub p95: Option<Real>,
    /// The ninety-ninth percentile.
    pub p99: Option<Real>,
    /// The rule of the percentiles.
    pub interpolation: Option<&'static str>,
    /// Observations that were refused.
    pub rejected: Option<u64>,
}

/// What a row of the table of samples says.
#[verifier::ext_equal]
pub ghost struct RowView {
    pub t_ns: u64,
    pub metric: Seq<char>,
    pub unit: Seq<char>,
    pub agg: Seq<char>,
    pub visibility: Seq<char>,
    pub diagnostic: bool,
    pub dims: Seq<char>,
    pub state: Seq<char>,
    pub quantum: Real,
    pub n: u64,
    pub required_n: Option<u64>,
    pub value: Option<Real>,
    pub value_grid: Option<i64>,
    pub count: Option<u64>,
    pub successes: Option<u64>,
    pub ci_lo: Option<Real>,
    pub ci_hi: Option<Real>,
    pub ci_level: Option<Real>,
    pub numerator: Option<Real>,
    pub denominator: Option<Real>,
    pub min: Option<Real>,
    pub max: Option<Real>,
    pub mean: Option<Real>,
    pub p50: Option<Real>,
    pub p95: Option<Real>,
    pub p99: Option<Real>,
    pub interpolation: Option<Seq<char>>,
    pub rejected: Option<u64>,
}

/// An optional name, apart from how it is stored.
pub open spec fn optional_name(s: Option<&'static str>) -> Option<Seq<char>> {
    match s {
        Some(x) => Some(x@),
        None => None,
    }
}

impl View for SampleRow {
    type V = RowView;

    open spec fn view(&self) -> RowView {
        RowView {
            t_ns: self.t_ns,
            metric: self.metric@,
            unit: self.unit@,
            agg: self.agg@,
            visibility: self.visibility@,
            diagnostic: self.diagnostic,
            dims: self.dims@,
            state: self.state@,
            quantum: self.quantum,
            n: self.n,
            required_n: self.required_n,
            value: self.value,
            value_grid: self.value_grid,
            count: self.count,
            successes: self.successes,
            ci_lo: self.ci_lo,
            ci_hi: self.ci_hi,
            ci_level: self.ci_level,
            numerator: self.numerator,
            denominator: self.denominator,
            min: self.min,
            max: self.max,
            mean: self.mean,
            p50: self.p50,
            p95: self.p95,
            p99: self.p99,
            interpolation: optional_name(self.interpolation),
            rejected: self.rejected,
        }
    }
}

/// A row with what every sample has, and nothing of any shape.
pub open spec fn bare_row(s: SampleView, dims: Seq<char>) -> RowView {
    RowView {
        t_ns: s.t,
        metric: s.metric,
        unit: s.unit,
        agg: s.agg,
        visibility: s.visibility.text(),
        diagnostic: s.diagnostic,
        dims,
        state: state_name(s.value),
        quantum: real_of(1, s.per_unit),
        n: s.value.observations(),
        required_n: None,
        value: None,
        value_grid: None,
        count: None,
        successes: None,
        ci_lo: None,
        ci_hi: None,
        ci_level: None,
        numerator: None,
        denominator: None,
        min: None,
        max: None,
        mean: None,
        p50: None,
        p95: None,
        p99: None,
        interpolation: None,
        rejected: None,
    }
}

/// The bits of a count, read as a signed integer.
pub open spec fn signed_bits(n: u64) -> i64 {
    if n <= i64::MAX {
        n as i64
    } else {
        (n - 0x1_0000_0000_0000_0000) as i64
    }
}

fn as_signed(n: u64) -> (r: i64)
    ensures
        r == signed_bits(n),
{
    if n <= 0x7fff_ffff_ffff_ffff {
        n as i64
    } else {
        let below: u64 = u64::MAX - n;
        -(below as i64) - 1
    }
}

/// The row of a sample whose numbers are on their grids.
pub open spec fn filled_row(s: SampleView, dims: Seq<char>) -> RowView {
    let bare = bare_row(s, dims);
    let k = s.per_unit;
    match s.value {
        SampleValue::Scalar(Estimate::Value { point, .. }) => RowView {
            value: Some(quantised_real(point, k)),
            value_grid: Some(grid_of(quantised_real(point, k)@, k) as i64),
            ..bare
        },
        SampleValue::Scalar(Estimate::Insufficient { required, .. }) => RowView {
            required_n: Some(required),
            ..bare
        },
        SampleValue::Ratio(
            RatioEstimate::Proportion { point, interval, level, successes, .. },
        ) => RowView {
            value: Some(quantised_real(point, k)),
            value_grid: Some(grid_of(quantised_real(point, k)@, k) as i64),
            successes: Some(successes),
            ci_lo: match interval {
                Some(i) => Some(quantised_real(i.lo, 1_000_000)),
                None => None,
            },
            ci_hi: match interval {
                Some(i) => Some(quantised_real(i.hi, 1_000_000)),
                None => None,
            },
            ci_level: Some(real_of(level.percent(), 100)),
            ..bare
        },
        SampleValue::Ratio(RatioEstimate::RatioOfSums { point, numerator, denominator, .. }) =>
            RowView {
                value: Some(quantised_real(point, k)),
                value_grid: Some(grid_of(quantised_real(point, k)@, k) as i64),
                numerator: Some(quantised_real(numerator, 1_000)),
                denominator: Some(quantised_real(denominator, 1_000)),
                ..bare
            },
        SampleValue::Ratio(RatioEstimate::Insufficient { required, .. }) => RowView {
            required_n: Some(required),
            ..bare
        },
        SampleValue::Distribution(
            DistributionSummary::Summary {
                min,
                max,
                mean,
                p50,
                p95,
                p99,
                interpolation,
                rejected,
                ..
            },
        ) => RowView {
            value: Some(quantised_real(mean, k)),
            value_grid: Some(grid_of(quantised_real(mean, k)@, k) as i64),
            min: Some(quantised_real(min, k)),
            max: Some(quantised_real(max, k)),
            mean: Some(quantised_real(mean, k)),
            p50: Some(quantised_real(p50, k)),
            p95: Some(quantised_real(p95, k)),
            p99: Some(quantised_real(p99, k)),
            interpolation: Some(interpolation.name()),
            rejected: Some(rejected),
            ..bare
        },
        SampleValue::Distribution(DistributionSummary::Insufficient { required, .. }) => RowView {
            required_n: Some(required),
            ..bare
        },
        SampleValue::Count { count } => RowView {
            count: Some(count),
            value: Some(real_of(count as int, 1)),
            value_grid: Some(signed_bits(count)),
            ..bare
        },
    }
}

/// The numbers of a value in the order in which they are written, each with its grid.
pub open spec fn written_order(v: SampleValue, per_unit: int) -> Seq<(Real, int)> {
    match v {
        SampleValue::Distribution(
            DistributionSummary::Summary { min, max, mean, p50, p95, p99, .. },
        ) => seq![
            (mean, per_unit),
            (min, per_unit),
            (max, per_unit),
            (p50, per_unit),
            (p95, per_unit),
            (p99, per_unit),
        ],
        _ => v.graded(per_unit),
    }
}

/// The first number that is off its grid.
pub open spec fn first_off_grid(s: Seq<(Real, int)>) -> Option<(Real, int)>
    decreases s.len(),
{
    if s.len() == 0 {
        None
    } else {
        match first_off_grid(s.drop_last()) {
            Some(g) => Some(g),
            None => if on_grid(s.last().0@, s.last().1) {
                None
            } else {
                Some(s.last())
            },
        }
    }
}

/// The row of a sample, or the first of its numbers that is off its grid.
pub open spec fn row_of(s: SampleView, dims: Seq<char>) -> Result<RowView, ErrorView> {
    match first_off_grid(written_order(s.value, s.per_unit)) {
        Some(g) => Err(
            ErrorView::OffGrid { name: s.metric, value: g.0, quantum: real_of(1, g.1) },
        ),
        None => Ok(filled_row(s, dims)),
    }
}

/// The numbers of a value in the order in which they are written, each with its grid.
fn numbers_written(v: &SampleValue, q: Quantum) -> (r: Vec<(Real, Quantum)>)
    ensures
        crate::def::graded_view(r@) == written_order(*v, q@),
{
    match v {
        SampleValue::Distribution(
            DistributionSummary::Summary { min, max, mean, p50, p95, p99, .. },
        ) => {
            let r: Vec<(Real, Quantum)> = vec![
                (*mean, q),
                (*min, q),
                (*max, q),
                (*p50, q),
                (*p95, q),
                (*p99, q),
            ];
            assert(crate::def::graded_view(r@) =~= written_order(*v, q@));
            r
        },
        _ => v.graded_floats(q),
    }
}

/// The row of a sample whose dimension values are written as `dims`, or the first of its
/// numbers that is off its grid.
pub fn row_with(s: &MetricSample, dims: String) -> (r: Result<SampleRow, MetricError>)
    ensures
        match r {
            Ok(row) => row_of(s@, dims@) == Ok::<RowView, ErrorView>(row@),
            Err(e) => row_of(s@, dims@) == Err::<RowView, ErrorView>(e@),
        },
{
    let q = s.quantum;
    let numbers = numbers_written(&s.value, q);
    let ghost all = crate::def::graded_view(numbers@);
    let n: usize = numbers.len();
    let mut i: usize = 0;
    while i < n
        invariant
            n == numbers@.len(),
            all == crate::def::graded_view(numbers@),
            all == written_order(s@.value, s@.per_unit),
            i <= n,
            first_off_grid(all.subrange(0, i as int)) is None,
        decreases n - i,
    {
        proof {
            let next = all.subrange(0, i as int + 1);
            assert(next.drop_last() =~= all.subrange(0, i as int));
            assert(next.last() == (numbers@[i as int].0, numbers@[i as int].1@));
        }
        let x = numbers[i].0;
        let grid = numbers[i].1;
        if !grid.holds(x) {
            proof {
                a_fault_stays_first(all, i as int + 1);
            }
            return Err(
                MetricError::OffGrid { name: s.metric.clone(), value: x, quantum: grid.get() },
            );
        }
        i = i + 1;
    }
    assert(all.subrange(0, n as int) =~= all);
    let mut row = SampleRow {
        t_ns: s.t,
        metric: s.metric.clone(),
        unit: s.unit.clone(),
        agg: s.agg.clone(),
        visibility: s.visibility.as_str().to_owned(),
        diagnostic: s.diagnostic,
        dims,
        state: state_of(&s.value),
        quantum: q.get(),
        n: s.value.n(),
        required_n: None,
        value: None,
        value_grid: None,
        count: None,
        successes: None,
        ci_lo: None,
        ci_hi: None,
        ci_level: None,
        numerator: None,
        denominator: None,
        min: None,
        max: None,
        mean: None,
        p50: None,
        p95: None,
        p99: None,
        interpolation: None,
        rejected: None,
    };
    let ghost bare = row@;
    assert(bare == bare_row(s@, dims@));
    match &s.value {
        SampleValue::Scalar(Estimate::Value { point, .. }) => {
            let v = q.quantise(*point);
            row.value = Some(v);
            row.value_grid = Some(q.grid(v));
        },
        SampleValue::Scalar(Estimate::Insufficient { required, .. }) => {
            row.required_n = Some(*required);
        },
        SampleValue::Ratio(
            RatioEstimate::Proportion { point, interval, level, successes, .. },
        ) => {
            let v = q.quantise(*point);
            row.value = Some(v);
            row.value_grid = Some(q.grid(v));
            row.successes = Some(*successes);
            if let Some(bounds) = interval {
                row.ci_lo = Some(Quantum::probability().quantise(bounds.lo));
                row.ci_hi = Some(Quantum::probability().quantise(bounds.hi));
            }
            row.ci_level = Some(level.coverage());
        },
        SampleValue::Ratio(
            RatioEstimate::RatioOfSums { point, numerator, denominator, .. },
        ) => {
            let v = q.quantise(*point);
            row.value = Some(v);
            row.value_grid = Some(q.grid(v));
            row.numerator = Some(Quantum::sum().quantise(*numerator));
            row.denominator = Some(Quantum::sum().quantise(*denominator));
        },
        SampleValue::Ratio(RatioEstimate::Insufficient { required, .. }) => {
            row.required_n = Some(*required);
        },
        SampleValue::Distribution(
            DistributionSummary::Summary {
                min,
                max,
                mean,
                p50,
                p95,
                p99,
                interpolation,
                rejected,
                ..
            },
        ) => {
            let m = q.quantise(*mean);
            row.value = Some(m);
            row.value_grid = Some(q.grid(m));
            row.min = Some(q.quantise(*min));
            row.max = Some(q.quantise(*max));
            row.mean = Some(m);
            row.p50 = Some(q.quantise(*p50));
            row.p95 = Some(q.quantise(*p95));
            row.p99 = Some(q.quantise(*p99));
            row.interpolation = Some(interpolation.as_str());
            row.rejected = Some(*rejected);
        },
        SampleValue::Distribution(DistributionSummary::Insufficient { required, .. }) => {
            row.required_n = Some(*required);
        },
        SampleValue::Count { count } => {
            row.count = Some(*count);
            row.value = Some(Real::new(*count as i128, 1));
            row.value_grid = Some(as_signed(*count));
        },
    }
    assert(row@ =~= filled_row(s@, dims@));
    Ok(row)
}

/// The first number that is off its grid, of some numbers, is that of all.
proof fn a_fault_stays_first(s: Seq<(Real, int)>, i: int)
    requires
        0 <= i <= s.len(),
        first_off_grid(s.subrange(0, i)) is Some,
    ensures
        first_off_grid(s) == first_off_grid(s.subrange(0, i)),
    decreases s.len() - i,
{
    if i == s.len() {
        assert(s.subrange(0, i) =~= s);
    } else {
        assert(s.subrange(0, i + 1).drop_last() =~= s.subrange(0, i));
        a_fault_stays_first(s, i + 1);
    }
}

/// The JSON of a dimension value.
pub open spec fn json_value(v: DimText) -> Seq<char> {
    match v {
        DimText::Label(s) => json_text(s),
        DimText::Index(i) => numeral(i as nat),
    }
}

/// The names of some dimensions and the JSON of their values.
pub open spec fn json_entries(dims: DimList) -> Seq<(Seq<char>, Seq<char>)> {
    Seq::new(dims.len(), |i: int| (dims[i].0.text(), json_value(dims[i].1)))
}

/// Some members of a JSON object.
pub open spec fn json_members(s: Seq<(Seq<char>, Seq<char>)>) -> Seq<char>
    decreases s.len(),
{
    if s.len() == 0 {
        Seq::empty()
    } else {
        let before = if s.len() == 1 {
            Seq::empty()
        } else {
            json_members(s.drop_last()) + ","@
        };
        before + "\""@ + s.last().0 + "\":"@ + s.last().1
    }
}

/// The JSON object with the given members: compact, in the order of their names.
pub open spec fn object_text(s: Seq<(Seq<char>, Seq<char>)>) -> Seq<char> {
    "{"@ + json_members(sorted::<String, Seq<char>>(s)) + "}"@
}

/// The JSON object with the given members, each a name and the JSON of its value: compact,
/// in the order of the names.
pub fn json_object(members: Vec<(String, String)>) -> (r: String)
    ensures
        r@ == object_text(ranked(members@)),
{
    let filed = sort(members);
    let ghost s = ranked(filed@);
    let n: usize = filed.len();
    let mut out = "{".to_owned();
    let mut i: usize = 0;
    assert(out@ =~= "{"@ + json_members(s.subrange(0, 0)));
    while i < n
        invariant
            n == filed@.len(),
            s == ranked(filed@),
            i <= n,
            out@ == "{"@ + json_members(s.subrange(0, i as int)),
        decreases n - i,
    {
        let ghost before = out@;
        let ghost now = s.subrange(0, i as int);
        let ghost next = s.subrange(0, i as int + 1);
        proof {
            assert(next.drop_last() =~= now);
            assert(next.last() == (filed@[i as int].0@, filed@[i as int].1@));
        }
        if i > 0 {
            out.append(",");
        }
        out.append("\"");
        out.append(filed[i].0.as_str());
        out.append("\":");
        out.append(filed[i].1.as_str());
        assert(out@ =~= "{"@ + json_members(next));
        i = i + 1;
    }
    assert(s.subrange(0, n as int) =~= s);
    out.append("}");
    out
}

/// The names of some dimensions and the JSON of their values.
fn json_of(dims: &Dims) -> (r: Vec<(String, String)>)
    ensures
        ranked(r@) == json_entries(dims.listing()),
{
    let ghost l = dims.listing();
    let n: usize = dims.len();
    let mut out: Vec<(String, String)> = Vec::new();
    let mut i: usize = 0;
    while i < n
        invariant
            l == dims.listing(),
            n == l.len(),
            i <= n,
            ranked(out@) =~= json_entries(l).subrange(0, i as int),
        decreases n - i,
    {
        let ghost before = ranked(out@);
        let name = dims.key_at(i).as_str().to_owned();
        let value = match dims.value_at(i) {
            DimValue::Label(s) => match json_string(s.as_str()) {
                Ok(t) => t,
                Err(_) => unreached(),
            },
            DimValue::Index(k) => decimal(*k),
        };
        assert(name.rank() == l[i as int].0.text());
        out.push((name, value));
        assert(ranked(out@) =~= before.push((name@, value@)));
        i = i + 1;
    }
    assert(json_entries(l).subrange(0, n as int) =~= json_entries(l));
    out
}

/// The row of a sample: a refusal where a number is off its grid.
pub open spec fn table_row(s: SampleView) -> Result<RowView, ErrorView> {
    row_of(s, object_text(json_entries(s.dims)))
}

/// The row of a sample.
pub fn row(s: &MetricSample) -> (r: Result<SampleRow, MetricError>)
    ensures
        match r {
            Ok(row) => table_row(s@) == Ok::<RowView, ErrorView>(row@),
            Err(e) => table_row(s@) == Err::<RowView, ErrorView>(e@),
        },
{
    row_with(s, json_object(json_of(&s.dims)))
}

/// The rows of some samples, in their order, or the first refusal.
pub open spec fn table_rows(s: Seq<SampleView>) -> Result<Seq<RowView>, ErrorView>
    decreases s.len(),
{
    if s.len() == 0 {
        Ok(Seq::empty())
    } else {
        match table_rows(s.drop_last()) {
            Err(e) => Err(e),
            Ok(rows) => match table_row(s.last()) {
                Err(e) => Err(e),
                Ok(row) => Ok(rows.push(row)),
            },
        }
    }
}

/// The table of some samples: a row each, in their order, or the first refusal.
pub fn sample_rows(samples: &Vec<MetricSample>) -> (r: Result<Vec<SampleRow>, MetricError>)
    ensures
        match r {
            Ok(rows) => table_rows(views(samples@)) == Ok::<Seq<RowView>, ErrorView>(views(rows@)),
            Err(e) => table_rows(views(samples@)) == Err::<Seq<RowView>, ErrorView>(e@),
        },
{
    broadcast use group_views;

    let ghost all = views(samples@);
    let n: usize = samples.len();
    let mut rows: Vec<SampleRow> = Vec::new();
    let mut i: usize = 0;
    assert(all.subrange(0, 0) =~= Seq::<SampleView>::empty());
    assert(views(rows@) =~= Seq::<RowView>::empty());
    while i < n
        invariant
            n == samples@.len(),
            all == views(samples@),
            n == all.len(),
            i <= n,
            table_rows(all.subrange(0, i as int)) == Ok::<Seq<RowView>, ErrorView>(views(rows@)),
        decreases n - i,
    {
        broadcast use group_views;

        let ghost before = views(rows@);
        proof {
            let next = all.subrange(0, i as int + 1);
            assert(next.drop_last() =~= all.subrange(0, i as int));
            assert(next.last() == samples@[i as int]@);
        }
        match row(&samples[i]) {
            Ok(one) => {
                rows.push(one);
                assert(views(rows@) =~= before.push(one@));
            },
            Err(e) => {
                proof {
                    a_refused_row_stays(all, i as int + 1);
                }
                return Err(e);
            },
        }
        i = i + 1;
    }
    assert(all.subrange(0, n as int) =~= all);
    Ok(rows)
}

/// The refusal of some samples is that of all.
proof fn a_refused_row_stays(s: Seq<SampleView>, i: int)
    requires
        0 <= i <= s.len(),
        table_rows(s.subrange(0, i)) is Err,
    ensures
        table_rows(s) == table_rows(s.subrange(0, i)),
    decreases s.len() - i,
{
    if i == s.len() {
        assert(s.subrange(0, i) =~= s);
    } else {
        assert(s.subrange(0, i + 1).drop_last() =~= s.subrange(0, i));
        a_refused_row_stays(s, i + 1);
    }
}

/// A sample that was built from its definition is never refused for a number: each was put
/// on its grid.
pub proof fn a_built_sample_has_a_row(
    def: DefView,
    t: SimTime,
    dims: DimList,
    value: SampleValue,
    json: Seq<char>,
)
    requires
        0 < def.per_unit <= MAX_PER_UNIT,
    ensures
        row_of(sample_of(def, t, dims, value), json) is Ok,
{
    let s = sample_of(def, t, dims, value);
    written_numbers_are_on_their_grids(value, def.per_unit);
    let w = written_order(s.value, s.per_unit);
    let g = s.value.graded(s.per_unit);
    assert forall|i: int| 0 <= i < w.len() implies on_grid((#[trigger] w[i]).0@, w[i].1) by {
        match s.value {
            SampleValue::Distribution(DistributionSummary::Summary { .. }) => {
                let j = if i == 0 {
                    2
                } else if i <= 2 {
                    i - 1
                } else {
                    i
                };
                assert(w[i] == g[j]);
            },
            _ => {
                assert(w[i] == g[i]);
            },
        }
    }
    all_on_grid(w);
}

proof fn all_on_grid(s: Seq<(Real, int)>)
    requires
        forall|i: int| 0 <= i < s.len() ==> on_grid((#[trigger] s[i]).0@, s[i].1),
    ensures
        first_off_grid(s) is None,
    decreases s.len(),
{
    if s.len() > 0 {
        let t = s.drop_last();
        assert forall|i: int| 0 <= i < t.len() implies on_grid((#[trigger] t[i]).0@, t[i].1) by {
            assert(t[i] == s[i]);
        }
        all_on_grid(t);
        assert(on_grid(s[s.len() - 1].0@, s[s.len() - 1].1));
    }
}

/// A table has a row per sample.
pub proof fn a_table_has_a_row_per_sample(s: Seq<SampleView>)
    ensures
        table_rows(s) matches Ok(rows) ==> rows.len() == s.len(),
    decreases s.len(),
{
    if s.len() > 0 {
        a_table_has_a_row_per_sample(s.drop_last());
    }
}

/// A matrix for the table of confusion matrices, with the intervals of its recall and its
/// precision where they have been computed.
#[derive(Clone, Copy, Debug)]
pub struct MatrixEntry {
    /// The level.
    pub level: DetectionLevel,
    /// The matrix.
    pub matrix: ConfusionMatrix,
    /// The interval of the recall.
    pub recall_interval: Option<Interval>,
    /// The interval of the precision.
    pub precision_interval: Option<Interval>,
}

/// One row of the table of confusion matrices.
#[derive(Clone, Copy, Debug)]
pub struct ConfusionRow {
    /// The level's name.
    pub level: &'static str,
    /// True positives.
    pub tp: u64,
    /// False positives.
    pub fp: u64,
    /// False negatives.
    pub fn_: u64,
    /// True negatives.
    pub tn: u64,
    /// All subjects.
    pub total: u64,
    /// The recall.
    pub recall: Option<Real>,
    /// The lower bound of the recall.
    pub recall_ci_lo: Option<Real>,
    /// The upper bound of the recall.
    pub recall_ci_hi: Option<Real>,
    /// The false-positive rate.
    pub fpr: Option<Real>,
    /// The precision.
    pub precision: Option<Real>,
    /// The lower bound of the precision.
    pub precision_ci_lo: Option<Real>,
    /// The upper bound of the precision.
    pub precision_ci_hi: Option<Real>,
    /// The F1 score.
    pub f1: Option<Real>,
    /// The accuracy.
    pub accuracy: Option<Real>,
    /// The coverage of the bounds.
    pub ci_level: Real,
}

/// What a row of the table of confusion matrices says.
#[verifier::ext_equal]
pub ghost struct ConfusionView {
    pub level: Seq<char>,
    pub cells: ConfusionMatrix,
    pub total: int,
    pub recall: Option<Real>,
    pub recall_bounds: (Option<Real>, Option<Real>),
    pub fpr: Option<Real>,
    pub precision: Option<Real>,
    pub precision_bounds: (Option<Real>, Option<Real>),
    pub f1: Option<Real>,
    pub accuracy: Option<Real>,
    pub ci_level: Real,
}

impl View for ConfusionRow {
    type V = ConfusionView;

    open spec fn view(&self) -> ConfusionView {
        ConfusionView {
            level: self.level@,
            cells: ConfusionMatrix { tp: self.tp, fp: self.fp, fn_: self.fn_, tn: self.tn },
            total: self.total as int,
            recall: self.recall,
            recall_bounds: (self.recall_ci_lo, self.recall_ci_hi),
            fpr: self.fpr,
            precision: self.precision,
            precision_bounds: (self.precision_ci_lo, self.precision_ci_hi),
            f1: self.f1,
            accuracy: self.accuracy,
            ci_level: self.ci_level,
        }
    }
}

/// A ratio on the grid of ratios; nothing where it is a refusal.
pub open spec fn ratio_cell(r: RatioEstimate) -> Option<Real> {
    match r {
        RatioEstimate::Proportion { point, .. } => Some(quantised_real(point, 10_000)),
        RatioEstimate::RatioOfSums { point, .. } => Some(quantised_real(point, 10_000)),
        RatioEstimate::Insufficient { .. } => None,
    }
}

/// The bounds of a ratio on the grid of probabilities; none where it is a refusal.
pub open spec fn bound_cells(r: RatioEstimate, interval: Option<Interval>) -> (
    Option<Real>,
    Option<Real>,
) {
    match (r, interval) {
        (RatioEstimate::Proportion { .. }, Some(i)) => (
            Some(quantised_real(i.lo, 1_000_000)),
            Some(quantised_real(i.hi, 1_000_000)),
        ),
        _ => (None, None),
    }
}

/// An estimate on the grid of ratios; nothing where it is a refusal.
pub open spec fn estimate_cell(e: Estimate) -> Option<Real> {
    match e {
        Estimate::Value { point, .. } => Some(quantised_real(point, 10_000)),
        Estimate::Insufficient { .. } => None,
    }
}

/// The row of a matrix: the cells, which are the result, beside the summaries.
pub open spec fn matrix_row(e: MatrixEntry, min_samples: u64, level: ConfidenceLevel) -> ConfusionView {
    let m = e.matrix;
    let recall = m.recall_of(min_samples, level);
    let precision = m.precision_of(min_samples, level);
    ConfusionView {
        level: e.level.text(),
        cells: m,
        total: m.sum(),
        recall: ratio_cell(recall),
        recall_bounds: bound_cells(recall, e.recall_interval),
        fpr: ratio_cell(m.fpr_of(min_samples, level)),
        precision: ratio_cell(precision),
        precision_bounds: bound_cells(precision, e.precision_interval),
        f1: estimate_cell(m.f1_of(min_samples)),
        accuracy: ratio_cell(m.accuracy_of(min_samples, level)),
        ci_level: real_of(level.percent(), 100),
    }
}

fn quantised_ratio(x: Option<Real>) -> (r: Option<Real>)
    ensures
        r == match x {
            Some(v) => Some(quantised_real(v, 10_000)),
            None => None,
        },
{
    match x {
        Some(v) => Some(Quantum::ratio().quantise(v)),
        None => None,
    }
}

fn find_bounds(r: &RatioEstimate, interval: Option<Interval>) -> (b: (Option<Real>, Option<Real>))
    ensures
        b == bound_cells(*r, interval),
{
    match r {
        RatioEstimate::Proportion { .. } => match interval {
            Some(i) => (
                Some(Quantum::probability().quantise(i.lo)),
                Some(Quantum::probability().quantise(i.hi)),
            ),
            None => (None, None),
        },
        _ => (None, None),
    }
}

/// The row of a matrix.
pub fn confusion_row(e: &MatrixEntry, min_samples: u64, level: ConfidenceLevel) -> (r: ConfusionRow)
    requires
        e.matrix.sum() <= u64::MAX,
    ensures
        r@ == matrix_row(*e, min_samples, level),
{
    let m = e.matrix;
    let recall = m.recall(min_samples, level);
    let precision = m.precision(min_samples, level);
    let (recall_ci_lo, recall_ci_hi) = find_bounds(&recall, e.recall_interval);
    let (precision_ci_lo, precision_ci_hi) = find_bounds(&precision, e.precision_interval);
    ConfusionRow {
        level: e.level.as_str(),
        tp: m.cell(Cell::Tp),
        fp: m.cell(Cell::Fp),
        fn_: m.cell(Cell::Fn),
        tn: m.cell(Cell::Tn),
        total: m.total(),
        recall: quantised_ratio(recall.point()),
        recall_ci_lo,
        recall_ci_hi,
        fpr: quantised_ratio(m.fpr(min_samples, level).point()),
        precision: quantised_ratio(precision.point()),
        precision_ci_lo,
        precision_ci_hi,
        f1: quantised_ratio(m.f1(min_samples).point()),
        accuracy: quantised_ratio(m.accuracy(min_samples, level).point()),
        ci_level: level.coverage(),
    }
}

/// The rows of some matrices, in their order.
pub fn confusion_rows(entries: &Vec<MatrixEntry>, min_samples: u64, level: ConfidenceLevel) -> (r:
    Vec<ConfusionRow>)
    requires
        forall|i: int| 0 <= i < entries@.len() ==> (#[trigger] entries@[i]).matrix.sum() <= u64::MAX,
    ensures
        r@.len() == entries@.len(),
        forall|i: int|
            0 <= i < entries@.len() ==> (#[trigger] r@[i])@ == matrix_row(
                entries@[i],
                min_samples,
                level,
            ),
{
    let n: usize = entries.len();
    let mut out: Vec<ConfusionRow> = Vec::new();
    let mut i: usize = 0;
    while i < n
        invariant
            n == entries@.len(),
            i <= n,
            out@.len() == i,
            forall|k: int| 0 <= k < n ==> (#[trigger] entries@[k]).matrix.sum() <= u64::MAX,
            forall|k: int|
                0 <= k < i ==> (#[trigger] out@[k])@ == matrix_row(entries@[k], min_samples, level),
        decreases n - i,
    {
        assert(entries@[i as int].matrix.sum() <= u64::MAX);
        out.push(confusion_row(&entries[i], min_samples, level));
        i = i + 1;
    }
    out
}

/// A matrix that is too thin for its summaries keeps its counts, and has no summary.
pub proof fn a_thin_matrix_keeps_its_counts(e: MatrixEntry, min_samples: u64, level: ConfidenceLevel)
    requires
        e.matrix.sum() < min_samples,
    ensures
        ({
            let r = matrix_row(e, min_samples, level);
            &&& r.cells == e.matrix
            &&& r.total == e.matrix.sum()
            &&& r.recall is None && r.fpr is None && r.precision is None
            &&& r.f1 is None && r.accuracy is None
            &&& r.recall_bounds == (None::<Real>, None::<Real>)
            &&& r.precision_bounds == (None::<Real>, None::<Real>)
        }),
{
}

/// The schema of a table.
#[verifier::external_type_specification]
#[verifier::external_body]
pub struct ExSchema(arrow::datatypes::Schema);

/// A table that is built: an `arrow::array::RecordBatch`, of which nothing is claimed.
#[verifier::external_body]
pub struct Batch {
    /// The columns, with their schema.
    pub columns: RecordBatch,
}

/// What went wrong with a table.
#[verifier::external_type_specification]
#[verifier::external_body]
pub struct ExArrowError(arrow::error::ArrowError);

/// A stream that tables are written to.
#[verifier::external_type_specification]
#[verifier::external_body]
#[verifier::reject_recursive_types(W)]
pub struct ExStreamWriter<W>(arrow::ipc::writer::StreamWriter<W>);

/// The fields of a schema, in order: the name, what it holds, and whether it may be empty.
pub uninterp spec fn schema_fields(s: Schema) -> Seq<(Seq<char>, Kind, bool)>;

/// The metadata of a schema.
pub uninterp spec fn schema_entries(s: Schema) -> Map<Seq<char>, Seq<char>>;

/// The schema of a batch.
pub uninterp spec fn batch_schema(b: Batch) -> Schema;

/// The schema that a stream was opened with.
pub uninterp spec fn stream_schema(w: StreamWriter<Vec<u8>>) -> Schema;

/// The batches that were written to a stream.
pub uninterp spec fn stream_batches(w: StreamWriter<Vec<u8>>) -> Seq<Batch>;

/// True if a stream can be opened with a schema.
pub uninterp spec fn stream_opens(s: Schema) -> bool;

/// True if a stream with a schema takes a batch after those that were written to it.
pub uninterp spec fn stream_takes(s: Schema, written: Seq<Batch>, b: Batch) -> bool;

/// The bytes of a finished stream.
pub uninterp spec fn stream_bytes(s: Schema, batches: Seq<Batch>) -> Seq<u8>;

/// No batch.
pub open spec fn no_batches() -> Seq<Batch> {
    Seq::empty()
}

/// The entries of some pairs, a later one in place of an earlier one of the same key.
pub open spec fn entries(s: Seq<(String, String)>) -> Map<Seq<char>, Seq<char>>
    decreases s.len(),
{
    if s.len() == 0 {
        Map::empty()
    } else {
        entries(s.drop_last()).insert(s.last().0@, s.last().1@)
    }
}

/// `arrow::datatypes::Schema::new_with_metadata`: the schema has a field of the given name,
/// type and nullability for each column, in order, and the given metadata.
#[verifier::external_body]
fn new_schema(columns: &Vec<Column>, metadata: Vec<(String, String)>) -> (r: Schema)
    ensures
        schema_fields(r) == views(columns@),
        schema_entries(r) == entries(metadata@),
{
    let data_type = |kind| match kind {
        Kind::Unsigned => DataType::UInt64,
        Kind::Signed => DataType::Int64,
        Kind::Number => DataType::Float64,
        Kind::Text => DataType::Utf8,
        Kind::Flag => DataType::Boolean,
    };
    let field = |c: &Column| Field::new(c.name, data_type(c.kind), c.nullable);
    let fields: Vec<Field> = columns.iter().map(field).collect();
    Schema::new_with_metadata(fields, metadata.into_iter().collect::<Metadata>())
}

/// The schema of the table of samples. Its metadata has exactly one entry.
pub fn sample_schema() -> (r: Arc<Schema>)
    ensures
        schema_fields(*r) == sample_fields(),
        schema_entries(*r) == Map::<Seq<char>, Seq<char>>::empty().insert(
            "schema"@,
            SAMPLE_SCHEMA_ID@,
        ),
{
    let metadata = schema_metadata(SAMPLE_SCHEMA_ID);
    proof {
        entries_of_one(metadata@);
    }
    Arc::new(new_schema(&sample_columns(), metadata))
}

/// The schema of the table of confusion matrices. Its metadata has exactly one entry.
pub fn confusion_schema() -> (r: Arc<Schema>)
    ensures
        schema_fields(*r) == confusion_fields(),
        schema_entries(*r) == Map::<Seq<char>, Seq<char>>::empty().insert(
            "schema"@,
            CONFUSION_SCHEMA_ID@,
        ),
{
    let metadata = schema_metadata(CONFUSION_SCHEMA_ID);
    proof {
        entries_of_one(metadata@);
    }
    Arc::new(new_schema(&confusion_columns(), metadata))
}

proof fn entries_of_one(s: Seq<(String, String)>)
    requires
        s.len() == 1,
    ensures
        entries(s) == Map::<Seq<char>, Seq<char>>::empty().insert(s[0].0@, s[0].1@),
{
    assert(s.drop_last() =~= Seq::empty());
    assert(entries(s.drop_last()) == Map::<Seq<char>, Seq<char>>::empty());
}

/// `arrow::array::RecordBatch::schema`: the schema of a batch.
#[verifier::external_body]
fn schema_of(b: &Batch) -> (r: Arc<Schema>)
    ensures
        *r == batch_schema(*b),
{
    b.columns.schema()
}

/// `arrow::ipc::writer::StreamWriter::try_new`, over a vector of bytes: a stream with the
/// given schema, to which no batch has been written. Whether the schema is refused depends
/// on the schema alone; which schemas are is left unsaid.
#[verifier::external_body]
fn open_stream(schema: &Schema) -> (r: Result<StreamWriter<Vec<u8>>, ArrowError>)
    ensures
        r is Ok <==> stream_opens(*schema),
        r matches Ok(w) ==> stream_schema(w) == *schema && stream_batches(w) == no_batches(),
{
    StreamWriter::try_new(Vec::new(), schema)
}

/// `arrow::ipc::writer::StreamWriter::write`, over a vector of bytes: adds a batch to the
/// stream. Whether the batch is refused depends on the stream's schema, what was written
/// before and the batch; which batches are is left unsaid.
#[verifier::external_body]
fn write_batch(w: &mut StreamWriter<Vec<u8>>, b: &Batch) -> (r: Result<(), ArrowError>)
    ensures
        r is Ok <==> stream_takes(stream_schema(*old(w)), stream_batches(*old(w)), *b),
        r is Ok ==> stream_schema(*final(w)) == stream_schema(*old(w)) && stream_batches(*final(w))
            == stream_batches(*old(w)).push(*b),
{
    w.write(&b.columns)
}

/// `arrow::ipc::writer::StreamWriter::into_inner`, over a vector of bytes: ends the stream
/// and hands back its bytes, which depend on the schema and the batches. Writing to a vector
/// does not fail, so neither does this.
#[verifier::external_body]
fn close_stream(w: StreamWriter<Vec<u8>>) -> (r: Result<Vec<u8>, ArrowError>)
    ensures
        r is Ok,
        r matches Ok(bytes) ==> bytes@ == stream_bytes(stream_schema(w), stream_batches(w)),
{
    w.into_inner()
}

/// The text of an `arrow::error::ArrowError`, of which nothing is claimed.
#[verifier::external_body]
fn arrow_text(e: &ArrowError) -> (r: String) {
    format!("{e}")
}

/// What is wrong with a stream that no batch is to be written to.
pub open spec fn no_batch() -> Seq<char> {
    "Invalid argument error: an IPC stream needs at least one batch, to carry the schema"@
}

/// True if a stream takes some batches, one after the other.
pub open spec fn stream_takes_all(s: Schema, batches: Seq<Batch>) -> bool {
    forall|i: int|
        0 <= i < batches.len() ==> stream_takes(s, batches.subrange(0, i), #[trigger] batches[i])
}

/// The batches as one stream, with the schema of the first. None is refused; otherwise the
/// stream is written just where the writer opens and takes every batch, and its bytes depend
/// on the batches alone.
pub fn to_ipc(batches: &Vec<Batch>) -> (r: Result<Vec<u8>, MetricError>)
    ensures
        r is Ok <==> {
            let s = batch_schema(batches@[0]);
            &&& batches@.len() > 0
            &&& stream_opens(s)
            &&& stream_takes_all(s, batches@)
        },
        match r {
            Ok(bytes) => bytes@ == stream_bytes(batch_schema(batches@[0]), batches@),
            Err(e) => {
                &&& e@ is Arrow
                &&& batches@.len() == 0 ==> e@ == ErrorView::Arrow { problem: no_batch() }
            },
        },
{
    if batches.len() == 0 {
        return Err(
            MetricError::Arrow {
                problem: "Invalid argument error: an IPC stream needs at least one batch, to carry the schema".to_owned(),
            },
        );
    }
    let schema = schema_of(&batches[0]);
    let ghost s = batch_schema(batches@[0]);
    let mut w = match open_stream(&*schema) {
        Ok(w) => w,
        Err(e) => {
            return Err(MetricError::Arrow { problem: arrow_text(&e) });
        },
    };
    let n: usize = batches.len();
    let mut i: usize = 0;
    assert(batches@.subrange(0, 0) =~= no_batches());
    while i < n
        invariant
            n == batches@.len(),
            0 < n,
            i <= n,
            s == batch_schema(batches@[0]),
            stream_schema(w) == s,
            stream_batches(w) == batches@.subrange(0, i as int),
            forall|j: int|
                0 <= j < i ==> stream_takes(s, batches@.subrange(0, j), #[trigger] batches@[j]),
        decreases n - i,
    {
        match write_batch(&mut w, &batches[i]) {
            Ok(_) => {},
            Err(e) => {
                assert(!stream_takes(s, batches@.subrange(0, i as int), batches@[i as int]));
                return Err(MetricError::Arrow { problem: arrow_text(&e) });
            },
        }
        assert(batches@.subrange(0, i as int + 1) =~= batches@.subrange(0, i as int).push(
            batches@[i as int],
        ));
        i = i + 1;
    }
    assert(batches@.subrange(0, n as int) =~= batches@);
    match close_stream(w) {
        Ok(bytes) => Ok(bytes),
        Err(_) => unreached(),
    }
}

} // verus!
