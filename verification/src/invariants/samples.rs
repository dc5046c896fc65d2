//! Checks on the samples of a run.

use vstd::prelude::*;
use vstd::string::*;
use crate::basic::SimTime;
use crate::card::{group_views, views};
use crate::channels::ByteBucket;
use crate::def::{graded_view, DefView, Dim, DimList, DimText, DimValue, MetricDef, MetricSample, SampleValue, SampleView};
use crate::distribution::DistributionSummary;
use crate::invariants::outcome::{did_not_run, finding, ran, InvariantOutcome, InvariantViolation, Number, OutcomeView, ViolationView};
use crate::invariants::records::appended;
use crate::keyed::{in_order, listed, SortedMap};
use crate::outside::{quoted, quoted_text};
use crate::quant::{fitted, index_of, number_text, on_grid, quantised_real, quotient, real_of, Quantum, Real};
use crate::text::{decimal, join3, numeral, same_text};
use crate::wide::{of_at_most, WideSum};

verus! {

/// Every number of every sample is on its grid.
pub const D9: &'static str = "every exported float is finite and sits on the declared grid the writer quantised it onto; a scanning test fails the build if any output value sits off its grid";

/// The numbers of one sample that are off the grid they were put on.
pub open spec fn grid_findings(key: Seq<char>, graded: Seq<(Real, int)>) -> Seq<ViolationView>
    decreases graded.len(),
{
    if graded.len() == 0 {
        Seq::empty()
    } else {
        let (x, q) = graded.last();
        appended(
            grid_findings(key, graded.drop_last()),
            if !on_grid(x@, q) {
                Some(
                    finding(
                        "D9"@,
                        Some(key),
                        "the value "@ + number_text(x@) + " is off the declared grid "@
                            + number_text(quotient(1, q)),
                    ).with("value"@, Number::Real(x)).with(
                        "quantum"@,
                        Number::Real(real_of(1, q)),
                    ),
                )
            } else {
                None
            },
        )
    }
}

/// The numbers of some samples that are off the grid they were put on.
pub open spec fn grids_findings(s: Seq<SampleView>) -> Seq<ViolationView>
    decreases s.len(),
{
    if s.len() == 0 {
        Seq::empty()
    } else {
        grids_findings(s.drop_last()) + grid_findings(
            s.last().key(),
            s.last().value.graded(s.last().per_unit),
        )
    }
}

/// How many numbers some samples carry.
pub open spec fn number_count(s: Seq<SampleView>) -> int
    decreases s.len(),
{
    if s.len() == 0 {
        0
    } else {
        number_count(s.drop_last()) + s.last().value.graded(s.last().per_unit).len()
    }
}

/// What the scan of all numbers finds.
pub open spec fn d9(s: Seq<SampleView>) -> OutcomeView {
    if s.len() == 0 {
        did_not_run("D9"@, D9@, "no metric samples"@)
    } else {
        ran("D9"@, D9@, number_count(s), grids_findings(s))
    }
}

fn scan_sample(s: &MetricSample, out: &mut Vec<InvariantViolation>) -> (n: u64)
    ensures
        n == s.value.graded(s.quantum@).len(),
        n <= 6,
        views(final(out)@) == views(old(out)@) + grid_findings(
            s@.key(),
            s.value.graded(s.quantum@),
        ),
{
    broadcast use group_views;

    let ghost start = views(out@);
    let graded = s.graded_floats();
    let ghost all = graded_view(graded@);
    assert(all.len() == graded@.len());
    let mut i: usize = 0;
    assert(all.subrange(0, 0) =~= Seq::<(Real, int)>::empty());
    assert(start + Seq::<ViolationView>::empty() =~= start);
    while i < graded.len()
        invariant
            all == graded_view(graded@),
            all.len() == graded@.len(),
            i <= graded@.len(),
            views(out@) == start + grid_findings(s@.key(), all.subrange(0, i as int)),
        decreases graded@.len() - i,
    {
        broadcast use group_views;

        let (x, q) = graded[i];
        let ghost before = grid_findings(s@.key(), all.subrange(0, i as int));
        proof {
            let next = all.subrange(0, i as int + 1);
            assert(next.drop_last() =~= all.subrange(0, i as int));
            assert(next.last() == (x, q@));
        }
        if !q.holds(x) {
            let mut detail = join3("the value ", x.to_text().as_str(), " is off the declared grid ");
            detail.append(q.get().to_text().as_str());
            let v = InvariantViolation::new("D9", Some(s.key()), detail).with(
                "value",
                Number::Real(x),
            ).with("quantum", Number::Real(q.get()));
            out.push(v);
            assert(views(out@) =~= start + before.push(v@));
        }
        i = i + 1;
    }
    assert(all.subrange(0, i as int) =~= all);
    graded.len() as u64
}

/// Checks that every number of every sample stands on the grid it was put on.
pub fn check_d9_quantisation(samples: &Vec<MetricSample>) -> (r: InvariantOutcome)
    requires
        samples@.len() * 6 <= u64::MAX,
    ensures
        r@ == d9(views(samples@)),
{
    broadcast use group_views;

    let ghost all = views(samples@);
    assert(all.len() == samples@.len());
    if samples.len() == 0 {
        return InvariantOutcome::not_run("D9", D9, "no metric samples");
    }
    let mut out: Vec<InvariantViolation> = Vec::new();
    let mut n: u64 = 0;
    let mut i: usize = 0;
    assert(all.subrange(0, 0) =~= Seq::<SampleView>::empty());
    while i < samples.len()
        invariant
            all == views(samples@),
            all.len() == samples@.len(),
            samples@.len() * 6 <= u64::MAX,
            i <= samples@.len(),
            0 <= n <= i * 6,
            n == number_count(all.subrange(0, i as int)),
            views(out@) == grids_findings(all.subrange(0, i as int)),
        decreases samples@.len() - i,
    {
        proof {
            assert(all[i as int] == samples@[i as int]@);
            let next = all.subrange(0, i as int + 1);
            assert(next.drop_last() =~= all.subrange(0, i as int));
            assert(next.last() == samples@[i as int]@);
        }
        let k: u64 = scan_sample(&samples[i], &mut out);
        n = n + k;
        i = i + 1;
    }
    assert(all.subrange(0, i as int) =~= all);
    InvariantOutcome::of("D9", D9, n, out)
}

/// The buckets' byte rates sum to the total.
pub const M_BYTE2: &'static str = "in every window the five per-bucket byte rates sum to bytes_total";

/// A sum of values in millionths, and of how many.
#[derive(Clone, Copy, Debug)]
pub struct GridSum {
    /// The sum.
    pub sum: WideSum,
    /// How many values it is of.
    pub n: u64,
}

impl View for GridSum {
    type V = (int, int);

    open spec fn view(&self) -> (int, int) {
        (self.sum@, self.n as int)
    }
}

impl GridSum {
    fn new() -> (r: GridSum)
        ensures
            r@ == (0int, 0int),
    {
        GridSum { sum: WideSum::new(), n: 0 }
    }
}

/// The sum held for a key, none where there is none.
pub open spec fn sum_for<K>(m: Map<K, (int, int)>, k: K) -> (int, int) {
    if m.contains_key(k) {
        m[k]
    } else {
        (0, 0)
    }
}

/// Some sums, with one more value.
pub open spec fn summed<K>(m: Map<K, (int, int)>, k: K, g: int) -> Map<K, (int, int)> {
    m.insert(k, (sum_for(m, k).0 + g, sum_for(m, k).1 + 1))
}

/// True if a metric reports the byte rate of one bucket.
pub open spec fn is_bucket_rate(metric: Seq<char>) -> bool {
    ||| metric == ByteBucket::Air.metric_text()
    ||| metric == ByteBucket::CellularUl.metric_text()
    ||| metric == ByteBucket::CellularDl.metric_text()
    ||| metric == ByteBucket::Backhaul.metric_text()
    ||| metric == ByteBucket::Backend.metric_text()
}

/// The total byte rate of every window, in millionths of a byte per second.
pub open spec fn total_rates(s: Seq<SampleView>) -> Map<SimTime, i128>
    decreases s.len(),
{
    if s.len() == 0 {
        Map::empty()
    } else {
        let m = total_rates(s.drop_last());
        match s.last().value.estimate() {
            Some(v) => if s.last().metric == "bytes_total"@ {
                m.insert(s.last().t, index_of(v@, 1_000_000) as i128)
            } else {
                m
            },
            None => m,
        }
    }
}

/// The summed byte rates of the buckets in every window, in millionths.
pub open spec fn bucket_rates(s: Seq<SampleView>) -> Map<SimTime, (int, int)>
    decreases s.len(),
{
    if s.len() == 0 {
        Map::empty()
    } else {
        let m = bucket_rates(s.drop_last());
        match s.last().value.estimate() {
            Some(v) => if s.last().metric != "bytes_total"@ && is_bucket_rate(s.last().metric) {
                summed(m, s.last().t, index_of(v@, 1_000_000))
            } else {
                m
            },
            None => m,
        }
    }
}

/// True if `a` and `b` differ by more than `tolerance`.
pub open spec fn apart(a: int, b: int, tolerance: int) -> bool {
    a - b > tolerance || b - a > tolerance
}

/// The windows in which the buckets do not sum to the total.
pub open spec fn rate_findings(s: Seq<(SimTime, i128)>, parts: Map<SimTime, (int, int)>) -> Seq<
    ViolationView,
>
    decreases s.len(),
{
    if s.len() == 0 {
        Seq::empty()
    } else {
        let (t, total) = s.last();
        let (sum, n) = sum_for(parts, t);
        let tolerance = 1_000 * if n > 1 {
            n
        } else {
            1
        };
        appended(
            rate_findings(s.drop_last(), parts),
            if apart(sum, total as int, tolerance) {
                Some(
                    finding(
                        "M-BYTE2"@,
                        Some("t = "@ + numeral(t as nat) + " ns"@),
                        "the buckets do not sum to the total"@,
                    ).with(
                        "buckets"@,
                        Number::Real(quantised_real(real_of(fitted(sum), 1_000_000), 1_000)),
                    ).with(
                        "total"@,
                        Number::Real(quantised_real(real_of(total as int, 1_000_000), 1_000)),
                    ),
                )
            } else {
                None
            },
        )
    }
}

/// What the check of byte rates finds.
pub open spec fn m_byte2(s: Seq<SampleView>) -> OutcomeView {
    let totals = in_order::<u64, i128>(total_rates(s));
    if totals.len() == 0 {
        did_not_run("M-BYTE2"@, M_BYTE2@, "no bytes_total samples"@)
    } else {
        ran(
            "M-BYTE2"@,
            M_BYTE2@,
            totals.len() as int,
            rate_findings(totals, bucket_rates(s)),
        )
    }
}

fn is_rate_of_bucket(metric: &str) -> (r: bool)
    ensures
        r == is_bucket_rate(metric@),
{
    same_text(metric, ByteBucket::Air.metric_name()) || same_text(
        metric,
        ByteBucket::CellularUl.metric_name(),
    ) || same_text(metric, ByteBucket::CellularDl.metric_name()) || same_text(
        metric,
        ByteBucket::Backhaul.metric_name(),
    ) || same_text(metric, ByteBucket::Backend.metric_name())
}

/// True if every sum in `m` is of at most `i` values.
spec fn small_sums<K>(m: Map<K, (int, int)>, i: int) -> bool {
    forall|k: K|
        #[trigger] m.contains_key(k) ==> {
            &&& 0 <= m[k].1 <= i
            &&& of_at_most(m[k].0, i)
        }
}

/// Checks that in every window the buckets' byte rates sum to the total, to within the
/// rounding of so many values.
pub fn check_m_byte2(samples: &Vec<MetricSample>) -> (r: InvariantOutcome)
    requires
        samples@.len() <= 0x7fff_ffff_ffff_ffff,
    ensures
        r@ == m_byte2(views(samples@)),
{
    broadcast use group_views;

    let ghost all = views(samples@);
    assert(all.len() == samples@.len());
    let mut totals: SortedMap<u64, i128> = SortedMap::new();
    let mut parts: SortedMap<u64, GridSum> = SortedMap::new();
    let mut i: usize = 0;
    assert(all.subrange(0, 0) =~= Seq::<SampleView>::empty());
    while i < samples.len()
        invariant
            all == views(samples@),
            all.len() == samples@.len(),
            samples@.len() <= 0x7fff_ffff_ffff_ffff,
            i <= samples@.len(),
            totals@ == total_rates(all.subrange(0, i as int)),
            parts@ == bucket_rates(all.subrange(0, i as int)),
            small_sums(parts@, i as int),
        decreases samples@.len() - i,
    {
        let s = &samples[i];
        proof {
            assert(all[i as int] == s@);
            let next = all.subrange(0, i as int + 1);
            assert(next.drop_last() =~= all.subrange(0, i as int));
            assert(next.last() == s@);
        }
        if let Some(v) = s.value.point() {
            let g: i128 = Quantum::probability().index(v);
            if same_text(s.metric.as_str(), "bytes_total") {
                let _ = totals.insert(s.t, g);
            } else if is_rate_of_bucket(s.metric.as_str()) {
                let ghost before = parts@;
                let held: GridSum = match parts.get(&s.t) {
                    Some(p) => *p,
                    None => GridSum::new(),
                };
                assert(held@ == sum_for(before, s.t));
                assert(before.contains_key(s.t) ==> before[s.t].1 <= i);
                let _ = parts.insert(s.t, GridSum { sum: held.sum.plus(g), n: held.n + 1 });
                assert(parts@ =~= summed(before, s.t, g as int));
            }
        }
        i = i + 1;
    }
    assert(all.subrange(0, i as int) =~= all);
    let n: usize = totals.len();
    if n == 0 {
        return InvariantOutcome::not_run("M-BYTE2", M_BYTE2, "no bytes_total samples");
    }
    let ghost listing = totals.listing();
    let mut out: Vec<InvariantViolation> = Vec::new();
    let mut j: usize = 0;
    assert(listing.subrange(0, 0) =~= Seq::<(SimTime, i128)>::empty());
    while j < n
        invariant
            n == totals.listing().len(),
            listing == totals.listing(),
            j <= n,
            small_sums(parts@, i as int),
            i <= 0x7fff_ffff_ffff_ffff,
            views(out@) == rate_findings(listing.subrange(0, j as int), parts@),
        decreases n - j,
    {
        broadcast use group_views;

        proof {
            let next = listing.subrange(0, j as int + 1);
            assert(next.drop_last() =~= listing.subrange(0, j as int));
            assert(next.last() == listing[j as int]);
        }
        let t: u64 = *totals.key_at(j);
        let total: i128 = *totals.value_at(j);
        let held: GridSum = match parts.get(&t) {
            Some(p) => *p,
            None => GridSum::new(),
        };
        assert(held@ == sum_for(parts@, t));
        assert(parts@.contains_key(t) ==> parts@[t].1 <= i);
        let tolerance: i128 = if held.n > 1 {
            1_000 * (held.n as i128)
        } else {
            1_000
        };
        if held.sum.differs(total, tolerance) {
            out.push(
                InvariantViolation::new(
                    "M-BYTE2",
                    Some(join3("t = ", decimal(t).as_str(), " ns")),
                    "the buckets do not sum to the total".to_owned(),
                ).with(
                    "buckets",
                    Number::rounded(Real::new(held.sum.fit(), 1_000_000), Quantum::bytes()),
                ).with(
                    "total",
                    Number::rounded(Real::new(total, 1_000_000), Quantum::bytes()),
                ),
            );
        }
        j = j + 1;
    }
    assert(listing.subrange(0, n as int) =~= listing);
    InvariantOutcome::of("M-BYTE2", M_BYTE2, n as u64, out)
}

/// The stage shares of one flow sum to one.
pub const M_SHARE: &'static str = "in every window the latency-stage shares of one flow and message type sum to one";

/// A sample's value along one dimension.
pub open spec fn along(dims: DimList, d: Dim) -> Option<DimText> {
    if listed(dims).contains_key(d) {
        Some(listed(dims)[d])
    } else {
        None
    }
}

/// An optional dimension value as it is written for debugging.
pub open spec fn dim_debug(v: Option<DimText>) -> Seq<char> {
    match v {
        Some(DimText::Label(s)) => "Some(Label("@ + quoted_text(s) + "))"@,
        Some(DimText::Index(i)) => "Some(Index("@ + numeral(i as nat) + "))"@,
        None => "None"@,
    }
}

/// The window, the flow and the message type of a sample.
pub open spec fn share_key(s: SampleView) -> Seq<char> {
    "t="@ + numeral(s.t as nat) + " flow="@ + dim_debug(along(s.dims, Dim::Flow)) + " msg_type="@
        + dim_debug(along(s.dims, Dim::MsgType))
}

/// The summed stage shares of every window, flow and message type, in millionths.
pub open spec fn share_sums(s: Seq<SampleView>) -> Map<Seq<char>, (int, int)>
    decreases s.len(),
{
    if s.len() == 0 {
        Map::empty()
    } else {
        let m = share_sums(s.drop_last());
        match s.last().value.estimate() {
            Some(v) => if s.last().metric == "latency_stage_share"@ {
                summed(m, share_key(s.last()), index_of(v@, 1_000_000))
            } else {
                m
            },
            None => m,
        }
    }
}

/// The keys whose shares do not sum to one.
pub open spec fn share_findings(s: Seq<(Seq<char>, (int, int))>) -> Seq<ViolationView>
    decreases s.len(),
{
    if s.len() == 0 {
        Seq::empty()
    } else {
        let (key, (sum, n)) = s.last();
        appended(
            share_findings(s.drop_last()),
            if apart(sum, 1_000_000, 100 * n) {
                Some(
                    finding("M-SHARE"@, Some(key), "the stage shares do not sum to one"@).with(
                        "sum"@,
                        Number::Real(quantised_real(real_of(fitted(sum), 1_000_000), 10_000)),
                    ),
                )
            } else {
                None
            },
        )
    }
}

/// What the check of stage shares finds.
pub open spec fn m_share(s: Seq<SampleView>) -> OutcomeView {
    let sums = in_order::<String, (int, int)>(share_sums(s));
    if sums.len() == 0 {
        did_not_run("M-SHARE"@, M_SHARE@, "no latency_stage_share samples"@)
    } else {
        ran("M-SHARE"@, M_SHARE@, sums.len() as int, share_findings(sums))
    }
}

fn debug_dim(v: Option<&DimValue>) -> (r: String)
    ensures
        r@ == dim_debug(
            match v {
                Some(x) => Some(x@),
                None => None,
            },
        ),
{
    match v {
        Some(DimValue::Label(s)) => join3("Some(Label(", quoted(s.as_str()).as_str(), "))"),
        Some(DimValue::Index(i)) => join3("Some(Index(", decimal(*i).as_str(), "))"),
        None => "None".to_owned(),
    }
}

fn key_of_share(s: &MetricSample) -> (r: String)
    ensures
        r@ == share_key(s@),
{
    let mut k = join3("t=", decimal(s.t).as_str(), " flow=");
    k.append(debug_dim(s.dims.get(&Dim::Flow)).as_str());
    k.append(" msg_type=");
    k.append(debug_dim(s.dims.get(&Dim::MsgType)).as_str());
    k
}

/// Checks that the stage shares of every window, flow and message type sum to one, to
/// within the rounding of so many values.
pub fn check_m_share(samples: &Vec<MetricSample>) -> (r: InvariantOutcome)
    requires
        samples@.len() <= 0x7fff_ffff_ffff_ffff,
    ensures
        r@ == m_share(views(samples@)),
{
    broadcast use group_views;

    let ghost all = views(samples@);
    assert(all.len() == samples@.len());
    let mut sums: SortedMap<String, GridSum> = SortedMap::new();
    let mut i: usize = 0;
    assert(all.subrange(0, 0) =~= Seq::<SampleView>::empty());
    while i < samples.len()
        invariant
            all == views(samples@),
            all.len() == samples@.len(),
            samples@.len() <= 0x7fff_ffff_ffff_ffff,
            i <= samples@.len(),
            sums@ == share_sums(all.subrange(0, i as int)),
            small_sums(sums@, i as int),
        decreases samples@.len() - i,
    {
        let s = &samples[i];
        proof {
            assert(all[i as int] == s@);
            let next = all.subrange(0, i as int + 1);
            assert(next.drop_last() =~= all.subrange(0, i as int));
            assert(next.last() == s@);
        }
        if same_text(s.metric.as_str(), "latency_stage_share") {
            if let Some(v) = s.value.point() {
                let g: i128 = Quantum::probability().index(v);
                let key = key_of_share(s);
                let ghost before = sums@;
                let held: GridSum = match sums.get(&key) {
                    Some(p) => *p,
                    None => GridSum::new(),
                };
                assert(held@ == sum_for(before, key@));
                assert(before.contains_key(key@) ==> before[key@].1 <= i);
                let ghost k = key@;
                let _ = sums.insert(key, GridSum { sum: held.sum.plus(g), n: held.n + 1 });
                assert(sums@ =~= summed(before, k, g as int));
            }
        }
        i = i + 1;
    }
    assert(all.subrange(0, i as int) =~= all);
    let n: usize = sums.len();
    if n == 0 {
        return InvariantOutcome::not_run("M-SHARE", M_SHARE, "no latency_stage_share samples");
    }
    let ghost listing = sums.listing();
    let mut out: Vec<InvariantViolation> = Vec::new();
    let mut j: usize = 0;
    assert(listing.subrange(0, 0) =~= Seq::<(Seq<char>, (int, int))>::empty());
    while j < n
        invariant
            n == sums.listing().len(),
            listing == sums.listing(),
            j <= n,
            small_sums(sums@, i as int),
            i <= 0x7fff_ffff_ffff_ffff,
            forall|q: int|
                0 <= q < n ==> sums@.contains_key(#[trigger] listing[q].0) && sums@[listing[q].0]
                    == listing[q].1,
            views(out@) == share_findings(listing.subrange(0, j as int)),
        decreases n - j,
    {
        broadcast use group_views;

        proof {
            let next = listing.subrange(0, j as int + 1);
            assert(next.drop_last() =~= listing.subrange(0, j as int));
            assert(next.last() == listing[j as int]);
            assert(sums@.contains_key(listing[j as int].0));
        }
        let held: GridSum = *sums.value_at(j);
        let tolerance: i128 = 100 * (held.n as i128);
        if held.sum.differs(1_000_000, tolerance) {
            out.push(
                InvariantViolation::new(
                    "M-SHARE",
                    Some(sums.key_at(j).clone()),
                    "the stage shares do not sum to one".to_owned(),
                ).with("sum", Number::rounded(Real::new(held.sum.fit(), 1_000_000), Quantum::ratio())),
            );
        }
        j = j + 1;
    }
    assert(listing.subrange(0, n as int) =~= listing);
    InvariantOutcome::of("M-SHARE", M_SHARE, n as u64, out)
}

/// No sample reports what is physically impossible.
pub const M_RANGE: &'static str = "no metric sample reports a value its definition declares physically impossible: a negative delay, a ratio of a part to its whole above one, a negative count";

/// The last definition with the given name.
pub open spec fn definition_of(catalog: Seq<DefView>, name: Seq<char>) -> Option<DefView>
    decreases catalog.len(),
{
    if catalog.len() == 0 {
        None
    } else if catalog.last().name == name {
        Some(catalog.last())
    } else {
        definition_of(catalog.drop_last(), name)
    }
}

/// The numbers of a value that a range applies to: all of a distribution's, and otherwise
/// the estimate.
pub open spec fn ranged_numbers(v: SampleValue) -> Seq<Real> {
    match v {
        SampleValue::Distribution(
            DistributionSummary::Summary { min, max, mean, p50, p95, p99, .. },
        ) => seq![min, max, mean, p50, p95, p99],
        _ => match v.estimate() {
            Some(x) => seq![x],
            None => Seq::empty(),
        },
    }
}

/// A bound as text.
pub open spec fn bound_text(b: Option<Real>, none: Seq<char>) -> Seq<char> {
    match b {
        Some(x) => number_text(x@),
        None => none,
    }
}

/// The numbers outside a metric's range.
pub open spec fn range_findings(s: SampleView, d: DefView, values: Seq<Real>) -> Seq<ViolationView>
    decreases values.len(),
{
    if values.len() == 0 {
        Seq::empty()
    } else {
        let v = values.last();
        appended(
            range_findings(s, d, values.drop_last()),
            if !d.possible(v) {
                Some(
                    finding(
                        "M-RANGE"@,
                        Some(s.key()),
                        number_text(v@) + " "@ + d.unit + " is outside ["@ + bound_text(
                            d.min_value,
                            "-inf"@,
                        ) + ", "@ + bound_text(d.max_value, "inf"@) + "]"@,
                    ).with("value"@, Number::Real(quantised_real(v, s.per_unit))),
                )
            } else {
                None
            },
        )
    }
}

/// The numbers of some samples outside the ranges of a catalogue.
pub open spec fn ranges_findings(s: Seq<SampleView>, catalog: Seq<DefView>) -> Seq<ViolationView>
    decreases s.len(),
{
    if s.len() == 0 {
        Seq::empty()
    } else {
        let before = ranges_findings(s.drop_last(), catalog);
        match definition_of(catalog, s.last().metric) {
            Some(d) => before + range_findings(s.last(), d, ranged_numbers(s.last().value)),
            None => before,
        }
    }
}

/// How many numbers of some samples a catalogue has a definition for.
pub open spec fn ranged_count(s: Seq<SampleView>, catalog: Seq<DefView>) -> int
    decreases s.len(),
{
    if s.len() == 0 {
        0
    } else {
        ranged_count(s.drop_last(), catalog) + (match definition_of(catalog, s.last().metric) {
            Some(d) => ranged_numbers(s.last().value).len() as int,
            None => 0,
        })
    }
}

/// What the check of physical ranges finds.
pub open spec fn m_range(s: Seq<SampleView>, catalog: Seq<DefView>) -> OutcomeView {
    if s.len() == 0 {
        did_not_run("M-RANGE"@, M_RANGE@, "no metric samples"@)
    } else {
        ran("M-RANGE"@, M_RANGE@, ranged_count(s, catalog), ranges_findings(s, catalog))
    }
}

fn find_definition<'a>(catalog: &'a Vec<MetricDef>, name: &str) -> (r: Option<&'a MetricDef>)
    ensures
        match r {
            Some(d) => definition_of(views(catalog@), name@) == Some(d@),
            None => definition_of(views(catalog@), name@) is None,
        },
{
    let ghost all = views(catalog@);
    let mut i: usize = catalog.len();
    assert(all.subrange(0, i as int) =~= all);
    while i > 0
        invariant
            all == views(catalog@),
            all.len() == catalog@.len(),
            i <= catalog@.len(),
            definition_of(all, name@) == definition_of(all.subrange(0, i as int), name@),
        decreases i,
    {
        proof {
            let now = all.subrange(0, i as int);
            assert(now.last() == catalog@[i - 1]@);
            assert(now.drop_last() =~= all.subrange(0, i - 1));
        }
        if same_text(catalog[i - 1].name.as_str(), name) {
            return Some(&catalog[i - 1]);
        }
        i = i - 1;
    }
    None
}

fn numbers_in_range(v: SampleValue) -> (r: Vec<Real>)
    ensures
        r@ == ranged_numbers(v),
        r@.len() <= 6,
{
    let out: Vec<Real> = match v {
        SampleValue::Distribution(
            DistributionSummary::Summary { min, max, mean, p50, p95, p99, .. },
        ) => vec![min, max, mean, p50, p95, p99],
        _ => match v.point() {
            Some(x) => vec![x],
            None => Vec::new(),
        },
    };
    assert(out@ =~= ranged_numbers(v));
    out
}

fn shown_bound(b: Option<Real>, none: &str) -> (r: String)
    ensures
        r@ == bound_text(b, none@),
{
    match b {
        Some(x) => x.to_text(),
        None => none.to_owned(),
    }
}

fn audit_range(s: &MetricSample, d: &MetricDef, values: &Vec<Real>, out: &mut Vec<InvariantViolation>)
    ensures
        views(final(out)@) == views(old(out)@) + range_findings(s@, d@, values@),
{
    broadcast use group_views;

    let ghost start = views(out@);
    let mut i: usize = 0;
    assert(values@.subrange(0, 0) =~= Seq::<Real>::empty());
    assert(start + Seq::<ViolationView>::empty() =~= start);
    while i < values.len()
        invariant
            i <= values@.len(),
            views(out@) == start + range_findings(s@, d@, values@.subrange(0, i as int)),
        decreases values@.len() - i,
    {
        broadcast use group_views;

        let v: Real = values[i];
        let ghost before = range_findings(s@, d@, values@.subrange(0, i as int));
        proof {
            let next = values@.subrange(0, i as int + 1);
            assert(next.drop_last() =~= values@.subrange(0, i as int));
            assert(next.last() == v);
        }
        if !d.admits(v) {
            let mut detail = join3(v.to_text().as_str(), " ", d.unit.as_str());
            detail.append(" is outside [");
            detail.append(shown_bound(d.min_value, "-inf").as_str());
            detail.append(", ");
            detail.append(shown_bound(d.max_value, "inf").as_str());
            detail.append("]");
            let f = InvariantViolation::new("M-RANGE", Some(s.key()), detail).with(
                "value",
                Number::rounded(v, s.quantum),
            );
            out.push(f);
            assert(views(out@) =~= start + before.push(f@));
        }
        i = i + 1;
    }
    assert(values@.subrange(0, i as int) =~= values@);
}

/// Checks that every sample lies in the physical range that its metric declares.
pub fn check_metric_ranges(samples: &Vec<MetricSample>, catalog: &Vec<MetricDef>) -> (r:
    InvariantOutcome)
    requires
        samples@.len() * 6 <= u64::MAX,
    ensures
        r@ == m_range(views(samples@), views(catalog@)),
{
    broadcast use group_views;

    let ghost all = views(samples@);
    let ghost defs = views(catalog@);
    assert(all.len() == samples@.len());
    if samples.len() == 0 {
        return InvariantOutcome::not_run("M-RANGE", M_RANGE, "no metric samples");
    }
    let mut out: Vec<InvariantViolation> = Vec::new();
    let mut n: u64 = 0;
    let mut i: usize = 0;
    assert(all.subrange(0, 0) =~= Seq::<SampleView>::empty());
    while i < samples.len()
        invariant
            all == views(samples@),
            defs == views(catalog@),
            all.len() == samples@.len(),
            samples@.len() * 6 <= u64::MAX,
            i <= samples@.len(),
            0 <= n <= i * 6,
            n == ranged_count(all.subrange(0, i as int), defs),
            views(out@) == ranges_findings(all.subrange(0, i as int), defs),
        decreases samples@.len() - i,
    {
        let s = &samples[i];
        proof {
            assert(all[i as int] == s@);
            let next = all.subrange(0, i as int + 1);
            assert(next.drop_last() =~= all.subrange(0, i as int));
            assert(next.last() == s@);
        }
        if let Some(d) = find_definition(catalog, s.metric.as_str()) {
            let values = numbers_in_range(s.value);
            n = n + values.len() as u64;
            audit_range(s, d, &values, &mut out);
        }
        i = i + 1;
    }
    assert(all.subrange(0, i as int) =~= all);
    InvariantOutcome::of("M-RANGE", M_RANGE, n, out)
}

} // verus!
