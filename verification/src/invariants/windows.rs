//! What providers report passes the checks.
//!
//! A window's numbers are exact sums that are rounded on their way out. The laws below say
//! that the rounding never makes a check fail.

use vstd::prelude::*;
use vstd::string::*;
use crate::basic::SimTime;
use crate::catalog::latency as latency_catalog;
use crate::channels::ByteBucket;
use crate::comms::{rate, the_buckets_sum_to_the_total, window_length, CommsView};
use crate::def::{sample_of, Dim, DimList, DimText, SampleValue, SampleView};
use crate::invariants::laws::{m_byte2_holds_where_rates_sum_up, m_share_holds_where_shares_sum_up, rates_sum_up, shares_sum_up};
use crate::invariants::samples::{along, bucket_rates, is_bucket_rate, m_byte2, m_share, share_key, share_sums, summed, total_rates};
use crate::keyed::{in_order, increasing, listed, listed_at, orderly, ranked_at, Key};
use crate::latency_metrics::{flow_dims, FlowView, LatencyView};
use crate::quant::{index_of, quotient, real_of_is_the_quotient, rounded, rounded_is_monotone, rounded_is_nearest, rounded_multiple, NANO};
use crate::stats::whole_sums_ratio;
use crate::tally::{amount, sum_bounds, sum_of, total_of};

verus! {

/// True if a metric is read by the check of byte rates.
spec fn is_byte_rate(metric: Seq<char>) -> bool {
    metric == "bytes_total"@ || is_bucket_rate(metric)
}

proof fn byte_rate_names()
    ensures
        forall|b: ByteBucket| (#[trigger] b.metric_text()) != "bytes_total"@,
        forall|b: ByteBucket| is_bucket_rate(#[trigger] b.metric_text()),
        forall|m: Seq<char>|
            m.len() == 3 || m.len() == 7 || m.len() == 12 || m.len() == 16
                ==> !(#[trigger] is_byte_rate(m)),
{
    reveal_strlit("bytes_total");
    reveal_strlit("bytes_air");
    reveal_strlit("bytes_uu_ul");
    reveal_strlit("bytes_uu_dl");
    reveal_strlit("bytes_backhaul");
    reveal_strlit("bytes_backend");
    assert("bytes_total"@[6] == 't');
    assert("bytes_uu_ul"@[6] == 'u');
    assert("bytes_uu_dl"@[6] == 'u');
}

/// Samples of other metrics do not count.
proof fn others_do_not_count(a: Seq<SampleView>, b: Seq<SampleView>)
    requires
        forall|i: int| 0 <= i < a.len() ==> !is_byte_rate((#[trigger] a[i]).metric),
    ensures
        total_rates(a + b) == total_rates(b),
        bucket_rates(a + b) == bucket_rates(b),
    decreases a.len() + b.len(),
{
    if b.len() > 0 {
        others_do_not_count(a, b.drop_last());
        assert((a + b).drop_last() =~= a + b.drop_last());
        assert((a + b).last() == b.last());
    } else {
        assert(a + b =~= a);
        if a.len() > 0 {
            let init = a.drop_last();
            assert forall|i: int| 0 <= i < init.len() implies !is_byte_rate(
                (#[trigger] init[i]).metric,
            ) by {
                assert(init[i] == a[i]);
            }
            others_do_not_count(init, b);
            assert(init + b =~= init);
            assert(!is_byte_rate(a[a.len() - 1].metric));
        }
    }
}

/// The grid point, in thousandths, that a byte rate is rounded to.
spec fn rate_point(n: int, ns: int) -> int {
    rounded(n * NANO * 1_000, ns)
}

/// A rate of bytes that five 64-bit counters hold fits a number, in millionths.
proof fn rate_fits(n: int, ns: int)
    requires
        ns > 0,
        0 <= n <= 5 * 0x1_0000_0000_0000_0000,
    ensures
        0 <= rate_point(n, ns),
        1_000 * rate_point(n, ns) <= i128::MAX,
{
    let a = n * NANO * 1_000;
    assert(0 * ns <= a * ns && a * 1 <= a * ns) by (nonlinear_arith)
        requires
            ns > 0,
            a >= 0,
    ;
    rounded_is_monotone(0, ns, a, ns);
    rounded_is_monotone(a, ns, a, 1);
    rounded_multiple(0, ns);
    rounded_multiple(a, 1);
}

/// What the check reads of a rate.
proof fn rate_is_read(n: int, ns: u64)
    requires
        ns > 0,
        0 <= n <= 5 * 0x1_0000_0000_0000_0000,
    ensures
        SampleValue::Scalar(rate(n, Some(ns))).on(1_000).estimate() is Some,
        index_of(
            SampleValue::Scalar(rate(n, Some(ns))).on(1_000).estimate()->Some_0@,
            1_000_000,
        ) == 1_000 * rate_point(n, ns as int),
{
    let g = rate_point(n, ns as int);
    rate_fits(n, ns as int);
    real_of_is_the_quotient(n * NANO, ns as int);
    assert(index_of(quotient(n * NANO, ns as int), 1_000) == g);
    real_of_is_the_quotient(g, 1_000);
    rounded_multiple(1_000 * g, 1_000);
    assert(g * 1_000_000 == (1_000 * g) * 1_000);
}

/// The rounded rates of five parts, and of their sum.
proof fn rounded_rates_are_close(a: int, b: int, c: int, d: int, e: int, ns: int)
    requires
        ns > 0,
    ensures
        ({
            let parts = rate_point(a, ns) + rate_point(b, ns) + rate_point(c, ns) + rate_point(
                d,
                ns,
            ) + rate_point(e, ns);
            -3 <= parts - rate_point(a + b + c + d + e, ns) <= 3
        }),
{
    let k = NANO * 1_000;
    let t = a + b + c + d + e;
    rounded_is_nearest(a * NANO * 1_000, ns);
    rounded_is_nearest(b * NANO * 1_000, ns);
    rounded_is_nearest(c * NANO * 1_000, ns);
    rounded_is_nearest(d * NANO * 1_000, ns);
    rounded_is_nearest(e * NANO * 1_000, ns);
    rounded_is_nearest(t * NANO * 1_000, ns);
    let ra = rate_point(a, ns);
    let rb = rate_point(b, ns);
    let rc = rate_point(c, ns);
    let rd = rate_point(d, ns);
    let re = rate_point(e, ns);
    let rt = rate_point(t, ns);
    let off = ra + rb + rc + rd + re - rt;
    assert(off * ns == ra * ns + rb * ns + rc * ns + rd * ns + re * ns - rt * ns)
        by (nonlinear_arith)
        requires
            off == ra + rb + rc + rd + re - rt,
    ;
    assert(-6 * ns <= 2 * (off * ns) <= 6 * ns);
    assert(-3 <= off <= 3) by (nonlinear_arith)
        requires
            ns > 0,
            -6 * ns <= 2 * (off * ns) <= 6 * ns,
    ;
}

/// The byte rates that a window reports pass the check of byte rates: the five of them sum to
/// the total, up to rounding.
pub proof fn reported_byte_rates_sum_up(v: CommsView, at: SimTime)
    requires
        orderly::<ByteBucket, u64>(v.bytes),
    ensures
        m_byte2(v.samples(at)).violations.len() == 0,
{
    let all = v.samples(at);
    let own = v.byte_samples(at);
    let others = v.pdr_samples(at).push(v.per_sample(at)) + v.cause_samples(at) + v.air_samples(
        at,
    ).push(v.goodput_sample(at)) + v.airtime_samples(at);
    byte_rate_names();
    other_metrics(v, at);
    others_do_not_count(others, own);
    assert(all =~= others + own);
    byte_samples_sum_up(v, at);
    assert(rates_sum_up(all));
    m_byte2_holds_where_rates_sum_up(all);
}

proof fn other_metrics(v: CommsView, at: SimTime)
    ensures
        ({
            let others = v.pdr_samples(at).push(v.per_sample(at)) + v.cause_samples(at)
                + v.air_samples(at).push(v.goodput_sample(at)) + v.airtime_samples(at);
            forall|i: int| 0 <= i < others.len() ==> !is_byte_rate((#[trigger] others[i]).metric)
        }),
{
    byte_rate_names();
    reveal_strlit("pdr");
    reveal_strlit("per");
    reveal_strlit("pdr_by_cause");
    reveal_strlit("cbr");
    reveal_strlit("pir");
    reveal_strlit("goodput");
    reveal_strlit("airtime_per_node");
    let a = v.pdr_samples(at).push(v.per_sample(at));
    let b = v.cause_samples(at);
    let c = v.air_samples(at).push(v.goodput_sample(at));
    let d = v.airtime_samples(at);
    assert(forall|i: int| 0 <= i < a.len() ==> (#[trigger] a[i]).metric.len() == 3);
    assert(forall|i: int| 0 <= i < b.len() ==> (#[trigger] b[i]).metric.len() == 12);
    assert(forall|i: int|
        0 <= i < c.len() ==> (#[trigger] c[i]).metric.len() == 3 || c[i].metric.len() == 7);
    assert(forall|i: int| 0 <= i < d.len() ==> (#[trigger] d[i]).metric.len() == 16);
    let others = a + b + c + d;
    assert forall|i: int| 0 <= i < others.len() implies !is_byte_rate(
        (#[trigger] others[i]).metric,
    ) by {
        if i < a.len() {
            assert(others[i] == a[i]);
        } else if i < a.len() + b.len() {
            assert(others[i] == b[i - a.len()]);
        } else if i < a.len() + b.len() + c.len() {
            assert(others[i] == c[i - a.len() - b.len()]);
        } else {
            assert(others[i] == d[i - a.len() - b.len() - c.len()]);
        }
    }
}

proof fn byte_samples_sum_up(v: CommsView, at: SimTime)
    requires
        orderly::<ByteBucket, u64>(v.bytes),
    ensures
        rates_sum_up(v.byte_samples(at)),
{
    byte_rate_names();
    let own = v.byte_samples(at);
    let every = ByteBucket::every();
    let s5 = own.drop_last();
    let s4 = s5.drop_last();
    let s3 = s4.drop_last();
    let s2 = s3.drop_last();
    let s1 = s2.drop_last();
    assert(s1.drop_last().len() == 0);
    assert(s5.last() == v.bucket_sample(at, every[4]));
    assert(s4.last() == v.bucket_sample(at, every[3]));
    assert(s3.last() == v.bucket_sample(at, every[2]));
    assert(s2.last() == v.bucket_sample(at, every[1]));
    assert(s1.last() == v.bucket_sample(at, every[0]));
    assert(total_rates(s1.drop_last()) =~= Map::<SimTime, i128>::empty());
    assert(total_rates(s1) =~= Map::<SimTime, i128>::empty());
    assert(total_rates(s2) =~= Map::<SimTime, i128>::empty());
    assert(total_rates(s3) =~= Map::<SimTime, i128>::empty());
    assert(total_rates(s4) =~= Map::<SimTime, i128>::empty());
    assert(total_rates(s5) =~= Map::<SimTime, i128>::empty());
    match window_length(v.window_start, at) {
        None => {
            assert(total_rates(own) =~= Map::<SimTime, i128>::empty());
        },
        Some(ns) => {
            let n = ns as int;
            let a = amount(v.bytes, every[0]) as int;
            let b = amount(v.bytes, every[1]) as int;
            let c = amount(v.bytes, every[2]) as int;
            let d = amount(v.bytes, every[3]) as int;
            let e = amount(v.bytes, every[4]) as int;
            let t = total_of::<ByteBucket>(v.bytes);
            the_buckets_sum_to_the_total(v.bytes);
            assert(t == a + b + c + d + e);
            rounded_rates_are_close(a, b, c, d, e, n);
            rate_is_read(a, ns);
            rate_is_read(b, ns);
            rate_is_read(c, ns);
            rate_is_read(d, ns);
            rate_is_read(e, ns);
            rate_is_read(t, ns);
            let m0 = Map::<SimTime, (int, int)>::empty();
            let m1 = summed(m0, at, 1_000 * rate_point(a, n));
            let m2 = summed(m1, at, 1_000 * rate_point(b, n));
            let m3 = summed(m2, at, 1_000 * rate_point(c, n));
            let m4 = summed(m3, at, 1_000 * rate_point(d, n));
            let m5 = summed(m4, at, 1_000 * rate_point(e, n));
            assert(bucket_rates(s1.drop_last()) =~= m0);
            assert(bucket_rates(s1) == m1);
            assert(bucket_rates(s2) == m2);
            assert(bucket_rates(s3) == m3);
            assert(bucket_rates(s4) == m4);
            assert(bucket_rates(s5) == m5);
            assert(bucket_rates(own) == m5);
            assert(total_rates(own) == total_rates(s5).insert(
                at,
                (1_000 * rate_point(t, n)) as i128,
            ));
        },
    }
}

/// Samples of other metrics do not count among the shares.
proof fn others_are_no_shares(a: Seq<SampleView>, b: Seq<SampleView>)
    requires
        forall|i: int| 0 <= i < a.len() ==> (#[trigger] a[i]).metric != "latency_stage_share"@,
    ensures
        share_sums(a + b) == share_sums(b),
    decreases a.len() + b.len(),
{
    if b.len() > 0 {
        others_are_no_shares(a, b.drop_last());
        assert((a + b).drop_last() =~= a + b.drop_last());
        assert((a + b).last() == b.last());
    } else {
        assert(a + b =~= a);
        if a.len() > 0 {
            let init = a.drop_last();
            assert forall|i: int| 0 <= i < init.len() implies (#[trigger] init[i]).metric
                != "latency_stage_share"@ by {
                assert(init[i] == a[i]);
            }
            others_are_no_shares(init, b);
            assert(init + b =~= init);
            assert(a[a.len() - 1].metric != "latency_stage_share"@);
        }
    }
}

/// A dimension more does not change the value along the others.
proof fn another_dimension(dims: DimList, e: (Dim, DimText), d: Dim)
    requires
        increasing::<Dim, DimText>(dims.push(e)),
        e.0 != d,
    ensures
        along(dims.push(e), d) == along(dims, d),
{
    let more = dims.push(e);
    assert forall|i: int, j: int| 0 <= i < j < dims.len() implies Dim::before(
        #[trigger] dims[i].0,
        #[trigger] dims[j].0,
    ) by {
        assert(more[i].0 == dims[i].0 && more[j].0 == dims[j].0);
    }
    if listed(dims).contains_key(d) {
        let i = choose|i: int| ranked_at(dims, d, i);
        listed_at::<Dim, DimText>(dims, i);
        assert(more[i] == dims[i]);
        listed_at::<Dim, DimText>(more, i);
    } else if listed(more).contains_key(d) {
        let i = choose|i: int| ranked_at(more, d, i);
        assert(ranked_at(dims, d, i));
    }
}

/// The shares of some stages, in ten-thousandths.
spec fn share_points(s: Seq<(Seq<char>, u64)>, total: int) -> int
    decreases s.len(),
{
    if s.len() == 0 {
        0
    } else {
        share_points(s.drop_last(), total) + rounded(s.last().1 * 10_000, total)
    }
}

/// The rounded shares of some stages, against the exact ones.
proof fn share_points_are_close(s: Seq<(Seq<char>, u64)>, total: int)
    requires
        total > 0,
    ensures
        -(s.len() * total) <= 2 * (share_points(s, total) * total - sum_of(s) * 10_000) <= s.len()
            * total,
    decreases s.len(),
{
    if s.len() > 0 {
        let init = s.drop_last();
        share_points_are_close(init, total);
        let g = rounded(s.last().1 * 10_000, total);
        rounded_is_nearest(s.last().1 * 10_000, total);
        let p = share_points(init, total);
        assert((p + g) * total == p * total + g * total) by (nonlinear_arith);
        assert(s.len() * total == init.len() * total + total) by (nonlinear_arith)
            requires
                s.len() == init.len() + 1,
        ;
    } else {
        assert(share_points(s, total) * total == 0);
        assert(s.len() * total == 0) by (nonlinear_arith)
            requires
                s.len() == 0,
        ;
    }
}

/// What the check reads of one share.
proof fn share_is_read(ns: u64, total: u64, n: u64)
    requires
        ns <= total,
        0 < total,
        0 < n,
    ensures
        SampleValue::Ratio(whole_sums_ratio(ns, total, n, 1)).on(10_000).estimate() is Some,
        index_of(
            SampleValue::Ratio(whole_sums_ratio(ns, total, n, 1)).on(10_000).estimate()->Some_0@,
            1_000_000,
        ) == 100 * rounded(ns * 10_000, total as int),
{
    let t = total as int;
    let g = rounded(ns * 10_000, t);
    assert(0 * t <= (ns * 10_000) * t) by (nonlinear_arith)
        requires
            t > 0,
            ns >= 0,
    ;
    assert((ns * 10_000) * 1 <= 10_000 * t);
    rounded_is_monotone(0, t, ns * 10_000, t);
    rounded_is_monotone(ns * 10_000, t, 10_000, 1);
    rounded_multiple(0, t);
    rounded_multiple(10_000, 1);
    real_of_is_the_quotient(ns as int, t);
    real_of_is_the_quotient(g, 10_000);
    rounded_multiple(100 * g, 10_000);
    assert(g * 1_000_000 == (100 * g) * 10_000);
}

/// What the check sums up of the stages of one flow.
proof fn stage_shares(
    v: LatencyView,
    dims: DimList,
    f: FlowView,
    s: Seq<(Seq<char>, u64)>,
    at: SimTime,
    key: Seq<char>,
)
    requires
        forall|stage: Seq<char>, e: SampleValue|
            share_key(
                #[trigger] sample_of(
                    latency_catalog::latency_stage_share_def(),
                    at,
                    dims.push((Dim::Stage, DimText::Label(stage))),
                    e,
                ),
            ) == key,
        forall|i: int| 0 <= i < s.len() ==> (#[trigger] s[i]).1 <= f.total_ns,
    ensures
        share_sums(v.stage_samples(dims, f, s, at)) == if s.len() == 0 || f.total_ns == 0 || f.n
            == 0 {
            Map::empty()
        } else {
            Map::empty().insert(key, (100 * share_points(s, f.total_ns as int), s.len() as int))
        },
    decreases s.len(),
{
    let own = v.stage_samples(dims, f, s, at);
    if s.len() == 0 {
        assert(own =~= Seq::<SampleView>::empty());
    } else {
        let init = s.drop_last();
        assert forall|i: int| 0 <= i < init.len() implies (#[trigger] init[i]).1 <= f.total_ns by {
            assert(init[i] == s[i]);
        }
        stage_shares(v, dims, f, init, at, key);
        let before = v.stage_samples(dims, f, init, at);
        let (stage, ns) = s.last();
        assert(s[s.len() - 1].1 <= f.total_ns);
        reveal_strlit("latency_stage");
        reveal_strlit("latency_stage_share");
        assert("latency_stage"@.len() == 13);
        assert("latency_stage_share"@.len() == 19);
        let with_time = own.drop_last();
        assert(with_time.drop_last() =~= before);
        assert(with_time.last().metric == "latency_stage"@);
        assert(share_sums(with_time) == share_sums(before));
        let value = SampleValue::Ratio(whole_sums_ratio(ns, f.total_ns, f.n, 1));
        let last = sample_of(
            latency_catalog::latency_stage_share_def(),
            at,
            dims.push((Dim::Stage, DimText::Label(stage))),
            value,
        );
        assert(own.last() == last);
        assert(share_key(last) == key);
        if f.total_ns > 0 && f.n > 0 {
            share_is_read(ns, f.total_ns, f.n);
            let g = 100 * rounded(ns * 10_000, f.total_ns as int);
            assert(share_sums(own) == summed(share_sums(before), key, g));
            assert(share_sums(own) =~= Map::empty().insert(
                key,
                (100 * share_points(s, f.total_ns as int), s.len() as int),
            ));
        }
    }
}

/// The stage shares that are reported of one flow and message type pass the check of shares:
/// they sum to one, up to rounding.
pub proof fn reported_shares_sum_up(
    v: LatencyView,
    key: (Seq<char>, Option<Seq<char>>),
    f: FlowView,
    at: SimTime,
)
    requires
        f.sound(),
    ensures
        m_share(v.samples_of_flow(key, f, at)).violations.len() == 0,
{
    let all = v.samples_of_flow(key, f, at);
    let dims = flow_dims(key.0, key.1);
    let s = in_order::<String, u64>(f.stage_ns);
    let own = v.stage_samples(dims, f, s, at);
    let first = seq![all[0]];
    assert(all =~= first + own);
    reveal_strlit("e2e_latency");
    reveal_strlit("latency_stage_share");
    assert("e2e_latency"@.len() == 11);
    assert("latency_stage_share"@.len() == 19);
    others_are_no_shares(first, own);
    let def = latency_catalog::latency_stage_share_def();
    let some = sample_of(
        def,
        at,
        dims,
        SampleValue::Count { count: 0 },
    );
    let k = share_key(some);
    assert forall|stage: Seq<char>, e: SampleValue|
        share_key(
            #[trigger] sample_of(def, at, dims.push((Dim::Stage, DimText::Label(stage))), e),
        ) == k by {
        let label = (Dim::Stage, DimText::Label(stage));
        assert(increasing::<Dim, DimText>(dims.push(label)));
        another_dimension(dims, label, Dim::Flow);
        another_dimension(dims, label, Dim::MsgType);
    }
    sum_bounds(s);
    stage_shares(v, dims, f, s, at, k);
    if s.len() > 0 && f.total_ns > 0 && f.n > 0 {
        let t = f.total_ns as int;
        share_points_are_close(s, t);
        let p = share_points(s, t);
        let n = s.len() as int;
        assert(-100 * n <= 100 * p - 1_000_000 <= 100 * n) by (nonlinear_arith)
            requires
                t > 0,
                n > 0,
                -(n * t) <= 2 * (p * t - t * 10_000) <= n * t,
        ;
    }
    assert(shares_sum_up(all));
    m_share_holds_where_shares_sum_up(all);
}

} // verus!
