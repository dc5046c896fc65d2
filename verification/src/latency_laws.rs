//! What the latency metrics measure.

use vstd::prelude::*;
use crate::basic::SimTime;
use crate::channels::{channel_named, Channel, EventRecord, NodeRxView, Payload, RxFate};
use crate::def::{Dim, DimList, DimText, SampleValue};
use crate::gains::{a_ratio_says_its_quotient, an_observation_is_kept, gained, raised, says_ratio};
use crate::keyed::{in_order, increasing, listed, listed_at, orderly, ranked_at, Key};
use crate::latency::{durations, faultless_is_tiling, stage_durations, stages_sum_to_the_total, LatencyTrace, SpanView, TraceView};
use crate::latency_metrics::{flow_at, observed_in, FlowView, LatencyView};
use crate::tally::amount;

verus! {

/// The time that a journey spends in one stage: the sum over its spans of that name.
pub open spec fn time_in(spans: Seq<SpanView>, stage: Seq<char>) -> int
    decreases spans.len(),
{
    if spans.len() == 0 {
        0
    } else {
        time_in(spans.drop_last(), stage) + if spans.last().stage == stage {
            spans.last().end - spans.last().start
        } else {
            0
        }
    }
}

/// The durations of a journey, by stage, are the times that it spends in them.
pub proof fn durations_are_the_times_in_the_stages(spans: Seq<SpanView>, stage: Seq<char>)
    requires
        forall|i: int| 0 <= i < spans.len() ==> (#[trigger] spans[i]).start <= spans[i].end,
        durations(spans) <= u64::MAX,
    ensures
        amount(stage_durations(spans), stage) == time_in(spans, stage),
        0 <= time_in(spans, stage) <= durations(spans),
        stage_durations(spans).contains_key(stage) <==> exists|i: int|
            0 <= i < spans.len() && (#[trigger] spans[i]).stage == stage,
    decreases spans.len(),
{
    if spans.len() > 0 {
        let init = spans.drop_last();
        let n = spans.len() - 1;
        assert forall|i: int| 0 <= i < init.len() implies (#[trigger] init[i]).start <= init[i].end by {
            assert(init[i] == spans[i]);
        }
        assert(spans[n].start <= spans[n].end);
        durations_are_the_times_in_the_stages(init, stage);
        durations_are_the_times_in_the_stages(init, spans.last().stage);
        assert(spans[n].stage == spans.last().stage);
        if exists|i: int| 0 <= i < init.len() && (#[trigger] init[i]).stage == stage {
            let i = choose|i: int| 0 <= i < init.len() && (#[trigger] init[i]).stage == stage;
            assert(spans[i].stage == stage);
        }
        if exists|i: int| 0 <= i < spans.len() && (#[trigger] spans[i]).stage == stage {
            let i = choose|i: int| 0 <= i < spans.len() && (#[trigger] spans[i]).stage == stage;
            if i < n {
                assert(init[i].stage == stage);
            }
        }
    }
}

/// The stages of a delivered broadcast, each from where the one before it ended: waiting to
/// be signed, signed, the inter-frame space, the backoff and the rest of the wait for the
/// channel, on the air, on its way, received, waiting to be verified, verified.
pub proof fn a_delivery_goes_through_its_stages(r: NodeRxView)
    requires
        r.trace() is Some,
    ensures
        ({
            let t = r.trace()->Some_0;
            let s = t.spans;
            let aifs = match r.mac_aifs_ns {
                Some(ns) => ns as int,
                None => 0,
            };
            let backoff = match r.mac_backoff_ns {
                Some(ns) => ns as int,
                None => 0,
            };
            &&& r.outcome == RxFate::Delivered
            &&& r.t_generated == Some(t.t_origin) && r.t_delivered == Some(s[9].end)
            &&& t.flow == "v2v"@ && t.origin == r.tx && t.dest == Some(r.rx) && t.msg == r.msg
            &&& s.len() == 10
            &&& s[0].start == t.t_origin
            &&& forall|i: int| 1 <= i < 10 ==> (#[trigger] s[i]).start == s[i - 1].end
            &&& s[0].stage == "sign_queue"@ && r.t_sign_start == Some(s[0].end)
            &&& s[1].stage == "sign"@ && r.t_signed == Some(s[1].end)
            &&& s[2].stage == "mac_aifs"@ && (s[2].start + aifs <= u64::MAX ==> s[2].end - s[2].start
                == aifs)
            &&& s[3].stage == "mac_backoff"@ && (s[3].start + backoff <= u64::MAX ==> s[3].end
                - s[3].start == backoff)
            &&& s[4].stage == "mac_defer"@ && r.t_tx_start == Some(s[4].end)
            &&& s[5].stage == "airtime"@ && r.t_tx_end == Some(s[5].end)
            &&& s[6].stage == "propagation"@ && r.t_arrival == Some(s[6].end)
            &&& s[7].stage == "reception"@ && r.t_rx_done == Some(s[7].end)
            &&& s[8].stage == "verify_queue"@ && r.t_verify_start == Some(s[8].end)
            &&& s[9].stage == "verify"@ && r.t_verify_done == Some(s[9].end)
        }),
{
}

/// One more stage adds its time to that stage, exactly and as one observation in
/// milliseconds, and to no other.
pub proof fn a_stage_adds_its_time(f: FlowView, s: Seq<(Seq<char>, u64)>, stage: Seq<char>, ns: u64)
    requires
        amount(f.with_stages(s).stage_ns, stage) + ns <= u64::MAX,
    ensures
        ({
            let (a, b) = (f.with_stages(s), f.with_stages(s.push((stage, ns))));
            &&& raised(a.stage_ns, b.stage_ns, stage, ns as int)
            &&& gained(
                observed_in(a.stage_ms, stage),
                observed_in(b.stage_ms, stage),
                ns as int,
                1_000_000,
            )
            &&& forall|k: Seq<char>| k != stage ==> #[trigger] observed_in(b.stage_ms, k)
                == observed_in(a.stage_ms, k)
            &&& b.total_ns == a.total_ns && b.n == a.n && b.e2e_ms == a.e2e_ms
        }),
{
    assert(s.push((stage, ns)).drop_last() =~= s);
    an_observation_is_kept(observed_in(f.with_stages(s).stage_ms, stage), ns as int, 1_000_000);
}

proof fn stages_add_up(f: FlowView, s: Seq<(Seq<char>, u64)>, k: Seq<char>)
    requires
        increasing::<String, u64>(s),
        forall|c: Seq<char>| #[trigger] amount(f.stage_ns, c) + amount(listed(s), c) <= u64::MAX,
    ensures
        amount(f.with_stages(s).stage_ns, k) == amount(f.stage_ns, k) + amount(listed(s), k),
        f.with_stages(s).total_ns == f.total_ns,
        f.with_stages(s).n == f.n,
        f.with_stages(s).e2e_ms == f.e2e_ms,
    decreases s.len(),
{
    if s.len() > 0 {
        let init = s.drop_last();
        let n = s.len() - 1;
        let (stage, ns) = s.last();
        assert forall|i: int, j: int| 0 <= i < j < init.len() implies <String as Key>::before(
            #[trigger] init[i].0,
            #[trigger] init[j].0,
        ) by {
            assert(init[i].0 == s[i].0 && init[j].0 == s[j].0);
        }
        listed_at::<String, u64>(s, n);
        assert(!listed(init).contains_key(stage)) by {
            if listed(init).contains_key(stage) {
                let i = choose|i: int| ranked_at(init, stage, i);
                assert(<String as Key>::before(s[i].0, s[n].0));
                <String as Key>::order_irreflexive(stage);
            }
        }
        assert forall|c: Seq<char>| c != stage implies #[trigger] amount(listed(init), c) == amount(
            listed(s),
            c,
        ) by {
            if listed(init).contains_key(c) {
                let i = choose|i: int| ranked_at(init, c, i);
                listed_at::<String, u64>(init, i);
                assert(s[i] == init[i]);
                listed_at::<String, u64>(s, i);
            } else if listed(s).contains_key(c) {
                let i = choose|i: int| ranked_at(s, c, i);
                assert(ranked_at(init, c, i));
            }
        }
        assert forall|c: Seq<char>| #[trigger] amount(f.stage_ns, c) + amount(listed(init), c)
            <= u64::MAX by {
            assert(amount(f.stage_ns, c) + amount(listed(s), c) <= u64::MAX);
        }
        stages_add_up(f, init, k);
        stages_add_up(f, init, stage);
        assert(amount(f.stage_ns, stage) + amount(listed(s), stage) <= u64::MAX);
    } else {
        assert(!listed(s).contains_key(k));
    }
}

/// One more message of a flow counts once. Its latency, from the origin to the end of its
/// last stage, is observed in milliseconds and added to the total, and every stage gets the
/// time that the message spent in it.
pub proof fn a_message_adds_its_latency(f: FlowView, t: TraceView, stage: Seq<char>)
    requires
        t.fault() is None,
        f.room_for(t.total()->Some_0),
        orderly::<String, u64>(stage_durations(t.spans)),
        forall|c: Seq<char>| #[trigger] amount(f.stage_ns, c) <= f.total_ns,
    ensures
        ({
            let g = f.and(t.total()->Some_0, stage_durations(t.spans));
            let latency = t.spans.last().end - t.t_origin;
            &&& g.n == f.n + 1
            &&& g.total_ns == f.total_ns + latency
            &&& gained(f.e2e_ms, g.e2e_ms, latency, 1_000_000)
            &&& amount(g.stage_ns, stage) == amount(f.stage_ns, stage) + time_in(t.spans, stage)
        }),
{
    faultless_is_tiling(t);
    stages_sum_to_the_total(t);
    let m = stage_durations(t.spans);
    let s = in_order::<String, u64>(m);
    assert forall|i: int| 0 <= i < t.spans.len() implies (#[trigger] t.spans[i]).start
        <= t.spans[i].end by {}
    durations_are_the_times_in_the_stages(t.spans, stage);
    an_observation_is_kept(f.e2e_ms, t.spans.last().end - t.t_origin, 1_000_000);
    let total = t.total()->Some_0;
    let h = FlowView {
        e2e_ms: f.e2e_ms.and_quotient(total as int, 1_000_000),
        total_ns: (f.total_ns + total) as u64,
        n: (f.n + 1) as u64,
        ..f
    };
    assert forall|c: Seq<char>| #[trigger] amount(h.stage_ns, c) + amount(listed(s), c) <= u64::MAX by {
        durations_are_the_times_in_the_stages(t.spans, c);
        assert(amount(f.stage_ns, c) <= f.total_ns);
    }
    stages_add_up(h, s, stage);
}

/// A trace without a fault counts for its flow over all message types, and for its own type
/// where it has one; other flows and types are as they were. One with a fault is counted as
/// such, and no more.
pub proof fn a_trace_counts_for_its_flow(v: LatencyView, ev: EventRecord, t: LatencyTrace)
    requires
        channel_named(ev.channel@) == Some(Channel::MsgLatency),
        ev.payload == Payload::MsgLatency(t),
        v.room_for(ev),
    ensures
        ({
            let w = v.after(ev);
            let x = t@;
            let one = |f: FlowView| f.and(x.total()->Some_0, stage_durations(x.spans));
            &&& x.fault() is Some ==> w.acc == v.acc && w.rejected_traces == v.rejected_traces + 1
            &&& x.fault() is None ==> {
                &&& w.rejected_traces == v.rejected_traces
                &&& flow_at(w.acc, (x.flow, None)) == one(flow_at(v.acc, (x.flow, None)))
                &&& x.msg_type matches Some(m) ==> flow_at(w.acc, (x.flow, Some(m))) == one(
                    flow_at(v.acc, (x.flow, Some(m))),
                )
                &&& forall|k: (Seq<char>, Option<Seq<char>>)|
                    (k.0 != x.flow || (k.1 is Some && k.1 != x.msg_type)) ==> #[trigger] flow_at(
                        w.acc,
                        k,
                    ) == flow_at(v.acc, k)
            }
            &&& w.rejected == v.rejected
        }),
{
}

/// The fate of a message counts exactly where it was delivered: by its trace where it is
/// fully stamped, and as a fault where it is not but has both its ends.
pub proof fn a_fate_counts_where_it_was_delivered(v: LatencyView, ev: EventRecord, r: NodeRxView)
    requires
        channel_named(ev.channel@) == Some(Channel::NodeRx),
        ev.payload == Payload::NodeRx(r),
        v.room_for(ev),
    ensures
        ({
            let w = v.after(ev);
            &&& r.outcome != RxFate::Delivered ==> w == v
            &&& r.outcome == RxFate::Delivered ==> match r.trace() {
                Some(t) => w == v.after_trace(t),
                None => w.acc == v.acc && w.rejected_traces == v.rejected_traces + if r.t_delivered
                    is Some && r.t_generated is Some {
                    1int
                } else {
                    0int
                },
            }
        }),
{
}

/// A flow reports its latencies, and behind them, stage by stage, the times in the stage and
/// their share of all times.
pub proof fn a_flow_reports_its_latencies_and_shares(
    v: LatencyView,
    dims: DimList,
    f: FlowView,
    s: Seq<(Seq<char>, u64)>,
    stage: Seq<char>,
    ns: u64,
    key: (Seq<char>, Option<Seq<char>>),
    at: SimTime,
)
    ensures
        ({
            let own = dims.push((Dim::Stage, DimText::Label(stage)));
            let a = v.stage_samples(dims, f, s, at);
            let b = v.stage_samples(dims, f, s.push((stage, ns)), at);
            let all = v.samples_of_flow(key, f, at);
            let n = a.len() as int;
            &&& b.len() == n + 2 && b.subrange(0, n) == a
            &&& b[n].metric == "latency_stage"@ && b[n].dims == own && b[n].t == at
            &&& b[n].value == SampleValue::Distribution(f.stage_ms[stage].summary(v.min_samples)).on(
                1_000,
            )
            &&& b[n + 1].metric == "latency_stage_share"@ && b[n + 1].dims == own && b[n + 1].t == at
            &&& says_ratio(b[n + 1].value, ns, f.total_ns, f.n, 10_000)
            &&& all[0].metric == "e2e_latency"@ && all[0].t == at && all[0].value
                == SampleValue::Distribution(f.e2e_ms.summary(v.min_samples)).on(1_000)
            &&& all.subrange(1, all.len() as int) == v.stage_samples(
                all[0].dims,
                f,
                in_order::<String, u64>(f.stage_ns),
                at,
            )
            &&& all[0].dims == (if key.0 == "v2v"@ {
                Seq::<(Dim, DimText)>::empty()
            } else {
                seq![(Dim::Flow, DimText::Label(key.0))]
            }) + (match key.1 {
                Some(t) => seq![(Dim::MsgType, DimText::Label(t))],
                None => Seq::<(Dim, DimText)>::empty(),
            })
            &&& v.stage_samples(dims, f, Seq::empty(), at).len() == 0
        }),
{
    let a = v.stage_samples(dims, f, s, at);
    let t = s.push((stage, ns));
    assert(t.drop_last() =~= s);
    let b = v.stage_samples(dims, f, t, at);
    assert(b.subrange(0, a.len() as int) =~= a);
    a_ratio_says_its_quotient(ns, f.total_ns, f.n, 10_000);
    let all = v.samples_of_flow(key, f, at);
    assert(all.subrange(1, all.len() as int) =~= v.stage_samples(
        all[0].dims,
        f,
        in_order::<String, u64>(f.stage_ns),
        at,
    ));
    assert(all[0].dims =~= (if key.0 == "v2v"@ {
        Seq::<(Dim, DimText)>::empty()
    } else {
        seq![(Dim::Flow, DimText::Label(key.0))]
    }) + (match key.1 {
        Some(t) => seq![(Dim::MsgType, DimText::Label(t))],
        None => Seq::<(Dim, DimText)>::empty(),
    }));
}

/// Every flow is reported, one after the other, and the traces with a fault are counted
/// behind them.
pub proof fn every_flow_is_reported(
    v: LatencyView,
    s: Seq<((Seq<char>, Option<Seq<char>>), FlowView)>,
    e: ((Seq<char>, Option<Seq<char>>), FlowView),
    at: SimTime,
)
    ensures
        v.flow_samples(s.push(e), at) == v.flow_samples(s, at) + v.samples_of_flow(e.0, e.1, at),
        v.flow_samples(Seq::empty(), at).len() == 0,
        v.samples(at).last().metric == "latency_trace_rejected"@,
        v.samples(at).last().value == (SampleValue::Count { count: v.rejected_traces }),
        v.samples(at).drop_last() == v.flow_samples(
            in_order::<(String, Option<String>), FlowView>(v.acc),
            at,
        ),
{
    assert(s.push(e).drop_last() =~= s);
    assert(v.samples(at).drop_last() =~= v.flow_samples(
        in_order::<(String, Option<String>), FlowView>(v.acc),
        at,
    ));
}

} // verus!
