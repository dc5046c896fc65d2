//! The latency metrics: how long messages take, and where the time goes.

use vstd::prelude::*;
use crate::basic::SimTime;
use crate::card::{group_views, views, ModelCard};
use crate::catalog::latency as catalog;
use crate::channels::{channel_named, find_channel, Channel, EventRecord, NodeRxView, Payload, RxFate};
use crate::comms::plus;
use crate::def::{copy_dims, no_dims, sample_of, Dim, DimList, DimText, DimValue, Dims, MetricDef, MetricSample, SampleValue, SampleView};
use crate::distribution::{nothing_observed, Distribution, Observed};
use crate::keyed::{in_order, optional_text, Key, SortedMap};
use crate::latency::{stage_durations, stages_sum_to_the_total, LatencyTrace, TraceView, FLOW_V2V};
use crate::quant::real_of_is_the_quotient;
use crate::stats::{ratio_of_whole_sums, whole_sums_ratio, RatioEstimate, DEFAULT_MIN_SAMPLES};
use crate::tally::{prefix_sums, sum_of, total_of, Tally};
use crate::text::same_text;

verus! {

/// What is known of one flow and message type.
pub struct FlowAcc {
    e2e_ms: Distribution,
    total_ns: u64,
    stage_ms: SortedMap<String, Distribution>,
    stage_ns: Tally<String>,
    n: u64,
}

/// What is known of one flow and message type: the latencies, and per stage the times spent
/// in it and their sum.
#[verifier::ext_equal]
pub ghost struct FlowView {
    pub e2e_ms: Observed,
    pub total_ns: u64,
    pub stage_ms: Map<Seq<char>, Observed>,
    pub stage_ns: Map<Seq<char>, u64>,
    pub n: u64,
}

impl View for FlowAcc {
    type V = FlowView;

    closed spec fn view(&self) -> FlowView {
        FlowView {
            e2e_ms: self.e2e_ms@,
            total_ns: self.total_ns,
            stage_ms: self.stage_ms@,
            stage_ns: self.stage_ns@,
            n: self.n,
        }
    }
}

/// Nothing known of a flow.
pub open spec fn no_flow() -> FlowView {
    FlowView {
        e2e_ms: nothing_observed(),
        total_ns: 0,
        stage_ms: Map::empty(),
        stage_ns: Map::empty(),
        n: 0,
    }
}

/// What was observed of a stage.
pub open spec fn observed_in(m: Map<Seq<char>, Observed>, stage: Seq<char>) -> Observed {
    if m.contains_key(stage) {
        m[stage]
    } else {
        nothing_observed()
    }
}

impl FlowView {
    /// With the times spent in some stages.
    pub open spec fn with_stages(self, s: Seq<(Seq<char>, u64)>) -> FlowView
        decreases s.len(),
    {
        if s.len() == 0 {
            self
        } else {
            let before = self.with_stages(s.drop_last());
            let (stage, ns) = s.last();
            FlowView {
                stage_ms: before.stage_ms.insert(
                    stage,
                    observed_in(before.stage_ms, stage).and_quotient(ns as int, 1_000_000),
                ),
                stage_ns: plus(before.stage_ns, stage, ns),
                ..before
            }
        }
    }

    /// With one more message that took `total` nanoseconds, split into the given stages.
    pub open spec fn and(self, total: u64, stages: Map<Seq<char>, u64>) -> FlowView {
        (FlowView {
            e2e_ms: self.e2e_ms.and_quotient(total as int, 1_000_000),
            total_ns: (self.total_ns + total) as u64,
            n: (self.n + 1) as u64,
            ..self
        }).with_stages(in_order::<String, u64>(stages))
    }

    /// True if there is room for one more message.
    pub open spec fn room_for(self, total: u64) -> bool {
        &&& self.total_ns + total <= u64::MAX
        &&& self.n < u64::MAX
    }

    /// The times in the stages sum to the latencies, and every stage has both.
    pub open spec fn sound(self) -> bool {
        &&& total_of::<String>(self.stage_ns) == self.total_ns
        &&& forall|k: Seq<char>| #[trigger]
            self.stage_ms.contains_key(k) == self.stage_ns.contains_key(k)
    }
}

impl FlowAcc {
    fn new() -> (r: FlowAcc)
        ensures
            r@ == no_flow(),
            r@.sound(),
    {
        let stage_ns: Tally<String> = Tally::new();
        let _ = stage_ns.total();
        FlowAcc {
            e2e_ms: Distribution::new(),
            total_ns: 0,
            stage_ms: SortedMap::new(),
            stage_ns,
            n: 0,
        }
    }

    fn observe(&mut self, total: u64, stages: &Tally<String>)
        requires
            old(self)@.sound(),
            old(self)@.room_for(total),
            stages.sum() == total,
        ensures
            final(self)@ == old(self)@.and(total, stages@),
            final(self)@.sound(),
    {
        let ghost before = self@;
        let _ = self.stage_ns.total();
        self.e2e_ms.observe_quotient(total as i128, 1_000_000);
        self.total_ns = self.total_ns + total;
        self.n = self.n + 1;
        let ghost v0 = self@;
        assert(v0.stage_ms == before.stage_ms && v0.stage_ns == before.stage_ns);
        let n: usize = stages.len();
        let ghost s = stages.listing();
        let mut i: usize = 0;
        assert(s.subrange(0, 0) =~= Seq::<(Seq<char>, u64)>::empty());
        while i < n
            invariant
                s == stages.listing(),
                n == s.len(),
                i <= n,
                sum_of(s) == total,
                before.total_ns + total <= u64::MAX,
                self@ == v0.with_stages(s.subrange(0, i as int)),
                self.stage_ns.sum() == before.total_ns + sum_of(s.subrange(0, i as int)),
                forall|k: Seq<char>| #[trigger]
                    self@.stage_ms.contains_key(k) == self@.stage_ns.contains_key(k),
            decreases n - i,
        {
            let ghost now = self@;
            proof {
                let next = s.subrange(0, i as int + 1);
                assert(next.drop_last() =~= s.subrange(0, i as int));
                assert(next.last() == s[i as int]);
                prefix_sums(s, i as int + 1);
            }
            let stage = stages.key_at(i).clone();
            let ns: u64 = stages.amount_at(i);
            let mut d = match self.stage_ms.remove(&stage) {
                Some(d) => d,
                None => Distribution::new(),
            };
            assert(d@ == observed_in(now.stage_ms, stage@));
            d.observe_quotient(ns as i128, 1_000_000);
            self.stage_ns.increase(stage.clone(), ns);
            let _ = self.stage_ms.insert(stage, d);
            proof {
                let next = s.subrange(0, i as int + 1);
                assert(self@.stage_ms =~= now.stage_ms.insert(
                    stage@,
                    observed_in(now.stage_ms, stage@).and_quotient(ns as int, 1_000_000),
                ));
                assert(self@ =~= v0.with_stages(next));
            }
            i = i + 1;
        }
        assert(s.subrange(0, n as int) =~= s);
        proof {
            stages_leave_totals(v0, s);
        }
        let _ = self.stage_ns.total();
    }
}

/// The times in the stages leave the latencies alone.
proof fn stages_leave_totals(v: FlowView, s: Seq<(Seq<char>, u64)>)
    ensures
        v.with_stages(s).total_ns == v.total_ns,
        v.with_stages(s).n == v.n,
        v.with_stages(s).e2e_ms == v.e2e_ms,
    decreases s.len(),
{
    if s.len() > 0 {
        stages_leave_totals(v, s.drop_last());
    }
}

/// The latency metrics of a run.
pub struct LatencyProvider {
    min_samples: u64,
    acc: SortedMap<(String, Option<String>), FlowAcc>,
    rejected_traces: u64,
    rejected: u64,
}

/// What the latency metrics have accumulated, by flow and message type. What holds of a flow
/// over all message types stands under no type.
#[verifier::ext_equal]
pub ghost struct LatencyView {
    pub min_samples: u64,
    pub acc: Map<(Seq<char>, Option<Seq<char>>), FlowView>,
    pub rejected_traces: u64,
    pub rejected: u64,
}

impl View for LatencyProvider {
    type V = LatencyView;

    closed spec fn view(&self) -> LatencyView {
        LatencyView {
            min_samples: self.min_samples,
            acc: self.acc@,
            rejected_traces: self.rejected_traces,
            rejected: self.rejected,
        }
    }
}

/// A provider that has seen nothing yet.
pub open spec fn fresh() -> LatencyView {
    LatencyView {
        min_samples: DEFAULT_MIN_SAMPLES,
        acc: Map::empty(),
        rejected_traces: 0,
        rejected: 0,
    }
}

/// What is known of a flow.
pub open spec fn flow_at(
    m: Map<(Seq<char>, Option<Seq<char>>), FlowView>,
    key: (Seq<char>, Option<Seq<char>>),
) -> FlowView {
    if m.contains_key(key) {
        m[key]
    } else {
        no_flow()
    }
}

/// The dimensions of a flow and message type: broadcasts between vehicles, over all message
/// types, have none.
pub open spec fn flow_dims(flow: Seq<char>, msg_type: Option<Seq<char>>) -> DimList {
    let own = if flow == FLOW_V2V@ {
        Seq::empty()
    } else {
        seq![(Dim::Flow, DimText::Label(flow))]
    };
    match msg_type {
        Some(t) => own.push((Dim::MsgType, DimText::Label(t))),
        None => own,
    }
}

/// The dimensions of a flow and message type.
pub fn dims_of(flow: &str, msg_type: &Option<String>) -> (r: Dims)
    ensures
        r.listing() == flow_dims(flow@, optional_text(*msg_type)),
{
    let mut d: Dims = no_dims();
    if !same_text(flow, FLOW_V2V) {
        d.append(Dim::Flow, DimValue::label(flow));
    }
    if let Some(t) = msg_type {
        d.append(Dim::MsgType, DimValue::label(t.as_str()));
    }
    assert(d.listing() =~= flow_dims(flow@, optional_text(*msg_type)));
    d
}

impl LatencyView {
    /// What is known of every flow is consistent.
    pub open spec fn sound(self) -> bool {
        forall|k: (Seq<char>, Option<Seq<char>>)| #[trigger]
            self.acc.contains_key(k) ==> self.acc[k].sound()
    }

    /// After a message of one flow and message type.
    pub open spec fn counted(
        self,
        key: (Seq<char>, Option<Seq<char>>),
        t: TraceView,
    ) -> LatencyView {
        LatencyView {
            acc: self.acc.insert(
                key,
                flow_at(self.acc, key).and(t.total()->Some_0, stage_durations(t.spans)),
            ),
            ..self
        }
    }

    /// After one trace: one with a fault is counted as such, and no more.
    pub open spec fn after_trace(self, t: TraceView) -> LatencyView {
        if t.fault() is Some {
            LatencyView { rejected_traces: (self.rejected_traces + 1) as u64, ..self }
        } else {
            let all = self.counted((t.flow, None), t);
            match t.msg_type {
                Some(m) => all.counted((t.flow, Some(m)), t),
                None => all,
            }
        }
    }

    /// After the fate of a message: a delivery with stamps that do not add up is a trace
    /// with a fault.
    pub open spec fn after_fate(self, v: NodeRxView) -> LatencyView {
        if v.outcome != RxFate::Delivered {
            self
        } else {
            match v.trace() {
                Some(t) => self.after_trace(t),
                None => if v.t_delivered is Some && v.t_generated is Some {
                    LatencyView { rejected_traces: (self.rejected_traces + 1) as u64, ..self }
                } else {
                    self
                },
            }
        }
    }

    /// After one record.
    pub open spec fn after(self, ev: EventRecord) -> LatencyView {
        let refused = LatencyView { rejected: (self.rejected + 1) as u64, ..self };
        match (channel_named(ev.channel@), ev.payload) {
            (Some(Channel::NodeRx), Payload::NodeRx(v)) => self.after_fate(v),
            (Some(Channel::MsgLatency), Payload::MsgLatency(t)) => self.after_trace(t@),
            (Some(Channel::NodeRx), _) => refused,
            (Some(Channel::MsgLatency), _) => refused,
            _ => self,
        }
    }

    /// True if no counter overflows on a trace.
    pub open spec fn room_for_trace(self, t: TraceView) -> bool {
        if t.fault() is Some {
            self.rejected_traces < u64::MAX
        } else {
            &&& flow_at(self.acc, (t.flow, None)).room_for(t.total()->Some_0)
            &&& match t.msg_type {
                Some(m) => flow_at(self.acc, (t.flow, Some(m))).room_for(t.total()->Some_0),
                None => true,
            }
        }
    }

    /// True if no counter overflows on the fate of a message.
    pub open spec fn room_for_fate(self, v: NodeRxView) -> bool {
        match v.trace() {
            Some(t) => self.room_for_trace(t),
            None => self.rejected_traces < u64::MAX,
        }
    }

    /// True if no counter overflows on `ev`.
    pub open spec fn room_for(self, ev: EventRecord) -> bool {
        match (channel_named(ev.channel@), ev.payload) {
            (Some(Channel::NodeRx), Payload::NodeRx(v)) => self.room_for_fate(v),
            (Some(Channel::MsgLatency), Payload::MsgLatency(t)) => self.room_for_trace(t@),
            _ => self.rejected < u64::MAX,
        }
    }

    /// The samples of some stages of a flow.
    pub open spec fn stage_samples(
        self,
        dims: DimList,
        f: FlowView,
        s: Seq<(Seq<char>, u64)>,
        at: SimTime,
    ) -> Seq<SampleView>
        decreases s.len(),
    {
        if s.len() == 0 {
            Seq::empty()
        } else {
            let (stage, ns) = s.last();
            let own = dims.push((Dim::Stage, DimText::Label(stage)));
            self.stage_samples(dims, f, s.drop_last(), at) + seq![
                sample_of(
                    catalog::latency_stage_def(self.min_samples),
                    at,
                    own,
                    SampleValue::Distribution(f.stage_ms[stage].summary(self.min_samples)),
                ),
                sample_of(
                    catalog::latency_stage_share_def(),
                    at,
                    own,
                    SampleValue::Ratio(whole_sums_ratio(ns, f.total_ns, f.n, 1)),
                ),
            ]
        }
    }

    /// The samples of one flow and message type.
    pub open spec fn samples_of_flow(
        self,
        key: (Seq<char>, Option<Seq<char>>),
        f: FlowView,
        at: SimTime,
    ) -> Seq<SampleView> {
        let dims = flow_dims(key.0, key.1);
        seq![
            sample_of(
                catalog::e2e_latency_def(self.min_samples),
                at,
                dims,
                SampleValue::Distribution(f.e2e_ms.summary(self.min_samples)),
            ),
        ] + self.stage_samples(dims, f, in_order::<String, u64>(f.stage_ns), at)
    }

    /// The samples of some flows.
    pub open spec fn flow_samples(
        self,
        s: Seq<((Seq<char>, Option<Seq<char>>), FlowView)>,
        at: SimTime,
    ) -> Seq<SampleView>
        decreases s.len(),
    {
        if s.len() == 0 {
            Seq::empty()
        } else {
            self.flow_samples(s.drop_last(), at) + self.samples_of_flow(
                s.last().0,
                s.last().1,
                at,
            )
        }
    }

    /// All samples of the window that ends at `at`.
    pub open spec fn samples(self, at: SimTime) -> Seq<SampleView> {
        self.flow_samples(in_order::<(String, Option<String>), FlowView>(self.acc), at).push(
            sample_of(
                catalog::latency_trace_rejected_def(),
                at,
                Seq::empty(),
                SampleValue::Count { count: self.rejected_traces },
            ),
        )
    }

    /// The state after a flush.
    pub open spec fn flushed(self) -> LatencyView {
        LatencyView { acc: Map::empty(), rejected_traces: 0, ..self }
    }
}

impl LatencyProvider {
    /// A provider with the default insufficiency threshold.
    pub fn new() -> (r: LatencyProvider)
        ensures
            r@ == fresh(),
            r@.sound(),
    {
        LatencyProvider {
            min_samples: DEFAULT_MIN_SAMPLES,
            acc: SortedMap::new(),
            rejected_traces: 0,
            rejected: 0,
        }
    }

    /// Sets the insufficiency threshold.
    pub fn with_min_samples(self, n: u64) -> (r: LatencyProvider)
        ensures
            r@ == (LatencyView { min_samples: n, ..self@ }),
    {
        let mut p = self;
        p.min_samples = n;
        p
    }

    fn count(&mut self, key: (String, Option<String>), total: u64, stages: &Tally<String>)
        requires
            old(self)@.sound(),
            flow_at(old(self)@.acc, key.rank()).room_for(total),
            stages.sum() == total,
        ensures
            final(self)@ == (LatencyView {
                acc: old(self)@.acc.insert(
                    key.rank(),
                    flow_at(old(self)@.acc, key.rank()).and(total, stages@),
                ),
                ..old(self)@
            }),
            final(self)@.sound(),
    {
        let ghost before = self@;
        let ghost k = key.rank();
        let mut f = match self.acc.remove(&key) {
            Some(f) => f,
            None => FlowAcc::new(),
        };
        f.observe(total, stages);
        let _ = self.acc.insert(key, f);
        assert(self@.acc =~= before.acc.insert(k, flow_at(before.acc, k).and(total, stages@)));
    }

    /// Counts one trace; false if it has a fault.
    fn observe(&mut self, trace: &LatencyTrace) -> (r: bool)
        requires
            old(self)@.sound(),
            old(self)@.room_for_trace(trace@),
        ensures
            final(self)@ == old(self)@.after_trace(trace@),
            final(self)@.sound(),
            r == (trace@.fault() is None),
    {
        let ghost before = self@;
        if trace.validate().is_err() {
            self.rejected_traces = self.rejected_traces + 1;
            return false;
        }
        proof {
            stages_sum_to_the_total(trace@);
        }
        match trace.total_ns() {
            Some(total) => {
                let stages = trace.stage_ns();
                let _ = stages.total();
                self.count((trace.flow.clone(), None), total, &stages);
                if let Some(m) = &trace.msg_type {
                    self.count((trace.flow.clone(), Some(m.clone())), total, &stages);
                }
                assert(self@ =~= before.after_trace(trace@));
                true
            },
            None => {
                self.rejected_traces = self.rejected_traces + 1;
                false
            },
        }
    }

    fn on_rx(&mut self, v: &NodeRxView)
        requires
            old(self)@.sound(),
            old(self)@.room_for_fate(*v),
        ensures
            final(self)@ == old(self)@.after_fate(*v),
            final(self)@.sound(),
    {
        if v.outcome != RxFate::Delivered {
            return ;
        }
        match v.latency_trace() {
            Some(t) => {
                let _ = self.observe(&t);
            },
            None => {
                if v.t_delivered.is_some() && v.t_generated.is_some() {
                    self.rejected_traces = self.rejected_traces + 1;
                }
            },
        }
    }

    fn refuse(&mut self)
        requires
            old(self)@.rejected < u64::MAX,
        ensures
            final(self)@ == (LatencyView {
                rejected: (old(self)@.rejected + 1) as u64,
                ..old(self)@
            }),
    {
        self.rejected = self.rejected + 1;
    }

    /// Consumes one record.
    pub fn on_event(&mut self, ev: &EventRecord)
        requires
            old(self)@.sound(),
            old(self)@.room_for(*ev),
        ensures
            final(self)@ == old(self)@.after(*ev),
            final(self)@.sound(),
    {
        match (find_channel(ev.channel.as_str()), &ev.payload) {
            (Some(Channel::NodeRx), Payload::NodeRx(v)) => self.on_rx(v),
            (Some(Channel::MsgLatency), Payload::MsgLatency(t)) => {
                let _ = self.observe(t);
            },
            (Some(Channel::NodeRx), _) => self.refuse(),
            (Some(Channel::MsgLatency), _) => self.refuse(),
            _ => {},
        }
    }

    fn emit_stages(&self, dims: &Dims, f: &FlowAcc, at: SimTime, out: &mut Vec<MetricSample>)
        requires
            f@.sound(),
            forall|i: int|
                0 <= i < dims.listing().len() ==> Dim::before(
                    #[trigger] dims.listing()[i].0,
                    Dim::Stage,
                ),
        ensures
            views(final(out)@) == views(old(out)@) + self@.stage_samples(
                dims.listing(),
                f@,
                in_order::<String, u64>(f@.stage_ns),
                at,
            ),
    {
        let ghost start = views(out@);
        let ghost v = self@;
        let ghost l = dims.listing();
        let n: usize = f.stage_ns.len();
        let ghost s = f.stage_ns.listing();
        let stage_def = catalog::latency_stage(self.min_samples);
        let share_def = catalog::latency_stage_share();
        let mut i: usize = 0;
        assert(s.subrange(0, 0) =~= Seq::<(Seq<char>, u64)>::empty());
        assert(start + v.stage_samples(l, f@, s.subrange(0, 0), at) =~= start);
        while i < n
            invariant
                v == self@,
                l == dims.listing(),
                s == f.stage_ns.listing(),
                n == s.len(),
                i <= n,
                f@.sound(),
                forall|j: int| 0 <= j < l.len() ==> Dim::before(#[trigger] l[j].0, Dim::Stage),
                forall|j: int| 0 <= j < n ==> f@.stage_ns.contains_key(#[trigger] s[j].0),
                stage_def@ == catalog::latency_stage_def(v.min_samples),
                share_def@ == catalog::latency_stage_share_def(),
                views(out@) == start + v.stage_samples(l, f@, s.subrange(0, i as int), at),
            decreases n - i,
        {
            broadcast use group_views;

            let ghost before = v.stage_samples(l, f@, s.subrange(0, i as int), at);
            let ghost now = views(out@);
            proof {
                let next = s.subrange(0, i as int + 1);
                assert(next.drop_last() =~= s.subrange(0, i as int));
                assert(next.last() == s[i as int]);
                assert(f@.stage_ns.contains_key(s[i as int].0));
                assert(f@.stage_ms.contains_key(s[i as int].0));
            }
            let stage = f.stage_ns.key_at(i);
            let ns: u64 = f.stage_ns.amount_at(i);
            if let Some(ms) = f.stage_ms.get(stage) {
                let mut d = copy_dims(dims);
                d.append(Dim::Stage, DimValue::label(stage.as_str()));
                let a = MetricSample::new(
                    &stage_def,
                    at,
                    copy_dims(&d),
                    SampleValue::Distribution(ms.summary(self.min_samples)),
                );
                let b = MetricSample::new(
                    &share_def,
                    at,
                    d,
                    SampleValue::Ratio(ratio_of_whole_sums(ns, f.total_ns, f.n, 1)),
                );
                out.push(a);
                out.push(b);
                assert(views(out@) =~= now + seq![a@, b@]);
                assert(now + seq![a@, b@] =~= start + (before + seq![a@, b@]));
            }
            i = i + 1;
        }
        assert(s.subrange(0, n as int) =~= s);
    }

    fn emit_flow(
        &self,
        key: &(String, Option<String>),
        f: &FlowAcc,
        at: SimTime,
        out: &mut Vec<MetricSample>,
    )
        requires
            f@.sound(),
        ensures
            views(final(out)@) == views(old(out)@) + self@.samples_of_flow(key.rank(), f@, at),
    {
        broadcast use group_views;

        let ghost start = views(out@);
        let dims = dims_of(key.0.as_str(), &key.1);
        let first = MetricSample::new(
            &catalog::e2e_latency(self.min_samples),
            at,
            copy_dims(&dims),
            SampleValue::Distribution(f.e2e_ms.summary(self.min_samples)),
        );
        out.push(first);
        assert(views(out@) =~= start + seq![first@]);
        self.emit_stages(&dims, f, at, out);
        assert(views(out@) =~= start + self@.samples_of_flow(key.rank(), f@, at));
    }

    /// The samples of the window that ends at `at`; what was accumulated is drained.
    pub fn flush(&mut self, at: SimTime) -> (out: Vec<MetricSample>)
        requires
            old(self)@.sound(),
        ensures
            views(out@) == old(self)@.samples(at),
            final(self)@ == old(self)@.flushed(),
            final(self)@.sound(),
    {
        broadcast use group_views;

        let mut out: Vec<MetricSample> = Vec::new();
        let n: usize = self.acc.len();
        let ghost s = self.acc.listing();
        let ghost v = self@;
        let mut i: usize = 0;
        assert(s.subrange(0, 0) =~= Seq::<((Seq<char>, Option<Seq<char>>), FlowView)>::empty());
        assert(views(out@) =~= v.flow_samples(s.subrange(0, 0), at));
        assert forall|j: int| 0 <= j < n implies (#[trigger] s[j]).1.sound() by {
            assert(v.acc.contains_key(s[j].0));
        }
        while i < n
            invariant
                v == self@,
                s == self.acc.listing(),
                n == s.len(),
                i <= n,
                forall|j: int| 0 <= j < n ==> (#[trigger] s[j]).1.sound(),
                views(out@) == v.flow_samples(s.subrange(0, i as int), at),
            decreases n - i,
        {
            proof {
                let next = s.subrange(0, i as int + 1);
                assert(next.drop_last() =~= s.subrange(0, i as int));
                assert(next.last() == s[i as int]);
            }
            let f = self.acc.value_at(i);
            assert(f@ == s[i as int].1);
            self.emit_flow(self.acc.key_at(i), f, at, &mut out);
            i = i + 1;
        }
        assert(s.subrange(0, n as int) =~= s);
        out.push(
            MetricSample::new(
                &catalog::latency_trace_rejected(),
                at,
                no_dims(),
                SampleValue::count(self.rejected_traces),
            ),
        );
        assert(views(out@) =~= v.samples(at));
        let _ = self.acc.drain();
        self.rejected_traces = 0;
        out
    }

    /// How many records could not be read.
    pub fn rejected(&self) -> (r: u64)
        ensures
            r == self@.rejected,
    {
        self.rejected
    }

    /// The card of the provider.
    pub fn card(&self) -> (r: ModelCard)
        ensures
            r@ == catalog::latency_card(),
    {
        catalog::build_card()
    }

    /// The definitions of the provider's metrics.
    pub fn definitions(&self) -> (r: Vec<MetricDef>)
        ensures
            views(r@) == catalog::all_defs(self@.min_samples),
    {
        catalog::definitions(self.min_samples)
    }
}

/// The shares of the stages of a flow sum to one: each is the time in its stage over the
/// time in all stages, and the times sum to it.
pub proof fn the_stage_shares_sum_to_one(f: FlowView)
    requires
        f.sound(),
        f.total_ns > 0,
        f.n > 0,
    ensures
        sum_of(in_order::<String, u64>(f.stage_ns)) == f.total_ns,
        forall|i: int|
            0 <= i < in_order::<String, u64>(f.stage_ns).len() ==> match whole_sums_ratio(
                (#[trigger] in_order::<String, u64>(f.stage_ns)[i]).1,
                f.total_ns,
                f.n,
                1,
            ) {
                RatioEstimate::RatioOfSums { point, .. } => point@.num == in_order::<String, u64>(
                    f.stage_ns,
                )[i].1 && point@.den == f.total_ns,
                _ => false,
            },
{
    assert forall|i: int| 0 <= i < in_order::<String, u64>(f.stage_ns).len() implies match whole_sums_ratio(
        (#[trigger] in_order::<String, u64>(f.stage_ns)[i]).1,
        f.total_ns,
        f.n,
        1,
    ) {
        RatioEstimate::RatioOfSums { point, .. } => point@.num == in_order::<String, u64>(
            f.stage_ns,
        )[i].1 && point@.den == f.total_ns,
        _ => false,
    } by {
        real_of_is_the_quotient(
            in_order::<String, u64>(f.stage_ns)[i].1 as int,
            f.total_ns as int,
        );
    }
}

/// A message that was not delivered has no latency.
pub proof fn an_undelivered_message_has_no_latency(v: LatencyView, fate: NodeRxView)
    requires
        fate.outcome != RxFate::Delivered,
    ensures
        v.after_fate(fate) == v,
        fate.trace() is None,
{
}

} // verus!
