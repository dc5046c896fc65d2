//! End-to-end delay, decomposed.
//!
//! A message's latency is a journey of stages. A [`LatencyTrace`] lists them, each
//! beginning where the one before it ended, so that their durations sum to the end-to-end
//! latency exactly. A trace of which that is not true has a [`TraceDefect`].

use vstd::prelude::*;
use vstd::string::*;
use crate::basic::{NodeId, SimTime, Visibility};
use crate::card::{group_views, views};
use crate::channels::{NodeRxView, RxFate};
use crate::keyed::{optional_text};
use crate::tally::{amount, Tally};
use crate::text::{decimal, numeral};

verus! {

/// The flow that broadcast messages between vehicles belong to.
pub const FLOW_V2V: &'static str = "v2v";

/// The channel that traces are recorded on.
pub const MSG_LATENCY: &'static str = "msg.latency";

/// One stage of one message's journey.
#[derive(Debug)]
pub struct Span {
    /// The stage's name.
    pub stage: String,
    /// Which hop of the flow it belongs to, from zero at the originator.
    pub hop: u16,
    /// When the stage began.
    pub start: SimTime,
    /// When it ended.
    pub end: SimTime,
}

/// What a stage is.
#[verifier::ext_equal]
pub ghost struct SpanView {
    pub stage: Seq<char>,
    pub hop: u16,
    pub start: SimTime,
    pub end: SimTime,
}

impl View for Span {
    type V = SpanView;

    open spec fn view(&self) -> SpanView {
        SpanView { stage: self.stage@, hop: self.hop, start: self.start, end: self.end }
    }
}

impl SpanView {
    /// The stage's duration; a stage that ends before it begins has none.
    pub open spec fn duration(self) -> int {
        if self.end >= self.start {
            self.end - self.start
        } else {
            0
        }
    }
}

impl Span {
    /// The stage's duration in nanoseconds, or nothing if it ends before it begins.
    pub fn duration_ns(&self) -> (r: Option<u64>)
        ensures
            r == if self.end >= self.start {
                Some((self.end - self.start) as u64)
            } else {
                None::<u64>
            },
    {
        if self.end >= self.start {
            Some(self.end - self.start)
        } else {
            None
        }
    }
}

/// What is wrong with a trace, and at which stage.
#[derive(Clone, Copy, Debug, PartialEq, Eq, Structural)]
pub enum TraceFault {
    /// There is no stage.
    Empty,
    /// The first stage does not begin at the origin.
    NotFromOrigin,
    /// A stage ends before it begins.
    Negative {
        /// Which.
        at: usize,
    },
    /// A stage does not begin where the one before it ended.
    NotContiguous {
        /// Which.
        at: usize,
    },
}

/// Why a trace is not a decomposition of its message's latency.
#[derive(Debug)]
pub enum TraceDefect {
    /// The trace has no stages.
    Empty,
    /// The first stage does not begin at the origin.
    NotFromOrigin {
        /// The stage.
        stage: String,
        /// When it began.
        start: SimTime,
        /// The origin.
        origin: SimTime,
    },
    /// A stage ends before it begins.
    Negative {
        /// The stage.
        stage: String,
        /// When it began.
        start: SimTime,
        /// When it ended.
        end: SimTime,
    },
    /// A stage does not begin where the one before it ended.
    NotContiguous {
        /// The stage.
        stage: String,
        /// When it began.
        start: SimTime,
        /// When the one before it ended.
        previous_end: SimTime,
    },
}

/// What a defect says.
pub ghost enum DefectView {
    Empty,
    NotFromOrigin { stage: Seq<char>, start: SimTime, origin: SimTime },
    Negative { stage: Seq<char>, start: SimTime, end: SimTime },
    NotContiguous { stage: Seq<char>, start: SimTime, previous_end: SimTime },
}

impl View for TraceDefect {
    type V = DefectView;

    open spec fn view(&self) -> DefectView {
        match *self {
            TraceDefect::Empty => DefectView::Empty,
            TraceDefect::NotFromOrigin { stage, start, origin } => DefectView::NotFromOrigin {
                stage: stage@,
                start,
                origin,
            },
            TraceDefect::Negative { stage, start, end } => DefectView::Negative {
                stage: stage@,
                start,
                end,
            },
            TraceDefect::NotContiguous { stage, start, previous_end } =>
                DefectView::NotContiguous { stage: stage@, start, previous_end },
        }
    }
}

impl DefectView {
    /// The instants that the defect is about, with their names.
    pub open spec fn named_instants(self) -> Seq<(Seq<char>, SimTime)> {
        match self {
            DefectView::Empty => Seq::empty(),
            DefectView::NotFromOrigin { start, origin, .. } => seq![
                ("origin_ns"@, origin),
                ("start_ns"@, start),
            ],
            DefectView::Negative { start, end, .. } => seq![("end_ns"@, end), ("start_ns"@, start)],
            DefectView::NotContiguous { start, previous_end, .. } => seq![
                ("previous_end_ns"@, previous_end),
                ("start_ns"@, start),
            ],
        }
    }

    /// The defect in one sentence.
    pub open spec fn text(self) -> Seq<char> {
        match self {
            DefectView::Empty => "the trace has no stages"@,
            DefectView::NotFromOrigin { stage, start, origin } => "the first stage '"@ + stage
                + "' begins at "@ + numeral(start as nat) + ", not at the origin "@ + numeral(
                origin as nat,
            ),
            DefectView::Negative { stage, start, end } => "stage '"@ + stage + "' ends at "@
                + numeral(end as nat) + ", before it begins at "@ + numeral(start as nat),
            DefectView::NotContiguous { stage, start, previous_end } => "stage '"@ + stage
                + "' begins at "@ + numeral(start as nat) + ", but the previous stage ended at "@
                + numeral(previous_end as nat),
        }
    }
}

/// Names and instants, apart from how the names are stored.
pub open spec fn instants_view(s: Seq<(&'static str, SimTime)>) -> Seq<(Seq<char>, SimTime)> {
    s.map_values(|e: (&'static str, SimTime)| (e.0@, e.1))
}

impl TraceDefect {
    /// The instants that the defect is about, with their names.
    pub fn instants(&self) -> (r: Vec<(&'static str, SimTime)>)
        ensures
            instants_view(r@) == self@.named_instants(),
    {
        let out: Vec<(&'static str, SimTime)> = match self {
            TraceDefect::Empty => Vec::new(),
            TraceDefect::NotFromOrigin { start, origin, .. } => vec![
                ("origin_ns", *origin),
                ("start_ns", *start),
            ],
            TraceDefect::Negative { start, end, .. } => vec![("end_ns", *end), ("start_ns", *start)],
            TraceDefect::NotContiguous { start, previous_end, .. } => vec![
                ("previous_end_ns", *previous_end),
                ("start_ns", *start),
            ],
        };
        assert(instants_view(out@) =~= self@.named_instants());
        out
    }

    /// The defect in one sentence.
    pub fn to_text(&self) -> (r: String)
        ensures
            r@ == self@.text(),
    {
        match self {
            TraceDefect::Empty => "the trace has no stages".to_owned(),
            TraceDefect::NotFromOrigin { stage, start, origin } => {
                let mut s = "the first stage '".to_owned();
                s.append(stage.as_str());
                s.append("' begins at ");
                s.append(decimal(*start).as_str());
                s.append(", not at the origin ");
                s.append(decimal(*origin).as_str());
                s
            },
            TraceDefect::Negative { stage, start, end } => {
                let mut s = "stage '".to_owned();
                s.append(stage.as_str());
                s.append("' ends at ");
                s.append(decimal(*end).as_str());
                s.append(", before it begins at ");
                s.append(decimal(*start).as_str());
                s
            },
            TraceDefect::NotContiguous { stage, start, previous_end } => {
                let mut s = "stage '".to_owned();
                s.append(stage.as_str());
                s.append("' begins at ");
                s.append(decimal(*start).as_str());
                s.append(", but the previous stage ended at ");
                s.append(decimal(*previous_end).as_str());
                s
            },
        }
    }
}

/// One message's latency, decomposed into stages.
#[derive(Debug)]
pub struct LatencyTrace {
    /// The flow that the message belongs to.
    pub flow: String,
    /// The type of the message.
    pub msg_type: Option<String>,
    /// The message.
    pub msg: Option<u64>,
    /// The node it originated at.
    pub origin: Option<NodeId>,
    /// The node it was delivered to.
    pub dest: Option<NodeId>,
    /// When it came into existence.
    pub t_origin: SimTime,
    /// The stages, in order.
    pub spans: Vec<Span>,
}

/// What a trace says.
#[verifier::ext_equal]
pub ghost struct TraceView {
    pub flow: Seq<char>,
    pub msg_type: Option<Seq<char>>,
    pub msg: Option<u64>,
    pub origin: Option<NodeId>,
    pub dest: Option<NodeId>,
    pub t_origin: SimTime,
    pub spans: Seq<SpanView>,
}

impl View for LatencyTrace {
    type V = TraceView;

    open spec fn view(&self) -> TraceView {
        TraceView {
            flow: self.flow@,
            msg_type: optional_text(self.msg_type),
            msg: self.msg,
            origin: self.origin,
            dest: self.dest,
            t_origin: self.t_origin,
            spans: views(self.spans@),
        }
    }
}

/// The first fault from stage `i` on, the stage before it having ended at `previous_end`.
pub open spec fn fault_from(spans: Seq<SpanView>, previous_end: SimTime, i: int) -> Option<
    TraceFault,
>
    decreases spans.len() - i,
{
    if i >= spans.len() {
        None
    } else if spans[i].start != previous_end {
        Some(TraceFault::NotContiguous { at: i as usize })
    } else if spans[i].end < spans[i].start {
        Some(TraceFault::Negative { at: i as usize })
    } else {
        fault_from(spans, spans[i].end, i + 1)
    }
}

/// The sum of the durations of some stages.
pub open spec fn durations(spans: Seq<SpanView>) -> int
    decreases spans.len(),
{
    if spans.len() == 0 {
        0
    } else {
        durations(spans.drop_last()) + spans.last().duration()
    }
}

/// The durations of some stages, added up by stage name.
pub open spec fn stage_durations(spans: Seq<SpanView>) -> Map<Seq<char>, u64>
    decreases spans.len(),
{
    if spans.len() == 0 {
        Map::empty()
    } else {
        let m = stage_durations(spans.drop_last());
        let s = spans.last().stage;
        m.insert(s, (amount(m, s) + spans.last().duration()) as u64)
    }
}

impl TraceView {
    /// The first fault of the trace, if it has one.
    pub open spec fn fault(self) -> Option<TraceFault> {
        if self.spans.len() == 0 {
            Some(TraceFault::Empty)
        } else if self.spans[0].start != self.t_origin {
            Some(TraceFault::NotFromOrigin)
        } else {
            fault_from(self.spans, self.t_origin, 0)
        }
    }

    /// What a fault of the trace says.
    pub open spec fn defect(self, f: TraceFault) -> DefectView {
        match f {
            TraceFault::Empty => DefectView::Empty,
            TraceFault::NotFromOrigin => DefectView::NotFromOrigin {
                stage: self.spans[0].stage,
                start: self.spans[0].start,
                origin: self.t_origin,
            },
            TraceFault::Negative { at } => DefectView::Negative {
                stage: self.spans[at as int].stage,
                start: self.spans[at as int].start,
                end: self.spans[at as int].end,
            },
            TraceFault::NotContiguous { at } => DefectView::NotContiguous {
                stage: self.spans[at as int].stage,
                start: self.spans[at as int].start,
                previous_end: if at == 0 {
                    self.t_origin
                } else {
                    self.spans[at - 1].end
                },
            },
        }
    }

    /// When the last stage ended.
    pub open spec fn delivery(self) -> Option<SimTime> {
        if self.spans.len() == 0 {
            None
        } else {
            Some(self.spans.last().end)
        }
    }

    /// The end-to-end latency.
    pub open spec fn total(self) -> Option<u64> {
        match self.delivery() {
            Some(end) => if end >= self.t_origin {
                Some((end - self.t_origin) as u64)
            } else {
                None
            },
            None => None,
        }
    }

    /// Every stage begins where the one before it ended, the first at the origin.
    pub open spec fn chained(self) -> bool {
        forall|i: int|
            0 <= i < self.spans.len() ==> (#[trigger] self.spans[i]).start == if i == 0 {
                self.t_origin
            } else {
                self.spans[i - 1].end
            }
    }

    /// The trace is chained and no stage runs backwards: its stages tile the interval from
    /// the origin to the delivery.
    pub open spec fn tiles(self) -> bool {
        &&& self.spans.len() > 0
        &&& self.chained()
        &&& forall|i: int|
            0 <= i < self.spans.len() ==> (#[trigger] self.spans[i]).start <= self.spans[i].end
    }
}

proof fn no_fault_from(spans: Seq<SpanView>, previous_end: SimTime, i: int)
    requires
        0 <= i <= spans.len(),
        fault_from(spans, previous_end, i) is None,
    ensures
        forall|j: int|
            i <= j < spans.len() ==> {
                &&& (#[trigger] spans[j]).start == if j == i {
                    previous_end
                } else {
                    spans[j - 1].end
                }
                &&& spans[j].start <= spans[j].end
            },
    decreases spans.len() - i,
{
    if i < spans.len() {
        no_fault_from(spans, spans[i].end, i + 1);
    }
}

proof fn sound_from(spans: Seq<SpanView>, previous_end: SimTime, i: int)
    requires
        0 <= i <= spans.len(),
        forall|j: int|
            i <= j < spans.len() ==> {
                &&& (#[trigger] spans[j]).start == if j == i {
                    previous_end
                } else {
                    spans[j - 1].end
                }
                &&& spans[j].start <= spans[j].end
            },
    ensures
        fault_from(spans, previous_end, i) is None,
    decreases spans.len() - i,
{
    if i < spans.len() {
        sound_from(spans, spans[i].end, i + 1);
    }
}

/// A trace is without a fault just when its stages tile the journey.
pub proof fn faultless_is_tiling(t: TraceView)
    ensures
        (t.fault() is None) == t.tiles(),
{
    if t.fault() is None {
        no_fault_from(t.spans, t.t_origin, 0);
    }
    if t.tiles() {
        sound_from(t.spans, t.t_origin, 0);
    }
}

/// The durations of the stages of a tiling trace sum to its end-to-end latency exactly.
pub proof fn stages_sum_to_the_total(t: TraceView)
    requires
        t.tiles(),
    ensures
        t.total() == Some(durations(t.spans) as u64),
        durations(t.spans) == t.spans.last().end - t.t_origin,
    decreases t.spans.len(),
{
    let shorter = TraceView { spans: t.spans.drop_last(), ..t };
    let n = t.spans.len() as int;
    if n > 1 {
        assert forall|i: int| 0 <= i < shorter.spans.len() implies (#[trigger] shorter.spans[i]).start
            == (if i == 0 {
            t.t_origin
        } else {
            shorter.spans[i - 1].end
        }) && shorter.spans[i].start <= shorter.spans[i].end by {
            assert(shorter.spans[i] == t.spans[i]);
        }
        stages_sum_to_the_total(shorter);
        assert(t.spans[n - 1].start == t.spans[n - 2].end);
    } else {
        assert(shorter.spans.len() == 0);
        assert(durations(shorter.spans) == 0);
        assert(t.spans[0].start == t.t_origin);
    }
}

/// The per-stage durations of a trace sum to the durations of its stages.
pub proof fn durations_bound(spans: Seq<SpanView>)
    ensures
        0 <= durations(spans),
        forall|i: int| 0 <= i <= spans.len() ==> durations(#[trigger] spans.subrange(0, i)) <= durations(spans),
    decreases spans.len(),
{
    if spans.len() > 0 {
        let d = spans.drop_last();
        durations_bound(d);
        assert forall|i: int| 0 <= i <= spans.len() implies durations(#[trigger] spans.subrange(0, i))
            <= durations(spans) by {
            if i == spans.len() {
                assert(spans.subrange(0, i) =~= spans);
            } else {
                assert(spans.subrange(0, i) =~= d.subrange(0, i));
            }
        }
    } else {
        assert forall|i: int| 0 <= i <= spans.len() implies durations(#[trigger] spans.subrange(0, i))
            <= durations(spans) by {
            assert(spans.subrange(0, i) =~= spans);
        }
    }
}

impl LatencyTrace {
    /// When the last stage ended, or nothing for a trace without stages.
    pub fn end(&self) -> (r: Option<SimTime>)
        ensures
            r == self@.delivery(),
    {
        let n: usize = self.spans.len();
        assert(self@.spans.len() == n);
        if n == 0 {
            None
        } else {
            assert(self@.spans.last() == self.spans@[n - 1]@);
            Some(self.spans[n - 1].end)
        }
    }

    /// The end-to-end latency in nanoseconds: delivery less origin.
    pub fn total_ns(&self) -> (r: Option<u64>)
        ensures
            r == self@.total(),
    {
        match self.end() {
            Some(end) => if end >= self.t_origin {
                Some(end - self.t_origin)
            } else {
                None
            },
            None => None,
        }
    }

    /// The first fault of the trace, if it has one.
    pub fn fault(&self) -> (r: Option<TraceFault>)
        ensures
            r == self@.fault(),
    {
        let n: usize = self.spans.len();
        let ghost spans = self@.spans;
        assert(spans.len() == n);
        if n == 0 {
            return Some(TraceFault::Empty);
        }
        assert(spans[0] == self.spans@[0]@);
        if self.spans[0].start != self.t_origin {
            return Some(TraceFault::NotFromOrigin);
        }
        let mut previous_end: SimTime = self.t_origin;
        let mut i: usize = 0;
        while i < n
            invariant
                n == self.spans@.len(),
                spans == views(self.spans@),
                spans.len() == n,
                i <= n,
                self@.fault() == fault_from(spans, previous_end, i as int),
            decreases n - i,
        {
            assert(spans[i as int] == self.spans@[i as int]@);
            if self.spans[i].start != previous_end {
                return Some(TraceFault::NotContiguous { at: i });
            }
            if self.spans[i].end < self.spans[i].start {
                return Some(TraceFault::Negative { at: i });
            }
            previous_end = self.spans[i].end;
            i = i + 1;
        }
        None
    }

    /// What a fault of this trace says.
    pub fn defect(&self, f: TraceFault) -> (r: TraceDefect)
        requires
            self@.fault() == Some(f),
        ensures
            r@ == self@.defect(f),
    {
        let n: usize = self.spans.len();
        proof {
            assert(self@.spans.len() == n);
            fault_positions(self@.spans, self.t_origin, 0);
        }
        match f {
            TraceFault::Empty => TraceDefect::Empty,
            TraceFault::NotFromOrigin => {
                assert(self@.spans[0] == self.spans@[0]@);
                TraceDefect::NotFromOrigin {
                    stage: self.spans[0].stage.clone(),
                    start: self.spans[0].start,
                    origin: self.t_origin,
                }
            },
            TraceFault::Negative { at } => {
                assert(self@.spans[at as int] == self.spans@[at as int]@);
                TraceDefect::Negative {
                    stage: self.spans[at].stage.clone(),
                    start: self.spans[at].start,
                    end: self.spans[at].end,
                }
            },
            TraceFault::NotContiguous { at } => {
                assert(self@.spans[at as int] == self.spans@[at as int]@);
                let previous_end: SimTime = if at == 0 {
                    self.t_origin
                } else {
                    assert(self@.spans[at - 1] == self.spans@[at - 1]@);
                    self.spans[at - 1].end
                };
                TraceDefect::NotContiguous {
                    stage: self.spans[at].stage.clone(),
                    start: self.spans[at].start,
                    previous_end,
                }
            },
        }
    }

    /// Checks that the stages tile the journey: there is one, the first begins at the
    /// origin, each ends no earlier than it begins, and begins where the one before ended.
    pub fn validate(&self) -> (r: Result<(), TraceDefect>)
        ensures
            match r {
                Ok(_) => self@.fault() is None && self@.tiles(),
                Err(d) => self@.fault() is Some && d@ == self@.defect(self@.fault()->Some_0),
            },
    {
        proof {
            faultless_is_tiling(self@);
        }
        match self.fault() {
            None => Ok(()),
            Some(f) => Err(self.defect(f)),
        }
    }

    /// Each stage's duration in nanoseconds, the hops of one stage added up.
    pub fn stage_ns(&self) -> (r: Tally<String>)
        requires
            durations(self@.spans) <= u64::MAX,
        ensures
            r@ == stage_durations(self@.spans),
            r.sum() == durations(self@.spans),
    {
        let ghost spans = self@.spans;
        let n: usize = self.spans.len();
        let mut out: Tally<String> = Tally::new();
        let mut i: usize = 0;
        proof {
            assert(spans.subrange(0, 0) =~= Seq::<SpanView>::empty());
            durations_bound(spans);
        }
        while i < n
            invariant
                n == self.spans@.len(),
                spans == views(self.spans@),
                spans.len() == n,
                i <= n,
                durations(spans) <= u64::MAX,
                forall|k: int|
                    0 <= k <= spans.len() ==> durations(#[trigger] spans.subrange(0, k)) <= durations(
                        spans,
                    ),
                out@ == stage_durations(spans.subrange(0, i as int)),
                out.sum() == durations(spans.subrange(0, i as int)),
            decreases n - i,
        {
            proof {
                let next = spans.subrange(0, i as int + 1);
                assert(next.drop_last() =~= spans.subrange(0, i as int));
                assert(next.last() == self.spans@[i as int]@);
                assert(durations(next) <= durations(spans));
            }
            let d: u64 = match self.spans[i].duration_ns() {
                Some(ns) => ns,
                None => 0,
            };
            out.increase(self.spans[i].stage.clone(), d);
            i = i + 1;
        }
        assert(spans.subrange(0, n as int) =~= spans);
        out
    }

    /// Who may see the trace: naming an endpoint names a vehicle.
    pub fn visibility(&self) -> (r: Visibility)
        ensures
            r == if self.origin is Some || self.dest is Some {
                Visibility::NodeAndGt
            } else {
                Visibility::Node
            },
    {
        if self.origin.is_some() || self.dest.is_some() {
            Visibility::NodeAndGt
        } else {
            Visibility::Node
        }
    }
}

proof fn fault_positions(spans: Seq<SpanView>, previous_end: SimTime, i: int)
    requires
        0 <= i,
        spans.len() <= usize::MAX,
    ensures
        match fault_from(spans, previous_end, i) {
            Some(TraceFault::Negative { at }) => at < spans.len(),
            Some(TraceFault::NotContiguous { at }) => at < spans.len(),
            _ => true,
        },
    decreases spans.len() - i,
{
    if i < spans.len() {
        fault_positions(spans, spans[i].end, i + 1);
    }
}

/// Builds a trace one stage at a time: a producer names where each stage ends, so each
/// begins where the one before it ended.
#[derive(Debug)]
pub struct TraceBuilder {
    trace: LatencyTrace,
    cursor: SimTime,
    hop: u16,
}

/// What a builder has so far.
pub ghost struct Built {
    pub trace: TraceView,
    pub cursor: SimTime,
    pub hop: u16,
}

impl View for TraceBuilder {
    type V = Built;

    closed spec fn view(&self) -> Built {
        Built { trace: self.trace@, cursor: self.cursor, hop: self.hop }
    }
}

impl Built {
    /// Every stage so far is chained, and the next one will be.
    pub open spec fn chained(self) -> bool {
        &&& self.trace.chained()
        &&& self.cursor == if self.trace.spans.len() == 0 {
            self.trace.t_origin
        } else {
            self.trace.spans.last().end
        }
    }

    /// After one more stage.
    pub open spec fn and(self, stage: Seq<char>, end: SimTime) -> Built {
        Built {
            trace: TraceView {
                spans: self.trace.spans.push(
                    SpanView { stage, hop: self.hop, start: self.cursor, end },
                ),
                ..self.trace
            },
            cursor: end,
            hop: self.hop,
        }
    }
}

/// One more stage keeps a builder chained.
pub proof fn building_keeps_the_chain(b: Built, stage: Seq<char>, end: SimTime)
    requires
        b.chained(),
    ensures
        b.and(stage, end).chained(),
{
    let after = b.and(stage, end).trace;
    assert forall|i: int| 0 <= i < after.spans.len() implies (#[trigger] after.spans[i]).start == (if i
        == 0 {
        after.t_origin
    } else {
        after.spans[i - 1].end
    }) by {
        if i < b.trace.spans.len() {
            assert(after.spans[i] == b.trace.spans[i]);
        }
    }
}

impl TraceBuilder {
    /// A trace of `flow` that originated at `t_origin`.
    pub fn new(flow: &str, msg_type: Option<String>, msg: Option<u64>, t_origin: SimTime) -> (r:
        TraceBuilder)
        ensures
            r@ == (Built {
                trace: TraceView {
                    flow: flow@,
                    msg_type: optional_text(msg_type),
                    msg,
                    origin: None,
                    dest: None,
                    t_origin,
                    spans: Seq::empty(),
                },
                cursor: t_origin,
                hop: 0,
            }),
            r@.chained(),
    {
        broadcast use group_views;

        TraceBuilder {
            trace: LatencyTrace {
                flow: flow.to_owned(),
                msg_type,
                msg,
                origin: None,
                dest: None,
                t_origin,
                spans: Vec::new(),
            },
            cursor: t_origin,
            hop: 0,
        }
    }

    /// Names the endpoints.
    pub fn endpoints(&mut self, origin: Option<NodeId>, dest: Option<NodeId>) -> (r: &mut Self)
        ensures
            r@ == (Built {
                trace: TraceView { origin, dest, ..old(self)@.trace },
                ..old(self)@
            }),
            *final(self) == *final(r),
    {
        self.trace.origin = origin;
        self.trace.dest = dest;
        self
    }

    /// The stages that follow belong to hop `hop`.
    pub fn hop(&mut self, hop: u16) -> (r: &mut Self)
        ensures
            r@ == (Built { hop, ..old(self)@ }),
            *final(self) == *final(r),
    {
        self.hop = hop;
        self
    }

    /// Appends a stage, from where the one before it ended to `end`. An `end` before that
    /// is kept as it is: the trace is then defective, and says so.
    pub fn to(&mut self, stage: &str, end: SimTime) -> (r: &mut Self)
        ensures
            r@ == old(self)@.and(stage@, end),
            *final(self) == *final(r),
    {
        broadcast use group_views;

        self.trace.spans.push(
            Span { stage: stage.to_owned(), hop: self.hop, start: self.cursor, end },
        );
        self.cursor = end;
        self
    }

    /// The trace.
    pub fn finish(self) -> (r: LatencyTrace)
        ensures
            r@ == self@.trace,
    {
        self.trace
    }
}

/// The stages of a broadcast message between vehicles, in order.
pub open spec fn v2v_stages() -> Seq<Seq<char>> {
    seq![
        "sign_queue"@,
        "sign"@,
        "mac_aifs"@,
        "mac_backoff"@,
        "mac_defer"@,
        "airtime"@,
        "propagation"@,
        "reception"@,
        "verify_queue"@,
        "verify"@,
    ]
}

/// The instant `b` nanoseconds after `a`, or the last one there is.
pub open spec fn later_by(a: SimTime, b: u64) -> SimTime {
    if a + b <= u64::MAX {
        (a + b) as u64
    } else {
        u64::MAX
    }
}

/// A stage of the first hop.
pub open spec fn v2v_span(i: int, start: SimTime, end: SimTime) -> SpanView {
    SpanView { stage: v2v_stages()[i], hop: 0, start, end }
}

impl NodeRxView {
    /// True if every instant of the journey is known.
    pub open spec fn fully_stamped(self) -> bool {
        &&& self.t_generated is Some
        &&& self.t_sign_start is Some
        &&& self.t_signed is Some
        &&& self.t_tx_start is Some
        &&& self.t_tx_end is Some
        &&& self.t_arrival is Some
        &&& self.t_rx_done is Some
        &&& self.t_verify_start is Some
        &&& self.t_verify_done is Some
        &&& self.t_delivered is Some
    }

    /// When the arbitration inter-frame space was over.
    pub open spec fn aifs_end(self) -> SimTime {
        later_by(
            self.t_signed->Some_0,
            match self.mac_aifs_ns {
                Some(ns) => ns,
                None => 0,
            },
        )
    }

    /// When the backoff was over.
    pub open spec fn backoff_end(self) -> SimTime {
        later_by(
            self.aifs_end(),
            match self.mac_backoff_ns {
                Some(ns) => ns,
                None => 0,
            },
        )
    }

    /// The journey of a delivered message.
    pub open spec fn journey(self) -> Seq<SpanView> {
        seq![
            v2v_span(0, self.t_generated->Some_0, self.t_sign_start->Some_0),
            v2v_span(1, self.t_sign_start->Some_0, self.t_signed->Some_0),
            v2v_span(2, self.t_signed->Some_0, self.aifs_end()),
            v2v_span(3, self.aifs_end(), self.backoff_end()),
            v2v_span(4, self.backoff_end(), self.t_tx_start->Some_0),
            v2v_span(5, self.t_tx_start->Some_0, self.t_tx_end->Some_0),
            v2v_span(6, self.t_tx_end->Some_0, self.t_arrival->Some_0),
            v2v_span(7, self.t_arrival->Some_0, self.t_rx_done->Some_0),
            v2v_span(8, self.t_rx_done->Some_0, self.t_verify_start->Some_0),
            v2v_span(9, self.t_verify_start->Some_0, self.t_verify_done->Some_0),
        ]
    }

    /// The decomposed latency of a delivered message; there is none where the message was
    /// not delivered, an instant is missing, or the stages do not end at the delivery.
    pub open spec fn trace(self) -> Option<TraceView> {
        if self.outcome == RxFate::Delivered && self.fully_stamped() && self.t_verify_done
            == self.t_delivered {
            Some(
                TraceView {
                    flow: FLOW_V2V@,
                    msg_type: optional_text(self.msg_type),
                    msg: self.msg,
                    origin: self.tx,
                    dest: Some(self.rx),
                    t_origin: self.t_generated->Some_0,
                    spans: self.journey(),
                },
            )
        } else {
            None
        }
    }

    /// The end-to-end latency of a delivered message: delivery less generation.
    pub open spec fn latency(self) -> Option<u64> {
        match (self.t_generated, self.t_delivered) {
            (Some(g), Some(d)) => if self.outcome == RxFate::Delivered && d >= g {
                Some((d - g) as u64)
            } else {
                None
            },
            _ => None,
        }
    }

    /// The end-to-end latency of a delivered message in nanoseconds.
    pub fn e2e_ns(&self) -> (r: Option<u64>)
        ensures
            r == self.latency(),
    {
        match (self.t_generated, self.t_delivered) {
            (Some(g), Some(d)) => if self.outcome == RxFate::Delivered && d >= g {
                Some(d - g)
            } else {
                None
            },
            _ => None,
        }
    }

    /// The decomposed latency of a delivered message.
    pub fn latency_trace(&self) -> (r: Option<LatencyTrace>)
        ensures
            match r {
                Some(t) => self.trace() == Some(t@),
                None => self.trace() is None,
            },
    {
        if self.outcome != RxFate::Delivered {
            return None;
        }
        match (
            self.t_generated,
            self.t_sign_start,
            self.t_signed,
            self.t_tx_start,
            self.t_tx_end,
            self.t_arrival,
            self.t_rx_done,
            self.t_verify_start,
            self.t_verify_done,
            self.t_delivered,
        ) {
            (
                Some(generated),
                Some(sign_start),
                Some(signed),
                Some(tx_start),
                Some(tx_end),
                Some(arrival),
                Some(rx_done),
                Some(verify_start),
                Some(verify_done),
                Some(delivered),
            ) => {
                if verify_done != delivered {
                    return None;
                }
                let aifs: u64 = match self.mac_aifs_ns {
                    Some(ns) => ns,
                    None => 0,
                };
                let backoff: u64 = match self.mac_backoff_ns {
                    Some(ns) => ns,
                    None => 0,
                };
                let aifs_end: u64 = signed.saturating_add(aifs);
                let backoff_end: u64 = aifs_end.saturating_add(backoff);
                let mut b = TraceBuilder::new(
                    FLOW_V2V,
                    self.msg_type.clone(),
                    self.msg,
                    generated,
                );
                let _ = b.endpoints(self.tx, Some(self.rx));
                let _ = b.to("sign_queue", sign_start);
                let _ = b.to("sign", signed);
                let _ = b.to("mac_aifs", aifs_end);
                let _ = b.to("mac_backoff", backoff_end);
                let _ = b.to("mac_defer", tx_start);
                let _ = b.to("airtime", tx_end);
                let _ = b.to("propagation", arrival);
                let _ = b.to("reception", rx_done);
                let _ = b.to("verify_queue", verify_start);
                let _ = b.to("verify", verify_done);
                let t = b.finish();
                assert(t@.spans =~= self.journey());
                assert(t@ =~= self.trace()->Some_0);
                Some(t)
            },
            _ => None,
        }
    }
}

/// A decomposed delivery whose stamps run forward sums, stage by stage, to its end-to-end
/// latency.
pub proof fn a_decomposed_delivery_sums_to_its_latency(v: NodeRxView)
    requires
        v.trace() is Some,
        v.trace()->Some_0.tiles(),
    ensures
        v.latency() == Some(durations(v.journey()) as u64),
        v.trace()->Some_0.total() == v.latency(),
{
    stages_sum_to_the_total(v.trace()->Some_0);
}

} // verus!
