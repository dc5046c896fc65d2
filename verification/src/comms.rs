//! Communication metrics: delivery, error, busy ratio, gaps, goodput, bytes and air time.
//!
//! Every metric is of one window. Counts, bytes and air time are integers, so their sums
//! are exact; a window's tables are written in the order of their keys.

use vstd::prelude::*;
use vstd::pervasive::unreached;
use crate::basic::SimTime;
use crate::bins::{bin_of, whole_bins_are_valid, Bins};
use crate::card::{group_views, views, ModelCard};
use crate::catalog::comms as catalog;
use crate::channels::{channel_named, find_channel, ByteBucket, Channel, EventRecord, MacCbrView, NodeRxView, NodeTxView, Payload, PhyRxView, RxFate, RxOutcome};
use crate::def::{no_dims, one_dim, sample_of, Dim, DimText, DimValue, MetricDef, MetricSample, SampleValue, SampleView};
use crate::distribution::{nothing_observed, Distribution, Observed};
use crate::keyed::{in_order, increasing, orderly, Key, SortedMap};
use crate::ledger::one_more;
use crate::quant::{grid_of, quotient, real_of, real_of_is_the_quotient, Real, NANO};
use crate::stats::{needed, no_counts, ratio_of_sums, sums_ratio, ConfidenceLevel, Counts, Estimate, Proportion, RatioEstimate, DEFAULT_MIN_SAMPLES};
use crate::tally::{amount, increases_commute, total_of, total_of_nothing, total_splits, Tally};
use crate::text::str_texts;

verus! {

/// The label of receptions whose true distance was not recorded.
pub const UNBINNED: &'static str = "unbinned";

/// The communication metrics of a run.
pub struct CommsProvider {
    level: ConfidenceLevel,
    min_samples: u64,
    bins: Bins,
    window_start: SimTime,
    pdr_by_bin: SortedMap<usize, Proportion>,
    pdr_unbinned: Proportion,
    pdr_all: Proportion,
    losses_by_cause: Tally<String>,
    cbr: SortedMap<Option<u16>, Distribution>,
    pir: Distribution,
    last_rx: SortedMap<(u32, u32), SimTime>,
    airtime_us: Tally<u32>,
    bytes: Tally<ByteBucket>,
    goodput_bytes: u64,
    deliveries: u64,
    rejected: u64,
}

/// What the communication metrics have accumulated.
#[verifier::ext_equal]
pub ghost struct CommsView {
    pub level: ConfidenceLevel,
    pub min_samples: u64,
    pub bins: Bins,
    pub window_start: SimTime,
    pub pdr_by_bin: Map<usize, Counts>,
    pub pdr_unbinned: Counts,
    pub pdr_all: Counts,
    pub losses_by_cause: Map<Seq<char>, u64>,
    pub cbr: Map<Option<u16>, Observed>,
    pub pir: Observed,
    pub last_rx: Map<(u32, u32), SimTime>,
    pub airtime_us: Map<u32, u64>,
    pub bytes: Map<ByteBucket, u64>,
    pub goodput_bytes: u64,
    pub deliveries: u64,
    pub rejected: u64,
}

impl View for CommsProvider {
    type V = CommsView;

    closed spec fn view(&self) -> CommsView {
        CommsView {
            level: self.level,
            min_samples: self.min_samples,
            bins: self.bins,
            window_start: self.window_start,
            pdr_by_bin: self.pdr_by_bin@,
            pdr_unbinned: self.pdr_unbinned@,
            pdr_all: self.pdr_all@,
            losses_by_cause: self.losses_by_cause@,
            cbr: self.cbr@,
            pir: self.pir@,
            last_rx: self.last_rx@,
            airtime_us: self.airtime_us@,
            bytes: self.bytes@,
            goodput_bytes: self.goodput_bytes,
            deliveries: self.deliveries,
            rejected: self.rejected,
        }
    }
}

/// A tally with more of one key.
pub open spec fn plus<R>(m: Map<R, u64>, r: R, n: u64) -> Map<R, u64> {
    m.insert(r, (amount(m, r) + n) as u64)
}

/// The counts held for a bin.
pub open spec fn counts_at(m: Map<usize, Counts>, bin: usize) -> Counts {
    if m.contains_key(bin) {
        m[bin]
    } else {
        no_counts()
    }
}

/// The observations held for a channel.
pub open spec fn observed_on(m: Map<Option<u16>, Observed>, c: Option<u16>) -> Observed {
    if m.contains_key(c) {
        m[c]
    } else {
        nothing_observed()
    }
}

/// A tally with one more of every given cause.
pub open spec fn more_causes(m: Map<Seq<char>, u64>, causes: Seq<Seq<char>>) -> Map<Seq<char>, u64>
    decreases causes.len(),
{
    if causes.len() == 0 {
        m
    } else {
        one_more(more_causes(m, causes.drop_last()), causes.last())
    }
}

/// The bin that a true distance in millimetres falls in.
pub open spec fn distance_bin(bins: Bins, dist_mm: Option<i64>) -> Option<int> {
    match dist_mm {
        Some(d) => bin_of(bins.edges(), grid_of(quotient(d as int, 1_000), bins.per_unit())),
        None => None,
    }
}

/// The bin that a true distance in millimetres falls in.
pub(crate) fn find_bin(bins: &Bins, dist_mm: Option<i64>) -> (r: Option<usize>)
    ensures
        match r {
            Some(i) => distance_bin(*bins, dist_mm) == Some(i as int) && i < bins.edges().len(),
            None => distance_bin(*bins, dist_mm) is None,
        },
{
    match dist_mm {
        Some(d) => bins.index_of(Real::new(d as i128, 1_000)),
        None => None,
    }
}

impl CommsView {
    /// After a transmission.
    pub open spec fn after_tx(self, v: NodeTxView) -> CommsView {
        CommsView {
            airtime_us: match v.airtime_us {
                Some(us) => plus(self.airtime_us, v.node, us),
                None => self.airtime_us,
            },
            bytes: plus(self.bytes, ByteBucket::Air, v.bytes_on_wire),
            ..self
        }
    }

    /// After a trial in the bin of its distance, or without a bin.
    pub open spec fn after_trial(self, dist_mm: Option<i64>, delivered: bool) -> CommsView {
        let all = CommsView { pdr_all: self.pdr_all.and(delivered), ..self };
        match distance_bin(self.bins, dist_mm) {
            Some(i) => CommsView {
                pdr_by_bin: self.pdr_by_bin.insert(
                    i as usize,
                    counts_at(self.pdr_by_bin, i as usize).and(delivered),
                ),
                ..all
            },
            None => CommsView { pdr_unbinned: self.pdr_unbinned.and(delivered), ..all },
        }
    }

    /// After a reception on a directed link.
    pub open spec fn after_link(self, key: (u32, u32), t: SimTime) -> CommsView {
        CommsView {
            pir: if self.last_rx.contains_key(key) && t >= self.last_rx[key] {
                self.pir.and_quotient(t - self.last_rx[key], NANO as int)
            } else {
                self.pir
            },
            last_rx: self.last_rx.insert(key, t),
            ..self
        }
    }

    /// After a reception attempt. One out of candidate range is no trial.
    pub open spec fn after_rx(self, v: PhyRxView) -> CommsView {
        if !v.candidate {
            self
        } else if v.outcome == RxOutcome::Received {
            let counted = self.after_trial(v.dist_mm, true);
            match v.tx {
                Some(tx) => counted.after_link((tx, v.rx), v.t_end),
                None => counted,
            }
        } else {
            let counted = self.after_trial(v.dist_mm, false);
            CommsView {
                losses_by_cause: more_causes(self.losses_by_cause, v.every_cause()),
                ..counted
            }
        }
    }

    /// After a report of the medium access layer: the busy share of its window where both
    /// are reported, and the reported ratio otherwise.
    pub open spec fn after_cbr(self, v: MacCbrView) -> CommsView {
        let before = observed_on(self.cbr, v.channel);
        let after = match (v.busy_us, v.window_us) {
            (Some(busy), Some(window)) => if window > 0 {
                before.and_quotient(busy as int, window as int)
            } else {
                before.and_quotient(v.cbr_e4 as int, 10_000)
            },
            _ => before.and_quotient(v.cbr_e4 as int, 10_000),
        };
        CommsView { cbr: self.cbr.insert(v.channel, after), ..self }
    }

    /// After the fate of a message: a delivery is goodput.
    pub open spec fn after_fate(self, v: NodeRxView) -> CommsView {
        match (v.outcome, v.payload_bytes) {
            (RxFate::Delivered, Some(n)) => CommsView {
                goodput_bytes: (self.goodput_bytes + n) as u64,
                deliveries: (self.deliveries + 1) as u64,
                ..self
            },
            _ => self,
        }
    }

    /// After bytes in one bucket.
    pub open spec fn after_bytes(self, b: ByteBucket, n: u64) -> CommsView {
        CommsView { bytes: plus(self.bytes, b, n), ..self }
    }

    /// After a record that could not be read.
    pub open spec fn after_refusal(self) -> CommsView {
        CommsView { rejected: (self.rejected + 1) as u64, ..self }
    }

    /// After one record. Only the subscribed channels count, and a record of one of them
    /// that could not be read is counted as such.
    pub open spec fn after(self, ev: EventRecord) -> CommsView {
        match (channel_named(ev.channel@), ev.payload) {
            (Some(Channel::NodeTx), Payload::NodeTx(v)) => self.after_tx(v),
            (Some(Channel::PhyRx), Payload::PhyRx(v)) => self.after_rx(v),
            (Some(Channel::MacCbr), Payload::MacCbr(v)) => self.after_cbr(v),
            (Some(Channel::NodeRx), Payload::NodeRx(v)) => self.after_fate(v),
            (Some(Channel::NetBytes), Payload::NetBytes(v)) => self.after_bytes(
                v.bucket,
                v.bytes_on_wire,
            ),
            (Some(Channel::ProtoMsg), Payload::ProtoMsg(v)) => match v.transport {
                Some(b) => self.after_bytes(b, v.bytes_on_wire),
                None => self,
            },
            (Some(Channel::NodeTx), _) => self.after_refusal(),
            (Some(Channel::PhyRx), _) => self.after_refusal(),
            (Some(Channel::MacCbr), _) => self.after_refusal(),
            (Some(Channel::NodeRx), _) => self.after_refusal(),
            (Some(Channel::NetBytes), _) => self.after_refusal(),
            (Some(Channel::ProtoMsg), _) => self.after_refusal(),
            _ => self,
        }
    }

    /// Only bins that there are have been counted.
    pub open spec fn sound(self) -> bool {
        forall|i: usize|
            #[trigger] self.pdr_by_bin.contains_key(i) ==> i < self.bins.edges().len()
    }

    /// True if no counter overflows on a reception attempt.
    pub open spec fn room_for_rx(self, v: PhyRxView) -> bool {
        v.candidate ==> {
            &&& self.pdr_all.trials < u64::MAX
            &&& match distance_bin(self.bins, v.dist_mm) {
                Some(i) => counts_at(self.pdr_by_bin, i as usize).trials < u64::MAX,
                None => self.pdr_unbinned.trials < u64::MAX,
            }
            &&& v.outcome == RxOutcome::Lost ==> total_of::<String>(self.losses_by_cause)
                + v.every_cause().len() <= u64::MAX
        }
    }

    /// True if there is room for more bytes.
    pub open spec fn room_for_bytes(self, n: u64) -> bool {
        total_of::<ByteBucket>(self.bytes) + n <= u64::MAX
    }

    /// True if no counter overflows on `ev`.
    pub open spec fn room_for(self, ev: EventRecord) -> bool {
        match (channel_named(ev.channel@), ev.payload) {
            (Some(Channel::NodeTx), Payload::NodeTx(v)) => {
                &&& self.room_for_bytes(v.bytes_on_wire)
                &&& v.airtime_us matches Some(us) ==> total_of::<u32>(self.airtime_us) + us
                    <= u64::MAX
            },
            (Some(Channel::PhyRx), Payload::PhyRx(v)) => self.room_for_rx(v),
            (Some(Channel::MacCbr), Payload::MacCbr(_)) => true,
            (Some(Channel::NodeRx), Payload::NodeRx(v)) => match (v.outcome, v.payload_bytes) {
                (RxFate::Delivered, Some(n)) => self.goodput_bytes + n <= u64::MAX
                    && self.deliveries < u64::MAX,
                _ => true,
            },
            (Some(Channel::NetBytes), Payload::NetBytes(v)) => self.room_for_bytes(v.bytes_on_wire),
            (Some(Channel::ProtoMsg), Payload::ProtoMsg(v)) => v.transport is Some
                ==> self.room_for_bytes(v.bytes_on_wire),
            _ => self.rejected < u64::MAX,
        }
    }
}

/// A provider that has seen nothing yet.
pub open spec fn fresh(t0: SimTime, bins: Bins) -> CommsView {
    CommsView {
        level: ConfidenceLevel::P95,
        min_samples: DEFAULT_MIN_SAMPLES,
        bins,
        window_start: t0,
        pdr_by_bin: Map::empty(),
        pdr_unbinned: no_counts(),
        pdr_all: no_counts(),
        losses_by_cause: Map::empty(),
        cbr: Map::empty(),
        pir: nothing_observed(),
        last_rx: Map::empty(),
        airtime_us: Map::empty(),
        bytes: Map::empty(),
        goodput_bytes: 0,
        deliveries: 0,
        rejected: 0,
    }
}

impl CommsProvider {
    /// A provider with forty distance bins of twenty-five metres, whose first window starts
    /// at `t0`.
    pub fn new(t0: SimTime) -> (r: CommsProvider)
        ensures
            r@ == fresh(t0, r@.bins),
            r@.sound(),
            r@.bins.edges() == Seq::new(41, |i: int| i * 25 * 1_000),
            r@.bins.per_unit() == 1_000,
            r@.bins.dimension_text() == "dist_bin"@,
            r@.bins.unit_text() == "m"@,
    {
        proof {
            whole_bins_are_valid(25, 40, 1_000);
        }
        match Bins::distance_25m(40) {
            Ok(bins) => CommsProvider::with_bins(t0, bins),
            Err(_) => unreached(),
        }
    }

    /// A provider with the given distance bins.
    pub fn with_bins(t0: SimTime, bins: Bins) -> (r: CommsProvider)
        ensures
            r@ == fresh(t0, bins),
            r@.sound(),
    {
        CommsProvider {
            level: ConfidenceLevel::P95,
            min_samples: DEFAULT_MIN_SAMPLES,
            bins,
            window_start: t0,
            pdr_by_bin: SortedMap::new(),
            pdr_unbinned: Proportion::new(),
            pdr_all: Proportion::new(),
            losses_by_cause: Tally::new(),
            cbr: SortedMap::new(),
            pir: Distribution::new(),
            last_rx: SortedMap::new(),
            airtime_us: Tally::new(),
            bytes: Tally::new(),
            goodput_bytes: 0,
            deliveries: 0,
            rejected: 0,
        }
    }

    /// Sets the insufficiency threshold.
    pub fn with_min_samples(self, n: u64) -> (r: CommsProvider)
        ensures
            r@ == (CommsView { min_samples: n, ..self@ }),
    {
        let mut p = self;
        p.min_samples = n;
        p
    }

    /// Sets the confidence level.
    pub fn with_level(self, level: ConfidenceLevel) -> (r: CommsProvider)
        ensures
            r@ == (CommsView { level, ..self@ }),
    {
        let mut p = self;
        p.level = level;
        p
    }

    /// The distance bins.
    pub fn bins(&self) -> (r: &Bins)
        ensures
            *r == self@.bins,
    {
        &self.bins
    }

    fn on_tx(&mut self, v: &NodeTxView)
        requires
            total_of::<ByteBucket>(old(self)@.bytes) + v.bytes_on_wire <= u64::MAX,
            v.airtime_us matches Some(us) ==> total_of::<u32>(old(self)@.airtime_us) + us
                <= u64::MAX,
        ensures
            final(self)@ == old(self)@.after_tx(*v),
    {
        let _ = self.airtime_us.total();
        if let Some(us) = v.airtime_us {
            self.airtime_us.increase(v.node, us);
        }
        self.add_bytes(ByteBucket::Air, v.bytes_on_wire);
    }

    fn add_bytes(&mut self, b: ByteBucket, n: u64)
        requires
            old(self)@.room_for_bytes(n),
        ensures
            final(self)@ == old(self)@.after_bytes(b, n),
    {
        let _ = self.bytes.total();
        self.bytes.increase(b, n);
    }

    fn on_trial(&mut self, dist_mm: Option<i64>, delivered: bool)
        requires
            old(self)@.sound(),
            old(self)@.pdr_all.trials < u64::MAX,
            match distance_bin(old(self)@.bins, dist_mm) {
                Some(i) => counts_at(old(self)@.pdr_by_bin, i as usize).trials < u64::MAX,
                None => old(self)@.pdr_unbinned.trials < u64::MAX,
            },
        ensures
            final(self)@ == old(self)@.after_trial(dist_mm, delivered),
            final(self)@.sound(),
    {
        self.pdr_all.observe(delivered);
        match find_bin(&self.bins, dist_mm) {
            Some(i) => {
                let mut p: Proportion = match self.pdr_by_bin.get(&i) {
                    Some(p) => *p,
                    None => Proportion::new(),
                };
                p.observe(delivered);
                let _ = self.pdr_by_bin.insert(i, p);
            },
            None => self.pdr_unbinned.observe(delivered),
        }
    }

    fn on_link(&mut self, key: (u32, u32), t: SimTime)
        ensures
            final(self)@ == old(self)@.after_link(key, t),
    {
        if let Some(prev) = self.last_rx.insert(key, t) {
            if t >= prev {
                self.pir.observe_quotient((t - prev) as i128, NANO as u128);
            }
        }
    }

    fn on_loss(&mut self, v: &PhyRxView)
        requires
            total_of::<String>(old(self)@.losses_by_cause) + v.every_cause().len() <= u64::MAX,
        ensures
            final(self)@ == (CommsView {
                losses_by_cause: more_causes(old(self)@.losses_by_cause, v.every_cause()),
                ..old(self)@
            }),
    {
        let _ = self.losses_by_cause.total();
        let causes = v.all_causes();
        let ghost all = v.every_cause();
        let ghost start = self@;
        let ghost start_sum = self.losses_by_cause.sum();
        assert(all.len() == causes@.len());
        let mut i: usize = 0;
        assert(all.subrange(0, 0) =~= Seq::<Seq<char>>::empty());
        while i < causes.len()
            invariant
                all == str_texts(causes@),
                all.len() == causes@.len(),
                i <= causes@.len(),
                start_sum + all.len() <= u64::MAX,
                self.losses_by_cause.sum() == start_sum + i,
                self@ == (CommsView {
                    losses_by_cause: more_causes(
                        start.losses_by_cause,
                        all.subrange(0, i as int),
                    ),
                    ..start
                }),
            decreases causes@.len() - i,
        {
            proof {
                let next = all.subrange(0, i as int + 1);
                assert(next.drop_last() =~= all.subrange(0, i as int));
                assert(next.last() == causes@[i as int]@);
            }
            self.losses_by_cause.increase(causes[i].to_owned(), 1);
            i = i + 1;
        }
        assert(all.subrange(0, i as int) =~= all);
    }

    fn on_rx(&mut self, v: &PhyRxView)
        requires
            old(self)@.sound(),
            old(self)@.room_for_rx(*v),
        ensures
            final(self)@ == old(self)@.after_rx(*v),
            final(self)@.sound(),
    {
        if !v.candidate {
            return ;
        }
        match v.outcome {
            RxOutcome::Received => {
                self.on_trial(v.dist_mm, true);
                if let Some(tx) = v.tx {
                    self.on_link((tx, v.rx), v.t_end);
                }
            },
            RxOutcome::Lost => {
                self.on_trial(v.dist_mm, false);
                self.on_loss(v);
            },
        }
    }

    fn on_cbr(&mut self, v: &MacCbrView)
        ensures
            final(self)@ == old(self)@.after_cbr(*v),
    {
        let ghost before = self@;
        let mut d: Distribution = match self.cbr.remove(&v.channel) {
            Some(d) => d,
            None => Distribution::new(),
        };
        assert(d@ == observed_on(before.cbr, v.channel));
        match (v.busy_us, v.window_us) {
            (Some(busy), Some(window)) => {
                if window > 0 {
                    d.observe_quotient(busy as i128, window as u128);
                } else {
                    d.observe_quotient(v.cbr_e4 as i128, 10_000);
                }
            },
            _ => d.observe_quotient(v.cbr_e4 as i128, 10_000),
        }
        let ghost now = d@;
        let _ = self.cbr.insert(v.channel, d);
        assert(self@.cbr =~= before.cbr.insert(v.channel, now));
    }

    /// Consumes one record.
    pub fn on_event(&mut self, ev: &EventRecord)
        requires
            old(self)@.sound(),
            old(self)@.room_for(*ev),
        ensures
            final(self)@ == old(self)@.after(*ev),
            final(self)@.sound(),
    {
        match (find_channel(ev.channel.as_str()), &ev.payload) {
            (Some(Channel::NodeTx), Payload::NodeTx(v)) => self.on_tx(v),
            (Some(Channel::PhyRx), Payload::PhyRx(v)) => self.on_rx(v),
            (Some(Channel::MacCbr), Payload::MacCbr(v)) => self.on_cbr(v),
            (Some(Channel::NodeRx), Payload::NodeRx(v)) => {
                if v.outcome == RxFate::Delivered {
                    if let Some(n) = v.payload_bytes {
                        self.goodput_bytes = self.goodput_bytes + n;
                        self.deliveries = self.deliveries + 1;
                    }
                }
            },
            (Some(Channel::NetBytes), Payload::NetBytes(v)) => self.add_bytes(
                v.bucket,
                v.bytes_on_wire,
            ),
            (Some(Channel::ProtoMsg), Payload::ProtoMsg(v)) => {
                if let Some(b) = v.transport {
                    self.add_bytes(b, v.bytes_on_wire);
                }
            },
            (Some(Channel::NodeTx), _) => self.refuse(),
            (Some(Channel::PhyRx), _) => self.refuse(),
            (Some(Channel::MacCbr), _) => self.refuse(),
            (Some(Channel::NodeRx), _) => self.refuse(),
            (Some(Channel::NetBytes), _) => self.refuse(),
            (Some(Channel::ProtoMsg), _) => self.refuse(),
            _ => {},
        }
    }

    fn refuse(&mut self)
        requires
            old(self)@.rejected < u64::MAX,
        ensures
            final(self)@ == old(self)@.after_refusal(),
    {
        self.rejected = self.rejected + 1;
    }

    /// How many records could not be read.
    pub fn rejected(&self) -> (r: u64)
        ensures
            r == self@.rejected,
    {
        self.rejected
    }

    /// The card of the provider.
    pub fn card(&self) -> (r: ModelCard)
        ensures
            r@ == catalog::comms_card(),
    {
        catalog::build_card()
    }

    /// The definitions of the provider's metrics.
    pub fn definitions(&self) -> (r: Vec<MetricDef>)
        ensures
            views(r@) == catalog::all_defs(self@.min_samples),
    {
        catalog::definitions(self.min_samples)
    }
}

/// How long the window that ends at `at` is, in nanoseconds; a window of no length has none.
pub open spec fn window_length(start: SimTime, at: SimTime) -> Option<u64> {
    if at <= start {
        None
    } else {
        Some((at - start) as u64)
    }
}

/// How long the window that ends at `at` is, in nanoseconds.
pub(crate) fn length_of_window(start: SimTime, at: SimTime) -> (r: Option<u64>)
    ensures
        r == window_length(start, at),
{
    if at <= start {
        None
    } else {
        Some(at - start)
    }
}

/// An amount per second, scaled, over a window of that length.
pub open spec fn rate(n: int, window: Option<u64>) -> Estimate {
    match window {
        Some(ns) => Estimate::Value { point: real_of(n * NANO, ns as int), n: 1 },
        None => Estimate::Insufficient { n: 0, required: 1 },
    }
}

pub(crate) fn rate_over(n: u64, window: Option<u64>) -> (r: Estimate)
    requires
        window matches Some(ns) ==> ns > 0,
    ensures
        r == rate(n as int, window),
{
    match window {
        Some(ns) => Estimate::Value {
            point: Real::new((n as i128) * 1_000_000_000, ns as u128),
            n: 1,
        },
        None => Estimate::Insufficient { n: 0, required: 1 },
    }
}

/// A node's air time in milliseconds per second.
pub open spec fn airtime_rate(us: u64, window: Option<u64>) -> Estimate {
    match window {
        Some(ns) => Estimate::Value { point: real_of(us * 1_000_000, ns as int), n: 1 },
        None => Estimate::Insufficient { n: 0, required: 1 },
    }
}

impl CommsView {
    /// The delivery ratio: of all trials, of the trials of every bin, and of those without a
    /// bin.
    pub open spec fn pdr_samples(self, at: SimTime) -> Seq<SampleView> {
        let def = catalog::pdr_def(self.min_samples);
        let bins = in_order::<usize, Counts>(self.pdr_by_bin);
        let binned = seq![
            sample_of(
                def,
                at,
                Seq::empty(),
                SampleValue::Ratio(self.pdr_all.ratio(self.min_samples, self.level)),
            ),
        ] + Seq::new(
            bins.len(),
            |i: int|
                sample_of(
                    def,
                    at,
                    seq![(Dim::DistBin, DimText::Label(self.bins.label_text(bins[i].0 as int)))],
                    SampleValue::Ratio(bins[i].1.ratio(self.min_samples, self.level)),
                ),
        );
        if self.pdr_unbinned.trials > 0 {
            binned.push(
                sample_of(
                    def,
                    at,
                    seq![(Dim::DistBin, DimText::Label(UNBINNED@))],
                    SampleValue::Ratio(self.pdr_unbinned.ratio(self.min_samples, self.level)),
                ),
            )
        } else {
            binned
        }
    }

    /// The error ratio: the failures among the same trials.
    pub open spec fn per_sample(self, at: SimTime) -> SampleView {
        sample_of(
            catalog::per_def(self.min_samples),
            at,
            Seq::empty(),
            SampleValue::Ratio(
                Counts {
                    successes: (self.pdr_all.trials - self.pdr_all.successes) as u64,
                    trials: self.pdr_all.trials,
                }.ratio(self.min_samples, self.level),
            ),
        )
    }

    /// The share of every cause among all losses.
    pub open spec fn cause_samples(self, at: SimTime) -> Seq<SampleView> {
        let causes = in_order::<String, u64>(self.losses_by_cause);
        let total = total_of::<String>(self.losses_by_cause) as u64;
        Seq::new(
            causes.len(),
            |i: int|
                sample_of(
                    catalog::pdr_by_cause_def(self.min_samples),
                    at,
                    seq![(Dim::Cause, DimText::Label(causes[i].0))],
                    SampleValue::Ratio(
                        Counts { successes: causes[i].1, trials: total }.ratio(
                            self.min_samples,
                            self.level,
                        ),
                    ),
                ),
        )
    }

    /// The busy ratios of every channel, and the gaps between receptions.
    pub open spec fn air_samples(self, at: SimTime) -> Seq<SampleView> {
        let channels = in_order::<Option<u16>, Observed>(self.cbr);
        Seq::new(
            channels.len(),
            |i: int|
                sample_of(
                    catalog::cbr_def(),
                    at,
                    match channels[i].0 {
                        Some(c) => seq![(Dim::Channel, DimText::Index(c as u64))],
                        None => Seq::empty(),
                    },
                    SampleValue::Distribution(channels[i].1.summary(1)),
                ),
        ).push(
            sample_of(
                catalog::pir_def(self.min_samples),
                at,
                Seq::empty(),
                SampleValue::Distribution(self.pir.summary(self.min_samples)),
            ),
        )
    }

    /// The payload delivered per second.
    pub open spec fn goodput_sample(self, at: SimTime) -> SampleView {
        let n = self.goodput_bytes as int;
        sample_of(
            catalog::goodput_def(),
            at,
            Seq::empty(),
            SampleValue::Ratio(
                match window_length(self.window_start, at) {
                    Some(ns) => sums_ratio(
                        real_of(n, 1),
                        real_of(ns as int, NANO as int),
                        real_of(n * NANO, ns as int),
                        self.deliveries,
                        1,
                    ),
                    None => RatioEstimate::Insufficient { trials: self.deliveries, required: 1 },
                },
            ),
        )
    }

    /// The air time of every node, and their mean.
    pub open spec fn airtime_samples(self, at: SimTime) -> Seq<SampleView> {
        let nodes = in_order::<u32, u64>(self.airtime_us);
        let window = window_length(self.window_start, at);
        let each = Seq::new(
            nodes.len(),
            |i: int|
                sample_of(
                    catalog::airtime_per_node_def(),
                    at,
                    seq![(Dim::Node, DimText::Index(nodes[i].0 as u64))],
                    SampleValue::Scalar(airtime_rate(nodes[i].1, window)),
                ),
        );
        match window {
            Some(ns) => if nodes.len() > 0 {
                each.push(
                    sample_of(
                        catalog::airtime_per_node_def(),
                        at,
                        Seq::empty(),
                        SampleValue::Scalar(
                            Estimate::Value {
                                point: real_of(
                                    total_of::<u32>(self.airtime_us) * 1_000_000,
                                    ns * nodes.len(),
                                ),
                                n: nodes.len() as u64,
                            },
                        ),
                    ),
                )
            } else {
                each
            },
            None => each,
        }
    }

    /// The byte rate of one bucket.
    pub open spec fn bucket_sample(self, at: SimTime, b: ByteBucket) -> SampleView {
        sample_of(
            catalog::bucket_rate_def(b),
            at,
            seq![(Dim::Bucket, DimText::Label(b.text()))],
            SampleValue::Scalar(
                rate(amount(self.bytes, b) as int, window_length(self.window_start, at)),
            ),
        )
    }

    /// The byte rate of every bucket, and of all of them.
    pub open spec fn byte_samples(self, at: SimTime) -> Seq<SampleView> {
        Seq::new(5, |i: int| self.bucket_sample(at, ByteBucket::every()[i])).push(
            sample_of(
                catalog::bytes_total_def(),
                at,
                Seq::empty(),
                SampleValue::Scalar(
                    rate(
                        total_of::<ByteBucket>(self.bytes),
                        window_length(self.window_start, at),
                    ),
                ),
            ),
        )
    }

    /// All samples of the window that ends at `at`.
    pub open spec fn samples(self, at: SimTime) -> Seq<SampleView> {
        self.pdr_samples(at).push(self.per_sample(at)) + self.cause_samples(at) + self.air_samples(
            at,
        ).push(self.goodput_sample(at)) + self.airtime_samples(at) + self.byte_samples(at)
    }

    /// The state after the window that ends at `at` was flushed: what was accumulated is
    /// gone, and the last reception of every link stays.
    pub open spec fn flushed(self, at: SimTime) -> CommsView {
        CommsView {
            window_start: at,
            pdr_by_bin: Map::empty(),
            pdr_unbinned: no_counts(),
            pdr_all: no_counts(),
            losses_by_cause: Map::empty(),
            cbr: Map::empty(),
            pir: nothing_observed(),
            airtime_us: Map::empty(),
            bytes: Map::empty(),
            goodput_bytes: 0,
            deliveries: 0,
            ..self
        }
    }
}

/// The `i`-th of strictly increasing 32-bit keys is at least `i`, so there are no more than
/// there are keys.
pub proof fn few_small_keys<T>(s: Seq<(u32, T)>, i: int)
    requires
        increasing::<u32, T>(s),
        0 <= i < s.len(),
    ensures
        i <= s[i].0,
    decreases i,
{
    if i > 0 {
        few_small_keys(s, i - 1);
        assert(<u32 as Key>::before(s[i - 1].0, s[i].0));
    }
}

impl CommsProvider {
    fn emit_pdr(&self, at: SimTime, out: &mut Vec<MetricSample>)
        requires
            self@.sound(),
        ensures
            views(final(out)@) == views(old(out)@) + self@.pdr_samples(at),
    {
        broadcast use group_views;

        let ghost start = views(out@);
        let ghost v = self@;
        let ghost bins = in_order::<usize, Counts>(v.pdr_by_bin);
        let def = catalog::pdr(self.min_samples);
        out.push(
            MetricSample::new(
                &def,
                at,
                no_dims(),
                SampleValue::Ratio(self.pdr_all.estimate(self.min_samples, self.level)),
            ),
        );
        let ghost all = self@.pdr_samples(at);
        let n: usize = self.pdr_by_bin.len();
        let mut i: usize = 0;
        assert(views(out@) =~= start + all.subrange(0, 1));
        while i < n
            invariant
                v == self@,
                all == v.pdr_samples(at),
                def@ == catalog::pdr_def(v.min_samples),
                bins == self.pdr_by_bin.listing(),
                bins == in_order::<usize, Counts>(v.pdr_by_bin),
                n == bins.len(),
                all.len() >= n + 1,
                i <= n,
                forall|k: int| 0 <= k < n ==> (#[trigger] bins[k]).0 < self.bins.edges().len(),
                views(out@) == start + all.subrange(0, i as int + 1),
            decreases n - i,
        {
            broadcast use group_views;

            let bin: usize = *self.pdr_by_bin.key_at(i);
            let p = self.pdr_by_bin.value_at(i);
            let label = self.bins.label(bin);
            let s = MetricSample::new(
                &def,
                at,
                one_dim(Dim::DistBin, DimValue::label(label.as_str())),
                SampleValue::Ratio(p.estimate(self.min_samples, self.level)),
            );
            assert(s@ == all[i as int + 1]);
            out.push(s);
            assert(views(out@) =~= start + all.subrange(0, i as int + 2));
            i = i + 1;
        }
        if self.pdr_unbinned.trials() > 0 {
            out.push(
                MetricSample::new(
                    &def,
                    at,
                    one_dim(Dim::DistBin, DimValue::label(UNBINNED)),
                    SampleValue::Ratio(self.pdr_unbinned.estimate(self.min_samples, self.level)),
                ),
            );
        }
        assert(views(out@) =~= start + all);
    }

    fn emit_per(&self, at: SimTime, out: &mut Vec<MetricSample>)
        ensures
            views(final(out)@) == views(old(out)@).push(self@.per_sample(at)),
    {
        broadcast use group_views;

        let per = Proportion::from_counts(self.pdr_all.failures(), self.pdr_all.trials());
        out.push(
            MetricSample::new(
                &catalog::per(self.min_samples),
                at,
                no_dims(),
                SampleValue::Ratio(per.estimate(self.min_samples, self.level)),
            ),
        );
    }

    fn emit_causes(&self, at: SimTime, out: &mut Vec<MetricSample>)
        ensures
            views(final(out)@) == views(old(out)@) + self@.cause_samples(at),
    {
        let ghost start = views(out@);
        let ghost all = self@.cause_samples(at);
        let def = catalog::pdr_by_cause(self.min_samples);
        let total: u64 = self.losses_by_cause.total();
        let n: usize = self.losses_by_cause.len();
        let mut i: usize = 0;
        assert(start + all.subrange(0, 0) =~= start);
        while i < n
            invariant
                all == self@.cause_samples(at),
                n == all.len(),
                n == self.losses_by_cause.listing().len(),
                self.losses_by_cause.listing() == in_order::<String, u64>(self@.losses_by_cause),
                total == total_of::<String>(self@.losses_by_cause),
                forall|k: int| 0 <= k < n ==> (#[trigger] self.losses_by_cause.listing()[k]).1 <= total,
                def@ == catalog::pdr_by_cause_def(self@.min_samples),
                i <= n,
                views(out@) == start + all.subrange(0, i as int),
            decreases n - i,
        {
            broadcast use group_views;

            let cause = self.losses_by_cause.key_at(i);
            let count: u64 = self.losses_by_cause.amount_at(i);
            assert(self.losses_by_cause.listing()[i as int].1 <= total);
            let s = MetricSample::new(
                &def,
                at,
                one_dim(Dim::Cause, DimValue::label(cause.as_str())),
                SampleValue::Ratio(
                    Proportion::from_counts(count, total).estimate(self.min_samples, self.level),
                ),
            );
            assert(s@ == all[i as int]);
            out.push(s);
            assert(views(out@) =~= start + all.subrange(0, i as int + 1));
            i = i + 1;
        }
        assert(all.subrange(0, n as int) =~= all);
    }

    fn emit_air(&self, at: SimTime, out: &mut Vec<MetricSample>)
        ensures
            views(final(out)@) == views(old(out)@) + self@.air_samples(at),
    {
        broadcast use group_views;

        let ghost start = views(out@);
        let ghost all = self@.air_samples(at);
        let def = catalog::cbr();
        let n: usize = self.cbr.len();
        let mut i: usize = 0;
        assert(start + all.subrange(0, 0) =~= start);
        while i < n
            invariant
                all == self@.air_samples(at),
                n + 1 == all.len(),
                n == self.cbr.listing().len(),
                self.cbr.listing() == in_order::<Option<u16>, Observed>(self@.cbr),
                def@ == catalog::cbr_def(),
                i <= n,
                views(out@) == start + all.subrange(0, i as int),
            decreases n - i,
        {
            broadcast use group_views;

            let dims = match *self.cbr.key_at(i) {
                Some(c) => one_dim(Dim::Channel, DimValue::index(c as u64)),
                None => no_dims(),
            };
            let s = MetricSample::new(
                &def,
                at,
                dims,
                SampleValue::Distribution(self.cbr.value_at(i).summary(1)),
            );
            assert(s@ == all[i as int]);
            out.push(s);
            assert(views(out@) =~= start + all.subrange(0, i as int + 1));
            i = i + 1;
        }
        out.push(
            MetricSample::new(
                &catalog::pir(self.min_samples),
                at,
                no_dims(),
                SampleValue::Distribution(self.pir.summary(self.min_samples)),
            ),
        );
        assert(views(out@) =~= start + all);
    }

    fn emit_goodput(&self, at: SimTime, out: &mut Vec<MetricSample>)
        ensures
            views(final(out)@) == views(old(out)@).push(self@.goodput_sample(at)),
    {
        broadcast use group_views;

        let value = match length_of_window(self.window_start, at) {
            Some(ns) => {
                let n: i128 = self.goodput_bytes as i128;
                assert((n * NANO) * (1 * ns) == ns * (n * NANO)) by (nonlinear_arith);
                ratio_of_sums(
                    Real::new(n, 1),
                    Real::new(ns as i128, NANO as u128),
                    Real::new(n * 1_000_000_000, ns as u128),
                    self.deliveries,
                    1,
                )
            },
            None => RatioEstimate::Insufficient { trials: self.deliveries, required: 1 },
        };
        out.push(
            MetricSample::new(&catalog::goodput(), at, no_dims(), SampleValue::Ratio(value)),
        );
    }

    fn emit_airtime(&self, at: SimTime, out: &mut Vec<MetricSample>)
        ensures
            views(final(out)@) == views(old(out)@) + self@.airtime_samples(at),
    {
        broadcast use group_views;

        let ghost start = views(out@);
        let ghost all = self@.airtime_samples(at);
        let def = catalog::airtime_per_node();
        let window = length_of_window(self.window_start, at);
        let total: u64 = self.airtime_us.total();
        let n: usize = self.airtime_us.len();
        let mut i: usize = 0;
        assert(start + all.subrange(0, 0) =~= start);
        while i < n
            invariant
                all == self@.airtime_samples(at),
                n <= all.len(),
                n == self.airtime_us.listing().len(),
                self.airtime_us.listing() == in_order::<u32, u64>(self@.airtime_us),
                window == window_length(self@.window_start, at),
                def@ == catalog::airtime_per_node_def(),
                i <= n,
                views(out@) == start + all.subrange(0, i as int),
            decreases n - i,
        {
            broadcast use group_views;

            let node: u32 = *self.airtime_us.key_at(i);
            let us: u64 = self.airtime_us.amount_at(i);
            let value = match window {
                Some(ns) => Estimate::Value {
                    point: Real::new((us as i128) * 1_000_000, ns as u128),
                    n: 1,
                },
                None => Estimate::Insufficient { n: 0, required: 1 },
            };
            let s = MetricSample::new(
                &def,
                at,
                one_dim(Dim::Node, DimValue::index(node as u64)),
                SampleValue::Scalar(value),
            );
            assert(s@ == all[i as int]);
            out.push(s);
            assert(views(out@) =~= start + all.subrange(0, i as int + 1));
            i = i + 1;
        }
        if let Some(ns) = window {
            if n > 0 {
                proof {
                    few_small_keys(self.airtime_us.listing(), n - 1);
                    assert(0 < ns * n <= 0xffff_ffff_ffff_ffff * 0x1_0000_0000) by (nonlinear_arith)
                        requires
                            0 < ns <= 0xffff_ffff_ffff_ffff,
                            0 < n <= 0x1_0000_0000,
                    ;
                }
                let s = MetricSample::new(
                    &def,
                    at,
                    no_dims(),
                    SampleValue::Scalar(
                        Estimate::Value {
                            point: Real::new(
                                (total as i128) * 1_000_000,
                                (ns as u128) * (n as u128),
                            ),
                            n: n as u64,
                        },
                    ),
                );
                out.push(s);
            }
        }
        assert(views(out@) =~= start + all);
    }

    fn emit_bytes(&self, at: SimTime, out: &mut Vec<MetricSample>)
        ensures
            views(final(out)@) == views(old(out)@) + self@.byte_samples(at),
    {
        broadcast use group_views;

        let ghost start = views(out@);
        let ghost all = self@.byte_samples(at);
        let window = length_of_window(self.window_start, at);
        let every = ByteBucket::all();
        let mut i: usize = 0;
        assert(start + all.subrange(0, 0) =~= start);
        while i < 5
            invariant
                all == self@.byte_samples(at),
                all.len() == 6,
                every@ == ByteBucket::every(),
                window == window_length(self@.window_start, at),
                i <= 5,
                views(out@) == start + all.subrange(0, i as int),
            decreases 5 - i,
        {
            broadcast use group_views;

            let b = every[i];
            assert(b == ByteBucket::every()[i as int]);
            let s = MetricSample::new(
                &catalog::bucket_rate(b),
                at,
                one_dim(Dim::Bucket, DimValue::label(b.as_str())),
                SampleValue::Scalar(rate_over(self.bytes.get(&b), window)),
            );
            assert(s@ == all[i as int]);
            out.push(s);
            assert(views(out@) =~= start + all.subrange(0, i as int + 1));
            i = i + 1;
        }
        out.push(
            MetricSample::new(
                &catalog::bytes_total(),
                at,
                no_dims(),
                SampleValue::Scalar(rate_over(self.bytes.total(), window)),
            ),
        );
        assert(views(out@) =~= start + all);
    }

    /// The samples of the window that ends at `at`; what was accumulated is drained, and a
    /// new window starts.
    pub fn flush(&mut self, at: SimTime) -> (out: Vec<MetricSample>)
        requires
            old(self)@.sound(),
        ensures
            final(self)@.sound(),
            views(out@) == old(self)@.samples(at),
            final(self)@ == old(self)@.flushed(at),
    {
        broadcast use group_views;

        let mut out: Vec<MetricSample> = Vec::new();
        self.emit_pdr(at, &mut out);
        self.emit_per(at, &mut out);
        self.emit_causes(at, &mut out);
        self.emit_air(at, &mut out);
        self.emit_goodput(at, &mut out);
        self.emit_airtime(at, &mut out);
        self.emit_bytes(at, &mut out);
        assert(views(out@) =~= old(self)@.samples(at));
        let _ = self.pdr_by_bin.drain();
        self.pdr_unbinned = Proportion::new();
        self.pdr_all = Proportion::new();
        let _ = self.losses_by_cause.drain();
        let _ = self.cbr.drain();
        let _ = self.pir.drain();
        let _ = self.airtime_us.drain();
        let _ = self.bytes.drain();
        self.goodput_bytes = 0;
        self.deliveries = 0;
        self.window_start = at;
        out
    }
}

/// The total of all bytes is the sum of the five buckets.
pub proof fn the_buckets_sum_to_the_total(m: Map<ByteBucket, u64>)
    requires
        orderly::<ByteBucket, u64>(m),
    ensures
        total_of::<ByteBucket>(m) == amount(m, ByteBucket::Air) + amount(m, ByteBucket::CellularUl)
            + amount(m, ByteBucket::CellularDl) + amount(m, ByteBucket::Backhaul) + amount(
            m,
            ByteBucket::Backend,
        ),
{
    let m1 = m.remove(ByteBucket::Air);
    let m2 = m1.remove(ByteBucket::CellularUl);
    let m3 = m2.remove(ByteBucket::CellularDl);
    let m4 = m3.remove(ByteBucket::Backhaul);
    let m5 = m4.remove(ByteBucket::Backend);
    total_splits::<ByteBucket>(m, ByteBucket::Air);
    total_splits::<ByteBucket>(m1, ByteBucket::CellularUl);
    total_splits::<ByteBucket>(m2, ByteBucket::CellularDl);
    total_splits::<ByteBucket>(m3, ByteBucket::Backhaul);
    total_splits::<ByteBucket>(m4, ByteBucket::Backend);
    assert(m5 =~= Map::<ByteBucket, u64>::empty());
    total_of_nothing::<ByteBucket>();
}

/// Two transmissions may come in either order.
pub proof fn transmissions_commute(v: CommsView, a: NodeTxView, b: NodeTxView)
    requires
        amount(v.bytes, ByteBucket::Air) + a.bytes_on_wire + b.bytes_on_wire <= u64::MAX,
        a.airtime_us matches Some(x) ==> b.airtime_us matches Some(y) ==> amount(
            v.airtime_us,
            a.node,
        ) + x + y <= u64::MAX && amount(v.airtime_us, b.node) + x + y <= u64::MAX,
    ensures
        v.after_tx(a).after_tx(b) == v.after_tx(b).after_tx(a),
{
    increases_commute(v.bytes, ByteBucket::Air, a.bytes_on_wire, ByteBucket::Air, b.bytes_on_wire);
    if let (Some(x), Some(y)) = (a.airtime_us, b.airtime_us) {
        increases_commute(v.airtime_us, a.node, x, b.node, y);
    }
    assert(v.after_tx(a).after_tx(b) =~= v.after_tx(b).after_tx(a));
}

/// A flushed window is drained: a second flush at the same instant counts no trial, no
/// byte, no delivery and no air time.
pub proof fn a_flushed_window_is_empty(v: CommsView, at: SimTime)
    ensures
        v.flushed(at).pdr_all == no_counts(),
        v.flushed(at).flushed(at) == v.flushed(at),
        v.flushed(at).goodput_sample(at).value.refused(),
        forall|b: ByteBucket| (#[trigger] v.flushed(at).bucket_sample(at, b)).value.refused(),
{
}

/// The error ratio is one less the delivery ratio: over the same trials, their numerators
/// sum to the denominator.
pub proof fn errors_complement_deliveries(c: Counts, min_samples: u64, level: ConfidenceLevel)
    requires
        c.successes <= c.trials,
        needed(min_samples) <= c.trials,
    ensures
        ({
            let errors = Counts { successes: (c.trials - c.successes) as u64, trials: c.trials };
            match (c.ratio(min_samples, level), errors.ratio(min_samples, level)) {
                (
                    RatioEstimate::Proportion { point: p, .. },
                    RatioEstimate::Proportion { point: q, .. },
                ) => p@.num + q@.num == p@.den && p@.den == q@.den,
                _ => false,
            }
        }),
{
    real_of_is_the_quotient(c.successes as int, c.trials as int);
    real_of_is_the_quotient(c.trials - c.successes, c.trials as int);
}

} // verus!
