//! Network load: how full the channel is, who is filling it, and what it costs.

use vstd::prelude::*;
use vstd::string::*;
use crate::basic::SimTime;
use crate::card::{group_views, views, ModelCard};
use crate::catalog::load as catalog;
use crate::channels::{channel_named, find_channel, Channel, EventRecord, MacCbrView, NodeRxView, NodeTxView, Payload, RxFate};
use crate::comms::plus;
use crate::def::{no_dims, one_dim, sample_of, Dim, DimText, DimValue, MetricDef, MetricSample, SampleValue, SampleView};
use crate::distribution::{nothing_observed, Distribution, Observed};
use crate::keyed::{in_order, orderly, orderly_insert, SortedMap};
use crate::ledger::one_more;
use crate::quant::{quotient, real_of, Real};
use crate::stats::{ConfidenceLevel, Counts, Estimate, Proportion, DEFAULT_MIN_SAMPLES};
use crate::tally::{amount, total_of, total_splits, Amounts, Tally};

verus! {

/// The received power from which on an arrival makes the medium busy, in dBm.
pub const BUSY_THRESHOLD_DBM: i64 = -85;

/// The load metrics of a run.
pub struct LoadProvider {
    level: ConfidenceLevel,
    min_samples: u64,
    window_start: SimTime,
    own_us: Amounts<u32>,
    sensed_us: Amounts<u32>,
    offered_us: Amounts<u32>,
    offered_bits: u64,
    offered_reported: bool,
    carried_bits: u64,
    resolved: u64,
    lost_by_cause: Tally<String>,
    queue_depth: Distribution,
    mac_drops: u64,
    access_ms: Distribution,
    rejected: u64,
}

/// What the load metrics have accumulated.
#[verifier::ext_equal]
pub ghost struct LoadView {
    pub level: ConfidenceLevel,
    pub min_samples: u64,
    pub window_start: SimTime,
    pub own_us: Map<u32, u64>,
    pub sensed_us: Map<u32, u64>,
    pub offered_us: Map<u32, u64>,
    pub offered_bits: u64,
    pub offered_reported: bool,
    pub carried_bits: u64,
    pub resolved: u64,
    pub lost_by_cause: Map<Seq<char>, u64>,
    pub queue_depth: Observed,
    pub mac_drops: u64,
    pub access_ms: Observed,
    pub rejected: u64,
}

impl View for LoadProvider {
    type V = LoadView;

    closed spec fn view(&self) -> LoadView {
        LoadView {
            level: self.level,
            min_samples: self.min_samples,
            window_start: self.window_start,
            own_us: self.own_us@,
            sensed_us: self.sensed_us@,
            offered_us: self.offered_us@,
            offered_bits: self.offered_bits,
            offered_reported: self.offered_reported,
            carried_bits: self.carried_bits,
            resolved: self.resolved,
            lost_by_cause: self.lost_by_cause@,
            queue_depth: self.queue_depth@,
            mac_drops: self.mac_drops,
            access_ms: self.access_ms@,
            rejected: self.rejected,
        }
    }
}

/// A provider that has seen nothing yet.
pub open spec fn fresh(t0: SimTime) -> LoadView {
    LoadView {
        level: ConfidenceLevel::P95,
        min_samples: DEFAULT_MIN_SAMPLES,
        window_start: t0,
        own_us: Map::empty(),
        sensed_us: Map::empty(),
        offered_us: Map::empty(),
        offered_bits: 0,
        offered_reported: false,
        carried_bits: 0,
        resolved: 0,
        lost_by_cause: Map::empty(),
        queue_depth: nothing_observed(),
        mac_drops: 0,
        access_ms: nothing_observed(),
        rejected: 0,
    }
}

/// The cause of a loss, where none is recorded too.
pub open spec fn loss_cause(v: NodeRxView) -> Seq<char> {
    match v.cause {
        Some(c) => c@,
        None => "unknown"@,
    }
}

/// The air time that a receiver senses of an arrival, if the arrival is strong enough.
pub open spec fn sensed(v: NodeRxView) -> Option<u64> {
    match (v.rssi_dbm, v.airtime_us) {
        (Some(p), Some(us)) => if quotient(BUSY_THRESHOLD_DBM as int, 1).at_most(p@) {
            Some(us)
        } else {
            None
        },
        _ => None,
    }
}

impl LoadView {
    /// No more losses are counted than attempts are resolved.
    pub open spec fn sound(self) -> bool {
        total_of::<String>(self.lost_by_cause) <= self.resolved
    }

    /// After a transmission.
    pub open spec fn after_tx(self, v: NodeTxView) -> LoadView {
        LoadView {
            own_us: match v.airtime_us {
                Some(us) => plus(self.own_us, v.node, us),
                None => self.own_us,
            },
            carried_bits: (self.carried_bits + v.bytes_on_wire * 8) as u64,
            access_ms: match v.t_signed {
                Some(signed) => if v.t >= signed {
                    self.access_ms.and_quotient(v.t - signed, 1_000_000)
                } else {
                    self.access_ms
                },
                None => self.access_ms,
            },
            ..self
        }
    }

    /// After the fate of a reception attempt.
    pub open spec fn after_rx(self, v: NodeRxView) -> LoadView {
        let heard = LoadView {
            sensed_us: match sensed(v) {
                Some(us) => plus(self.sensed_us, v.rx, us),
                None => self.sensed_us,
            },
            ..self
        };
        match v.outcome {
            RxFate::InFlight => heard,
            RxFate::Delivered => LoadView { resolved: (self.resolved + 1) as u64, ..heard },
            RxFate::Lost => LoadView {
                resolved: (self.resolved + 1) as u64,
                lost_by_cause: one_more(self.lost_by_cause, loss_cause(v)),
                ..heard
            },
        }
    }

    /// After a report of the medium access layer.
    pub open spec fn after_mac(self, v: MacCbrView) -> LoadView {
        LoadView {
            queue_depth: match v.queue_depth {
                Some(d) => self.queue_depth.and_quotient(d as int, 1),
                None => self.queue_depth,
            },
            mac_drops: match v.mac_drops {
                Some(d) => (self.mac_drops + d) as u64,
                None => self.mac_drops,
            },
            offered_bits: match v.offered_bytes {
                Some(b) => (self.offered_bits + b * 8) as u64,
                None => self.offered_bits,
            },
            offered_reported: self.offered_reported || v.offered_bytes is Some,
            offered_us: match v.offered_airtime_us {
                Some(us) => plus(self.offered_us, v.node, us),
                None => self.offered_us,
            },
            ..self
        }
    }

    /// After a record that could not be read.
    pub open spec fn after_refusal(self) -> LoadView {
        LoadView { rejected: (self.rejected + 1) as u64, ..self }
    }

    /// After one record.
    pub open spec fn after(self, ev: EventRecord) -> LoadView {
        match (channel_named(ev.channel@), ev.payload) {
            (Some(Channel::NodeTx), Payload::NodeTx(v)) => self.after_tx(v),
            (Some(Channel::NodeRx), Payload::NodeRx(v)) => self.after_rx(v),
            (Some(Channel::MacCbr), Payload::MacCbr(v)) => self.after_mac(v),
            (Some(Channel::NodeTx), _) => self.after_refusal(),
            (Some(Channel::NodeRx), _) => self.after_refusal(),
            (Some(Channel::MacCbr), _) => self.after_refusal(),
            _ => self,
        }
    }

    /// True if no counter overflows on a transmission.
    pub open spec fn room_for_tx(self, v: NodeTxView) -> bool {
        &&& v.airtime_us matches Some(us) ==> amount(self.own_us, v.node) + us
            <= u64::MAX
        &&& self.carried_bits + v.bytes_on_wire * 8 <= u64::MAX
    }

    /// True if no counter overflows on a fate.
    pub open spec fn room_for_rx(self, v: NodeRxView) -> bool {
        &&& sensed(v) matches Some(us) ==> amount(self.sensed_us, v.rx) + us
            <= u64::MAX
        &&& v.outcome != RxFate::InFlight ==> self.resolved < u64::MAX
    }

    /// True if no counter overflows on a report of the medium access layer.
    pub open spec fn room_for_mac(self, v: MacCbrView) -> bool {
        &&& v.mac_drops matches Some(d) ==> self.mac_drops + d <= u64::MAX
        &&& v.offered_bytes matches Some(b) ==> self.offered_bits + b * 8 <= u64::MAX
        &&& v.offered_airtime_us matches Some(us) ==> amount(self.offered_us, v.node) + us
            <= u64::MAX
    }

    /// True if no counter overflows on `ev`.
    pub open spec fn room_for(self, ev: EventRecord) -> bool {
        match (channel_named(ev.channel@), ev.payload) {
            (Some(Channel::NodeTx), Payload::NodeTx(v)) => self.room_for_tx(v),
            (Some(Channel::NodeRx), Payload::NodeRx(v)) => self.room_for_rx(v),
            (Some(Channel::MacCbr), Payload::MacCbr(v)) => self.room_for_mac(v),
            _ => self.rejected < u64::MAX,
        }
    }

    /// The window that ends at `at`, in whole microseconds.
    pub open spec fn window_us(self, at: SimTime) -> u64 {
        if at <= self.window_start {
            0
        } else {
            ((at - self.window_start) / 1000) as u64
        }
    }

    /// What a node asks of the channel: what it senses, and the greater of what it sent and
    /// what it offered.
    pub open spec fn demand(self, node: u32) -> int {
        let own = amount(self.own_us, node);
        let offered = amount(self.offered_us, node);
        amount(self.sensed_us, node) + (if own >= offered {
            own
        } else {
            offered
        })
    }

    /// The demand at every node that sent, sensed or offered anything.
    pub open spec fn demands(self) -> Map<u32, int> {
        Map::new(
            |n: u32|
                self.own_us.contains_key(n) || self.sensed_us.contains_key(n)
                    || self.offered_us.contains_key(n),
            |n: u32| self.demand(n),
        )
    }

    /// The bits that were offered: what was reported, and never less than what was sent.
    pub open spec fn offered(self) -> u64 {
        if self.offered_reported && self.offered_bits >= self.carried_bits {
            self.offered_bits
        } else {
            self.carried_bits
        }
    }
}

/// The shares of a window that some nodes' air times are.
pub open spec fn own_shares(s: Seq<(u32, u64)>, window: u64) -> Observed
    decreases s.len(),
{
    if s.len() == 0 || window == 0 {
        nothing_observed()
    } else {
        own_shares(s.drop_last(), window).and_quotient(s.last().1 as int, window as int)
    }
}

/// The shares of a window that some nodes' demands are.
pub open spec fn demand_shares(s: Seq<(u32, int)>, window: u64) -> Observed
    decreases s.len(),
{
    if s.len() == 0 || window == 0 {
        nothing_observed()
    } else {
        demand_shares(s.drop_last(), window).and_quotient(s.last().1, window as int)
    }
}

/// A number of bits per second over a window.
pub open spec fn bit_rate(bits: u64, window: u64) -> Estimate {
    if window > 0 {
        Estimate::Value { point: real_of(bits * 1_000_000, window as int), n: 1 }
    } else {
        Estimate::Insufficient { n: 0, required: 1 }
    }
}

/// How many losses are collisions.
pub open spec fn collisions(lost: Map<Seq<char>, u64>) -> int {
    amount(lost, "collision"@) + amount(lost, "hidden-terminal"@) + amount(
        lost,
        "resource-collision"@,
    )
}

/// The collisions, or one kind of loss, are no more than all losses.
pub proof fn some_losses_are_at_most_all(lost: Map<Seq<char>, u64>)
    requires
        orderly::<String, u64>(lost),
    ensures
        0 <= collisions(lost) <= total_of::<String>(lost),
        amount(lost, "half-duplex"@) <= total_of::<String>(lost),
{
    reveal_strlit("collision");
    reveal_strlit("hidden-terminal");
    reveal_strlit("resource-collision");
    assert("collision"@.len() == 9);
    assert("hidden-terminal"@.len() == 15);
    assert("resource-collision"@.len() == 18);
    let l1 = lost.remove("collision"@);
    let l2 = l1.remove("hidden-terminal"@);
    let l3 = l2.remove("resource-collision"@);
    total_splits::<String>(lost, "collision"@);
    total_splits::<String>(l1, "hidden-terminal"@);
    total_splits::<String>(l2, "resource-collision"@);
    crate::tally::sum_bounds(in_order::<String, u64>(l3));
    total_splits::<String>(lost, "half-duplex"@);
    crate::tally::sum_bounds(in_order::<String, u64>(lost.remove("half-duplex"@)));
}

impl LoadView {
    /// The shares of the window that nodes' own transmissions, and the demands at nodes,
    /// are.
    pub open spec fn channel_samples(self, at: SimTime) -> Seq<SampleView> {
        let window = self.window_us(at);
        seq![
            sample_of(
                catalog::channel_occupancy_def(),
                at,
                Seq::empty(),
                SampleValue::Distribution(
                    own_shares(in_order::<u32, u64>(self.own_us), window).summary(1),
                ),
            ),
            sample_of(
                catalog::channel_load_def(),
                at,
                Seq::empty(),
                SampleValue::Distribution(
                    demand_shares(in_order::<u32, int>(self.demands()), window).summary(1),
                ),
            ),
            sample_of(
                catalog::offered_load_def(),
                at,
                Seq::empty(),
                SampleValue::Scalar(bit_rate(self.offered(), window)),
            ),
            sample_of(
                catalog::carried_load_def(),
                at,
                Seq::empty(),
                SampleValue::Scalar(bit_rate(self.carried_bits, window)),
            ),
        ]
    }

    /// The share of the resolved attempts that some of them are.
    pub open spec fn share_of_resolved(self, n: int) -> SampleValue {
        SampleValue::Ratio(
            Counts { successes: n as u64, trials: self.resolved }.ratio(
                self.min_samples,
                self.level,
            ),
        )
    }

    /// The share of the resolved attempts that were lost to each cause.
    pub open spec fn loss_samples(self, at: SimTime) -> Seq<SampleView> {
        let causes = in_order::<String, u64>(self.lost_by_cause);
        Seq::new(
            causes.len(),
            |i: int|
                sample_of(
                    catalog::loss_rate_def(self.min_samples),
                    at,
                    seq![(Dim::Cause, DimText::Label(causes[i].0))],
                    self.share_of_resolved(causes[i].1 as int),
                ),
        )
    }

    /// The collisions, the half-duplex losses, and what the medium access layer reports.
    pub open spec fn access_samples(self, at: SimTime) -> Seq<SampleView> {
        seq![
            sample_of(
                catalog::collision_rate_def(self.min_samples),
                at,
                Seq::empty(),
                self.share_of_resolved(collisions(self.lost_by_cause)),
            ),
            sample_of(
                catalog::half_duplex_rate_def(self.min_samples),
                at,
                Seq::empty(),
                self.share_of_resolved(amount(self.lost_by_cause, "half-duplex"@) as int),
            ),
            sample_of(
                catalog::mac_queue_depth_def(),
                at,
                Seq::empty(),
                SampleValue::Distribution(self.queue_depth.summary(1)),
            ),
            sample_of(
                catalog::mac_drops_def(),
                at,
                Seq::empty(),
                SampleValue::Count { count: self.mac_drops },
            ),
            sample_of(
                catalog::mac_access_delay_def(self.min_samples),
                at,
                Seq::empty(),
                SampleValue::Distribution(self.access_ms.summary(self.min_samples)),
            ),
        ]
    }

    /// All samples of the window that ends at `at`.
    pub open spec fn samples(self, at: SimTime) -> Seq<SampleView> {
        self.channel_samples(at) + self.loss_samples(at) + self.access_samples(at)
    }

    /// The state after the window that ends at `at` was flushed.
    pub open spec fn flushed(self, at: SimTime) -> LoadView {
        LoadView {
            level: self.level,
            min_samples: self.min_samples,
            rejected: self.rejected,
            ..fresh(at)
        }
    }
}

impl LoadProvider {
    /// A provider whose first window starts at `t0`.
    pub fn new(t0: SimTime) -> (r: LoadProvider)
        ensures
            r@ == fresh(t0),
            r@.sound(),
    {
        let lost_by_cause: Tally<String> = Tally::new();
        let _ = lost_by_cause.total();
        LoadProvider {
            level: ConfidenceLevel::P95,
            min_samples: DEFAULT_MIN_SAMPLES,
            window_start: t0,
            own_us: Amounts::new(),
            sensed_us: Amounts::new(),
            offered_us: Amounts::new(),
            offered_bits: 0,
            offered_reported: false,
            carried_bits: 0,
            resolved: 0,
            lost_by_cause,
            queue_depth: Distribution::new(),
            mac_drops: 0,
            access_ms: Distribution::new(),
            rejected: 0,
        }
    }

    /// Sets the insufficiency threshold.
    pub fn with_min_samples(self, n: u64) -> (r: LoadProvider)
        ensures
            r@ == (LoadView { min_samples: n, ..self@ }),
    {
        let mut p = self;
        p.min_samples = n;
        p
    }

    fn on_tx(&mut self, v: &NodeTxView)
        requires
            old(self)@.room_for_tx(*v),
        ensures
            final(self)@ == old(self)@.after_tx(*v),
    {
        if let Some(us) = v.airtime_us {
            self.own_us.increase(v.node, us);
        }
        self.carried_bits = self.carried_bits + v.bytes_on_wire * 8;
        if let Some(signed) = v.t_signed {
            if v.t >= signed {
                self.access_ms.observe_quotient((v.t - signed) as i128, 1_000_000);
            }
        }
    }

    fn on_rx(&mut self, v: &NodeRxView)
        requires
            old(self)@.sound(),
            old(self)@.room_for_rx(*v),
        ensures
            final(self)@ == old(self)@.after_rx(*v),
            final(self)@.sound(),
    {
        let _ = self.lost_by_cause.total();
        if let Some(p) = v.rssi_dbm {
            if let Some(us) = v.airtime_us {
                if Real::whole(BUSY_THRESHOLD_DBM).not_above(&p) {
                    self.sensed_us.increase(v.rx, us);
                }
            }
        }
        match v.outcome {
            RxFate::InFlight => {},
            RxFate::Delivered => {
                self.resolved = self.resolved + 1;
            },
            RxFate::Lost => {
                self.resolved = self.resolved + 1;
                let cause = match &v.cause {
                    Some(c) => c.clone(),
                    None => "unknown".to_owned(),
                };
                self.lost_by_cause.increase(cause, 1);
                let _ = self.lost_by_cause.total();
            },
        }
    }

    fn on_mac(&mut self, v: &MacCbrView)
        requires
            old(self)@.room_for_mac(*v),
        ensures
            final(self)@ == old(self)@.after_mac(*v),
    {
        if let Some(d) = v.queue_depth {
            self.queue_depth.observe_quotient(d as i128, 1);
        }
        if let Some(d) = v.mac_drops {
            self.mac_drops = self.mac_drops + d;
        }
        if let Some(b) = v.offered_bytes {
            self.offered_bits = self.offered_bits + b * 8;
            self.offered_reported = true;
        }
        if let Some(us) = v.offered_airtime_us {
            self.offered_us.increase(v.node, us);
        }
    }

    fn refuse(&mut self)
        requires
            old(self)@.rejected < u64::MAX,
        ensures
            final(self)@ == old(self)@.after_refusal(),
    {
        self.rejected = self.rejected + 1;
    }

    /// Consumes one record.
    pub fn on_event(&mut self, ev: &EventRecord)
        requires
            old(self)@.sound(),
            old(self)@.room_for(*ev),
        ensures
            final(self)@ == old(self)@.after(*ev),
            final(self)@.sound(),
    {
        match (find_channel(ev.channel.as_str()), &ev.payload) {
            (Some(Channel::NodeTx), Payload::NodeTx(v)) => self.on_tx(v),
            (Some(Channel::NodeRx), Payload::NodeRx(v)) => self.on_rx(v),
            (Some(Channel::MacCbr), Payload::MacCbr(v)) => self.on_mac(v),
            (Some(Channel::NodeTx), _) => self.refuse(),
            (Some(Channel::NodeRx), _) => self.refuse(),
            (Some(Channel::MacCbr), _) => self.refuse(),
            _ => {},
        }
    }

    fn window_of(&self, at: SimTime) -> (r: u64)
        ensures
            r == self@.window_us(at),
    {
        if at <= self.window_start {
            0
        } else {
            (at - self.window_start) / 1000
        }
    }

    fn occupancy(&self, window: u64) -> (d: Distribution)
        ensures
            d@ == own_shares(in_order::<u32, u64>(self@.own_us), window),
    {
        let mut d = Distribution::new();
        let n: usize = self.own_us.len();
        let ghost s = self.own_us.listing();
        if window > 0 {
            let mut i: usize = 0;
            assert(s.subrange(0, 0) =~= Seq::<(u32, u64)>::empty());
            while i < n
                invariant
                    s == self.own_us.listing(),
                    n == s.len(),
                    i <= n,
                    window > 0,
                    d@ == own_shares(s.subrange(0, i as int), window),
                decreases n - i,
            {
                proof {
                    let next = s.subrange(0, i as int + 1);
                    assert(next.drop_last() =~= s.subrange(0, i as int));
                    assert(next.last() == s[i as int]);
                }
                d.observe_quotient(self.own_us.amount_at(i) as i128, window as u128);
                i = i + 1;
            }
            assert(s.subrange(0, n as int) =~= s);
        }
        d
    }

    fn demand_of(&self, node: u32) -> (r: u128)
        ensures
            r == self@.demand(node),
            r <= 2 * 0xffff_ffff_ffff_ffff,
    {
        let own: u64 = self.own_us.get(&node);
        let offered: u64 = self.offered_us.get(&node);
        let more: u64 = if own >= offered {
            own
        } else {
            offered
        };
        self.sensed_us.get(&node) as u128 + more as u128
    }

    fn all_demands(&self) -> (m: SortedMap<u32, Demand>)
        ensures
            m@ == self@.demands(),
    {
        let mut m: SortedMap<u32, Demand> = SortedMap::new();
        let ghost v = self@;
        self.add_demands(&self.own_us, &mut m);
        self.add_demands(&self.sensed_us, &mut m);
        self.add_demands(&self.offered_us, &mut m);
        assert(m@ =~= v.demands());
        m
    }

    fn add_demands(&self, t: &Amounts<u32>, m: &mut SortedMap<u32, Demand>)
        requires
            forall|k: u32| #[trigger] old(m)@.contains_key(k) ==> old(m)@[k] == self@.demand(k),
        ensures
            forall|k: u32|
                #[trigger] final(m)@.contains_key(k) == (old(m)@.contains_key(k)
                    || t@.contains_key(k)),
            forall|k: u32| #[trigger] final(m)@.contains_key(k) ==> final(m)@[k] == self@.demand(k),
    {
        let ghost m0 = m@;
        let n: usize = t.len();
        let mut i: usize = 0;
        while i < n
            invariant
                n == t.listing().len(),
                t@ == crate::keyed::listed(t.listing()),
                i <= n,
                forall|k: u32|
                    #[trigger] m@.contains_key(k) == (m0.contains_key(k) || exists|j: int|
                        0 <= j < i && (#[trigger] t.listing()[j]).0 == k),
                forall|k: u32| #[trigger] m@.contains_key(k) ==> m@[k] == self@.demand(k),
            decreases n - i,
        {
            let node: u32 = *t.key_at(i);
            let d: u128 = self.demand_of(node);
            let ghost before = m@;
            let _ = m.insert(node, Demand { us: d });
            proof {
                assert(t.listing()[i as int].0 == node);
                assert forall|k: u32| #[trigger] m@.contains_key(k) == (m0.contains_key(k)
                    || exists|j: int| 0 <= j < i + 1 && (#[trigger] t.listing()[j]).0 == k) by {
                    assert(before.contains_key(k) == (m0.contains_key(k) || exists|j: int|
                        0 <= j < i && (#[trigger] t.listing()[j]).0 == k));
                }
            }
            i = i + 1;
        }
        assert forall|k: u32| #[trigger] m@.contains_key(k) == (m0.contains_key(k)
            || t@.contains_key(k)) by {
            if t@.contains_key(k) {
                let j = choose|j: int| crate::keyed::ranked_at(t.listing(), k, j);
                assert(t.listing()[j].0 == k);
            }
            if exists|j: int| 0 <= j < n && (#[trigger] t.listing()[j]).0 == k {
                let j = choose|j: int| 0 <= j < n && (#[trigger] t.listing()[j]).0 == k;
                assert(crate::keyed::ranked_at(t.listing(), k, j));
            }
        }
    }

    fn loads(&self, window: u64) -> (d: Distribution)
        ensures
            d@ == demand_shares(in_order::<u32, int>(self@.demands()), window),
    {
        let mut d = Distribution::new();
        let m = self.all_demands();
        let n: usize = m.len();
        let ghost s = m.listing();
        assert forall|k: int| 0 <= k < n implies 0 <= (#[trigger] s[k]).1 <= 2
            * 0xffff_ffff_ffff_ffff by {
            assert(s[k].1 == self@.demands()[s[k].0]);
        }
        if window > 0 {
            let mut i: usize = 0;
            assert(s.subrange(0, 0) =~= Seq::<(u32, int)>::empty());
            while i < n
                invariant
                    s == m.listing(),
                    n == s.len(),
                    i <= n,
                    window > 0,
                    forall|k: int|
                        0 <= k < n ==> 0 <= (#[trigger] s[k]).1 <= 2 * 0xffff_ffff_ffff_ffff,
                    d@ == demand_shares(s.subrange(0, i as int), window),
                decreases n - i,
            {
                proof {
                    let next = s.subrange(0, i as int + 1);
                    assert(next.drop_last() =~= s.subrange(0, i as int));
                    assert(next.last() == s[i as int]);
                }
                d.observe_quotient(m.value_at(i).us as i128, window as u128);
                i = i + 1;
            }
            assert(s.subrange(0, n as int) =~= s);
        }
        d
    }

    fn bits_per_second(bits: u64, window: u64) -> (r: Estimate)
        ensures
            r == bit_rate(bits, window),
    {
        if window > 0 {
            Estimate::Value {
                point: Real::new((bits as i128) * 1_000_000, window as u128),
                n: 1,
            }
        } else {
            Estimate::Insufficient { n: 0, required: 1 }
        }
    }

    fn emit_channel(&self, at: SimTime, out: &mut Vec<MetricSample>)
        ensures
            views(final(out)@) == views(old(out)@) + self@.channel_samples(at),
    {
        broadcast use group_views;

        let ghost start = views(out@);
        let window: u64 = self.window_of(at);
        out.push(
            MetricSample::new(
                &catalog::channel_occupancy(),
                at,
                no_dims(),
                SampleValue::Distribution(self.occupancy(window).summary(1)),
            ),
        );
        out.push(
            MetricSample::new(
                &catalog::channel_load(),
                at,
                no_dims(),
                SampleValue::Distribution(self.loads(window).summary(1)),
            ),
        );
        let offered: u64 = if self.offered_reported && self.offered_bits >= self.carried_bits {
            self.offered_bits
        } else {
            self.carried_bits
        };
        out.push(
            MetricSample::new(
                &catalog::offered_load(),
                at,
                no_dims(),
                SampleValue::Scalar(Self::bits_per_second(offered, window)),
            ),
        );
        out.push(
            MetricSample::new(
                &catalog::carried_load(),
                at,
                no_dims(),
                SampleValue::Scalar(Self::bits_per_second(self.carried_bits, window)),
            ),
        );
        assert(views(out@) =~= start + self@.channel_samples(at));
    }

    fn resolved_share(&self, n: u64) -> (r: SampleValue)
        requires
            n <= self@.resolved,
        ensures
            r == self@.share_of_resolved(n as int),
    {
        SampleValue::Ratio(
            Proportion::from_counts(n, self.resolved).estimate(self.min_samples, self.level),
        )
    }

    fn emit_losses(&self, at: SimTime, out: &mut Vec<MetricSample>)
        requires
            self@.sound(),
        ensures
            views(final(out)@) == views(old(out)@) + self@.loss_samples(at),
    {
        let ghost start = views(out@);
        let ghost all = self@.loss_samples(at);
        let def = catalog::loss_rate(self.min_samples);
        let total: u64 = self.lost_by_cause.total();
        let n: usize = self.lost_by_cause.len();
        let mut i: usize = 0;
        assert(start + all.subrange(0, 0) =~= start);
        while i < n
            invariant
                all == self@.loss_samples(at),
                n == all.len(),
                n == self.lost_by_cause.listing().len(),
                self.lost_by_cause.listing() == in_order::<String, u64>(self@.lost_by_cause),
                total <= self@.resolved,
                forall|k: int|
                    0 <= k < n ==> (#[trigger] self.lost_by_cause.listing()[k]).1 <= total,
                def@ == catalog::loss_rate_def(self@.min_samples),
                i <= n,
                views(out@) == start + all.subrange(0, i as int),
            decreases n - i,
        {
            broadcast use group_views;

            let count: u64 = self.lost_by_cause.amount_at(i);
            assert(self.lost_by_cause.listing()[i as int].1 <= total);
            let s = MetricSample::new(
                &def,
                at,
                one_dim(
                    Dim::Cause,
                    DimValue::label(self.lost_by_cause.key_at(i).as_str()),
                ),
                self.resolved_share(count),
            );
            assert(s@ == all[i as int]);
            out.push(s);
            assert(views(out@) =~= start + all.subrange(0, i as int + 1));
            i = i + 1;
        }
        assert(all.subrange(0, n as int) =~= all);
    }

    fn emit_access(&self, at: SimTime, out: &mut Vec<MetricSample>)
        requires
            self@.sound(),
        ensures
            views(final(out)@) == views(old(out)@) + self@.access_samples(at),
    {
        broadcast use group_views;

        let ghost start = views(out@);
        let total: u64 = self.lost_by_cause.total();
        let n: usize = self.lost_by_cause.len();
        proof {
            some_losses_are_at_most_all(self@.lost_by_cause);
        }
        let collided: u64 = self.lost_by_cause.get(&"collision".to_owned()) + self.lost_by_cause.get(
            &"hidden-terminal".to_owned(),
        ) + self.lost_by_cause.get(&"resource-collision".to_owned());
        out.push(
            MetricSample::new(
                &catalog::collision_rate(self.min_samples),
                at,
                no_dims(),
                self.resolved_share(collided),
            ),
        );
        let half: u64 = self.lost_by_cause.get(&"half-duplex".to_owned());
        out.push(
            MetricSample::new(
                &catalog::half_duplex_rate(self.min_samples),
                at,
                no_dims(),
                self.resolved_share(half),
            ),
        );
        out.push(
            MetricSample::new(
                &catalog::mac_queue_depth(),
                at,
                no_dims(),
                SampleValue::Distribution(self.queue_depth.summary(1)),
            ),
        );
        out.push(
            MetricSample::new(
                &catalog::mac_drops(),
                at,
                no_dims(),
                SampleValue::count(self.mac_drops),
            ),
        );
        out.push(
            MetricSample::new(
                &catalog::mac_access_delay(self.min_samples),
                at,
                no_dims(),
                SampleValue::Distribution(self.access_ms.summary(self.min_samples)),
            ),
        );
        assert(views(out@) =~= start + self@.access_samples(at));
    }

    /// The samples of the window that ends at `at`; what was accumulated is drained, and a
    /// new window starts.
    pub fn flush(&mut self, at: SimTime) -> (out: Vec<MetricSample>)
        requires
            old(self)@.sound(),
        ensures
            views(out@) == old(self)@.samples(at),
            final(self)@ == old(self)@.flushed(at),
            final(self)@.sound(),
    {
        broadcast use group_views;

        let mut out: Vec<MetricSample> = Vec::new();
        self.emit_channel(at, &mut out);
        self.emit_losses(at, &mut out);
        self.emit_access(at, &mut out);
        assert(views(out@) =~= old(self)@.samples(at));
        let _ = self.own_us.drain();
        let _ = self.sensed_us.drain();
        let _ = self.offered_us.drain();
        let _ = self.lost_by_cause.drain();
        let _ = self.lost_by_cause.total();
        let _ = self.queue_depth.drain();
        let _ = self.access_ms.drain();
        self.offered_bits = 0;
        self.offered_reported = false;
        self.carried_bits = 0;
        self.resolved = 0;
        self.mac_drops = 0;
        self.window_start = at;
        out
    }

    /// How many records could not be read.
    pub fn rejected(&self) -> (r: u64)
        ensures
            r == self@.rejected,
    {
        self.rejected
    }

    /// The card of the provider.
    pub fn card(&self) -> (r: ModelCard)
        ensures
            r@ == catalog::load_card(),
    {
        catalog::build_card()
    }

    /// The definitions of the provider's metrics.
    pub fn definitions(&self) -> (r: Vec<MetricDef>)
        ensures
            views(r@) == catalog::all_defs(self@.min_samples),
    {
        catalog::definitions(self.min_samples)
    }
}

/// The air time that is asked of the channel at one node, in microseconds.
#[derive(Clone, Copy, Debug, PartialEq, Eq, Structural)]
struct Demand {
    us: u128,
}

impl View for Demand {
    type V = int;

    closed spec fn view(&self) -> int {
        self.us as int
    }
}

/// What is offered is never less than what is carried.
pub proof fn offered_is_at_least_carried(v: LoadView)
    ensures
        v.carried_bits <= v.offered(),
{
}

/// Every attempt whose fate is known is counted once: a loss under its cause, a delivery as
/// what is left of the attempts; one in flight is not counted.
pub proof fn every_fate_is_counted_once(v: LoadView, rx: NodeRxView)
    requires
        v.resolved < u64::MAX,
        v.sound(),
        orderly::<String, u64>(v.lost_by_cause),
    ensures
        ({
            let w = v.after_rx(rx);
            let lost = total_of::<String>(w.lost_by_cause) - total_of::<String>(v.lost_by_cause);
            let resolved = w.resolved - v.resolved;
            match rx.outcome {
                RxFate::InFlight => lost == 0 && resolved == 0,
                RxFate::Delivered => lost == 0 && resolved == 1,
                RxFate::Lost => lost == 1 && resolved == 1,
            }
        }),
{
    if rx.outcome is Lost {
        let m = v.lost_by_cause;
        let cause = loss_cause(rx);
        let n = one_more(m, cause);
        total_splits::<String>(m, cause);
        crate::tally::sum_bounds(in_order::<String, u64>(m.remove(cause)));
        orderly_insert::<String, u64>(m, cause, (amount(m, cause) + 1) as u64);
        total_splits::<String>(n, cause);
        assert(n.remove(cause) =~= m.remove(cause));
    }
}

} // verus!
