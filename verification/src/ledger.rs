//! A run's records, decoded and kept, so that an invariant can be checked against them.
//!
//! Records stay in the order in which they arrived: two invariants are about that order.

use vstd::prelude::*;
use crate::basic::Visibility;
use crate::channels::{channel_named, find_channel, Channel, ChannelView, EventRecord, Payload, DetObservationView, GtAttackActionView, GtKinematicsView, MaDecisionView, MaReportView, MacCbrView, NetBytesView, NetFragView, NetReassemblyView, NodeRxView, NodeTelemetryView, NodeTxView, NodeVerifyView, PhyPrrView, PhyRxView, ProtoMsgView, ProtoRevocationView, SecCertView};
use crate::keyed::Key;
use crate::latency::LatencyTrace;
use crate::tally::{amount, Tally};
use crate::text::{is_text_before, same_text, text_before, text_before_irreflexive, text_before_total, text_before_transitive, texts};

verus! {

/// A channel and a visibility tag that a record on it carried.
#[derive(Debug)]
pub struct Tag {
    /// The channel.
    pub channel: String,
    /// The tag.
    pub visibility: Visibility,
}

impl Key for Tag {
    type Rank = (Seq<char>, Visibility);

    open spec fn rank(&self) -> (Seq<char>, Visibility) {
        (self.channel@, self.visibility)
    }

    open spec fn before(a: (Seq<char>, Visibility), b: (Seq<char>, Visibility)) -> bool {
        text_before(a.0, b.0) || (a.0 == b.0 && a.1.place() < b.1.place())
    }

    proof fn order_irreflexive(a: (Seq<char>, Visibility)) {
        text_before_irreflexive(a.0);
    }

    proof fn order_transitive(
        a: (Seq<char>, Visibility),
        b: (Seq<char>, Visibility),
        c: (Seq<char>, Visibility),
    ) {
        if text_before(a.0, b.0) && text_before(b.0, c.0) {
            text_before_transitive(a.0, b.0, c.0);
        }
    }

    proof fn order_total(a: (Seq<char>, Visibility), b: (Seq<char>, Visibility)) {
        text_before_total(a.0, b.0);
    }

    fn is_before(&self, other: &Tag) -> (r: bool) {
        is_text_before(self.channel.as_str(), other.channel.as_str()) || (same_text(
            self.channel.as_str(),
            other.channel.as_str(),
        ) && self.visibility.position() < other.visibility.position())
    }
}

/// A run's decoded records, in arrival order per channel.
pub struct EventLedger {
    /// The only channels to keep, where there is a choice.
    pub filter: Option<Vec<String>>,
    /// `node.tx`, in arrival order.
    pub tx: Vec<NodeTxView>,
    /// `phy.rx`, in arrival order.
    pub rx: Vec<PhyRxView>,
    /// `node.rx`, in arrival order.
    pub node_rx: Vec<NodeRxView>,
    /// `msg.latency`, in arrival order.
    pub latency: Vec<LatencyTrace>,
    /// `phy.prr`, in arrival order.
    pub prr: Vec<PhyPrrView>,
    /// `mac.cbr`, in arrival order.
    pub cbr: Vec<MacCbrView>,
    /// `net.frag`, in arrival order.
    pub frag: Vec<NetFragView>,
    /// `net.reassembly`, in arrival order.
    pub reassembly: Vec<NetReassemblyView>,
    /// `net.bytes`, in arrival order.
    pub bytes: Vec<NetBytesView>,
    /// `proto.msg`, in arrival order.
    pub proto_msg: Vec<ProtoMsgView>,
    /// `node.verify`, in arrival order.
    pub verify: Vec<NodeVerifyView>,
    /// `node.telemetry`, in arrival order.
    pub telemetry: Vec<NodeTelemetryView>,
    /// `sec.cert`, in arrival order.
    pub cert: Vec<SecCertView>,
    /// `proto.revocation`, in arrival order.
    pub revocation: Vec<ProtoRevocationView>,
    /// `det.observation`, in arrival order.
    pub observations: Vec<DetObservationView>,
    /// `ma.report`, in arrival order.
    pub reports: Vec<MaReportView>,
    /// `ma.decision`, in arrival order.
    pub decisions: Vec<MaDecisionView>,
    /// `gt.kinematics`, in arrival order.
    pub kinematics: Vec<GtKinematicsView>,
    /// `gt.attack.action`, in arrival order.
    pub attacks: Vec<GtAttackActionView>,
    /// How many records carried each tag on each channel.
    pub visibility_seen: Tally<Tag>,
    /// Records that could not be read, per channel.
    pub decode_failures: Tally<String>,
    /// Records on channels without a view, per channel.
    pub unknown_channels: Tally<String>,
    /// Every record that was ingested.
    pub ingested: u64,
}

/// What a ledger holds.
#[verifier::ext_equal]
pub ghost struct LedgerView {
    pub filter: Option<Seq<Seq<char>>>,
    pub tx: Seq<NodeTxView>,
    pub rx: Seq<PhyRxView>,
    pub node_rx: Seq<NodeRxView>,
    pub latency: Seq<LatencyTrace>,
    pub prr: Seq<PhyPrrView>,
    pub cbr: Seq<MacCbrView>,
    pub frag: Seq<NetFragView>,
    pub reassembly: Seq<NetReassemblyView>,
    pub bytes: Seq<NetBytesView>,
    pub proto_msg: Seq<ProtoMsgView>,
    pub verify: Seq<NodeVerifyView>,
    pub telemetry: Seq<NodeTelemetryView>,
    pub cert: Seq<SecCertView>,
    pub revocation: Seq<ProtoRevocationView>,
    pub observations: Seq<DetObservationView>,
    pub reports: Seq<MaReportView>,
    pub decisions: Seq<MaDecisionView>,
    pub kinematics: Seq<GtKinematicsView>,
    pub attacks: Seq<GtAttackActionView>,
    pub visibility_seen: Map<(Seq<char>, Visibility), u64>,
    pub decode_failures: Map<Seq<char>, u64>,
    pub unknown_channels: Map<Seq<char>, u64>,
    pub ingested: u64,
}

/// The texts of an optional list.
pub open spec fn optional_texts(v: Option<Vec<String>>) -> Option<Seq<Seq<char>>> {
    match v {
        Some(x) => Some(texts(x@)),
        None => None,
    }
}

impl View for EventLedger {
    type V = LedgerView;

    open spec fn view(&self) -> LedgerView {
        LedgerView {
            filter: optional_texts(self.filter),
            tx: self.tx@,
            rx: self.rx@,
            node_rx: self.node_rx@,
            latency: self.latency@,
            prr: self.prr@,
            cbr: self.cbr@,
            frag: self.frag@,
            reassembly: self.reassembly@,
            bytes: self.bytes@,
            proto_msg: self.proto_msg@,
            verify: self.verify@,
            telemetry: self.telemetry@,
            cert: self.cert@,
            revocation: self.revocation@,
            observations: self.observations@,
            reports: self.reports@,
            decisions: self.decisions@,
            kinematics: self.kinematics@,
            attacks: self.attacks@,
            visibility_seen: self.visibility_seen@,
            decode_failures: self.decode_failures@,
            unknown_channels: self.unknown_channels@,
            ingested: self.ingested,
        }
    }
}

/// An empty ledger.
pub open spec fn empty_ledger(filter: Option<Seq<Seq<char>>>) -> LedgerView {
    LedgerView {
        filter,
        tx: Seq::empty(),
        rx: Seq::empty(),
        node_rx: Seq::empty(),
        latency: Seq::empty(),
        prr: Seq::empty(),
        cbr: Seq::empty(),
        frag: Seq::empty(),
        reassembly: Seq::empty(),
        bytes: Seq::empty(),
        proto_msg: Seq::empty(),
        verify: Seq::empty(),
        telemetry: Seq::empty(),
        cert: Seq::empty(),
        revocation: Seq::empty(),
        observations: Seq::empty(),
        reports: Seq::empty(),
        decisions: Seq::empty(),
        kinematics: Seq::empty(),
        attacks: Seq::empty(),
        visibility_seen: Map::empty(),
        decode_failures: Map::empty(),
        unknown_channels: Map::empty(),
        ingested: 0,
    }
}

/// One more in a tally.
pub open spec fn one_more<R>(m: Map<R, u64>, r: R) -> Map<R, u64> {
    m.insert(r, (amount(m, r) + 1) as u64)
}

/// A channel's records after `rec` arrived.
pub open spec fn grown<T: ChannelView>(s: Seq<T>, rec: EventRecord) -> Seq<T> {
    if channel_named(rec.channel@) == Some(T::channel_of()) {
        match T::within(rec.payload) {
            Some(v) => s.push(v),
            None => s,
        }
    } else {
        s
    }
}

/// True if `rec` is on a channel that the ledger reads, and reads as that channel's view.
pub open spec fn readable(rec: EventRecord) -> bool {
    match channel_named(rec.channel@) {
        Some(Channel::NodeTx) => rec.payload is NodeTx,
        Some(Channel::PhyRx) => rec.payload is PhyRx,
        Some(Channel::NodeRx) => rec.payload is NodeRx,
        Some(Channel::MsgLatency) => rec.payload is MsgLatency,
        Some(Channel::PhyPrr) => rec.payload is PhyPrr,
        Some(Channel::MacCbr) => rec.payload is MacCbr,
        Some(Channel::NetFrag) => rec.payload is NetFrag,
        Some(Channel::NetReassembly) => rec.payload is NetReassembly,
        Some(Channel::NetBytes) => rec.payload is NetBytes,
        Some(Channel::ProtoMsg) => rec.payload is ProtoMsg,
        Some(Channel::NodeVerify) => rec.payload is NodeVerify,
        Some(Channel::NodeTelemetry) => rec.payload is NodeTelemetry,
        Some(Channel::SecCert) => rec.payload is SecCert,
        Some(Channel::ProtoRevocation) => rec.payload is ProtoRevocation,
        Some(Channel::DetObservation) => rec.payload is DetObservation,
        Some(Channel::MaReport) => rec.payload is MaReport,
        Some(Channel::MaDecision) => rec.payload is MaDecision,
        Some(Channel::GtKinematics) => rec.payload is GtKinematics,
        Some(Channel::GtAttackAction) => rec.payload is GtAttackAction,
        _ => false,
    }
}

impl LedgerView {
    /// True if records of `channel` are kept.
    pub open spec fn wants(self, channel: Seq<char>) -> bool {
        match self.filter {
            Some(names) => names.contains(channel),
            None => true,
        }
    }

    /// The ledger after `rec` arrived: it is counted under its channel and tag. On an unknown
    /// channel it is counted as such, whatever the filter. On a known channel that is wanted
    /// it is kept where it reads, and counted as a failure where it does not.
    pub open spec fn and(self, rec: EventRecord) -> LedgerView {
        let counted = LedgerView {
            visibility_seen: one_more(self.visibility_seen, (rec.channel@, rec.visibility)),
            ingested: (self.ingested + 1) as u64,
            ..self
        };
        if channel_named(rec.channel@) is Some && !self.wants(rec.channel@) {
            counted
        } else {
            LedgerView {
                tx: grown(self.tx, rec),
                rx: grown(self.rx, rec),
                node_rx: grown(self.node_rx, rec),
                latency: grown(self.latency, rec),
                prr: grown(self.prr, rec),
                cbr: grown(self.cbr, rec),
                frag: grown(self.frag, rec),
                reassembly: grown(self.reassembly, rec),
                bytes: grown(self.bytes, rec),
                proto_msg: grown(self.proto_msg, rec),
                verify: grown(self.verify, rec),
                telemetry: grown(self.telemetry, rec),
                cert: grown(self.cert, rec),
                revocation: grown(self.revocation, rec),
                observations: grown(self.observations, rec),
                reports: grown(self.reports, rec),
                decisions: grown(self.decisions, rec),
                kinematics: grown(self.kinematics, rec),
                attacks: grown(self.attacks, rec),
                decode_failures: if channel_named(rec.channel@) is Some && !readable(rec) {
                    one_more(self.decode_failures, rec.channel@)
                } else {
                    self.decode_failures
                },
                unknown_channels: if channel_named(rec.channel@) is None {
                    one_more(self.unknown_channels, rec.channel@)
                } else {
                    self.unknown_channels
                },
                ..counted
            }
        }
    }

    /// The ledger after some records arrived, in order.
    pub open spec fn and_all(self, recs: Seq<EventRecord>) -> LedgerView
        decreases recs.len(),
    {
        if recs.len() == 0 {
            self
        } else {
            self.and_all(recs.drop_last()).and(recs.last())
        }
    }
}

impl EventLedger {
    /// No tally counts more records than were ingested.
    pub open spec fn wf(&self) -> bool {
        &&& self.visibility_seen.sum() == self.ingested
        &&& self.decode_failures.sum() + self.unknown_channels.sum() <= self.ingested
        &&& self.decode_failures.sum() >= 0
        &&& self.unknown_channels.sum() >= 0
    }

    /// A ledger that keeps every channel it reads.
    pub fn new() -> (r: EventLedger)
        ensures
            r.wf(),
            r@ == empty_ledger(None),
    {
        EventLedger::filtered(None)
    }

    /// A ledger that keeps only the given channels; records of the other known ones are still
    /// counted, and by their tags.
    pub fn only(channels: Vec<String>) -> (r: EventLedger)
        ensures
            r.wf(),
            r@ == empty_ledger(Some(texts(channels@))),
    {
        EventLedger::filtered(Some(channels))
    }

    fn filtered(filter: Option<Vec<String>>) -> (r: EventLedger)
        ensures
            r.wf(),
            r@ == empty_ledger(optional_texts(filter)),
    {
        EventLedger {
            filter,
            tx: Vec::new(),
            rx: Vec::new(),
            node_rx: Vec::new(),
            latency: Vec::new(),
            prr: Vec::new(),
            cbr: Vec::new(),
            frag: Vec::new(),
            reassembly: Vec::new(),
            bytes: Vec::new(),
            proto_msg: Vec::new(),
            verify: Vec::new(),
            telemetry: Vec::new(),
            cert: Vec::new(),
            revocation: Vec::new(),
            observations: Vec::new(),
            reports: Vec::new(),
            decisions: Vec::new(),
            kinematics: Vec::new(),
            attacks: Vec::new(),
            visibility_seen: Tally::new(),
            decode_failures: Tally::new(),
            unknown_channels: Tally::new(),
            ingested: 0,
        }
    }

    fn wanted(&self, channel: &str) -> (r: bool)
        ensures
            r == self@.wants(channel@),
    {
        match &self.filter {
            None => true,
            Some(names) => {
                let mut i: usize = 0;
                while i < names.len()
                    invariant
                        i <= names@.len(),
                        self@.filter == Some(texts(names@)),
                        forall|j: int| 0 <= j < i ==> (#[trigger] names@[j])@ != channel@,
                    decreases names@.len() - i,
                {
                    if same_text(names[i].as_str(), channel) {
                        assert(texts(names@)[i as int] == channel@);
                        return true;
                    }
                    i = i + 1;
                }
                assert(!texts(names@).contains(channel@)) by {
                    if texts(names@).contains(channel@) {
                        let j = choose|j: int|
                            0 <= j < texts(names@).len() && texts(names@)[j] == channel@;
                        assert(names@[j]@ == channel@);
                    }
                }
                false
            },
        }
    }

    fn count_failure(&mut self, channel: String)
        requires
            old(self).decode_failures.sum() < u64::MAX,
        ensures
            final(self)@ == (LedgerView {
                decode_failures: one_more(old(self)@.decode_failures, channel@),
                ..old(self)@
            }),
            final(self).visibility_seen.sum() == old(self).visibility_seen.sum(),
            final(self).unknown_channels.sum() == old(self).unknown_channels.sum(),
            final(self).decode_failures.sum() == old(self).decode_failures.sum() + 1,
            final(self).ingested == old(self).ingested,
    {
        self.decode_failures.increase(channel, 1);
    }

    /// Ingests one record. Never fails: what cannot be read is counted.
    pub fn ingest(&mut self, rec: EventRecord)
        requires
            old(self).wf(),
            old(self).ingested < u64::MAX,
        ensures
            final(self).wf(),
            final(self)@ == old(self)@.and(rec),
    {
        let ghost rec0 = rec;
        let wanted: bool = self.wanted(rec.channel.as_str());
        self.ingested = self.ingested + 1;
        self.visibility_seen.increase(
            Tag { channel: rec.channel.clone(), visibility: rec.visibility },
            1,
        );
        let EventRecord { channel, visibility: _, json: _, payload } = rec;
        let known = find_channel(channel.as_str());
        if known.is_some() && !wanted {
            return ;
        }
        match known {
            Some(Channel::NodeTx) => match payload {
                Payload::NodeTx(v) => self.tx.push(v),
                _ => self.count_failure(channel),
            },
            Some(Channel::PhyRx) => match payload {
                Payload::PhyRx(v) => self.rx.push(v),
                _ => self.count_failure(channel),
            },
            Some(Channel::NodeRx) => match payload {
                Payload::NodeRx(v) => self.node_rx.push(v),
                _ => self.count_failure(channel),
            },
            Some(Channel::MsgLatency) => match payload {
                Payload::MsgLatency(v) => self.latency.push(v),
                _ => self.count_failure(channel),
            },
            Some(Channel::PhyPrr) => match payload {
                Payload::PhyPrr(v) => self.prr.push(v),
                _ => self.count_failure(channel),
            },
            Some(Channel::MacCbr) => match payload {
                Payload::MacCbr(v) => self.cbr.push(v),
                _ => self.count_failure(channel),
            },
            Some(Channel::NetFrag) => match payload {
                Payload::NetFrag(v) => self.frag.push(v),
                _ => self.count_failure(channel),
            },
            Some(Channel::NetBytes) => match payload {
                Payload::NetBytes(v) => self.bytes.push(v),
                _ => self.count_failure(channel),
            },
            Some(Channel::ProtoMsg) => match payload {
                Payload::ProtoMsg(v) => self.proto_msg.push(v),
                _ => self.count_failure(channel),
            },
            Some(Channel::NodeVerify) => match payload {
                Payload::NodeVerify(v) => self.verify.push(v),
                _ => self.count_failure(channel),
            },
            Some(Channel::NodeTelemetry) => match payload {
                Payload::NodeTelemetry(v) => self.telemetry.push(v),
                _ => self.count_failure(channel),
            },
            Some(Channel::SecCert) => match payload {
                Payload::SecCert(v) => self.cert.push(v),
                _ => self.count_failure(channel),
            },
            Some(Channel::ProtoRevocation) => match payload {
                Payload::ProtoRevocation(v) => self.revocation.push(v),
                _ => self.count_failure(channel),
            },
            Some(Channel::DetObservation) => match payload {
                Payload::DetObservation(v) => self.observations.push(v),
                _ => self.count_failure(channel),
            },
            Some(Channel::MaReport) => match payload {
                Payload::MaReport(v) => self.reports.push(v),
                _ => self.count_failure(channel),
            },
            Some(Channel::MaDecision) => match payload {
                Payload::MaDecision(v) => self.decisions.push(v),
                _ => self.count_failure(channel),
            },
            Some(Channel::GtKinematics) => match payload {
                Payload::GtKinematics(v) => self.kinematics.push(v),
                _ => self.count_failure(channel),
            },
            Some(Channel::GtAttackAction) => match payload {
                Payload::GtAttackAction(v) => self.attacks.push(v),
                _ => self.count_failure(channel),
            },
            Some(Channel::NetReassembly) => match payload {
                Payload::NetReassembly(v) => self.reassembly.push(v),
                _ => self.count_failure(channel),
            },
            None => self.unknown_channels.increase(channel, 1),
        }
    }

    /// Ingests some records, in order.
    pub fn ingest_all(&mut self, records: Vec<EventRecord>)
        requires
            old(self).wf(),
            old(self).ingested + records@.len() <= u64::MAX,
        ensures
            final(self).wf(),
            final(self)@ == old(self)@.and_all(records@),
            final(self).ingested == old(self).ingested + records@.len(),
    {
        let ghost all = records@;
        for r in it: records
            invariant
                it.seq() == all,
                self.wf(),
                old(self).ingested + all.len() <= u64::MAX,
                self.ingested == old(self).ingested + it.index(),
                self@ == old(self)@.and_all(all.subrange(0, it.index() as int)),
        {
            proof {
                let next = all.subrange(0, it.index() as int + 1);
                assert(next.drop_last() =~= all.subrange(0, it.index() as int));
                assert(next.last() == r);
            }
            self.ingest(r);
        }
        assert(all.subrange(0, all.len() as int) =~= all);
    }

    /// How many records could not be read.
    pub fn decode_failure_total(&self) -> (r: u64)
        ensures
            r == self.decode_failures.sum(),
    {
        self.decode_failures.total()
    }

    /// True if nothing was ingested.
    pub fn is_empty(&self) -> (r: bool)
        ensures
            r == (self.ingested == 0),
    {
        self.ingested == 0
    }
}

/// Every record that arrives is counted under exactly one channel and tag.
pub proof fn every_record_is_counted_once(l: LedgerView, recs: Seq<EventRecord>)
    requires
        l.ingested + recs.len() <= u64::MAX,
    ensures
        l.and_all(recs).ingested == l.ingested + recs.len(),
        l.and_all(recs).filter == l.filter,
    decreases recs.len(),
{
    if recs.len() > 0 {
        every_record_is_counted_once(l, recs.drop_last());
    }
}

} // verus!
