//! What the library reads of each event channel.
//!
//! A record carries its channel's name, who may see it, its encoded bytes and what those
//! bytes hold, as far as they could be read. Real-valued fields are whole multiples of the
//! grid that recordings are written on: millimetres, millimetres per second, hundredths of a
//! decibel, ten-thousandths of a ratio, millionths of a probability.
//!
//! A field that a producer may leave out is optional, and an absent field is never taken for
//! zero.

use vstd::prelude::*;
use vstd::string::*;
use crate::basic::{ActorId, NodeId, SimTime, Visibility};
use crate::error::{ErrorView, MetricError};
use crate::keyed::Key;
use crate::latency::LatencyTrace;
use crate::quant::Real;
use crate::text::{same_text, str_texts, texts};

verus! {

/// The channels that the library reads.
#[derive(Clone, Copy, Debug, PartialEq, Eq, Structural)]
pub enum Channel {
    /// `node.tx`: a transmission.
    NodeTx,
    /// `phy.rx`: a reception attempt at the physical layer.
    PhyRx,
    /// `node.rx`: the fate of a reception attempt.
    NodeRx,
    /// `msg.latency`: a decomposed latency.
    MsgLatency,
    /// `phy.prr`: a reception census.
    PhyPrr,
    /// `mac.cbr`: a report of the medium access layer.
    MacCbr,
    /// `net.frag`: a reassembly outcome.
    NetFrag,
    /// `net.reassembly`: a fragmented message followed to one receiver.
    NetReassembly,
    /// `net.bytes`: bytes attributed to a bucket.
    NetBytes,
    /// `proto.msg`: a protocol message.
    ProtoMsg,
    /// `node.verify`: a verification.
    NodeVerify,
    /// `node.telemetry`: a node's resource accounting.
    NodeTelemetry,
    /// `sec.cert`: a certificate event.
    SecCert,
    /// `proto.revocation`: a revocation stage.
    ProtoRevocation,
    /// `det.observation`: a detector's observation.
    DetObservation,
    /// `ma.report`: a misbehaviour report.
    MaReport,
    /// `ma.decision`: an authority's decision.
    MaDecision,
    /// `gt.kinematics`: an actor's true motion.
    GtKinematics,
    /// `gt.attack.action`: an attack action.
    GtAttackAction,
}

impl Channel {
    /// The channel's name.
    pub open spec fn text(self) -> Seq<char> {
        match self {
            Channel::NodeTx => "node.tx"@,
            Channel::PhyRx => "phy.rx"@,
            Channel::NodeRx => "node.rx"@,
            Channel::MsgLatency => "msg.latency"@,
            Channel::PhyPrr => "phy.prr"@,
            Channel::MacCbr => "mac.cbr"@,
            Channel::NetFrag => "net.frag"@,
            Channel::NetReassembly => "net.reassembly"@,
            Channel::NetBytes => "net.bytes"@,
            Channel::ProtoMsg => "proto.msg"@,
            Channel::NodeVerify => "node.verify"@,
            Channel::NodeTelemetry => "node.telemetry"@,
            Channel::SecCert => "sec.cert"@,
            Channel::ProtoRevocation => "proto.revocation"@,
            Channel::DetObservation => "det.observation"@,
            Channel::MaReport => "ma.report"@,
            Channel::MaDecision => "ma.decision"@,
            Channel::GtKinematics => "gt.kinematics"@,
            Channel::GtAttackAction => "gt.attack.action"@,
        }
    }

    /// The channel's name.
    pub fn as_str(self) -> (r: &'static str)
        ensures
            r@ == self.text(),
    {
        match self {
            Channel::NodeTx => "node.tx",
            Channel::PhyRx => "phy.rx",
            Channel::NodeRx => "node.rx",
            Channel::MsgLatency => "msg.latency",
            Channel::PhyPrr => "phy.prr",
            Channel::MacCbr => "mac.cbr",
            Channel::NetFrag => "net.frag",
            Channel::NetReassembly => "net.reassembly",
            Channel::NetBytes => "net.bytes",
            Channel::ProtoMsg => "proto.msg",
            Channel::NodeVerify => "node.verify",
            Channel::NodeTelemetry => "node.telemetry",
            Channel::SecCert => "sec.cert",
            Channel::ProtoRevocation => "proto.revocation",
            Channel::DetObservation => "det.observation",
            Channel::MaReport => "ma.report",
            Channel::MaDecision => "ma.decision",
            Channel::GtKinematics => "gt.kinematics",
            Channel::GtAttackAction => "gt.attack.action",
        }
    }
}

/// The channel with the given name, if it is one that the library reads.
pub open spec fn channel_named(name: Seq<char>) -> Option<Channel> {
    if name == Channel::NodeTx.text() {
        Some(Channel::NodeTx)
    } else if name == Channel::PhyRx.text() {
        Some(Channel::PhyRx)
    } else if name == Channel::NodeRx.text() {
        Some(Channel::NodeRx)
    } else if name == Channel::MsgLatency.text() {
        Some(Channel::MsgLatency)
    } else if name == Channel::PhyPrr.text() {
        Some(Channel::PhyPrr)
    } else if name == Channel::MacCbr.text() {
        Some(Channel::MacCbr)
    } else if name == Channel::NetFrag.text() {
        Some(Channel::NetFrag)
    } else if name == Channel::NetReassembly.text() {
        Some(Channel::NetReassembly)
    } else if name == Channel::NetBytes.text() {
        Some(Channel::NetBytes)
    } else if name == Channel::ProtoMsg.text() {
        Some(Channel::ProtoMsg)
    } else if name == Channel::NodeVerify.text() {
        Some(Channel::NodeVerify)
    } else if name == Channel::NodeTelemetry.text() {
        Some(Channel::NodeTelemetry)
    } else if name == Channel::SecCert.text() {
        Some(Channel::SecCert)
    } else if name == Channel::ProtoRevocation.text() {
        Some(Channel::ProtoRevocation)
    } else if name == Channel::DetObservation.text() {
        Some(Channel::DetObservation)
    } else if name == Channel::MaReport.text() {
        Some(Channel::MaReport)
    } else if name == Channel::MaDecision.text() {
        Some(Channel::MaDecision)
    } else if name == Channel::GtKinematics.text() {
        Some(Channel::GtKinematics)
    } else if name == Channel::GtAttackAction.text() {
        Some(Channel::GtAttackAction)
    } else {
        None
    }
}

/// The channel with the given name, if it is one that the library reads.
pub fn find_channel(name: &str) -> (r: Option<Channel>)
    ensures
        r == channel_named(name@),
{
    if same_text(name, "node.tx") {
        Some(Channel::NodeTx)
    } else if same_text(name, "phy.rx") {
        Some(Channel::PhyRx)
    } else if same_text(name, "node.rx") {
        Some(Channel::NodeRx)
    } else if same_text(name, "msg.latency") {
        Some(Channel::MsgLatency)
    } else if same_text(name, "phy.prr") {
        Some(Channel::PhyPrr)
    } else if same_text(name, "mac.cbr") {
        Some(Channel::MacCbr)
    } else if same_text(name, "net.frag") {
        Some(Channel::NetFrag)
    } else if same_text(name, "net.reassembly") {
        Some(Channel::NetReassembly)
    } else if same_text(name, "net.bytes") {
        Some(Channel::NetBytes)
    } else if same_text(name, "proto.msg") {
        Some(Channel::ProtoMsg)
    } else if same_text(name, "node.verify") {
        Some(Channel::NodeVerify)
    } else if same_text(name, "node.telemetry") {
        Some(Channel::NodeTelemetry)
    } else if same_text(name, "sec.cert") {
        Some(Channel::SecCert)
    } else if same_text(name, "proto.revocation") {
        Some(Channel::ProtoRevocation)
    } else if same_text(name, "det.observation") {
        Some(Channel::DetObservation)
    } else if same_text(name, "ma.report") {
        Some(Channel::MaReport)
    } else if same_text(name, "ma.decision") {
        Some(Channel::MaDecision)
    } else if same_text(name, "gt.kinematics") {
        Some(Channel::GtKinematics)
    } else if same_text(name, "gt.attack.action") {
        Some(Channel::GtAttackAction)
    } else {
        None
    }
}

/// Different channels have different names, so a name finds its channel.
pub proof fn channel_names_are_distinct(c: Channel)
    ensures
        channel_named(c.text()) == Some(c),
{
    reveal_strlit("node.tx");
    reveal_strlit("phy.rx");
    reveal_strlit("node.rx");
    reveal_strlit("msg.latency");
    reveal_strlit("phy.prr");
    reveal_strlit("mac.cbr");
    reveal_strlit("net.frag");
    reveal_strlit("net.reassembly");
    reveal_strlit("net.bytes");
    reveal_strlit("proto.msg");
    reveal_strlit("node.verify");
    reveal_strlit("node.telemetry");
    reveal_strlit("sec.cert");
    reveal_strlit("proto.revocation");
    reveal_strlit("det.observation");
    reveal_strlit("ma.report");
    reveal_strlit("ma.decision");
    reveal_strlit("gt.kinematics");
    reveal_strlit("gt.attack.action");
    assert("node.tx"@.len() == 7);
    assert("phy.rx"@.len() == 6);
    assert("node.rx"@.len() == 7);
    assert("msg.latency"@.len() == 11);
    assert("phy.prr"@.len() == 7);
    assert("mac.cbr"@.len() == 7);
    assert("net.frag"@.len() == 8);
    assert("net.reassembly"@.len() == 14);
    assert("net.bytes"@.len() == 9);
    assert("proto.msg"@.len() == 9);
    assert("node.verify"@.len() == 11);
    assert("node.telemetry"@.len() == 14);
    assert("sec.cert"@.len() == 8);
    assert("proto.revocation"@.len() == 16);
    assert("det.observation"@.len() == 15);
    assert("ma.report"@.len() == 9);
    assert("ma.decision"@.len() == 11);
    assert("gt.kinematics"@.len() == 13);
    assert("gt.attack.action"@.len() == 16);
    assert("node.rx"@[5] != "node.tx"@[5]);
    assert("phy.prr"@[0] != "node.tx"@[0]);
    assert("phy.prr"@[0] != "node.rx"@[0]);
    assert("mac.cbr"@[0] != "node.tx"@[0]);
    assert("mac.cbr"@[0] != "node.rx"@[0]);
    assert("mac.cbr"@[0] != "phy.prr"@[0]);
    assert("proto.msg"@[0] != "net.bytes"@[0]);
    assert("node.verify"@[0] != "msg.latency"@[0]);
    assert("node.telemetry"@[1] != "net.reassembly"@[1]);
    assert("sec.cert"@[0] != "net.frag"@[0]);
    assert("ma.report"@[0] != "net.bytes"@[0]);
    assert("ma.report"@[0] != "proto.msg"@[0]);
    assert("ma.decision"@[1] != "msg.latency"@[1]);
    assert("ma.decision"@[0] != "node.verify"@[0]);
    assert("gt.attack.action"@[0] != "proto.revocation"@[0]);
}

/// How a reception attempt ended at the physical layer.
#[derive(Clone, Copy, Debug, PartialEq, Eq, Structural)]
pub enum RxOutcome {
    /// The frame was received.
    Received,
    /// The frame was lost.
    Lost,
}

/// What became of a reception attempt in the end.
#[derive(Clone, Copy, Debug, PartialEq, Eq, Structural)]
pub enum RxFate {
    /// The message reached the receiver's applications.
    Delivered,
    /// The message was lost.
    Lost,
    /// The run ended before the attempt was resolved.
    InFlight,
}

impl RxFate {
    /// The fate's name.
    pub open spec fn text(self) -> Seq<char> {
        match self {
            RxFate::Delivered => "Delivered"@,
            RxFate::Lost => "Lost"@,
            RxFate::InFlight => "InFlight"@,
        }
    }

    /// The fate's name.
    pub fn as_str(self) -> (r: &'static str)
        ensures
            r@ == self.text(),
    {
        match self {
            RxFate::Delivered => "Delivered",
            RxFate::Lost => "Lost",
            RxFate::InFlight => "InFlight",
        }
    }
}

/// The bucket that bytes are accounted to.
#[derive(Clone, Copy, Debug, PartialEq, Eq, Structural)]
pub enum ByteBucket {
    /// On the air.
    Air,
    /// Cellular, towards the network.
    CellularUl,
    /// Cellular, towards the vehicle.
    CellularDl,
    /// Between roadside and backend.
    Backhaul,
    /// Inside the backend.
    Backend,
}

impl ByteBucket {
    /// Every bucket, in order.
    pub open spec fn every() -> Seq<ByteBucket> {
        seq![
            ByteBucket::Air,
            ByteBucket::CellularUl,
            ByteBucket::CellularDl,
            ByteBucket::Backhaul,
            ByteBucket::Backend,
        ]
    }

    /// Every bucket, in order.
    pub fn all() -> (r: [ByteBucket; 5])
        ensures
            r@ == ByteBucket::every(),
    {
        let r = [
            ByteBucket::Air,
            ByteBucket::CellularUl,
            ByteBucket::CellularDl,
            ByteBucket::Backhaul,
            ByteBucket::Backend,
        ];
        assert(r@ =~= ByteBucket::every());
        r
    }

    /// The bucket's position among the buckets.
    pub open spec fn place(self) -> u64 {
        match self {
            ByteBucket::Air => 0,
            ByteBucket::CellularUl => 1,
            ByteBucket::CellularDl => 2,
            ByteBucket::Backhaul => 3,
            ByteBucket::Backend => 4,
        }
    }

    fn position(self) -> (r: u64)
        ensures
            r == self.place(),
    {
        match self {
            ByteBucket::Air => 0,
            ByteBucket::CellularUl => 1,
            ByteBucket::CellularDl => 2,
            ByteBucket::Backhaul => 3,
            ByteBucket::Backend => 4,
        }
    }

    /// The bucket's name.
    pub open spec fn text(self) -> Seq<char> {
        match self {
            ByteBucket::Air => "air"@,
            ByteBucket::CellularUl => "cellular-ul"@,
            ByteBucket::CellularDl => "cellular-dl"@,
            ByteBucket::Backhaul => "backhaul"@,
            ByteBucket::Backend => "backend"@,
        }
    }

    /// The bucket's name.
    pub fn as_str(self) -> (r: &'static str)
        ensures
            r@ == self.text(),
    {
        match self {
            ByteBucket::Air => "air",
            ByteBucket::CellularUl => "cellular-ul",
            ByteBucket::CellularDl => "cellular-dl",
            ByteBucket::Backhaul => "backhaul",
            ByteBucket::Backend => "backend",
        }
    }

    /// The name of the metric that reports the bucket's byte rate.
    pub open spec fn metric_text(self) -> Seq<char> {
        match self {
            ByteBucket::Air => "bytes_air"@,
            ByteBucket::CellularUl => "bytes_uu_ul"@,
            ByteBucket::CellularDl => "bytes_uu_dl"@,
            ByteBucket::Backhaul => "bytes_backhaul"@,
            ByteBucket::Backend => "bytes_backend"@,
        }
    }

    /// The name of the metric that reports the bucket's byte rate.
    pub fn metric_name(self) -> (r: &'static str)
        ensures
            r@ == self.metric_text(),
    {
        match self {
            ByteBucket::Air => "bytes_air",
            ByteBucket::CellularUl => "bytes_uu_ul",
            ByteBucket::CellularDl => "bytes_uu_dl",
            ByteBucket::Backhaul => "bytes_backhaul",
            ByteBucket::Backend => "bytes_backend",
        }
    }
}

impl Key for ByteBucket {
    type Rank = ByteBucket;

    open spec fn rank(&self) -> ByteBucket {
        *self
    }

    open spec fn before(a: ByteBucket, b: ByteBucket) -> bool {
        a.place() < b.place()
    }

    proof fn order_irreflexive(a: ByteBucket) {
    }

    proof fn order_transitive(a: ByteBucket, b: ByteBucket, c: ByteBucket) {
    }

    proof fn order_total(a: ByteBucket, b: ByteBucket) {
    }

    fn is_before(&self, other: &ByteBucket) -> (r: bool) {
        self.position() < other.position()
    }
}

/// What a message names its signer by.
#[derive(Clone, Copy, Debug, PartialEq, Eq, Structural)]
pub enum SignerId {
    /// The signer's certificate.
    Certificate,
    /// A digest of the certificate.
    Digest,
    /// The message is self-signed.
    SelfSigned,
}

/// How a verification ended.
#[derive(Clone, Copy, Debug, PartialEq, Eq, Structural)]
pub enum VerifyOutcome {
    /// The signature is valid.
    Valid,
    /// The signature is invalid.
    Invalid,
    /// The task was dropped before it ran.
    Dropped,
    /// The policy skipped the check.
    Skipped,
}

impl VerifyOutcome {
    /// The outcome's name.
    pub open spec fn text(self) -> Seq<char> {
        match self {
            VerifyOutcome::Valid => "Valid"@,
            VerifyOutcome::Invalid => "Invalid"@,
            VerifyOutcome::Dropped => "Dropped"@,
            VerifyOutcome::Skipped => "Skipped"@,
        }
    }

    /// The outcome's name.
    pub fn as_str(self) -> (r: &'static str)
        ensures
            r@ == self.text(),
    {
        match self {
            VerifyOutcome::Valid => "Valid",
            VerifyOutcome::Invalid => "Invalid",
            VerifyOutcome::Dropped => "Dropped",
            VerifyOutcome::Skipped => "Skipped",
        }
    }
}

/// How a reassembly ended.
#[derive(Clone, Copy, Debug, PartialEq, Eq, Structural)]
pub enum FragOutcome {
    /// Every fragment arrived.
    Complete,
    /// A fragment was lost.
    Failed,
    /// The reassembly timer ran out.
    Expired,
    /// The reassembly is still waiting.
    Pending,
}

/// A transmission.
#[derive(Debug)]
pub struct NodeTxView {
    /// When the frame went on the air.
    pub t: SimTime,
    /// The transmitting node.
    pub node: NodeId,
    /// The message.
    pub msg: Option<u64>,
    /// The type of the message.
    pub msg_type: Option<String>,
    /// Octets on the air.
    pub bytes_on_wire: u64,
    /// Octets of application payload.
    pub payload_bytes: Option<u64>,
    /// Octets of the security envelope.
    pub envelope_bytes: Option<u64>,
    /// Octets of the secured unit: payload, envelope and fragmentation.
    pub spdu_bytes: Option<u64>,
    /// Octets of network and transport headers.
    pub net_header_bytes: Option<u64>,
    /// Octets of the link layer.
    pub link_bytes: Option<u64>,
    /// Octets of attached certificates.
    pub cert_bytes: Option<u64>,
    /// Air time, in microseconds.
    pub airtime_us: Option<u64>,
    /// Modulation and coding scheme.
    pub mcs: Option<u8>,
    /// Transmit power, in hundredths of a dBm.
    pub power_cdbm: Option<i32>,
    /// Channel number.
    pub channel: Option<u16>,
    /// Access category.
    pub ac: Option<u8>,
    /// State of the congestion control.
    pub dcc_state: Option<String>,
    /// What the message names its signer by.
    pub signer: Option<SignerId>,
    /// When the message was generated.
    pub t_generated: Option<SimTime>,
    /// When its signature was complete and the frame reached the medium access layer.
    pub t_signed: Option<SimTime>,
}

impl NodeTxView {
    /// Whether the octets on the air are the sum of the layers, where every layer is known.
    pub open spec fn layers_add_up(self) -> Option<bool> {
        match (self.spdu_bytes, self.net_header_bytes, self.link_bytes) {
            (Some(s), Some(n), Some(l)) => Some(s + n + l == self.bytes_on_wire),
            _ => None,
        }
    }

    /// Whether the octets on the air are the sum of the layers, where every layer is known.
    pub fn layers_consistent(&self) -> (r: Option<bool>)
        ensures
            r == self.layers_add_up(),
    {
        match (self.spdu_bytes, self.net_header_bytes, self.link_bytes) {
            (Some(s), Some(n), Some(l)) => Some(
                (s as u128) + (n as u128) + (l as u128) == self.bytes_on_wire as u128,
            ),
            _ => None,
        }
    }
}

/// A reception attempt at the physical layer.
#[derive(Debug)]
pub struct PhyRxView {
    /// When the frame began to arrive.
    pub t_start: SimTime,
    /// When it had arrived.
    pub t_end: SimTime,
    /// The transmitting node.
    pub tx: Option<NodeId>,
    /// The receiving node.
    pub rx: NodeId,
    /// The message.
    pub msg: Option<u64>,
    /// Received power, in dBm.
    pub rssi_dbm: Option<Real>,
    /// Signal to interference and noise, in hundredths of a dB.
    pub sinr_cdb: Option<i32>,
    /// How the attempt ended.
    pub outcome: RxOutcome,
    /// Why the frame was lost.
    pub cause: Option<String>,
    /// Further reasons why it was lost.
    pub causes: Vec<String>,
    /// True distance between the two nodes, in millimetres.
    pub dist_mm: Option<i64>,
    /// True if the receiver was in candidate range.
    pub candidate: bool,
    /// Octets of application payload.
    pub payload_bytes: Option<u64>,
}

/// A reception is a candidate unless its record says otherwise.
pub fn yes() -> (r: bool)
    ensures
        r,
{
    true
}

impl PhyRxView {
    /// Every cause the record names.
    pub open spec fn every_cause(self) -> Seq<Seq<char>> {
        self.first_cause() + texts(self.causes@)
    }

    /// The leading cause, where there is one.
    pub open spec fn first_cause(self) -> Seq<Seq<char>> {
        match self.cause {
            Some(c) => seq![c@],
            None => Seq::empty(),
        }
    }

    /// Every cause the record names.
    pub fn all_causes(&self) -> (r: Vec<&str>)
        ensures
            str_texts(r@) == self.every_cause(),
    {
        let mut out: Vec<&str> = Vec::new();
        if let Some(c) = &self.cause {
            out.push(c.as_str());
        }
        let ghost first = self.first_cause();
        assert(str_texts(out@) =~= first);
        let mut i: usize = 0;
        while i < self.causes.len()
            invariant
                i <= self.causes@.len(),
                str_texts(out@) =~= first + texts(self.causes@.subrange(0, i as int)),
            decreases self.causes@.len() - i,
        {
            let ghost before = out@;
            out.push(self.causes[i].as_str());
            proof {
                let c = self.causes@[i as int]@;
                assert(str_texts(out@) =~= str_texts(before).push(c));
                assert(texts(self.causes@.subrange(0, i as int + 1)) =~= texts(
                    self.causes@.subrange(0, i as int),
                ).push(c));
            }
            i = i + 1;
        }
        assert(self.causes@.subrange(0, i as int) =~= self.causes@);
        out
    }
}

/// What became of a reception attempt, with every instant of the message's journey.
#[derive(Debug)]
pub struct NodeRxView {
    /// When the attempt was resolved.
    pub t: SimTime,
    /// The receiving node.
    pub rx: NodeId,
    /// The transmitting node.
    pub tx: Option<NodeId>,
    /// The message.
    pub msg: Option<u64>,
    /// The type of the message.
    pub msg_type: Option<String>,
    /// What became of the attempt.
    pub outcome: RxFate,
    /// Why the message was lost.
    pub cause: Option<String>,
    /// How the message was verified.
    pub verification: Option<String>,
    /// Received power, in dBm.
    pub rssi_dbm: Option<Real>,
    /// Signal to interference and noise, in hundredths of a dB.
    pub sinr_cdb: Option<i32>,
    /// True distance between the two nodes, in millimetres.
    pub dist_mm: Option<i64>,
    /// Octets on the air.
    pub bytes_on_wire: Option<u64>,
    /// Air time, in microseconds.
    pub airtime_us: Option<u64>,
    /// Octets of application payload.
    pub payload_bytes: Option<u64>,
    /// When the message was generated.
    pub t_generated: Option<SimTime>,
    /// When its signing began.
    pub t_sign_start: Option<SimTime>,
    /// When its signing ended.
    pub t_signed: Option<SimTime>,
    /// Time spent in the arbitration inter-frame space, in nanoseconds.
    pub mac_aifs_ns: Option<u64>,
    /// Time spent in backoff, in nanoseconds.
    pub mac_backoff_ns: Option<u64>,
    /// When the frame went on the air.
    pub t_tx_start: Option<SimTime>,
    /// When its transmission ended.
    pub t_tx_end: Option<SimTime>,
    /// When it had arrived.
    pub t_arrival: Option<SimTime>,
    /// When it had been parsed.
    pub t_rx_done: Option<SimTime>,
    /// When its verification began.
    pub t_verify_start: Option<SimTime>,
    /// When its verification ended.
    pub t_verify_done: Option<SimTime>,
    /// When it was delivered.
    pub t_delivered: Option<SimTime>,
}

/// One range of a reception census.
#[derive(Clone, Copy, Debug, PartialEq, Eq, Structural)]
pub struct CensusBin {
    /// The range's number.
    pub bin: u32,
    /// Receivers in that range.
    pub in_range: u32,
    /// Receivers in that range that decoded the frame.
    pub decoded: u32,
}

/// Who was in range of a frame, and who decoded it.
#[derive(Debug)]
pub struct PhyPrrView {
    /// The instant.
    pub t: SimTime,
    /// The transmitting node.
    pub tx: NodeId,
    /// The message.
    pub msg: u64,
    /// The ranges with a receiver in them.
    pub bins: Vec<CensusBin>,
}

/// How far a reception census reaches, in millimetres.
pub const PRR_MAX_MM: i64 = 1_000_000;

/// A report of the medium access layer.
#[derive(Debug)]
pub struct MacCbrView {
    /// The instant.
    pub t: SimTime,
    /// The reporting node.
    pub node: NodeId,
    /// Channel number.
    pub channel: Option<u16>,
    /// Channel busy ratio, in ten-thousandths.
    pub cbr_e4: i64,
    /// Busy time, in microseconds.
    pub busy_us: Option<u64>,
    /// Length of the measurement window, in microseconds.
    pub window_us: Option<u64>,
    /// Frames waiting in the access categories' queues.
    pub queue_depth: Option<u64>,
    /// Frames refused since the last report.
    pub mac_drops: Option<u64>,
    /// Octets handed to the medium access layer since the last report.
    pub offered_bytes: Option<u64>,
    /// Their air time, in microseconds.
    pub offered_airtime_us: Option<u64>,
}

/// A reassembly outcome.
#[derive(Debug)]
pub struct NetFragView {
    /// The instant.
    pub t: SimTime,
    /// The reassembling node.
    pub node: NodeId,
    /// The fragmented unit.
    pub sdu: u64,
    /// How many fragments it has.
    pub fragments: u32,
    /// How the reassembly ended.
    pub outcome: FragOutcome,
    /// The type of the message.
    pub msg_type: Option<String>,
}

/// A fragmented message followed to one receiver.
#[derive(Debug)]
pub struct NetReassemblyView {
    /// The instant.
    pub t: SimTime,
    /// The receiving node.
    pub rx: NodeId,
    /// The transmitting node.
    pub tx: NodeId,
    /// The fragmented unit.
    pub sdu: u64,
    /// The type of the message.
    pub msg_type: Option<String>,
    /// How many fragments it has.
    pub fragments: u32,
    /// How many of them the receiver decoded.
    pub received: u32,
    /// Octets of payload.
    pub bytes: u64,
    /// Octets of payload in the fragments that were decoded.
    pub bytes_received: u64,
    /// Predicted loss of the whole, in millionths.
    pub predicted_loss_e6: u32,
    /// Predicted loss of content, in millionths.
    pub predicted_content_loss_e6: u32,
}

/// Bytes attributed to a bucket.
#[derive(Debug)]
pub struct NetBytesView {
    /// The instant.
    pub t: SimTime,
    /// What the bytes are of.
    pub id: Option<u64>,
    /// The bucket.
    pub bucket: ByteBucket,
    /// The bytes.
    pub bytes_on_wire: u64,
    /// The node.
    pub node: Option<NodeId>,
}

/// A protocol message.
#[derive(Debug)]
pub struct ProtoMsgView {
    /// The instant.
    pub t: SimTime,
    /// The sending entity.
    pub from: Option<NodeId>,
    /// The receiving entity.
    pub to: Option<NodeId>,
    /// The flow.
    pub flow: Option<String>,
    /// The step within the flow.
    pub step: Option<String>,
    /// The bytes.
    pub bytes_on_wire: u64,
    /// The transport, which names the bucket.
    pub transport: Option<ByteBucket>,
    /// The message.
    pub msg: Option<u64>,
}

/// A verification.
#[derive(Debug)]
pub struct NodeVerifyView {
    /// When the task was queued.
    pub t_enqueue: SimTime,
    /// When it began.
    pub t_start: Option<SimTime>,
    /// When it ended.
    pub t_done: Option<SimTime>,
    /// The verifying node.
    pub node: NodeId,
    /// The cryptographic primitive.
    pub primitive: Option<String>,
    /// Its cost, in microseconds.
    pub cost_us: Option<u64>,
    /// How it ended.
    pub outcome: VerifyOutcome,
    /// The verification policy.
    pub policy: Option<String>,
    /// The message.
    pub msg: Option<u64>,
    /// Tasks waiting.
    pub queue_depth: Option<u64>,
}

/// A node's resource accounting.
#[derive(Debug)]
pub struct NodeTelemetryView {
    /// The instant.
    pub t: SimTime,
    /// The node.
    pub node: NodeId,
    /// Processor utilisation, in ten-thousandths.
    pub cpu_e4: Option<u32>,
    /// Security module utilisation, in ten-thousandths.
    pub hsm_e4: Option<u32>,
    /// Memory in use.
    pub ram_bytes: Option<u64>,
    /// Storage in use.
    pub storage_bytes: Option<u64>,
    /// Verification tasks waiting.
    pub verify_queue_depth: Option<u64>,
}

/// A certificate event.
#[derive(Debug)]
pub struct SecCertView {
    /// The instant.
    pub t: SimTime,
    /// The node.
    pub node: NodeId,
    /// What happened.
    pub event: String,
    /// The certificate's digest.
    pub digest: Option<String>,
    /// The certificate's size.
    pub bytes: Option<u64>,
}

/// A revocation stage.
#[derive(Debug)]
pub struct ProtoRevocationView {
    /// The instant.
    pub t: SimTime,
    /// The stage.
    pub stage: String,
    /// The revocation.
    pub id: String,
    /// Size of what was published.
    pub size_bytes: Option<u64>,
    /// Entries in what was published.
    pub entries: Option<u64>,
    /// The node.
    pub node: Option<NodeId>,
}

/// A detector's observation.
#[derive(Debug)]
pub struct DetObservationView {
    /// The instant.
    pub t: SimTime,
    /// The observing node.
    pub node: NodeId,
    /// The detector.
    pub detector: String,
    /// Whom it observed.
    pub subject: String,
    /// Its score, in ten-thousandths.
    pub score_e4: Option<i64>,
}

/// A misbehaviour report.
#[derive(Debug)]
pub struct MaReportView {
    /// The instant.
    pub t: SimTime,
    /// The reporting node.
    pub reporter: Option<NodeId>,
    /// Who is reported.
    pub subject: String,
    /// The detector behind the report.
    pub detector: Option<String>,
}

/// An authority's decision.
#[derive(Debug)]
pub struct MaDecisionView {
    /// The instant.
    pub t: SimTime,
    /// Whom it is about.
    pub subject: String,
    /// The decision.
    pub decision: String,
}

/// An actor's true motion.
#[derive(Debug)]
pub struct GtKinematicsView {
    /// The instant.
    pub t: SimTime,
    /// The actor.
    pub actor: ActorId,
    /// Easting, in millimetres.
    pub x_mm: i64,
    /// Northing, in millimetres.
    pub y_mm: i64,
    /// Height, in millimetres.
    pub z_mm: Option<i64>,
    /// Speed, in millimetres per second.
    pub speed_mmps: i32,
    /// Acceleration, in millimetres per second squared.
    pub acc_mmps2: Option<i32>,
    /// Heading, in thousandths of a radian.
    pub heading_mrad: Option<i32>,
    /// The lane.
    pub lane: Option<u32>,
    /// Position along the lane, in millimetres.
    pub lane_pos_mm: Option<i64>,
    /// The actor's class.
    pub class: Option<String>,
    /// The actor's node, where it has one.
    pub node: Option<NodeId>,
}

/// An attack action.
#[derive(Debug)]
pub struct GtAttackActionView {
    /// The instant.
    pub t: SimTime,
    /// The true actor.
    pub actor: ActorId,
    /// The attacker.
    pub attacker: String,
    /// What was done.
    pub action: String,
    /// The fields that were changed.
    pub fields: Vec<String>,
    /// True if bytes on the air were changed.
    pub changed_bytes_on_air: bool,
    /// The message.
    pub msg: Option<u64>,
}

/// True if `cause` is one of the physical layer's.
pub open spec fn cause_is_phy(cause: Seq<char>) -> bool {
    ||| cause == "collision"@
    ||| cause == "hidden-terminal"@
    ||| cause == "resource-collision"@
    ||| cause == "half-duplex"@
    ||| cause == "below-sensitivity"@
    ||| cause == "fading"@
}

/// True if `cause` is a loss cause that the library knows.
pub open spec fn cause_is_known(cause: Seq<char>) -> bool {
    ||| cause_is_phy(cause)
    ||| cause == "reassembly"@
    ||| cause == "verify-overflow"@
    ||| cause == "invalid-signature"@
    ||| cause == "revoked"@
}

/// True if `cause` is one of the physical layer's.
pub fn is_phy_cause(cause: &str) -> (r: bool)
    ensures
        r == cause_is_phy(cause@),
{
    same_text(cause, "collision") || same_text(cause, "hidden-terminal") || same_text(
        cause,
        "resource-collision",
    ) || same_text(cause, "half-duplex") || same_text(cause, "below-sensitivity") || same_text(
        cause,
        "fading",
    )
}

/// True if `cause` is a loss cause that the library knows.
pub fn is_known_cause(cause: &str) -> (r: bool)
    ensures
        r == cause_is_known(cause@),
{
    is_phy_cause(cause) || same_text(cause, "reassembly") || same_text(cause, "verify-overflow")
        || same_text(cause, "invalid-signature") || same_text(cause, "revoked")
}

/// The tags that records of a channel may carry, for every channel that has a rule.
pub open spec fn visibility_rule(channel: Seq<char>) -> Option<Seq<Visibility>> {
    if channel == "phy.rx"@ {
        Some(seq![Visibility::Node, Visibility::NodeAndGt])
    } else if channel == "app.warning"@ || channel == "det.observation"@ || channel == "ma.case"@
        || channel == "ma.decision"@ || channel == "ma.report"@ || channel == "mac.cbr"@ || channel
        == "net.bytes"@ || channel == "net.frag"@ || channel == "node.neighbor"@ || channel
        == "node.telemetry"@ || channel == "node.tx"@ || channel == "node.verify"@ || channel
        == "proto.msg"@ || channel == "sec.cert"@ {
        Some(seq![Visibility::Node])
    } else if channel == "gt.attack.action"@ || channel == "gt.despawn"@ || channel
        == "gt.kinematics"@ || channel == "gt.spawn"@ {
        Some(seq![Visibility::Gt])
    } else if channel == "manifest"@ {
        Some(seq![Visibility::Meta])
    } else if channel == "metric.sample"@ {
        Some(
            seq![
                Visibility::Derived,
                Visibility::Gt,
                Visibility::Node,
                Visibility::NodeAndGt,
                Visibility::Public,
                Visibility::Meta,
            ],
        )
    } else if channel == "proto.revocation"@ {
        Some(seq![Visibility::Public])
    } else if channel == "snapshot.delta"@ || channel == "snapshot.keyframe"@ {
        Some(seq![Visibility::Mixed])
    } else {
        None
    }
}

/// The tags that records of `channel` may carry, or nothing for a channel without a rule.
pub fn allowed_visibilities(channel: &str) -> (r: Option<Vec<Visibility>>)
    ensures
        match r {
            Some(v) => visibility_rule(channel@) == Some(v@),
            None => visibility_rule(channel@) is None,
        },
{
    if same_text(channel, "phy.rx") {
        let v = vec![Visibility::Node, Visibility::NodeAndGt];
        assert(v@ =~= seq![Visibility::Node, Visibility::NodeAndGt]);
        Some(v)
    } else if same_text(channel, "app.warning") || same_text(channel, "det.observation")
        || same_text(channel, "ma.case") || same_text(channel, "ma.decision") || same_text(
        channel,
        "ma.report",
    ) || same_text(channel, "mac.cbr") || same_text(channel, "net.bytes") || same_text(
        channel,
        "net.frag",
    ) || same_text(channel, "node.neighbor") || same_text(channel, "node.telemetry") || same_text(
        channel,
        "node.tx",
    ) || same_text(channel, "node.verify") || same_text(channel, "proto.msg") || same_text(
        channel,
        "sec.cert",
    ) {
        let v = vec![Visibility::Node];
        assert(v@ =~= seq![Visibility::Node]);
        Some(v)
    } else if same_text(channel, "gt.attack.action") || same_text(channel, "gt.despawn")
        || same_text(channel, "gt.kinematics") || same_text(channel, "gt.spawn") {
        let v = vec![Visibility::Gt];
        assert(v@ =~= seq![Visibility::Gt]);
        Some(v)
    } else if same_text(channel, "manifest") {
        let v = vec![Visibility::Meta];
        assert(v@ =~= seq![Visibility::Meta]);
        Some(v)
    } else if same_text(channel, "metric.sample") {
        let v = vec![
            Visibility::Derived,
            Visibility::Gt,
            Visibility::Node,
            Visibility::NodeAndGt,
            Visibility::Public,
            Visibility::Meta,
        ];
        assert(v@ =~= seq![
            Visibility::Derived,
            Visibility::Gt,
            Visibility::Node,
            Visibility::NodeAndGt,
            Visibility::Public,
            Visibility::Meta,
        ]);
        Some(v)
    } else if same_text(channel, "proto.revocation") {
        let v = vec![Visibility::Public];
        assert(v@ =~= seq![Visibility::Public]);
        Some(v)
    } else if same_text(channel, "snapshot.delta") || same_text(channel, "snapshot.keyframe") {
        let v = vec![Visibility::Mixed];
        assert(v@ =~= seq![Visibility::Mixed]);
        Some(v)
    } else {
        None
    }
}


/// What a record holds.
#[derive(Debug)]
pub enum Payload {
    /// A record of `node.tx`.
    NodeTx(NodeTxView),
    /// A record of `phy.rx`.
    PhyRx(PhyRxView),
    /// A record of `node.rx`.
    NodeRx(NodeRxView),
    /// A record of `msg.latency`.
    MsgLatency(LatencyTrace),
    /// A record of `phy.prr`.
    PhyPrr(PhyPrrView),
    /// A record of `mac.cbr`.
    MacCbr(MacCbrView),
    /// A record of `net.frag`.
    NetFrag(NetFragView),
    /// A record of `net.reassembly`.
    NetReassembly(NetReassemblyView),
    /// A record of `net.bytes`.
    NetBytes(NetBytesView),
    /// A record of `proto.msg`.
    ProtoMsg(ProtoMsgView),
    /// A record of `node.verify`.
    NodeVerify(NodeVerifyView),
    /// A record of `node.telemetry`.
    NodeTelemetry(NodeTelemetryView),
    /// A record of `sec.cert`.
    SecCert(SecCertView),
    /// A record of `proto.revocation`.
    ProtoRevocation(ProtoRevocationView),
    /// A record of `det.observation`.
    DetObservation(DetObservationView),
    /// A record of `ma.report`.
    MaReport(MaReportView),
    /// A record of `ma.decision`.
    MaDecision(MaDecisionView),
    /// A record of `gt.kinematics`.
    GtKinematics(GtKinematicsView),
    /// A record of `gt.attack.action`.
    GtAttackAction(GtAttackActionView),
    /// Nothing that could be read, and what the parser says of it.
    Unread(String),
}

/// One recorded event.
#[derive(Debug)]
pub struct EventRecord {
    /// The channel it was recorded on.
    pub channel: String,
    /// Who may see it.
    pub visibility: Visibility,
    /// Its encoded bytes.
    pub json: Vec<u8>,
    /// What the bytes hold.
    pub payload: Payload,
}

/// A type that the records of one channel are read as.
pub trait ChannelView: Sized {
    /// The channel.
    spec fn channel_of() -> Channel;

    /// The channel.
    fn channel() -> (c: Channel)
        ensures
            c == Self::channel_of(),
    ;

    /// What `p` holds, read as this type.
    spec fn within(p: Payload) -> Option<Self>;

    /// What `p` holds, read as this type.
    fn read(p: &Payload) -> (r: Option<&Self>)
        ensures
            r == match Self::within(*p) {
                Some(v) => Some(&v),
                None => None,
            },
    ;

    /// The name of the channel.
    fn channel_name() -> (r: &'static str)
        ensures
            r@ == Self::channel_of().text(),
    {
        Self::channel().as_str()
    }
}

impl ChannelView for NodeTxView {
    open spec fn channel_of() -> Channel {
        Channel::NodeTx
    }

    fn channel() -> (c: Channel) {
        Channel::NodeTx
    }

    open spec fn within(p: Payload) -> Option<NodeTxView> {
        match p {
            Payload::NodeTx(v) => Some(v),
            _ => None,
        }
    }

    fn read(p: &Payload) -> (r: Option<&NodeTxView>) {
        match p {
            Payload::NodeTx(v) => Some(v),
            _ => None,
        }
    }
}

impl ChannelView for PhyRxView {
    open spec fn channel_of() -> Channel {
        Channel::PhyRx
    }

    fn channel() -> (c: Channel) {
        Channel::PhyRx
    }

    open spec fn within(p: Payload) -> Option<PhyRxView> {
        match p {
            Payload::PhyRx(v) => Some(v),
            _ => None,
        }
    }

    fn read(p: &Payload) -> (r: Option<&PhyRxView>) {
        match p {
            Payload::PhyRx(v) => Some(v),
            _ => None,
        }
    }
}

impl ChannelView for NodeRxView {
    open spec fn channel_of() -> Channel {
        Channel::NodeRx
    }

    fn channel() -> (c: Channel) {
        Channel::NodeRx
    }

    open spec fn within(p: Payload) -> Option<NodeRxView> {
        match p {
            Payload::NodeRx(v) => Some(v),
            _ => None,
        }
    }

    fn read(p: &Payload) -> (r: Option<&NodeRxView>) {
        match p {
            Payload::NodeRx(v) => Some(v),
            _ => None,
        }
    }
}

impl ChannelView for LatencyTrace {
    open spec fn channel_of() -> Channel {
        Channel::MsgLatency
    }

    fn channel() -> (c: Channel) {
        Channel::MsgLatency
    }

    open spec fn within(p: Payload) -> Option<LatencyTrace> {
        match p {
            Payload::MsgLatency(v) => Some(v),
            _ => None,
        }
    }

    fn read(p: &Payload) -> (r: Option<&LatencyTrace>) {
        match p {
            Payload::MsgLatency(v) => Some(v),
            _ => None,
        }
    }
}

impl ChannelView for PhyPrrView {
    open spec fn channel_of() -> Channel {
        Channel::PhyPrr
    }

    fn channel() -> (c: Channel) {
        Channel::PhyPrr
    }

    open spec fn within(p: Payload) -> Option<PhyPrrView> {
        match p {
            Payload::PhyPrr(v) => Some(v),
            _ => None,
        }
    }

    fn read(p: &Payload) -> (r: Option<&PhyPrrView>) {
        match p {
            Payload::PhyPrr(v) => Some(v),
            _ => None,
        }
    }
}

impl ChannelView for MacCbrView {
    open spec fn channel_of() -> Channel {
        Channel::MacCbr
    }

    fn channel() -> (c: Channel) {
        Channel::MacCbr
    }

    open spec fn within(p: Payload) -> Option<MacCbrView> {
        match p {
            Payload::MacCbr(v) => Some(v),
            _ => None,
        }
    }

    fn read(p: &Payload) -> (r: Option<&MacCbrView>) {
        match p {
            Payload::MacCbr(v) => Some(v),
            _ => None,
        }
    }
}

impl ChannelView for NetFragView {
    open spec fn channel_of() -> Channel {
        Channel::NetFrag
    }

    fn channel() -> (c: Channel) {
        Channel::NetFrag
    }

    open spec fn within(p: Payload) -> Option<NetFragView> {
        match p {
            Payload::NetFrag(v) => Some(v),
            _ => None,
        }
    }

    fn read(p: &Payload) -> (r: Option<&NetFragView>) {
        match p {
            Payload::NetFrag(v) => Some(v),
            _ => None,
        }
    }
}

impl ChannelView for NetReassemblyView {
    open spec fn channel_of() -> Channel {
        Channel::NetReassembly
    }

    fn channel() -> (c: Channel) {
        Channel::NetReassembly
    }

    open spec fn within(p: Payload) -> Option<NetReassemblyView> {
        match p {
            Payload::NetReassembly(v) => Some(v),
            _ => None,
        }
    }

    fn read(p: &Payload) -> (r: Option<&NetReassemblyView>) {
        match p {
            Payload::NetReassembly(v) => Some(v),
            _ => None,
        }
    }
}

impl ChannelView for NetBytesView {
    open spec fn channel_of() -> Channel {
        Channel::NetBytes
    }

    fn channel() -> (c: Channel) {
        Channel::NetBytes
    }

    open spec fn within(p: Payload) -> Option<NetBytesView> {
        match p {
            Payload::NetBytes(v) => Some(v),
            _ => None,
        }
    }

    fn read(p: &Payload) -> (r: Option<&NetBytesView>) {
        match p {
            Payload::NetBytes(v) => Some(v),
            _ => None,
        }
    }
}

impl ChannelView for ProtoMsgView {
    open spec fn channel_of() -> Channel {
        Channel::ProtoMsg
    }

    fn channel() -> (c: Channel) {
        Channel::ProtoMsg
    }

    open spec fn within(p: Payload) -> Option<ProtoMsgView> {
        match p {
            Payload::ProtoMsg(v) => Some(v),
            _ => None,
        }
    }

    fn read(p: &Payload) -> (r: Option<&ProtoMsgView>) {
        match p {
            Payload::ProtoMsg(v) => Some(v),
            _ => None,
        }
    }
}

impl ChannelView for NodeVerifyView {
    open spec fn channel_of() -> Channel {
        Channel::NodeVerify
    }

    fn channel() -> (c: Channel) {
        Channel::NodeVerify
    }

    open spec fn within(p: Payload) -> Option<NodeVerifyView> {
        match p {
            Payload::NodeVerify(v) => Some(v),
            _ => None,
        }
    }

    fn read(p: &Payload) -> (r: Option<&NodeVerifyView>) {
        match p {
            Payload::NodeVerify(v) => Some(v),
            _ => None,
        }
    }
}

impl ChannelView for NodeTelemetryView {
    open spec fn channel_of() -> Channel {
        Channel::NodeTelemetry
    }

    fn channel() -> (c: Channel) {
        Channel::NodeTelemetry
    }

    open spec fn within(p: Payload) -> Option<NodeTelemetryView> {
        match p {
            Payload::NodeTelemetry(v) => Some(v),
            _ => None,
        }
    }

    fn read(p: &Payload) -> (r: Option<&NodeTelemetryView>) {
        match p {
            Payload::NodeTelemetry(v) => Some(v),
            _ => None,
        }
    }
}

impl ChannelView for SecCertView {
    open spec fn channel_of() -> Channel {
        Channel::SecCert
    }

    fn channel() -> (c: Channel) {
        Channel::SecCert
    }

    open spec fn within(p: Payload) -> Option<SecCertView> {
        match p {
            Payload::SecCert(v) => Some(v),
            _ => None,
        }
    }

    fn read(p: &Payload) -> (r: Option<&SecCertView>) {
        match p {
            Payload::SecCert(v) => Some(v),
            _ => None,
        }
    }
}

impl ChannelView for ProtoRevocationView {
    open spec fn channel_of() -> Channel {
        Channel::ProtoRevocation
    }

    fn channel() -> (c: Channel) {
        Channel::ProtoRevocation
    }

    open spec fn within(p: Payload) -> Option<ProtoRevocationView> {
        match p {
            Payload::ProtoRevocation(v) => Some(v),
            _ => None,
        }
    }

    fn read(p: &Payload) -> (r: Option<&ProtoRevocationView>) {
        match p {
            Payload::ProtoRevocation(v) => Some(v),
            _ => None,
        }
    }
}

impl ChannelView for DetObservationView {
    open spec fn channel_of() -> Channel {
        Channel::DetObservation
    }

    fn channel() -> (c: Channel) {
        Channel::DetObservation
    }

    open spec fn within(p: Payload) -> Option<DetObservationView> {
        match p {
            Payload::DetObservation(v) => Some(v),
            _ => None,
        }
    }

    fn read(p: &Payload) -> (r: Option<&DetObservationView>) {
        match p {
            Payload::DetObservation(v) => Some(v),
            _ => None,
        }
    }
}

impl ChannelView for MaReportView {
    open spec fn channel_of() -> Channel {
        Channel::MaReport
    }

    fn channel() -> (c: Channel) {
        Channel::MaReport
    }

    open spec fn within(p: Payload) -> Option<MaReportView> {
        match p {
            Payload::MaReport(v) => Some(v),
            _ => None,
        }
    }

    fn read(p: &Payload) -> (r: Option<&MaReportView>) {
        match p {
            Payload::MaReport(v) => Some(v),
            _ => None,
        }
    }
}

impl ChannelView for MaDecisionView {
    open spec fn channel_of() -> Channel {
        Channel::MaDecision
    }

    fn channel() -> (c: Channel) {
        Channel::MaDecision
    }

    open spec fn within(p: Payload) -> Option<MaDecisionView> {
        match p {
            Payload::MaDecision(v) => Some(v),
            _ => None,
        }
    }

    fn read(p: &Payload) -> (r: Option<&MaDecisionView>) {
        match p {
            Payload::MaDecision(v) => Some(v),
            _ => None,
        }
    }
}

impl ChannelView for GtKinematicsView {
    open spec fn channel_of() -> Channel {
        Channel::GtKinematics
    }

    fn channel() -> (c: Channel) {
        Channel::GtKinematics
    }

    open spec fn within(p: Payload) -> Option<GtKinematicsView> {
        match p {
            Payload::GtKinematics(v) => Some(v),
            _ => None,
        }
    }

    fn read(p: &Payload) -> (r: Option<&GtKinematicsView>) {
        match p {
            Payload::GtKinematics(v) => Some(v),
            _ => None,
        }
    }
}

impl ChannelView for GtAttackActionView {
    open spec fn channel_of() -> Channel {
        Channel::GtAttackAction
    }

    fn channel() -> (c: Channel) {
        Channel::GtAttackAction
    }

    open spec fn within(p: Payload) -> Option<GtAttackActionView> {
        match p {
            Payload::GtAttackAction(v) => Some(v),
            _ => None,
        }
    }

    fn read(p: &Payload) -> (r: Option<&GtAttackActionView>) {
        match p {
            Payload::GtAttackAction(v) => Some(v),
            _ => None,
        }
    }
}

impl Payload {
    /// Why a payload does not read as the view of its record's channel.
    pub open spec fn problem(self) -> Seq<char> {
        match self {
            Payload::Unread(problem) => problem@,
            _ => "the payload is of another channel"@,
        }
    }
}

/// Reads a record as a view of its channel.
///
/// Fails on a record of another channel, and on one whose bytes could not be read.
pub fn decode<V: ChannelView>(rec: &EventRecord) -> (r: Result<&V, MetricError>)
    ensures
        match r {
            Ok(v) => rec.channel@ == V::channel_of().text() && V::within(rec.payload) == Some(*v),
            Err(e) => if rec.channel@ != V::channel_of().text() {
                e@ == (ErrorView::ChannelMismatch {
                    expected: V::channel_of().text(),
                    got: rec.channel@,
                })
            } else {
                V::within(rec.payload) is None && e@ == (ErrorView::Decode {
                    channel: rec.channel@,
                    problem: rec.payload.problem(),
                })
            },
        },
{
    let expected = V::channel().as_str();
    if !same_text(rec.channel.as_str(), expected) {
        return Err(MetricError::ChannelMismatch { expected, got: rec.channel.clone() });
    }
    match V::read(&rec.payload) {
        Some(v) => Ok(v),
        None => {
            let problem = match &rec.payload {
                Payload::Unread(problem) => problem.clone(),
                _ => "the payload is of another channel".to_owned(),
            };
            Err(MetricError::Decode { channel: rec.channel.clone(), problem })
        },
    }
}

} // verus!
