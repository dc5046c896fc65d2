//! Where the records of a run are kept.

use vstd::prelude::*;
use crate::channels::{channel_named, Channel, EventRecord, Payload};
use crate::gains::raised;
use crate::ledger::LedgerView;
use crate::tally::amount;

verus! {

/// How many records a ledger keeps.
pub open spec fn kept(l: LedgerView) -> nat {
    l.tx.len()
        + l.rx.len()
        + l.node_rx.len()
        + l.latency.len()
        + l.prr.len()
        + l.cbr.len()
        + l.frag.len()
        + l.reassembly.len()
        + l.bytes.len()
        + l.proto_msg.len()
        + l.verify.len()
        + l.telemetry.len()
        + l.cert.len()
        + l.revocation.len()
        + l.observations.len()
        + l.reports.len()
        + l.decisions.len()
        + l.kinematics.len()
        + l.attacks.len()
}

/// A record is kept behind the others of its own channel, where that is wanted and it reads as
/// one; every other channel is as it was.
pub proof fn a_record_is_kept_under_its_channel(l: LedgerView, rec: EventRecord)
    ensures
        ({
            let w = l.and(rec);
            let wanted = l.filter is None || l.filter->Some_0.contains(rec.channel@);
            &&& w.filter == l.filter
            &&& (wanted && channel_named(rec.channel@) == Some(Channel::NodeTx)) ==> match rec.payload {
                Payload::NodeTx(v) => w.tx == l.tx.push(v),
                _ => w.tx == l.tx,
            }
            &&& channel_named(rec.channel@) != Some(Channel::NodeTx) ==> w.tx == l.tx
            &&& (wanted && channel_named(rec.channel@) == Some(Channel::PhyRx)) ==> match rec.payload {
                Payload::PhyRx(v) => w.rx == l.rx.push(v),
                _ => w.rx == l.rx,
            }
            &&& channel_named(rec.channel@) != Some(Channel::PhyRx) ==> w.rx == l.rx
            &&& (wanted && channel_named(rec.channel@) == Some(Channel::NodeRx)) ==> match rec.payload {
                Payload::NodeRx(v) => w.node_rx == l.node_rx.push(v),
                _ => w.node_rx == l.node_rx,
            }
            &&& channel_named(rec.channel@) != Some(Channel::NodeRx) ==> w.node_rx == l.node_rx
            &&& (wanted && channel_named(rec.channel@) == Some(Channel::MsgLatency)) ==> match rec.payload {
                Payload::MsgLatency(v) => w.latency == l.latency.push(v),
                _ => w.latency == l.latency,
            }
            &&& channel_named(rec.channel@) != Some(Channel::MsgLatency) ==> w.latency == l.latency
            &&& (wanted && channel_named(rec.channel@) == Some(Channel::PhyPrr)) ==> match rec.payload {
                Payload::PhyPrr(v) => w.prr == l.prr.push(v),
                _ => w.prr == l.prr,
            }
            &&& channel_named(rec.channel@) != Some(Channel::PhyPrr) ==> w.prr == l.prr
            &&& (wanted && channel_named(rec.channel@) == Some(Channel::MacCbr)) ==> match rec.payload {
                Payload::MacCbr(v) => w.cbr == l.cbr.push(v),
                _ => w.cbr == l.cbr,
            }
            &&& channel_named(rec.channel@) != Some(Channel::MacCbr) ==> w.cbr == l.cbr
            &&& (wanted && channel_named(rec.channel@) == Some(Channel::NetFrag)) ==> match rec.payload {
                Payload::NetFrag(v) => w.frag == l.frag.push(v),
                _ => w.frag == l.frag,
            }
            &&& channel_named(rec.channel@) != Some(Channel::NetFrag) ==> w.frag == l.frag
            &&& (wanted && channel_named(rec.channel@) == Some(Channel::NetReassembly)) ==> match rec.payload {
                Payload::NetReassembly(v) => w.reassembly == l.reassembly.push(v),
                _ => w.reassembly == l.reassembly,
            }
            &&& channel_named(rec.channel@) != Some(Channel::NetReassembly) ==> w.reassembly == l.reassembly
            &&& (wanted && channel_named(rec.channel@) == Some(Channel::NetBytes)) ==> match rec.payload {
                Payload::NetBytes(v) => w.bytes == l.bytes.push(v),
                _ => w.bytes == l.bytes,
            }
            &&& channel_named(rec.channel@) != Some(Channel::NetBytes) ==> w.bytes == l.bytes
            &&& (wanted && channel_named(rec.channel@) == Some(Channel::ProtoMsg)) ==> match rec.payload {
                Payload::ProtoMsg(v) => w.proto_msg == l.proto_msg.push(v),
                _ => w.proto_msg == l.proto_msg,
            }
            &&& channel_named(rec.channel@) != Some(Channel::ProtoMsg) ==> w.proto_msg == l.proto_msg
            &&& (wanted && channel_named(rec.channel@) == Some(Channel::NodeVerify)) ==> match rec.payload {
                Payload::NodeVerify(v) => w.verify == l.verify.push(v),
                _ => w.verify == l.verify,
            }
            &&& channel_named(rec.channel@) != Some(Channel::NodeVerify) ==> w.verify == l.verify
            &&& (wanted && channel_named(rec.channel@) == Some(Channel::NodeTelemetry)) ==> match rec.payload {
                Payload::NodeTelemetry(v) => w.telemetry == l.telemetry.push(v),
                _ => w.telemetry == l.telemetry,
            }
            &&& channel_named(rec.channel@) != Some(Channel::NodeTelemetry) ==> w.telemetry == l.telemetry
            &&& (wanted && channel_named(rec.channel@) == Some(Channel::SecCert)) ==> match rec.payload {
                Payload::SecCert(v) => w.cert == l.cert.push(v),
                _ => w.cert == l.cert,
            }
            &&& channel_named(rec.channel@) != Some(Channel::SecCert) ==> w.cert == l.cert
            &&& (wanted && channel_named(rec.channel@) == Some(Channel::ProtoRevocation)) ==> match rec.payload {
                Payload::ProtoRevocation(v) => w.revocation == l.revocation.push(v),
                _ => w.revocation == l.revocation,
            }
            &&& channel_named(rec.channel@) != Some(Channel::ProtoRevocation) ==> w.revocation == l.revocation
            &&& (wanted && channel_named(rec.channel@) == Some(Channel::DetObservation)) ==> match rec.payload {
                Payload::DetObservation(v) => w.observations == l.observations.push(v),
                _ => w.observations == l.observations,
            }
            &&& channel_named(rec.channel@) != Some(Channel::DetObservation) ==> w.observations == l.observations
            &&& (wanted && channel_named(rec.channel@) == Some(Channel::MaReport)) ==> match rec.payload {
                Payload::MaReport(v) => w.reports == l.reports.push(v),
                _ => w.reports == l.reports,
            }
            &&& channel_named(rec.channel@) != Some(Channel::MaReport) ==> w.reports == l.reports
            &&& (wanted && channel_named(rec.channel@) == Some(Channel::MaDecision)) ==> match rec.payload {
                Payload::MaDecision(v) => w.decisions == l.decisions.push(v),
                _ => w.decisions == l.decisions,
            }
            &&& channel_named(rec.channel@) != Some(Channel::MaDecision) ==> w.decisions == l.decisions
            &&& (wanted && channel_named(rec.channel@) == Some(Channel::GtKinematics)) ==> match rec.payload {
                Payload::GtKinematics(v) => w.kinematics == l.kinematics.push(v),
                _ => w.kinematics == l.kinematics,
            }
            &&& channel_named(rec.channel@) != Some(Channel::GtKinematics) ==> w.kinematics == l.kinematics
            &&& (wanted && channel_named(rec.channel@) == Some(Channel::GtAttackAction)) ==> match rec.payload {
                Payload::GtAttackAction(v) => w.attacks == l.attacks.push(v),
                _ => w.attacks == l.attacks,
            }
            &&& channel_named(rec.channel@) != Some(Channel::GtAttackAction) ==> w.attacks == l.attacks
        }),
{
}

/// Every record is counted, by its channel and tag. A known channel that is not wanted counts
/// for nothing more; a record of one that is wanted is kept, or else it is a failure of its
/// channel; and a record of an unknown channel is counted as that.
pub proof fn every_record_has_one_place(l: LedgerView, rec: EventRecord)
    requires
        l.ingested < u64::MAX,
        amount(l.visibility_seen, (rec.channel@, rec.visibility)) < u64::MAX,
        amount(l.decode_failures, rec.channel@) < u64::MAX,
        amount(l.unknown_channels, rec.channel@) < u64::MAX,
    ensures
        ({
            let w = l.and(rec);
            let known = channel_named(rec.channel@) is Some;
            let wanted = l.filter is None || l.filter->Some_0.contains(rec.channel@);
            let more = kept(w) - kept(l);
            &&& w.ingested == l.ingested + 1
            &&& raised(l.visibility_seen, w.visibility_seen, (rec.channel@, rec.visibility), 1)
            &&& !known ==> more == 0 && raised(
                l.unknown_channels,
                w.unknown_channels,
                rec.channel@,
                1,
            ) && w.decode_failures == l.decode_failures
            &&& known ==> w.unknown_channels == l.unknown_channels
            &&& (known && !wanted) ==> more == 0 && w.decode_failures == l.decode_failures
            &&& (known && wanted) ==> (more == 1 && w.decode_failures == l.decode_failures) || (more
                == 0 && raised(l.decode_failures, w.decode_failures, rec.channel@, 1))
            &&& rec.payload is Unread ==> more == 0
        }),
{
}

} // verus!
