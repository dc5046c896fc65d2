//! What the overhead metrics measure.

use vstd::prelude::*;
use crate::basic::SimTime;
use crate::channels::{channel_named, ByteBucket, Channel, EventRecord, GtKinematicsView, NodeTxView, Payload};
use crate::def::{Dim, DimText, SampleValue};
use crate::gains::{a_quotient_is_read, a_ratio_says_its_quotient, raised, reads, says_ratio};
use crate::keyed::in_order;
use crate::overhead::{sums_at, OverheadView, Sums};
use crate::quant::real_of_is_the_quotient;
use crate::stats::RatioEstimate;
use crate::tally::amount;

verus! {

/// True if `after` is `before` with one more frame: its octets on the air, its network header
/// and its link layer; and, where both its payload and its envelope are known, these, its
/// certificates and its octets among those whose split is known.
pub open spec fn one_frame_more(before: Sums, after: Sums, t: NodeTxView) -> bool {
    let known = t.payload_bytes is Some && t.envelope_bytes is Some;
    &&& after.air == before.air + t.bytes_on_wire
    &&& after.frames == before.frames + 1
    &&& after.net == before.net + (if t.net_header_bytes is Some {
        t.net_header_bytes->Some_0 as int
    } else {
        0
    })
    &&& after.link == before.link + (if t.link_bytes is Some {
        t.link_bytes->Some_0 as int
    } else {
        0
    })
    &&& known ==> {
        &&& after.air_split == before.air_split + t.bytes_on_wire
        &&& after.payload == before.payload + t.payload_bytes->Some_0
        &&& after.envelope == before.envelope + t.envelope_bytes->Some_0
        &&& after.cert == before.cert + (if t.cert_bytes is Some {
            t.cert_bytes->Some_0 as int
        } else {
            0
        })
        &&& after.frames_split == before.frames_split + 1
    }
    &&& !known ==> {
        &&& after.air_split == before.air_split
        &&& after.payload == before.payload
        &&& after.envelope == before.envelope
        &&& after.cert == before.cert
        &&& after.frames_split == before.frames_split
    }
}

/// A frame counts once over all message types and once for its own type, where it has one;
/// every other type is as it was. Its octets are counted on the air.
pub proof fn a_frame_counts_for_all_and_for_its_type(v: OverheadView, ev: EventRecord, t: NodeTxView)
    requires
        channel_named(ev.channel@) == Some(Channel::NodeTx),
        ev.payload == Payload::NodeTx(t),
        v.room_for(ev),
    ensures
        ({
            let w = v.after(ev);
            &&& one_frame_more(sums_at(v.sums, None), sums_at(w.sums, None), t)
            &&& t.msg_type matches Some(m) ==> one_frame_more(
                sums_at(v.sums, Some(m@)),
                sums_at(w.sums, Some(m@)),
                t,
            )
            &&& forall|k: Seq<char>|
                (t.msg_type is None || t.msg_type->Some_0@ != k) ==> #[trigger] sums_at(
                    w.sums,
                    Some(k),
                ) == sums_at(v.sums, Some(k))
            &&& raised(v.buckets, w.buckets, ByteBucket::Air, t.bytes_on_wire as int)
            &&& w.vehicle_ns == v.vehicle_ns && w.last_seen == v.last_seen
        }),
{
}

/// Attributed bytes are counted in their bucket and in no other; those of a protocol message
/// in the bucket of its transport, where it names one.
pub proof fn bytes_are_counted_in_their_bucket(v: OverheadView, ev: EventRecord)
    requires
        v.room_for(ev),
    ensures
        ev.payload matches Payload::NetBytes(b) ==> channel_named(ev.channel@) == Some(
            Channel::NetBytes,
        ) ==> raised(v.buckets, v.after(ev).buckets, b.bucket, b.bytes_on_wire as int)
            && v.after(ev).sums == v.sums && v.after(ev).vehicle_ns == v.vehicle_ns,
        ev.payload matches Payload::ProtoMsg(m) ==> channel_named(ev.channel@) == Some(
            Channel::ProtoMsg,
        ) ==> match m.transport {
            Some(b) => raised(v.buckets, v.after(ev).buckets, b, m.bytes_on_wire as int)
                && v.after(ev).sums == v.sums,
            None => v.after(ev) == v,
        },
{
}

/// A sample of an equipped vehicle adds the time since the one before it, where that is not
/// more than two seconds ago; a first sample, one after a longer gap and one that goes back
/// in time add none. Vehicles without a node do not count.
pub proof fn time_on_the_road_is_between_samples(v: OverheadView, ev: EventRecord, k: GtKinematicsView)
    requires
        channel_named(ev.channel@) == Some(Channel::GtKinematics),
        ev.payload == Payload::GtKinematics(k),
        v.room_for(ev),
    ensures
        ({
            let w = v.after(ev);
            let seen = v.last_seen.contains_key(k.actor);
            let since = k.t - v.last_seen[k.actor];
            &&& k.node is None ==> w == v
            &&& k.node is Some ==> {
                &&& w.vehicle_ns - v.vehicle_ns == if seen && 0 < since <= 2_000_000_000 {
                    since
                } else {
                    0
                }
                &&& w.last_seen.contains_key(k.actor) && w.last_seen[k.actor] == k.t
                &&& forall|a: u32| a != k.actor ==> #[trigger] w.last_seen.contains_key(a)
                    == v.last_seen.contains_key(a) && w.last_seen[a] == v.last_seen[a]
                &&& w.sums == v.sums && w.buckets == v.buckets
            }
        }),
{
}

/// What a message type reports: the envelope over the octets of the frames whose split is
/// known; the network header and the link layer over the octets of all frames; the
/// certificates over the envelope; and the octets over the payload.
pub proof fn a_type_reports_its_shares(key: Option<Seq<char>>, s: Sums, at: SimTime)
    ensures
        ({
            let r = OverheadView::samples_of_type(key, s, at);
            &&& r.len() == 5
            &&& forall|i: int|
                0 <= i < 5 ==> (#[trigger] r[i]).t == at && r[i].dims == match key {
                    Some(t) => seq![(Dim::MsgType, DimText::Label(t))],
                    None => Seq::empty(),
                }
            &&& r[0].metric == "security_overhead"@ && says_ratio(
                r[0].value,
                s.envelope,
                s.air_split,
                s.frames_split,
                10_000,
            )
            &&& r[1].metric == "net_header_overhead"@ && says_ratio(
                r[1].value,
                s.net,
                s.air,
                s.frames,
                10_000,
            )
            &&& r[2].metric == "link_overhead"@ && says_ratio(
                r[2].value,
                s.link,
                s.air,
                s.frames,
                10_000,
            )
            &&& r[3].metric == "cert_bytes_share"@ && says_ratio(
                r[3].value,
                s.cert,
                s.envelope,
                s.frames_split,
                10_000,
            )
            &&& r[4].metric == "air_bytes_per_payload_byte"@ && says_ratio(
                r[4].value,
                s.air_split,
                s.payload,
                s.frames_split,
                10_000,
            )
        }),
{
    a_ratio_says_its_quotient(s.envelope, s.air_split, s.frames_split, 10_000);
    a_ratio_says_its_quotient(s.net, s.air, s.frames, 10_000);
    a_ratio_says_its_quotient(s.link, s.air, s.frames, 10_000);
    a_ratio_says_its_quotient(s.cert, s.envelope, s.frames_split, 10_000);
    a_ratio_says_its_quotient(s.air_split, s.payload, s.frames_split, 10_000);
}

/// Every message type reports its five samples, one type after the other, and behind them
/// stand the five buckets.
pub proof fn every_type_is_reported(s: Seq<(Option<Seq<char>>, Sums)>, e: (Option<Seq<char>>, Sums), at: SimTime)
    ensures
        OverheadView::type_samples(s.push(e), at) == OverheadView::type_samples(s, at)
            + OverheadView::samples_of_type(e.0, e.1, at),
        OverheadView::type_samples(Seq::empty(), at).len() == 0,
{
    assert(s.push(e).drop_last() =~= s);
}

/// The octets of a bucket are reported per hour that vehicles were on the road, and refused
/// where none was.
pub proof fn buckets_are_reported_per_vehicle_hour(v: OverheadView, at: SimTime, i: int)
    requires
        0 <= i < 5,
    ensures
        ({
            let s = v.bucket_samples(at);
            let b = seq![
                ByteBucket::Air,
                ByteBucket::CellularUl,
                ByteBucket::CellularDl,
                ByteBucket::Backhaul,
                ByteBucket::Backend,
            ][i];
            &&& v.samples(at) == OverheadView::type_samples(in_order::<Option<String>, Sums>(v.sums), at)
                + s
            &&& s.len() == 5
            &&& s[i].metric == "bytes_per_vehicle_hour"@ && s[i].t == at
            &&& s[i].dims == seq![(Dim::Bucket, DimText::Label(b.text()))]
            &&& v.vehicle_ns == 0 ==> s[i].value.refused()
            &&& v.vehicle_ns > 0 ==> (s[i].value matches SampleValue::Ratio(
                RatioEstimate::RatioOfSums { point, .. },
            ) && reads(
                point,
                amount(v.buckets, b) * 3_600_000_000_000,
                v.vehicle_ns as int,
                1_000,
            ))
        }),
{
    let b = ByteBucket::every()[i];
    let n = amount(v.buckets, b);
    if v.vehicle_ns > 0 {
        real_of_is_the_quotient(v.vehicle_ns as int, 3_600_000_000_000);
        crate::gains::a_large_quotient_fits(n * 3_600_000_000_000, v.vehicle_ns as int, 1_000);
        a_quotient_is_read(n * 3_600_000_000_000, v.vehicle_ns as int, 1_000);
    }
}

} // verus!
