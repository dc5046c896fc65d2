//! Communication overhead: how much of what goes on the air is not the application's.

use vstd::prelude::*;
use crate::basic::SimTime;
use crate::card::{group_views, views, ModelCard};
use crate::catalog::overhead as catalog;
use crate::channels::{channel_named, find_channel, ByteBucket, Channel, EventRecord, GtKinematicsView, NodeTxView, Payload};
use crate::comms::plus;
use crate::def::{copy_dims, no_dims, one_dim, sample_of, Dim, DimList, DimText, DimValue, Dims, MetricDef, MetricSample, SampleValue, SampleView};
use crate::keyed::{in_order, listed, optional_text, ranked_at, retained, SortedMap};
use crate::quant::{real_of, real_of_is_the_quotient, Real};
use crate::stats::{ratio_of_sums, ratio_of_whole_sums, sums_ratio, whole_sums_ratio, Estimate, RatioEstimate};
use crate::tally::{amount, Amounts};

verus! {

/// The longest gap between two samples of a vehicle that counts as time on the road, in
/// nanoseconds.
pub const KINEMATICS_GAP_NS: u64 = 2_000_000_000;

/// The nanoseconds of one hour.
pub const NS_PER_HOUR: u128 = 3_600_000_000_000;

/// Octets over the frames of one message type.
#[derive(Clone, Copy, Debug)]
pub struct Sums {
    /// On the air.
    pub air: u64,
    /// On the air, of the frames whose split is known.
    pub air_split: u64,
    /// Of application payload.
    pub payload: u64,
    /// Of security envelope.
    pub envelope: u64,
    /// Of network and transport header.
    pub net: u64,
    /// Of link layer.
    pub link: u64,
    /// Of attached certificates.
    pub cert: u64,
    /// Frames.
    pub frames: u64,
    /// Frames whose split is known.
    pub frames_split: u64,
}

impl View for Sums {
    type V = Sums;

    open spec fn view(&self) -> Sums {
        *self
    }
}

/// A count, or nothing.
pub open spec fn or_none(n: Option<u64>) -> u64 {
    match n {
        Some(x) => x,
        None => 0,
    }
}

fn or_zero(n: Option<u64>) -> (r: u64)
    ensures
        r == or_none(n),
{
    match n {
        Some(x) => x,
        None => 0,
    }
}

/// Nothing summed.
pub open spec fn no_sums() -> Sums {
    Sums {
        air: 0,
        air_split: 0,
        payload: 0,
        envelope: 0,
        net: 0,
        link: 0,
        cert: 0,
        frames: 0,
        frames_split: 0,
    }
}

impl Sums {
    /// With one more frame. The payload, the envelope and the certificates count where the
    /// split of the frame is known.
    pub open spec fn and(self, v: NodeTxView) -> Sums {
        let all = Sums {
            air: (self.air + v.bytes_on_wire) as u64,
            frames: (self.frames + 1) as u64,
            net: (self.net + or_none(v.net_header_bytes)) as u64,
            link: (self.link + or_none(v.link_bytes)) as u64,
            ..self
        };
        match (v.payload_bytes, v.envelope_bytes) {
            (Some(p), Some(e)) => Sums {
                air_split: (self.air_split + v.bytes_on_wire) as u64,
                payload: (self.payload + p) as u64,
                envelope: (self.envelope + e) as u64,
                cert: (self.cert + or_none(v.cert_bytes)) as u64,
                frames_split: (self.frames_split + 1) as u64,
                ..all
            },
            _ => all,
        }
    }

    /// True if there is room for one more frame.
    pub open spec fn room_for(self, v: NodeTxView) -> bool {
        &&& self.air + v.bytes_on_wire <= u64::MAX
        &&& self.frames < u64::MAX
        &&& self.net + or_none(v.net_header_bytes) <= u64::MAX
        &&& self.link + or_none(v.link_bytes) <= u64::MAX
        &&& match (v.payload_bytes, v.envelope_bytes) {
            (Some(p), Some(e)) => {
                &&& self.air_split + v.bytes_on_wire <= u64::MAX
                &&& self.payload + p <= u64::MAX
                &&& self.envelope + e <= u64::MAX
                &&& self.cert + or_none(v.cert_bytes) <= u64::MAX
                &&& self.frames_split < u64::MAX
            },
            _ => true,
        }
    }

    fn with_frame(self, v: &NodeTxView) -> (r: Sums)
        requires
            self.room_for(*v),
        ensures
            r == self.and(*v),
    {
        let mut s = self;
        s.air = s.air + v.bytes_on_wire;
        s.frames = s.frames + 1;
        s.net = s.net + or_zero(v.net_header_bytes);
        s.link = s.link + or_zero(v.link_bytes);
        if let Some(p) = v.payload_bytes {
            if let Some(e) = v.envelope_bytes {
                s.air_split = s.air_split + v.bytes_on_wire;
                s.payload = s.payload + p;
                s.envelope = s.envelope + e;
                s.cert = s.cert + or_zero(v.cert_bytes);
                s.frames_split = s.frames_split + 1;
            }
        }
        s
    }
}

/// The sums of a message type, nothing where there are none.
pub open spec fn sums_at(m: Map<Option<Seq<char>>, Sums>, key: Option<Seq<char>>) -> Sums {
    if m.contains_key(key) {
        m[key]
    } else {
        no_sums()
    }
}

/// The overhead metrics of a run.
pub struct OverheadProvider {
    window_start: SimTime,
    sums: SortedMap<Option<String>, Sums>,
    buckets: Amounts<ByteBucket>,
    vehicle_ns: u64,
    last_seen: SortedMap<u32, u64>,
    rejected: u64,
}

/// What the overhead metrics have accumulated. The sums over all message types stand under
/// no type.
#[verifier::ext_equal]
pub ghost struct OverheadView {
    pub window_start: SimTime,
    pub sums: Map<Option<Seq<char>>, Sums>,
    pub buckets: Map<ByteBucket, u64>,
    pub vehicle_ns: u64,
    pub last_seen: Map<u32, u64>,
    pub rejected: u64,
}

impl View for OverheadProvider {
    type V = OverheadView;

    closed spec fn view(&self) -> OverheadView {
        OverheadView {
            window_start: self.window_start,
            sums: self.sums@,
            buckets: self.buckets@,
            vehicle_ns: self.vehicle_ns,
            last_seen: self.last_seen@,
            rejected: self.rejected,
        }
    }
}

/// A provider that has seen nothing yet.
pub open spec fn fresh(t0: SimTime) -> OverheadView {
    OverheadView {
        window_start: t0,
        sums: Map::empty(),
        buckets: Map::empty(),
        vehicle_ns: 0,
        last_seen: Map::empty(),
        rejected: 0,
    }
}

/// The dimensions of a message type.
pub open spec fn type_dims(msg_type: Option<Seq<char>>) -> DimList {
    match msg_type {
        Some(t) => seq![(Dim::MsgType, DimText::Label(t))],
        None => Seq::empty(),
    }
}

pub(crate) fn find_type_dims(msg_type: &Option<String>) -> (r: Dims)
    ensures
        r.listing() == type_dims(optional_text(*msg_type)),
{
    match msg_type {
        Some(t) => one_dim(Dim::MsgType, DimValue::label(t.as_str())),
        None => no_dims(),
    }
}

/// Octets per vehicle and hour.
pub open spec fn per_vehicle_hour(bytes: u64, vehicle_ns: u64) -> SampleValue {
    if vehicle_ns > 0 {
        SampleValue::Ratio(
            sums_ratio(
                real_of(bytes as int, 1),
                real_of(vehicle_ns as int, NS_PER_HOUR as int),
                real_of(bytes * NS_PER_HOUR, vehicle_ns as int),
                1,
                1,
            ),
        )
    } else {
        SampleValue::Scalar(Estimate::Insufficient { n: 0, required: 1 })
    }
}

fn find_per_vehicle_hour(bytes: u64, vehicle_ns: u64) -> (r: SampleValue)
    ensures
        r == per_vehicle_hour(bytes, vehicle_ns),
{
    if vehicle_ns > 0 {
        let (b, t) = (bytes as i128, vehicle_ns as i128);
        assert((b * 3_600_000_000_000) * (1 * t) == t * (b * 3_600_000_000_000)) by (nonlinear_arith);
        SampleValue::Ratio(
            ratio_of_sums(
                Real::new(b, 1),
                Real::new(t, NS_PER_HOUR),
                Real::new(b * 3_600_000_000_000, vehicle_ns as u128),
                1,
                1,
            ),
        )
    } else {
        SampleValue::Scalar(Estimate::Insufficient { n: 0, required: 1 })
    }
}

impl OverheadView {
    /// After a transmission: it counts for its own message type and for all of them.
    pub open spec fn after_tx(self, v: NodeTxView) -> OverheadView {
        let all = self.sums.insert(None, sums_at(self.sums, None).and(v));
        OverheadView {
            buckets: plus(self.buckets, ByteBucket::Air, v.bytes_on_wire),
            sums: match v.msg_type {
                Some(t) => all.insert(Some(t@), sums_at(self.sums, Some(t@)).and(v)),
                None => all,
            },
            ..self
        }
    }

    /// After bytes in one bucket.
    pub open spec fn after_bytes(self, b: ByteBucket, n: u64) -> OverheadView {
        OverheadView { buckets: plus(self.buckets, b, n), ..self }
    }

    /// The time on the road that a sample of a vehicle adds.
    pub open spec fn travelled(self, v: GtKinematicsView) -> int {
        if self.last_seen.contains_key(v.actor) && v.t > self.last_seen[v.actor] && v.t
            - self.last_seen[v.actor] <= KINEMATICS_GAP_NS {
            v.t - self.last_seen[v.actor]
        } else {
            0
        }
    }

    /// After a sample of an actor's motion. Only equipped vehicles count.
    pub open spec fn after_motion(self, v: GtKinematicsView) -> OverheadView {
        if v.node is None {
            self
        } else {
            OverheadView {
                last_seen: self.last_seen.insert(v.actor, v.t),
                vehicle_ns: (self.vehicle_ns + self.travelled(v)) as u64,
                ..self
            }
        }
    }

    /// After one record.
    pub open spec fn after(self, ev: EventRecord) -> OverheadView {
        let refused = OverheadView { rejected: (self.rejected + 1) as u64, ..self };
        match (channel_named(ev.channel@), ev.payload) {
            (Some(Channel::NodeTx), Payload::NodeTx(v)) => self.after_tx(v),
            (Some(Channel::NetBytes), Payload::NetBytes(v)) => self.after_bytes(
                v.bucket,
                v.bytes_on_wire,
            ),
            (Some(Channel::ProtoMsg), Payload::ProtoMsg(v)) => match v.transport {
                Some(b) => self.after_bytes(b, v.bytes_on_wire),
                None => self,
            },
            (Some(Channel::GtKinematics), Payload::GtKinematics(v)) => self.after_motion(v),
            (Some(Channel::NodeTx), _) => refused,
            (Some(Channel::NetBytes), _) => refused,
            (Some(Channel::ProtoMsg), _) => refused,
            (Some(Channel::GtKinematics), _) => refused,
            _ => self,
        }
    }

    /// True if there is room for more bytes in a bucket.
    pub open spec fn room_for_bytes(self, b: ByteBucket, n: u64) -> bool {
        amount(self.buckets, b) + n <= u64::MAX
    }

    /// True if no counter overflows on a transmission.
    pub open spec fn room_for_tx(self, v: NodeTxView) -> bool {
        &&& self.room_for_bytes(ByteBucket::Air, v.bytes_on_wire)
        &&& sums_at(self.sums, None).room_for(v)
        &&& match v.msg_type {
            Some(t) => sums_at(self.sums, Some(t@)).room_for(v),
            None => true,
        }
    }

    /// True if no counter overflows on `ev`.
    pub open spec fn room_for(self, ev: EventRecord) -> bool {
        match (channel_named(ev.channel@), ev.payload) {
            (Some(Channel::NodeTx), Payload::NodeTx(v)) => self.room_for_tx(v),
            (Some(Channel::NetBytes), Payload::NetBytes(v)) => self.room_for_bytes(
                v.bucket,
                v.bytes_on_wire,
            ),
            (Some(Channel::ProtoMsg), Payload::ProtoMsg(v)) => match v.transport {
                Some(b) => self.room_for_bytes(b, v.bytes_on_wire),
                None => true,
            },
            (Some(Channel::GtKinematics), Payload::GtKinematics(v)) => self.vehicle_ns
                + self.travelled(v) <= u64::MAX,
            _ => self.rejected < u64::MAX,
        }
    }

    /// The samples of one message type.
    pub open spec fn samples_of_type(key: Option<Seq<char>>, s: Sums, at: SimTime) -> Seq<
        SampleView,
    > {
        let dims = type_dims(key);
        seq![
            sample_of(
                catalog::security_overhead_def(),
                at,
                dims,
                SampleValue::Ratio(whole_sums_ratio(s.envelope, s.air_split, s.frames_split, 1)),
            ),
            sample_of(
                catalog::net_header_overhead_def(),
                at,
                dims,
                SampleValue::Ratio(whole_sums_ratio(s.net, s.air, s.frames, 1)),
            ),
            sample_of(
                catalog::link_overhead_def(),
                at,
                dims,
                SampleValue::Ratio(whole_sums_ratio(s.link, s.air, s.frames, 1)),
            ),
            sample_of(
                catalog::cert_bytes_share_def(),
                at,
                dims,
                SampleValue::Ratio(whole_sums_ratio(s.cert, s.envelope, s.frames_split, 1)),
            ),
            sample_of(
                catalog::air_bytes_per_payload_byte_def(),
                at,
                dims,
                SampleValue::Ratio(whole_sums_ratio(s.air_split, s.payload, s.frames_split, 1)),
            ),
        ]
    }

    /// The samples of some message types.
    pub open spec fn type_samples(s: Seq<(Option<Seq<char>>, Sums)>, at: SimTime) -> Seq<SampleView>
        decreases s.len(),
    {
        if s.len() == 0 {
            Seq::empty()
        } else {
            Self::type_samples(s.drop_last(), at) + Self::samples_of_type(
                s.last().0,
                s.last().1,
                at,
            )
        }
    }

    /// The samples of the buckets.
    pub open spec fn bucket_samples(self, at: SimTime) -> Seq<SampleView> {
        Seq::new(
            5,
            |i: int|
                sample_of(
                    catalog::bytes_per_vehicle_hour_def(),
                    at,
                    seq![(Dim::Bucket, DimText::Label(ByteBucket::every()[i].text()))],
                    per_vehicle_hour(
                        amount(self.buckets, ByteBucket::every()[i]),
                        self.vehicle_ns,
                    ),
                ),
        )
    }

    /// All samples of the window that ends at `at`.
    pub open spec fn samples(self, at: SimTime) -> Seq<SampleView> {
        Self::type_samples(in_order::<Option<String>, Sums>(self.sums), at) + self.bucket_samples(
            at,
        )
    }

    /// The vehicles whose trip is not over.
    pub open spec fn recently_seen(self, at: SimTime) -> Map<u32, u64> {
        Map::new(
            |a: u32| self.last_seen.contains_key(a) && at <= self.last_seen[a] + KINEMATICS_GAP_NS,
            |a: u32| self.last_seen[a],
        )
    }

    /// The state after the window that ends at `at` was flushed.
    pub open spec fn flushed(self, at: SimTime) -> OverheadView {
        OverheadView {
            last_seen: self.recently_seen(at),
            rejected: self.rejected,
            ..fresh(at)
        }
    }
}

impl OverheadProvider {
    /// A provider whose first window starts at `t0`.
    pub fn new(t0: SimTime) -> (r: OverheadProvider)
        ensures
            r@ == fresh(t0),
    {
        OverheadProvider {
            window_start: t0,
            sums: SortedMap::new(),
            buckets: Amounts::new(),
            vehicle_ns: 0,
            last_seen: SortedMap::new(),
            rejected: 0,
        }
    }

    fn sums_of(&self, key: &Option<String>) -> (r: Sums)
        ensures
            r == sums_at(self@.sums, optional_text(*key)),
    {
        match self.sums.get(key) {
            Some(s) => *s,
            None => Sums {
                air: 0,
                air_split: 0,
                payload: 0,
                envelope: 0,
                net: 0,
                link: 0,
                cert: 0,
                frames: 0,
                frames_split: 0,
            },
        }
    }

    fn on_tx(&mut self, v: &NodeTxView)
        requires
            old(self)@.room_for_tx(*v),
        ensures
            final(self)@ == old(self)@.after_tx(*v),
    {
        let ghost before = self@;
        self.add_bytes(ByteBucket::Air, v.bytes_on_wire);
        let all = self.sums_of(&None).with_frame(v);
        if let Some(t) = &v.msg_type {
            let key = Some(t.clone());
            let own = self.sums_of(&key).with_frame(v);
            let _ = self.sums.insert(None, all);
            let _ = self.sums.insert(key, own);
        } else {
            let _ = self.sums.insert(None, all);
        }
        assert(self@ =~= before.after_tx(*v));
    }

    fn add_bytes(&mut self, b: ByteBucket, n: u64)
        requires
            old(self)@.room_for_bytes(b, n),
        ensures
            final(self)@ == old(self)@.after_bytes(b, n),
    {
        self.buckets.increase(b, n);
    }

    fn on_kinematics(&mut self, v: &GtKinematicsView)
        requires
            old(self)@.vehicle_ns + old(self)@.travelled(*v) <= u64::MAX,
        ensures
            final(self)@ == old(self)@.after_motion(*v),
    {
        if v.node.is_none() {
            return ;
        }
        if let Some(prev) = self.last_seen.insert(v.actor, v.t) {
            if v.t > prev && v.t - prev <= KINEMATICS_GAP_NS {
                self.vehicle_ns = self.vehicle_ns + (v.t - prev);
            }
        }
    }

    fn refuse(&mut self)
        requires
            old(self)@.rejected < u64::MAX,
        ensures
            final(self)@ == (OverheadView {
                rejected: (old(self)@.rejected + 1) as u64,
                ..old(self)@
            }),
    {
        self.rejected = self.rejected + 1;
    }

    /// Consumes one record.
    pub fn on_event(&mut self, ev: &EventRecord)
        requires
            old(self)@.room_for(*ev),
        ensures
            final(self)@ == old(self)@.after(*ev),
    {
        match (find_channel(ev.channel.as_str()), &ev.payload) {
            (Some(Channel::NodeTx), Payload::NodeTx(v)) => self.on_tx(v),
            (Some(Channel::NetBytes), Payload::NetBytes(v)) => self.add_bytes(
                v.bucket,
                v.bytes_on_wire,
            ),
            (Some(Channel::ProtoMsg), Payload::ProtoMsg(v)) => {
                if let Some(b) = v.transport {
                    self.add_bytes(b, v.bytes_on_wire);
                }
            },
            (Some(Channel::GtKinematics), Payload::GtKinematics(v)) => self.on_kinematics(v),
            (Some(Channel::NodeTx), _) => self.refuse(),
            (Some(Channel::NetBytes), _) => self.refuse(),
            (Some(Channel::ProtoMsg), _) => self.refuse(),
            (Some(Channel::GtKinematics), _) => self.refuse(),
            _ => {},
        }
    }

    fn emit_type(msg_type: &Option<String>, s: Sums, at: SimTime, out: &mut Vec<MetricSample>)
        ensures
            views(final(out)@) == views(old(out)@) + OverheadView::samples_of_type(
                optional_text(*msg_type),
                s,
                at,
            ),
    {
        broadcast use group_views;

        let ghost start = views(out@);
        let dims = find_type_dims(msg_type);
        out.push(
            MetricSample::new(
                &catalog::security_overhead(),
                at,
                copy_dims(&dims),
                SampleValue::Ratio(ratio_of_whole_sums(s.envelope, s.air_split, s.frames_split, 1)),
            ),
        );
        out.push(
            MetricSample::new(
                &catalog::net_header_overhead(),
                at,
                copy_dims(&dims),
                SampleValue::Ratio(ratio_of_whole_sums(s.net, s.air, s.frames, 1)),
            ),
        );
        out.push(
            MetricSample::new(
                &catalog::link_overhead(),
                at,
                copy_dims(&dims),
                SampleValue::Ratio(ratio_of_whole_sums(s.link, s.air, s.frames, 1)),
            ),
        );
        out.push(
            MetricSample::new(
                &catalog::cert_bytes_share(),
                at,
                copy_dims(&dims),
                SampleValue::Ratio(ratio_of_whole_sums(s.cert, s.envelope, s.frames_split, 1)),
            ),
        );
        out.push(
            MetricSample::new(
                &catalog::air_bytes_per_payload_byte(),
                at,
                dims,
                SampleValue::Ratio(ratio_of_whole_sums(s.air_split, s.payload, s.frames_split, 1)),
            ),
        );
        assert(views(out@) =~= start + OverheadView::samples_of_type(
            optional_text(*msg_type),
            s,
            at,
        ));
    }

    fn emit_types(&self, at: SimTime, out: &mut Vec<MetricSample>)
        ensures
            views(final(out)@) == views(old(out)@) + OverheadView::type_samples(
                in_order::<Option<String>, Sums>(self@.sums),
                at,
            ),
    {
        let ghost start = views(out@);
        let n: usize = self.sums.len();
        let ghost s = self.sums.listing();
        let mut i: usize = 0;
        assert(s.subrange(0, 0) =~= Seq::<(Option<Seq<char>>, Sums)>::empty());
        assert(start + OverheadView::type_samples(s.subrange(0, 0), at) =~= start);
        while i < n
            invariant
                s == self.sums.listing(),
                n == s.len(),
                i <= n,
                views(out@) == start + OverheadView::type_samples(s.subrange(0, i as int), at),
            decreases n - i,
        {
            let ghost before = OverheadView::type_samples(s.subrange(0, i as int), at);
            proof {
                let next = s.subrange(0, i as int + 1);
                assert(next.drop_last() =~= s.subrange(0, i as int));
                assert(next.last() == s[i as int]);
            }
            let sums: Sums = *self.sums.value_at(i);
            Self::emit_type(self.sums.key_at(i), sums, at, out);
            assert(views(out@) =~= start + (before + OverheadView::samples_of_type(
                s[i as int].0,
                sums,
                at,
            )));
            i = i + 1;
        }
        assert(s.subrange(0, n as int) =~= s);
    }

    fn emit_buckets(&self, at: SimTime, out: &mut Vec<MetricSample>)
        ensures
            views(final(out)@) == views(old(out)@) + self@.bucket_samples(at),
    {
        let ghost start = views(out@);
        let ghost all = self@.bucket_samples(at);
        let every = ByteBucket::all();
        let def = catalog::bytes_per_vehicle_hour();
        let mut i: usize = 0;
        assert(start + all.subrange(0, 0) =~= start);
        while i < 5
            invariant
                all == self@.bucket_samples(at),
                all.len() == 5,
                every@ == ByteBucket::every(),
                def@ == catalog::bytes_per_vehicle_hour_def(),
                i <= 5,
                views(out@) == start + all.subrange(0, i as int),
            decreases 5 - i,
        {
            broadcast use group_views;

            let b = every[i];
            assert(b == ByteBucket::every()[i as int]);
            let s = MetricSample::new(
                &def,
                at,
                one_dim(Dim::Bucket, DimValue::label(b.as_str())),
                find_per_vehicle_hour(self.buckets.get(&b), self.vehicle_ns),
            );
            assert(s@ == all[i as int]);
            out.push(s);
            assert(views(out@) =~= start + all.subrange(0, i as int + 1));
            i = i + 1;
        }
        assert(all.subrange(0, 5) =~= all);
    }

    fn prune_seen(&mut self, at: SimTime)
        ensures
            final(self)@ == (OverheadView {
                last_seen: old(self)@.recently_seen(at),
                ..old(self)@
            }),
    {
        let ghost v = self@;
        let n: usize = self.last_seen.len();
        let ghost s = self.last_seen.listing();
        let mut keep: Vec<bool> = Vec::new();
        let mut i: usize = 0;
        while i < n
            invariant
                v == self@,
                s == self.last_seen.listing(),
                n == s.len(),
                i <= n,
                i == keep@.len(),
                forall|j: int|
                    0 <= j < i ==> #[trigger] keep@[j] == (at <= s[j].1 + KINEMATICS_GAP_NS),
            decreases n - i,
        {
            let t: SimTime = *self.last_seen.value_at(i);
            keep.push(at <= t || at - t <= KINEMATICS_GAP_NS);
            i = i + 1;
        }
        let kept = retained(&self.last_seen, &keep);
        proof {
            assert(v.last_seen == listed(s));
            assert forall|c: u32| #[trigger]
                kept@.contains_key(c) == v.recently_seen(at).contains_key(c) by {
                if v.last_seen.contains_key(c) {
                    let j = choose|j: int| ranked_at(s, c, j);
                    assert(v.last_seen.contains_key(s[j].0) && v.last_seen[s[j].0] == s[j].1);
                    if v.recently_seen(at).contains_key(c) {
                        assert(ranked_at(s, c, j) && keep@[j]);
                    }
                }
                if kept@.contains_key(c) {
                    let j = choose|j: int| ranked_at(s, c, j) && keep@[j];
                    assert(v.last_seen.contains_key(s[j].0) && v.last_seen[s[j].0] == s[j].1);
                }
            }
            assert(kept@ =~= v.recently_seen(at));
        }
        self.last_seen = kept;
    }

    /// The samples of the window that ends at `at`; what was accumulated is drained, and a
    /// new window starts.
    pub fn flush(&mut self, at: SimTime) -> (out: Vec<MetricSample>)
        ensures
            views(out@) == old(self)@.samples(at),
            final(self)@ == old(self)@.flushed(at),
    {
        broadcast use group_views;

        let mut out: Vec<MetricSample> = Vec::new();
        self.emit_types(at, &mut out);
        self.emit_buckets(at, &mut out);
        assert(views(out@) =~= old(self)@.samples(at));
        let _ = self.sums.drain();
        let _ = self.buckets.drain();
        self.vehicle_ns = 0;
        self.prune_seen(at);
        self.window_start = at;
        proof {
            assert(self@.last_seen =~= old(self)@.recently_seen(at));
            assert(self@ =~= old(self)@.flushed(at));
        }
        out
    }

    /// How many records could not be read.
    pub fn rejected(&self) -> (r: u64)
        ensures
            r == self@.rejected,
    {
        self.rejected
    }

    /// The card of the provider.
    pub fn card(&self) -> (r: ModelCard)
        ensures
            r@ == catalog::overhead_card(),
    {
        catalog::build_card()
    }

    /// The definitions of the provider's metrics.
    pub fn definitions(&self) -> (r: Vec<MetricDef>)
        ensures
            views(r@) == catalog::all_defs(),
    {
        catalog::definitions()
    }
}

impl Sums {
    /// Every frame's split is known, and the layers of all frames add up to what was on the
    /// air.
    pub open spec fn adds_up(self) -> bool {
        &&& self.air == self.air_split
        &&& self.frames == self.frames_split
        &&& self.payload + self.envelope + self.net + self.link == self.air
    }
}

/// Frames whose layers add up have sums that add up.
pub proof fn frames_that_add_up_keep_adding_up(s: Sums, v: NodeTxView)
    requires
        s.adds_up(),
        s.room_for(v),
        v.payload_bytes is Some,
        v.envelope_bytes is Some,
        v.payload_bytes->Some_0 + v.envelope_bytes->Some_0 + or_none(v.net_header_bytes) + or_none(
            v.link_bytes,
        ) == v.bytes_on_wire,
    ensures
        s.and(v).adds_up(),
{
}

/// The shares of the envelope, the network header and the link layer, and the share of the
/// payload, sum to one: over one denominator, their numerators sum to it.
pub proof fn the_shares_sum_to_one(s: Sums)
    requires
        s.adds_up(),
        s.air > 0,
        s.frames > 0,
    ensures
        match (
            whole_sums_ratio(s.envelope, s.air_split, s.frames_split, 1),
            whole_sums_ratio(s.net, s.air, s.frames, 1),
            whole_sums_ratio(s.link, s.air, s.frames, 1),
        ) {
            (
                RatioEstimate::RatioOfSums { point: envelope, .. },
                RatioEstimate::RatioOfSums { point: net, .. },
                RatioEstimate::RatioOfSums { point: link, .. },
            ) => {
                &&& envelope@.den == s.air && net@.den == s.air && link@.den == s.air
                &&& envelope@.num + net@.num + link@.num + s.payload == s.air
            },
            _ => false,
        },
{
    real_of_is_the_quotient(s.envelope as int, s.air as int);
    real_of_is_the_quotient(s.net as int, s.air as int);
    real_of_is_the_quotient(s.link as int, s.air as int);
}

} // verus!
