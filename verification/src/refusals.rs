//! What a provider does not read, and what a flush begins.
//!
//! A record that a provider subscribes to and cannot read is counted, and changes no sample.
//! A record of any other channel changes nothing at all.

use vstd::prelude::*;
use crate::awareness::AwarenessView;
use crate::basic::SimTime;
use crate::channels::{channel_named, Channel, EventRecord};
use crate::comms::CommsView;
use crate::detection_metrics::DetectionView;
use crate::frag::FragView;
use crate::latency_metrics::LatencyView;
use crate::load::LoadView;
use crate::overhead::OverheadView;
use crate::safety::SafetyView;

verus! {

/// The communication metrics count a record that they cannot read, and a record of another channel
/// does not touch them.
pub proof fn communication_refuses_what_it_cannot_read(v: CommsView, ev: EventRecord, at: SimTime)
    requires
        v.rejected < u64::MAX,
    ensures
        ({
            let subscribed = {
            ||| channel_named(ev.channel@) == Some(Channel::NodeTx)
            ||| channel_named(ev.channel@) == Some(Channel::PhyRx)
            ||| channel_named(ev.channel@) == Some(Channel::MacCbr)
            ||| channel_named(ev.channel@) == Some(Channel::NodeRx)
            ||| channel_named(ev.channel@) == Some(Channel::NetBytes)
            ||| channel_named(ev.channel@) == Some(Channel::ProtoMsg)
            };
            &&& (subscribed && ev.payload is Unread) ==> v.after(ev).rejected == v.rejected + 1 && (
            CommsView { rejected: v.rejected, ..v.after(ev) }) == v
            &&& !subscribed ==> v.after(ev) == v
        }),
{
}

/// The load metrics count a record that they cannot read, and a record of another channel
/// does not touch them.
pub proof fn load_refuses_what_it_cannot_read(v: LoadView, ev: EventRecord, at: SimTime)
    requires
        v.rejected < u64::MAX,
    ensures
        ({
            let subscribed = {
            ||| channel_named(ev.channel@) == Some(Channel::NodeTx)
            ||| channel_named(ev.channel@) == Some(Channel::NodeRx)
            ||| channel_named(ev.channel@) == Some(Channel::MacCbr)
            };
            &&& (subscribed && ev.payload is Unread) ==> v.after(ev).rejected == v.rejected + 1 && (
            LoadView { rejected: v.rejected, ..v.after(ev) }) == v
            &&& !subscribed ==> v.after(ev) == v
        }),
{
}

/// The safety metrics count a record that they cannot read, and a record of another channel
/// does not touch them.
pub proof fn safety_refuses_what_it_cannot_read(v: SafetyView, ev: EventRecord, at: SimTime)
    requires
        v.rejected < u64::MAX,
    ensures
        ({
            let subscribed = {
            ||| channel_named(ev.channel@) == Some(Channel::GtKinematics)
            };
            &&& (subscribed && ev.payload is Unread) ==> v.after(ev).rejected == v.rejected + 1 && (
            SafetyView { rejected: v.rejected, ..v.after(ev) }) == v
            &&& !subscribed ==> v.after(ev) == v
        }),
{
}

/// The awareness metrics count a record that they cannot read, and a record of another channel
/// does not touch them.
pub proof fn awareness_refuses_what_it_cannot_read(v: AwarenessView, ev: EventRecord, at: SimTime)
    requires
        v.rejected < u64::MAX,
    ensures
        ({
            let subscribed = {
            ||| channel_named(ev.channel@) == Some(Channel::NodeRx)
            ||| channel_named(ev.channel@) == Some(Channel::GtKinematics)
            };
            &&& (subscribed && ev.payload is Unread) ==> v.after(ev).rejected == v.rejected + 1 && (
            AwarenessView { rejected: v.rejected, ..v.after(ev) }) == v
            &&& !subscribed ==> v.after(ev) == v
        }),
{
}

/// The overhead metrics count a record that they cannot read, and a record of another channel
/// does not touch them.
pub proof fn overhead_refuses_what_it_cannot_read(v: OverheadView, ev: EventRecord, at: SimTime)
    requires
        v.rejected < u64::MAX,
    ensures
        ({
            let subscribed = {
            ||| channel_named(ev.channel@) == Some(Channel::NodeTx)
            ||| channel_named(ev.channel@) == Some(Channel::NetBytes)
            ||| channel_named(ev.channel@) == Some(Channel::ProtoMsg)
            ||| channel_named(ev.channel@) == Some(Channel::GtKinematics)
            };
            &&& (subscribed && ev.payload is Unread) ==> v.after(ev).rejected == v.rejected + 1 && (
            OverheadView { rejected: v.rejected, ..v.after(ev) }) == v
            &&& !subscribed ==> v.after(ev) == v
        }),
{
}

/// The fragmentation metrics count a record that they cannot read, and a record of another channel
/// does not touch them.
pub proof fn fragmentation_refuses_what_it_cannot_read(v: FragView, ev: EventRecord, at: SimTime)
    requires
        v.rejected < u64::MAX,
    ensures
        ({
            let subscribed = {
            ||| channel_named(ev.channel@) == Some(Channel::NetReassembly)
            };
            &&& (subscribed && ev.payload is Unread) ==> v.after(ev).rejected == v.rejected + 1 && (
            FragView { rejected: v.rejected, ..v.after(ev) }) == v
            &&& !subscribed ==> v.after(ev) == v
        }),
{
}

/// The latency metrics count a record that they cannot read, and a record of another channel
/// does not touch them.
pub proof fn latency_refuses_what_it_cannot_read(v: LatencyView, ev: EventRecord, at: SimTime)
    requires
        v.rejected < u64::MAX,
    ensures
        ({
            let subscribed = {
            ||| channel_named(ev.channel@) == Some(Channel::NodeRx)
            ||| channel_named(ev.channel@) == Some(Channel::MsgLatency)
            };
            &&& (subscribed && ev.payload is Unread) ==> v.after(ev).rejected == v.rejected + 1 && (
            LatencyView { rejected: v.rejected, ..v.after(ev) }) == v
            &&& !subscribed ==> v.after(ev) == v
        }),
{
}

/// The detection metrics count a record that they cannot read, and a record of another channel
/// does not touch them.
pub proof fn detection_refuses_what_it_cannot_read(v: DetectionView, ev: EventRecord, at: SimTime)
    requires
        v.rejected < u64::MAX,
    ensures
        ({
            let subscribed = {
            ||| channel_named(ev.channel@) == Some(Channel::GtAttackAction)
            ||| channel_named(ev.channel@) == Some(Channel::MaReport)
            ||| channel_named(ev.channel@) == Some(Channel::MaDecision)
            ||| channel_named(ev.channel@) == Some(Channel::DetObservation)
            };
            &&& (subscribed && ev.payload is Unread) ==> v.after(ev).rejected == v.rejected + 1 && (
            DetectionView { rejected: v.rejected, ..v.after(ev) }) == v
            &&& !subscribed ==> v.after(ev) == v
        }),
{
}

/// A flush of the communication metrics starts a new window at its instant, and keeps the last
/// reception of every link, so that a gap may span two windows.
pub proof fn communication_goes_on(v: CommsView, at: SimTime)
    ensures
        ({
            let w = v.flushed(at);
            &&& w.window_start == at && w.last_rx == v.last_rx && w.rejected == v.rejected
            &&& w.bins == v.bins && w.level == v.level && w.min_samples == v.min_samples
        }),
{
}

/// A flush of the load metrics starts a new window at its instant.
pub proof fn load_goes_on(v: LoadView, at: SimTime)
    ensures
        v.flushed(at).window_start == at,
        v.flushed(at).rejected == v.rejected,
        v.flushed(at).level == v.level,
        v.flushed(at).min_samples == v.min_samples,
{
}

/// A flush of the overhead metrics keeps the vehicles that were seen in the last two seconds.
pub proof fn overhead_goes_on(v: OverheadView, at: SimTime)
    ensures
        ({
            let w = v.flushed(at);
            &&& w.rejected == v.rejected
            &&& forall|a: u32| #[trigger] w.last_seen.contains_key(a) <==> v.last_seen.contains_key(a)
                && at - v.last_seen[a] <= 2_000_000_000
            &&& forall|a: u32| #[trigger] w.last_seen.contains_key(a) ==> w.last_seen[a]
                == v.last_seen[a]
        }),
{
}

/// A flush of the fragmentation and the latency metrics keeps what was refused.
pub proof fn refusals_go_on(f: FragView, l: LatencyView)
    ensures
        f.flushed().rejected == f.rejected,
        f.flushed().min_samples == f.min_samples,
        l.flushed().rejected == l.rejected,
        l.flushed().min_samples == l.min_samples,
        l.flushed().rejected_traces == 0,
{
}

} // verus!
