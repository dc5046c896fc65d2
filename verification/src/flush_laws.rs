//! What a flush keeps of a provider, and what it starts anew.

use vstd::prelude::*;
use crate::awareness::AwarenessView;
use crate::basic::SimTime;
use crate::bins::Bins;
use crate::comms::{window_length, CommsView};
use crate::distribution::Observed;
use crate::frag::FragView;
use crate::latency_metrics::LatencyView;
use crate::load::LoadView;
use crate::overhead::OverheadView;
use crate::stats::{ConfidenceLevel, Counts};

verus! {

/// True if nothing was observed.
pub open spec fn unobserved(o: Observed) -> bool {
    o.samples.len() == 0 && o.rejected == 0
}

/// True if nothing was tried.
pub open spec fn untried(c: Counts) -> bool {
    c.successes == 0 && c.trials == 0
}

/// True if a window of communication has nothing in it yet.
pub open spec fn comms_is_empty(w: CommsView) -> bool {
    &&& untried(w.pdr_all) && untried(w.pdr_unbinned) && w.pdr_by_bin.dom().is_empty()
    &&& w.losses_by_cause.dom().is_empty() && w.cbr.dom().is_empty() && unobserved(w.pir)
    &&& w.airtime_us.dom().is_empty() && w.bytes.dom().is_empty()
    &&& w.goodput_bytes == 0 && w.deliveries == 0
}

/// A flush of the communication keeps the settings and the last reception of every link, and
/// starts an empty window at its instant.
pub proof fn communication_starts_a_new_window(v: CommsView, at: SimTime)
    ensures
        ({
            let w = v.flushed(at);
            &&& w.level == v.level && w.min_samples == v.min_samples && w.bins == v.bins
            &&& w.window_start == at && w.last_rx == v.last_rx && w.rejected == v.rejected
            &&& comms_is_empty(w)
        }),
{
}

/// A window has a length exactly where it ends after it starts: from its start to its end.
pub proof fn a_window_lasts_from_its_start(start: SimTime, at: SimTime)
    ensures
        window_length(start, at) is None <==> at <= start,
        window_length(start, at) is Some ==> start + window_length(start, at)->0 == at,
{
}

/// A flush of the load keeps the settings, and starts an empty window at its instant.
pub proof fn the_load_starts_a_new_window(v: LoadView, at: SimTime)
    ensures
        ({
            let w = v.flushed(at);
            &&& w.level == v.level && w.min_samples == v.min_samples
            &&& w.window_start == at && w.rejected == v.rejected
            &&& w.own_us.dom().is_empty() && w.sensed_us.dom().is_empty()
            &&& w.offered_us.dom().is_empty() && w.lost_by_cause.dom().is_empty()
            &&& w.offered_bits == 0 && !w.offered_reported && w.carried_bits == 0
            &&& w.resolved == 0 && w.mac_drops == 0
            &&& unobserved(w.queue_depth) && unobserved(w.access_ms)
        }),
{
}

/// A flush of the awareness keeps the settings and the instants that it is at, and counts
/// anew.
pub proof fn awareness_starts_a_new_window(v: AwarenessView, at: SimTime)
    ensures
        ({
            let w = v.flushed(at);
            &&& w.level == v.level && w.min_samples == v.min_samples && w.bins == v.bins
            &&& w.window_start == at && w.frame_t == v.frame_t
            &&& v.nar_sampled_at is Some ==> w.nar_sampled_at is Some
            &&& w.aoi_area == 0 && w.aoi_time == 0 && w.aoi_updates == 0
            &&& unobserved(w.aoi_peak_ms) && w.delivery_by_bin.dom().is_empty()
            &&& untried(w.delivery_unbinned) && untried(w.delivery_all)
            &&& untried(w.near) && untried(w.far) && w.near_pairs.is_empty() && w.far_pairs.is_empty()
        }),
{
}

/// A flush of the overhead keeps when each vehicle was seen, of those seen in the last two
/// seconds, and counts anew.
pub proof fn overhead_starts_a_new_window(v: OverheadView, at: SimTime)
    ensures
        ({
            let w = v.flushed(at);
            &&& w.window_start == at && w.rejected == v.rejected
            &&& w.sums.dom().is_empty() && w.buckets.dom().is_empty() && w.vehicle_ns == 0
            &&& forall|a: u32| #[trigger] w.last_seen.contains_key(a) <==> v.last_seen.contains_key(a)
                && at - v.last_seen[a] <= 2_000_000_000
            &&& forall|a: u32| #[trigger] w.last_seen.contains_key(a) ==> w.last_seen[a]
                == v.last_seen[a]
        }),
{
}

/// A flush of the fragmentation and of the latency keeps the settings, and counts anew.
pub proof fn groups_and_flows_start_anew(f: FragView, l: LatencyView)
    ensures
        f.flushed().level == f.level && f.flushed().min_samples == f.min_samples,
        f.flushed().rejected == f.rejected && f.flushed().sums.dom().is_empty(),
        l.flushed().min_samples == l.min_samples && l.flushed().rejected == l.rejected,
        l.flushed().acc.dom().is_empty() && l.flushed().rejected_traces == 0,
{
}

/// A provider starts with nothing counted, at a coverage of nineteen in twenty, and reports
/// from thirty observations on; fragmentation from the first.
pub proof fn providers_start_with_nothing(t0: SimTime, bins: Bins)
    ensures
        ({
            let w = crate::comms::fresh(t0, bins);
            &&& comms_is_empty(w) && w.last_rx.dom().is_empty() && w.window_start == t0
            &&& w.level == ConfidenceLevel::P95 && w.min_samples == 30 && w.bins == bins
            &&& w.rejected == 0
        }),
        ({
            let w = crate::awareness::fresh(t0, bins);
            &&& w.positions.dom().is_empty() && w.links.dom().is_empty()
            &&& w.last_heard.dom().is_empty() && w.frame_t is None && w.nar_sampled_at is None
            &&& w.level == ConfidenceLevel::P95 && w.min_samples == 30 && w.bins == bins
            &&& w.window_start == t0 && w.rejected == 0
        }),
        crate::load::fresh(t0).level == ConfidenceLevel::P95 && crate::load::fresh(t0).min_samples == 30
            && crate::load::fresh(t0).rejected == 0,
        crate::overhead::fresh(t0).last_seen.dom().is_empty() && crate::overhead::fresh(t0).rejected == 0,
        crate::frag::fresh().level == ConfidenceLevel::P95 && crate::frag::fresh().min_samples == 1
            && crate::frag::fresh().sums.dom().is_empty() && crate::frag::fresh().rejected == 0,
        crate::latency_metrics::fresh().min_samples == 30
            && crate::latency_metrics::fresh().acc.dom().is_empty()
            && crate::latency_metrics::fresh().rejected == 0
            && crate::latency_metrics::fresh().rejected_traces == 0,
{
}

} // verus!
