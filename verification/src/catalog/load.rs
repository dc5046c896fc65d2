//! The network-load metrics: their definitions and their card.

use vstd::prelude::*;
use crate::basic::Visibility;
use crate::card::{group_views, views, CardView, EquationView, ModelCard, SourceKind};
use crate::cards::{design, design_source, paper, param, plain_source, provider_card, provider_card_view, ranged_parameter, standard, statistics_parameters, statistics_params};
use crate::def::{bare_def, Agg, AggView, BreakdownView, DefView, Dim, MetricDef};
use crate::quant::{real_of, Quantum, Real};
use crate::text::texts;

verus! {

pub const CHANNEL_OCCUPANCY_DEFINITION: &'static str = "The fraction of the window each node's own transmissions occupied the channel — the channel occupancy ratio C-V2X congestion control limits, applied to 802.11p. Distribution across the nodes that transmitted.";

pub const CHANNEL_LOAD_DEFINITION: &'static str = "Offered load against capacity, as each node sees it: the air time of every frame arriving above the −85 dBm busy threshold plus the node's own offered air time, over the window. One is a channel exactly full; above one, more is being offered than the channel can carry.";

pub const OFFERED_LOAD_DEFINITION: &'static str = "PSDU bits every node handed to its MAC in the window, whatever became of them, per second — network-wide.";

pub const CARRIED_LOAD_DEFINITION: &'static str = "PSDU bits that went on the air in the window, per second — network-wide.";

pub const LOSS_RATE_DEFINITION: &'static str = "The fraction of all resolved reception attempts that were lost to one cause — a PHY cause (collision, half-duplex, below-sensitivity, fading, …) or one above it (verification overflow, invalid signature, revoked, …). Summed over causes it is one minus the delivery ratio.";

pub const COLLISION_RATE_DEFINITION: &'static str = "The fraction of resolved reception attempts lost because two transmissions overlapped at the receiver (causes collision, hidden-terminal and resource-collision).";

pub const HALF_DUPLEX_RATE_DEFINITION: &'static str = "The fraction of resolved reception attempts lost because the receiver was itself transmitting.";

pub const MAC_QUEUE_DEPTH_DEFINITION: &'static str = "Frames waiting in a node's EDCA access-category queues, at each MAC report, across nodes.";

pub const MAC_DROPS_DEFINITION: &'static str = "Frames the MAC refused in the window: a full access-category queue or a frame over the MSDU cap.";

pub const MAC_ACCESS_DELAY_DEFINITION: &'static str = "Channel-access delay per transmitted frame: from the frame reaching the MAC (its signature complete) to its preamble going on the air — AIFS, backoff and deferral to a busy medium.";

pub const CARD_PURPOSE: &'static str = "Channel occupancy per node, channel load against capacity, offered and carried load, loss rates by cause (collision and half-duplex named), MAC queue depth, MAC drops and channel-access delay.";

pub const CHANNEL_LOAD_EQUATION: &'static str = "L_i = (Σ_{arrivals at i with P_rx ≥ −85 dBm} air time + offered air time_i) / window; L_i > 1 means more air time is offered around i than exists";

pub const CARD_SOURCE_1: &'static str = "3GPP TS 36.214 §5.1.31 (channel occupancy ratio) and ETSI TS 103 574 (its limit in C-V2X congestion control)";

pub const CARD_SOURCE_2: &'static str = "Torrent-Moreno, Mittag, Santi, Hartenstein, 'Vehicle-to-vehicle communication: fair transmit power control for safety-critical information', IEEE Trans. Veh. Technol. 58(7), 2009 (beaconing load against the channel's capacity)";

pub const CARD_LIMITATION_1: &'static str = "channel_load counts a neighbour's frames only if they went on the air: a frame a neighbour's MAC refused never arrived anywhere, so it is in that neighbour's own load and not in this node's.";

pub const CARD_LIMITATION_2: &'static str = "Overlapping arrivals are summed, not merged: two frames at once are twice the air time. That is the definition of offered load (and why it can exceed one); cbr is the metric that merges them.";

pub const CARD_LIMITATION_3: &'static str = "Without MAC reports (the abstract tier) offered load equals carried load, because nothing is refused.";

/// The definition of `channel_occupancy`.
pub open spec fn channel_occupancy_def() -> DefView {
    DefView {
        dims: seq![Dim::T],
        source: Some(plain_source(SourceKind::Standard, "3GPP TS 36.214 §5.1.31; ETSI TS 103 574"@)),
        min_samples: 1,
        min_value: Some(real_of(0, 1)),
        max_value: Some(real_of(1, 1)),
        not_accounted: seq!["nodes that did not transmit in the window"@, "inter-frame spacing and backoff, which are not transmitted time"@],
        ..bare_def("channel_occupancy"@, "ratio"@, AggView::Distribution, Visibility::Node, 10_000, CHANNEL_OCCUPANCY_DEFINITION@)
    }
}

/// The definition of `channel_occupancy`.
pub(crate) fn channel_occupancy() -> (d: MetricDef)
    ensures
        d@ == channel_occupancy_def(),
{
    let dims: Vec<Dim> = vec![Dim::T];
    assert(dims@ =~= seq![Dim::T]);
    let d = MetricDef::new("channel_occupancy", "ratio", Agg::Distribution, Visibility::Node, Quantum::ratio(), CHANNEL_OCCUPANCY_DEFINITION)
        .with_dims(dims)
        .with_source(standard("3GPP TS 36.214 §5.1.31; ETSI TS 103 574"))
        .with_min_samples(1)
        .with_range(Some(Real::whole(0)), Some(Real::whole(1)))
        .not_accounting_for("nodes that did not transmit in the window")
        .not_accounting_for("inter-frame spacing and backoff, which are not transmitted time");
    assert(d@ =~= channel_occupancy_def());
    d
}

/// The definition of `channel_load`.
pub open spec fn channel_load_def() -> DefView {
    DefView {
        dims: seq![Dim::T],
        source: Some(plain_source(SourceKind::Paper, "Torrent-Moreno, Mittag, Santi, Hartenstein, IEEE Trans. Veh. Technol. 58(7), 2009"@)),
        min_samples: 1,
        min_value: Some(real_of(0, 1)),
        max_value: None,
        not_accounted: seq!["frames neighbours' MACs refused, which never reached the air"@, "the merging of overlaps: overlapping frames are summed"@],
        ..bare_def("channel_load"@, "ratio"@, AggView::Distribution, Visibility::NodeAndGt, 10_000, CHANNEL_LOAD_DEFINITION@)
    }
}

/// The definition of `channel_load`.
pub(crate) fn channel_load() -> (d: MetricDef)
    ensures
        d@ == channel_load_def(),
{
    let dims: Vec<Dim> = vec![Dim::T];
    assert(dims@ =~= seq![Dim::T]);
    let d = MetricDef::new("channel_load", "ratio", Agg::Distribution, Visibility::NodeAndGt, Quantum::ratio(), CHANNEL_LOAD_DEFINITION)
        .with_dims(dims)
        .with_source(paper("Torrent-Moreno, Mittag, Santi, Hartenstein, IEEE Trans. Veh. Technol. 58(7), 2009"))
        .with_min_samples(1)
        .with_range(Some(Real::whole(0)), None)
        .not_accounting_for("frames neighbours' MACs refused, which never reached the air")
        .not_accounting_for("the merging of overlaps: overlapping frames are summed");
    assert(d@ =~= channel_load_def());
    d
}

/// The definition of `offered_load`.
pub open spec fn offered_load_def() -> DefView {
    DefView {
        dims: seq![Dim::T],
        source: Some(design_source("08-measurement-and-data.md §2.1"@)),
        min_samples: 1,
        min_value: Some(real_of(0, 1)),
        max_value: None,
        not_accounted: seq!["the PHY preamble and tail, which are air time and not bits"@, "spatial reuse: this is a network total, not one channel's load"@],
        ..bare_def("offered_load"@, "bit/s"@, AggView::Rate, Visibility::Node, 1_000, OFFERED_LOAD_DEFINITION@)
    }
}

/// The definition of `offered_load`.
pub(crate) fn offered_load() -> (d: MetricDef)
    ensures
        d@ == offered_load_def(),
{
    let dims: Vec<Dim> = vec![Dim::T];
    assert(dims@ =~= seq![Dim::T]);
    let d = MetricDef::new("offered_load", "bit/s", Agg::Rate, Visibility::Node, Quantum::bytes(), OFFERED_LOAD_DEFINITION)
        .with_dims(dims)
        .with_source(design("08-measurement-and-data.md §2.1"))
        .with_min_samples(1)
        .with_range(Some(Real::whole(0)), None)
        .not_accounting_for("the PHY preamble and tail, which are air time and not bits")
        .not_accounting_for("spatial reuse: this is a network total, not one channel's load");
    assert(d@ =~= offered_load_def());
    d
}

/// The definition of `carried_load`.
pub open spec fn carried_load_def() -> DefView {
    DefView {
        dims: seq![Dim::T],
        source: Some(design_source("08-measurement-and-data.md §2.1"@)),
        min_samples: 1,
        min_value: Some(real_of(0, 1)),
        max_value: None,
        not_accounted: seq!["whether anyone received them"@, "spatial reuse: this is a network total, not one channel's load"@],
        ..bare_def("carried_load"@, "bit/s"@, AggView::Rate, Visibility::Node, 1_000, CARRIED_LOAD_DEFINITION@)
    }
}

/// The definition of `carried_load`.
pub(crate) fn carried_load() -> (d: MetricDef)
    ensures
        d@ == carried_load_def(),
{
    let dims: Vec<Dim> = vec![Dim::T];
    assert(dims@ =~= seq![Dim::T]);
    let d = MetricDef::new("carried_load", "bit/s", Agg::Rate, Visibility::Node, Quantum::bytes(), CARRIED_LOAD_DEFINITION)
        .with_dims(dims)
        .with_source(design("08-measurement-and-data.md §2.1"))
        .with_min_samples(1)
        .with_range(Some(Real::whole(0)), None)
        .not_accounting_for("whether anyone received them")
        .not_accounting_for("spatial reuse: this is a network total, not one channel's load");
    assert(d@ =~= carried_load_def());
    d
}

/// The definition of `loss_rate`.
pub open spec fn loss_rate_def(min_samples: u64) -> DefView {
    DefView {
        dims: seq![Dim::T, Dim::Cause],
        breakdown: seq![BreakdownView { dim: Dim::Cause, values: seq!["collision"@, "hidden-terminal"@, "resource-collision"@, "half-duplex"@, "below-sensitivity"@, "fading"@, "reassembly"@, "verify-overflow"@, "invalid-signature"@, "revoked"@] }],
        source: Some(design_source("08-measurement-and-data.md §2.1"@)),
        min_samples,
        min_value: Some(real_of(0, 1)),
        max_value: Some(real_of(1, 1)),
        not_accounted: seq!["attempts still in flight when the run ended"@, "receivers outside the engine's candidate range"@],
        ..bare_def("loss_rate"@, "ratio"@, AggView::Ratio { numerator: "attempts lost with this cause"@, denominator: "attempts resolved"@ }, Visibility::Node, 10_000, LOSS_RATE_DEFINITION@)
    }
}

/// The definition of `loss_rate`.
pub(crate) fn loss_rate(min_samples: u64) -> (d: MetricDef)
    ensures
        d@ == loss_rate_def(min_samples),
{
    let dims: Vec<Dim> = vec![Dim::T, Dim::Cause];
    assert(dims@ =~= seq![Dim::T, Dim::Cause]);
    let values: Vec<String> = vec!["collision".to_owned(), "hidden-terminal".to_owned(), "resource-collision".to_owned(), "half-duplex".to_owned(), "below-sensitivity".to_owned(), "fading".to_owned(), "reassembly".to_owned(), "verify-overflow".to_owned(), "invalid-signature".to_owned(), "revoked".to_owned()];
    assert(texts(values@) =~= seq!["collision"@, "hidden-terminal"@, "resource-collision"@, "half-duplex"@, "below-sensitivity"@, "fading"@, "reassembly"@, "verify-overflow"@, "invalid-signature"@, "revoked"@]);
    let d = MetricDef::new("loss_rate", "ratio", Agg::ratio("attempts lost with this cause", "attempts resolved"), Visibility::Node, Quantum::ratio(), LOSS_RATE_DEFINITION)
        .with_dims(dims)
        .with_breakdown(Dim::Cause, values)
        .with_source(design("08-measurement-and-data.md §2.1"))
        .with_min_samples(min_samples)
        .with_range(Some(Real::whole(0)), Some(Real::whole(1)))
        .not_accounting_for("attempts still in flight when the run ended")
        .not_accounting_for("receivers outside the engine's candidate range");
    assert(d@ =~= loss_rate_def(min_samples));
    d
}

/// The definition of `collision_rate`.
pub open spec fn collision_rate_def(min_samples: u64) -> DefView {
    DefView {
        dims: seq![Dim::T],
        source: Some(design_source("08-measurement-and-data.md §2.1"@)),
        min_samples,
        min_value: Some(real_of(0, 1)),
        max_value: Some(real_of(1, 1)),
        not_accounted: seq!["a frame that survived an overlap by capture, which is a success"@, "attempts still in flight when the run ended"@],
        ..bare_def("collision_rate"@, "ratio"@, AggView::Ratio { numerator: "attempts lost to a collision"@, denominator: "attempts resolved"@ }, Visibility::Node, 10_000, COLLISION_RATE_DEFINITION@)
    }
}

/// The definition of `collision_rate`.
pub(crate) fn collision_rate(min_samples: u64) -> (d: MetricDef)
    ensures
        d@ == collision_rate_def(min_samples),
{
    let dims: Vec<Dim> = vec![Dim::T];
    assert(dims@ =~= seq![Dim::T]);
    let d = MetricDef::new("collision_rate", "ratio", Agg::ratio("attempts lost to a collision", "attempts resolved"), Visibility::Node, Quantum::ratio(), COLLISION_RATE_DEFINITION)
        .with_dims(dims)
        .with_source(design("08-measurement-and-data.md §2.1"))
        .with_min_samples(min_samples)
        .with_range(Some(Real::whole(0)), Some(Real::whole(1)))
        .not_accounting_for("a frame that survived an overlap by capture, which is a success")
        .not_accounting_for("attempts still in flight when the run ended");
    assert(d@ =~= collision_rate_def(min_samples));
    d
}

/// The definition of `half_duplex_rate`.
pub open spec fn half_duplex_rate_def(min_samples: u64) -> DefView {
    DefView {
        dims: seq![Dim::T],
        source: Some(design_source("08-measurement-and-data.md §2.1"@)),
        min_samples,
        min_value: Some(real_of(0, 1)),
        max_value: Some(real_of(1, 1)),
        not_accounted: seq!["attempts still in flight when the run ended"@, "receivers outside the engine's candidate range"@],
        ..bare_def("half_duplex_rate"@, "ratio"@, AggView::Ratio { numerator: "attempts lost to half duplex"@, denominator: "attempts resolved"@ }, Visibility::Node, 10_000, HALF_DUPLEX_RATE_DEFINITION@)
    }
}

/// The definition of `half_duplex_rate`.
pub(crate) fn half_duplex_rate(min_samples: u64) -> (d: MetricDef)
    ensures
        d@ == half_duplex_rate_def(min_samples),
{
    let dims: Vec<Dim> = vec![Dim::T];
    assert(dims@ =~= seq![Dim::T]);
    let d = MetricDef::new("half_duplex_rate", "ratio", Agg::ratio("attempts lost to half duplex", "attempts resolved"), Visibility::Node, Quantum::ratio(), HALF_DUPLEX_RATE_DEFINITION)
        .with_dims(dims)
        .with_source(design("08-measurement-and-data.md §2.1"))
        .with_min_samples(min_samples)
        .with_range(Some(Real::whole(0)), Some(Real::whole(1)))
        .not_accounting_for("attempts still in flight when the run ended")
        .not_accounting_for("receivers outside the engine's candidate range");
    assert(d@ =~= half_duplex_rate_def(min_samples));
    d
}

/// The definition of `mac_queue_depth`.
pub open spec fn mac_queue_depth_def() -> DefView {
    DefView {
        dims: seq![Dim::T],
        source: Some(plain_source(SourceKind::Standard, "IEEE 802.11-2020 §10.23.2"@)),
        min_samples: 1,
        min_value: Some(real_of(0, 1)),
        max_value: None,
        not_accounted: seq!["the depth between reports: it is sampled, not time-averaged"@, "frames still in the node's signer, which have not reached the MAC"@],
        ..bare_def("mac_queue_depth"@, "count"@, AggView::Distribution, Visibility::Node, 1_000, MAC_QUEUE_DEPTH_DEFINITION@)
    }
}

/// The definition of `mac_queue_depth`.
pub(crate) fn mac_queue_depth() -> (d: MetricDef)
    ensures
        d@ == mac_queue_depth_def(),
{
    let dims: Vec<Dim> = vec![Dim::T];
    assert(dims@ =~= seq![Dim::T]);
    let d = MetricDef::new("mac_queue_depth", "count", Agg::Distribution, Visibility::Node, Quantum::count(), MAC_QUEUE_DEPTH_DEFINITION)
        .with_dims(dims)
        .with_source(standard("IEEE 802.11-2020 §10.23.2"))
        .with_min_samples(1)
        .with_range(Some(Real::whole(0)), None)
        .not_accounting_for("the depth between reports: it is sampled, not time-averaged")
        .not_accounting_for("frames still in the node's signer, which have not reached the MAC");
    assert(d@ =~= mac_queue_depth_def());
    d
}

/// The definition of `mac_drops`.
pub open spec fn mac_drops_def() -> DefView {
    DefView {
        dims: seq![Dim::T],
        source: Some(plain_source(SourceKind::Standard, "IEEE 802.11-2020 §10.23.2"@)),
        min_samples: 1,
        min_value: Some(real_of(0, 1)),
        max_value: None,
        not_accounted: seq!["frames the node itself never generated because DCC held it back"@],
        ..bare_def("mac_drops"@, "count"@, AggView::Count, Visibility::Node, 1_000, MAC_DROPS_DEFINITION@)
    }
}

/// The definition of `mac_drops`.
pub(crate) fn mac_drops() -> (d: MetricDef)
    ensures
        d@ == mac_drops_def(),
{
    let dims: Vec<Dim> = vec![Dim::T];
    assert(dims@ =~= seq![Dim::T]);
    let d = MetricDef::new("mac_drops", "count", Agg::Count, Visibility::Node, Quantum::count(), MAC_DROPS_DEFINITION)
        .with_dims(dims)
        .with_source(standard("IEEE 802.11-2020 §10.23.2"))
        .with_min_samples(1)
        .with_range(Some(Real::whole(0)), None)
        .not_accounting_for("frames the node itself never generated because DCC held it back");
    assert(d@ =~= mac_drops_def());
    d
}

/// The definition of `mac_access_delay`.
pub open spec fn mac_access_delay_def(min_samples: u64) -> DefView {
    DefView {
        dims: seq![Dim::T],
        source: Some(plain_source(SourceKind::Standard, "IEEE 802.11-2020 §10.23.2"@)),
        min_samples,
        min_value: Some(real_of(0, 1)),
        max_value: None,
        not_accounted: seq!["frames the MAC refused, which never got access"@, "signing, which happens before the MAC has the frame"@],
        ..bare_def("mac_access_delay"@, "ms"@, AggView::Distribution, Visibility::Node, 1_000, MAC_ACCESS_DELAY_DEFINITION@)
    }
}

/// The definition of `mac_access_delay`.
pub(crate) fn mac_access_delay(min_samples: u64) -> (d: MetricDef)
    ensures
        d@ == mac_access_delay_def(min_samples),
{
    let dims: Vec<Dim> = vec![Dim::T];
    assert(dims@ =~= seq![Dim::T]);
    let d = MetricDef::new("mac_access_delay", "ms", Agg::Distribution, Visibility::Node, Quantum::time_ms(), MAC_ACCESS_DELAY_DEFINITION)
        .with_dims(dims)
        .with_source(standard("IEEE 802.11-2020 §10.23.2"))
        .with_min_samples(min_samples)
        .with_range(Some(Real::whole(0)), None)
        .not_accounting_for("frames the MAC refused, which never got access")
        .not_accounting_for("signing, which happens before the MAC has the frame");
    assert(d@ =~= mac_access_delay_def(min_samples));
    d
}


/// The definitions of the provider, in order.
pub open spec fn all_defs(min_samples: u64) -> Seq<DefView> {
    seq![
        channel_occupancy_def(),
        channel_load_def(),
        offered_load_def(),
        carried_load_def(),
        loss_rate_def(min_samples),
        collision_rate_def(min_samples),
        half_duplex_rate_def(min_samples),
        mac_queue_depth_def(),
        mac_drops_def(),
        mac_access_delay_def(min_samples),
    ]
}

/// The definitions of the provider, in order.
pub(crate) fn definitions(min_samples: u64) -> (r: Vec<MetricDef>)
    ensures
        views(r@) == all_defs(min_samples),
{
    broadcast use group_views;

    let mut out: Vec<MetricDef> = Vec::new();
    out.push(channel_occupancy());
    out.push(channel_load());
    out.push(offered_load());
    out.push(carried_load());
    out.push(loss_rate(min_samples));
    out.push(collision_rate(min_samples));
    out.push(half_duplex_rate(min_samples));
    out.push(mac_queue_depth());
    out.push(mac_drops());
    out.push(mac_access_delay(min_samples));
    out
}

/// The card of the provider.
pub open spec fn load_card() -> CardView {
    let base = provider_card_view("metric/load/channel"@, "1.0.0"@, CARD_PURPOSE@);
    CardView {
        equations: seq![EquationView { name: "channel_occupancy"@, latex_or_text: "CR_i = Σ own air time_i / window"@ }, EquationView { name: "channel_load"@, latex_or_text: CHANNEL_LOAD_EQUATION@ }, EquationView { name: "loss_rate"@, latex_or_text: "loss_rate(c) = attempts lost with cause c / attempts resolved"@ }],
        parameters: statistics_parameters().push(ranged_parameter("busy_threshold_dbm"@, "dBm"@, "-85.0"@, "-100.0"@, "-60.0"@, plain_source(SourceKind::Standard, "ETSI EN 302 571 §4.2.10.1 (the CBR busy threshold)"@), None)),
        sources: seq![plain_source(SourceKind::Standard, CARD_SOURCE_1@), plain_source(SourceKind::Paper, CARD_SOURCE_2@), plain_source(SourceKind::Standard, "ETSI EN 302 571 §4.2.10.1 (−85 dBm busy threshold)"@), plain_source(SourceKind::Standard, "IEEE 802.11-2020 §10.23.2 (EDCA channel access)"@)],
        assumptions: base.assumptions,
        limitations: seq![CARD_LIMITATION_1@, CARD_LIMITATION_2@, CARD_LIMITATION_3@],
        ignores: seq!["Adjacent-channel energy."@],
        validation_tests: seq!["load::tests::channel_load_sums_sensed_and_own_air_time"@, "load::tests::loss_rates_are_over_resolved_attempts"@],
        ..base
    }
}

/// The card of the provider.
pub(crate) fn build_card() -> (r: ModelCard)
    ensures
        r@ == load_card(),
{
    let mut card = provider_card("metric/load/channel", "1.0.0", CARD_PURPOSE);
    card.parameters = statistics_params();
    let card = card
        .with_equation("channel_occupancy", "CR_i = Σ own air time_i / window")
        .with_equation("channel_load", CHANNEL_LOAD_EQUATION)
        .with_equation("loss_rate", "loss_rate(c) = attempts lost with cause c / attempts resolved")
        .with_parameter(param("busy_threshold_dbm", "dBm", "-85.0", "-100.0", "-60.0", standard("ETSI EN 302 571 §4.2.10.1 (the CBR busy threshold)")))
        .with_source(standard(CARD_SOURCE_1))
        .with_source(paper(CARD_SOURCE_2))
        .with_source(standard("ETSI EN 302 571 §4.2.10.1 (−85 dBm busy threshold)"))
        .with_source(standard("IEEE 802.11-2020 §10.23.2 (EDCA channel access)"))
        .limited_by(CARD_LIMITATION_1)
        .limited_by(CARD_LIMITATION_2)
        .limited_by(CARD_LIMITATION_3)
        .ignoring("Adjacent-channel energy.")
        .tested_by("load::tests::channel_load_sums_sensed_and_own_air_time")
        .tested_by("load::tests::loss_rates_are_over_resolved_attempts");
    assert(card@ =~= load_card());
    card
}

} // verus!
