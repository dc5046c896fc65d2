//! The latency metrics: their definitions and their card.

use vstd::prelude::*;
use crate::basic::Visibility;
use crate::card::{group_views, views, CardView, EquationView, ModelCard, SourceKind};
use crate::cards::{design, design_source, plain_source, provider_card, provider_card_view, standard, statistics_parameters, statistics_params};
use crate::def::{bare_def, Agg, AggView, DefView, Dim, MetricDef};
use crate::quant::{real_of, Quantum, Real};

verus! {

pub const E2E_LATENCY_DEFINITION: &'static str = "End-to-end delay of each delivered message: from its generation at the sender to its delivery to the receiver's applications, including signing, channel access, air time, propagation, parsing and verification. With no dimension it is every V2V delivery; `msg_type` narrows it to one message type; `flow` names a non-V2V flow (a backend exchange, a multi-hop relay).";

pub const LATENCY_STAGE_DEFINITION: &'static str = "The time each delivered message spent in one stage of its journey. For V2V: sign_queue, sign, mac_aifs, mac_backoff, mac_defer (deferral to a busy medium, including repeated AIFS), airtime, propagation, reception (parsing and the verification policy), verify_queue, verify. The stages tile the journey, so they sum to e2e_latency message by message.";

pub const LATENCY_STAGE_SHARE_DEFINITION: &'static str = "The share of the total end-to-end delay spent in one stage: the stage's summed duration over the summed latency of the same messages. The shares of all stages of one flow sum to one.";

pub const LATENCY_TRACE_REJECTED_DEFINITION: &'static str = "Traces in the window that were not a valid decomposition of their message's latency (a gap, an overlap or a negative stage). Anything above zero is a producer defect, and those messages are missing from every latency metric.";

pub const CARD_PURPOSE: &'static str = "End-to-end delay of every delivered message, decomposed into contiguous stages (signing queue, signing, channel access, air time, propagation, reception, verification queue, verification for V2V; any stages a backend flow names), with p50, p95 and p99 per flow and per message type and each stage's share.";

pub const CARD_SOURCE_1: &'static str = "08-measurement-and-data.md §2.1 (e2e_latency: generation to application delivery, including queueing, air time and verification)";

pub const CARD_SOURCE_2: &'static str = "SAE J2945/1 §6.3 and ETSI TS 102 637-1 (now TR 102 638): the end-to-end latency budgets (100 ms for cooperative awareness) a decomposition is read against";

pub const CARD_LIMITATION_1: &'static str = "The channel-access delay is split AIFS first, then the backoff slots the MAC reported, then the remainder as deferral; a real EDCA interleaves them, so the three stages are an accounting of how much of each, not of when.";

pub const CARD_LIMITATION_2: &'static str = "Only delivered messages have a latency; the metric describes the survivors and must be read beside the delivery ratio.";

pub const CARD_LIMITATION_3: &'static str = "A stage whose start and end fall in different windows is attributed to the window in which the message was delivered.";

/// The definition of `e2e_latency`.
pub open spec fn e2e_latency_def(min_samples: u64) -> DefView {
    DefView {
        dims: seq![Dim::T, Dim::Flow, Dim::MsgType],
        source: Some(design_source("08-measurement-and-data.md §2.1 (e2e_latency)"@)),
        min_samples,
        min_value: Some(real_of(0, 1)),
        max_value: None,
        not_accounted: seq!["messages that were never delivered, which have no latency"@, "the application's own processing after delivery"@],
        ..bare_def("e2e_latency"@, "ms"@, AggView::Distribution, Visibility::Node, 1_000, E2E_LATENCY_DEFINITION@)
    }
}

/// The definition of `e2e_latency`.
pub(crate) fn e2e_latency(min_samples: u64) -> (d: MetricDef)
    ensures
        d@ == e2e_latency_def(min_samples),
{
    let dims: Vec<Dim> = vec![Dim::T, Dim::Flow, Dim::MsgType];
    assert(dims@ =~= seq![Dim::T, Dim::Flow, Dim::MsgType]);
    let d = MetricDef::new("e2e_latency", "ms", Agg::Distribution, Visibility::Node, Quantum::time_ms(), E2E_LATENCY_DEFINITION)
        .with_dims(dims)
        .with_source(design("08-measurement-and-data.md §2.1 (e2e_latency)"))
        .with_min_samples(min_samples)
        .with_range(Some(Real::whole(0)), None)
        .not_accounting_for("messages that were never delivered, which have no latency")
        .not_accounting_for("the application's own processing after delivery");
    assert(d@ =~= e2e_latency_def(min_samples));
    d
}

/// The definition of `latency_stage`.
pub open spec fn latency_stage_def(min_samples: u64) -> DefView {
    DefView {
        dims: seq![Dim::T, Dim::Flow, Dim::MsgType, Dim::Stage],
        source: Some(design_source("08-measurement-and-data.md §2.1 (e2e_latency)"@)),
        min_samples,
        min_value: Some(real_of(0, 1)),
        max_value: None,
        not_accounted: seq!["undelivered messages"@, "the interleaving of AIFS, backoff and deferral inside the access delay"@],
        ..bare_def("latency_stage"@, "ms"@, AggView::Distribution, Visibility::Node, 1_000, LATENCY_STAGE_DEFINITION@)
    }
}

/// The definition of `latency_stage`.
pub(crate) fn latency_stage(min_samples: u64) -> (d: MetricDef)
    ensures
        d@ == latency_stage_def(min_samples),
{
    let dims: Vec<Dim> = vec![Dim::T, Dim::Flow, Dim::MsgType, Dim::Stage];
    assert(dims@ =~= seq![Dim::T, Dim::Flow, Dim::MsgType, Dim::Stage]);
    let d = MetricDef::new("latency_stage", "ms", Agg::Distribution, Visibility::Node, Quantum::time_ms(), LATENCY_STAGE_DEFINITION)
        .with_dims(dims)
        .with_source(design("08-measurement-and-data.md §2.1 (e2e_latency)"))
        .with_min_samples(min_samples)
        .with_range(Some(Real::whole(0)), None)
        .not_accounting_for("undelivered messages")
        .not_accounting_for("the interleaving of AIFS, backoff and deferral inside the access delay");
    assert(d@ =~= latency_stage_def(min_samples));
    d
}

/// The definition of `latency_stage_share`.
pub open spec fn latency_stage_share_def() -> DefView {
    DefView {
        dims: seq![Dim::T, Dim::Flow, Dim::MsgType, Dim::Stage],
        source: Some(design_source("08-measurement-and-data.md §2.1 (e2e_latency)"@)),
        min_samples: 1,
        min_value: Some(real_of(0, 1)),
        max_value: Some(real_of(1, 1)),
        not_accounted: seq!["undelivered messages"@, "per-message variation: it is a ratio of sums, not a mean of ratios"@],
        ..bare_def("latency_stage_share"@, "ratio"@, AggView::Ratio { numerator: "Σ time in this stage"@, denominator: "Σ end-to-end latency"@ }, Visibility::Node, 10_000, LATENCY_STAGE_SHARE_DEFINITION@)
    }
}

/// The definition of `latency_stage_share`.
pub(crate) fn latency_stage_share() -> (d: MetricDef)
    ensures
        d@ == latency_stage_share_def(),
{
    let dims: Vec<Dim> = vec![Dim::T, Dim::Flow, Dim::MsgType, Dim::Stage];
    assert(dims@ =~= seq![Dim::T, Dim::Flow, Dim::MsgType, Dim::Stage]);
    let d = MetricDef::new("latency_stage_share", "ratio", Agg::ratio("Σ time in this stage", "Σ end-to-end latency"), Visibility::Node, Quantum::ratio(), LATENCY_STAGE_SHARE_DEFINITION)
        .with_dims(dims)
        .with_source(design("08-measurement-and-data.md §2.1 (e2e_latency)"))
        .with_min_samples(1)
        .with_range(Some(Real::whole(0)), Some(Real::whole(1)))
        .not_accounting_for("undelivered messages")
        .not_accounting_for("per-message variation: it is a ratio of sums, not a mean of ratios");
    assert(d@ =~= latency_stage_share_def());
    d
}

/// The definition of `latency_trace_rejected`.
pub open spec fn latency_trace_rejected_def() -> DefView {
    DefView {
        dims: seq![Dim::T],
        source: Some(design_source("08-measurement-and-data.md §2.1 (e2e_latency)"@)),
        min_samples: 1,
        min_value: Some(real_of(0, 1)),
        max_value: None,
        not_accounted: seq!["delivered messages whose stamps were absent altogether"@],
        ..bare_def("latency_trace_rejected"@, "count"@, AggView::Count, Visibility::Node, 1_000, LATENCY_TRACE_REJECTED_DEFINITION@)
    }
}

/// The definition of `latency_trace_rejected`.
pub(crate) fn latency_trace_rejected() -> (d: MetricDef)
    ensures
        d@ == latency_trace_rejected_def(),
{
    let dims: Vec<Dim> = vec![Dim::T];
    assert(dims@ =~= seq![Dim::T]);
    let d = MetricDef::new("latency_trace_rejected", "count", Agg::Count, Visibility::Node, Quantum::count(), LATENCY_TRACE_REJECTED_DEFINITION)
        .with_dims(dims)
        .with_source(design("08-measurement-and-data.md §2.1 (e2e_latency)"))
        .with_min_samples(1)
        .with_range(Some(Real::whole(0)), None)
        .not_accounting_for("delivered messages whose stamps were absent altogether");
    assert(d@ =~= latency_trace_rejected_def());
    d
}


/// The definitions of the provider, in order.
pub open spec fn all_defs(min_samples: u64) -> Seq<DefView> {
    seq![
        e2e_latency_def(min_samples),
        latency_stage_def(min_samples),
        latency_stage_share_def(),
        latency_trace_rejected_def(),
    ]
}

/// The definitions of the provider, in order.
pub(crate) fn definitions(min_samples: u64) -> (r: Vec<MetricDef>)
    ensures
        views(r@) == all_defs(min_samples),
{
    broadcast use group_views;

    let mut out: Vec<MetricDef> = Vec::new();
    out.push(e2e_latency(min_samples));
    out.push(latency_stage(min_samples));
    out.push(latency_stage_share());
    out.push(latency_trace_rejected());
    out
}

/// The card of the provider.
pub open spec fn latency_card() -> CardView {
    let base = provider_card_view("metric/latency/decomposed"@, "1.0.0"@, CARD_PURPOSE@);
    CardView {
        equations: seq![EquationView { name: "e2e_latency"@, latex_or_text: "latency = t_delivered − t_origin = Σ over stages (t_end − t_start)"@ }, EquationView { name: "latency_stage_share"@, latex_or_text: "share(stage) = Σ_messages d(stage) / Σ_messages latency"@ }],
        parameters: statistics_parameters(),
        sources: seq![design_source(CARD_SOURCE_1@), plain_source(SourceKind::Standard, CARD_SOURCE_2@), plain_source(SourceKind::Standard, "IEEE 802.11-2020 §10.23.2 (EDCA: AIFS and backoff) for the three channel-access stages"@)],
        assumptions: base.assumptions,
        limitations: seq![CARD_LIMITATION_1@, CARD_LIMITATION_2@, CARD_LIMITATION_3@],
        ignores: seq!["The application's own processing after the message is handed to it."@],
        validation_tests: seq!["latency::tests::stages_sum_to_the_total_exactly"@, "latency::tests::a_trace_with_a_gap_is_rejected_and_counted"@],
        ..base
    }
}

/// The card of the provider.
pub(crate) fn build_card() -> (r: ModelCard)
    ensures
        r@ == latency_card(),
{
    let mut card = provider_card("metric/latency/decomposed", "1.0.0", CARD_PURPOSE);
    card.parameters = statistics_params();
    let card = card
        .with_equation("e2e_latency", "latency = t_delivered − t_origin = Σ over stages (t_end − t_start)")
        .with_equation("latency_stage_share", "share(stage) = Σ_messages d(stage) / Σ_messages latency")
        .with_source(design(CARD_SOURCE_1))
        .with_source(standard(CARD_SOURCE_2))
        .with_source(standard("IEEE 802.11-2020 §10.23.2 (EDCA: AIFS and backoff) for the three channel-access stages"))
        .limited_by(CARD_LIMITATION_1)
        .limited_by(CARD_LIMITATION_2)
        .limited_by(CARD_LIMITATION_3)
        .ignoring("The application's own processing after the message is handed to it.")
        .tested_by("latency::tests::stages_sum_to_the_total_exactly")
        .tested_by("latency::tests::a_trace_with_a_gap_is_rejected_and_counted");
    assert(card@ =~= latency_card());
    card
}

} // verus!
