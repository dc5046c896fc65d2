//! The fragmentation metrics: their definitions and their card.

use vstd::prelude::*;
use crate::basic::Visibility;
use crate::card::{group_views, views, CardView, EquationView, ModelCard, SourceKind};
use crate::cards::{design, design_source, plain_source, provider_card, provider_card_view, standard, statistics_parameters, statistics_params};
use crate::def::{bare_def, Agg, AggView, DefView, Dim, MetricDef};
use crate::quant::{real_of, Quantum, Real};

verus! {

pub const FRAG_SDU_LOSS_DEFINITION: &'static str = "The share of fragmented SDUs, per receiver that had any of their fragments in range, of which some fragment did not decode — the SDU's loss when the pieces mean nothing alone.";

pub const FRAG_SDU_LOSS_PREDICTED_DEFINITION: &'static str = "The SDU loss 04-models.md §7.4 predicts from each fragment's PHY success probability at that receiver, if fragments were lost independently.";

pub const FRAG_FRAGMENT_LOSS_DEFINITION: &'static str = "The share of the fragments of attempted SDUs that did not decode at the receiver: the per-fragment loss the SDU loss amplifies.";

pub const FRAG_CONTENT_LOSS_DEFINITION: &'static str = "The share of the fragmented SDUs' payload that did not reach the receiver, which is what independently interpretable segments lose instead of whole messages.";

pub const FRAG_CONTENT_LOSS_PREDICTED_DEFINITION: &'static str = "The content loss 04-models.md §7.4 predicts from each fragment's PHY success probability, weighted by its share of the payload.";

pub const FRAG_SDU_LOSS_INDEPENDENT_DEFINITION: &'static str = "The SDU loss if every fragment were lost independently at the window's own measured per-fragment loss rate p̂ (frag_fragment_loss): the textbook 1 − (1 − p)^n of 04-models.md §7.4. Realised SDU loss below it means the fragments of one SDU tend to be lost together.";

pub const CARD_PURPOSE: &'static str = "Realised loss of fragmented SDUs, of their fragments and of their content, beside the loss the per-fragment PHY success probabilities predict under independent fragment loss (04-models.md §7.4).";

pub const CARD_SOURCE_2: &'static str = "IEEE 802.11-2020 §10.2.7: group-addressed frames are neither acknowledged nor retransmitted, so a lost broadcast fragment stays lost";

pub const CARD_LIMITATION_1: &'static str = "A group is recorded only at a receiver that had at least one of its fragments in its arrival set; a receiver that heard none of them is not an attempt.";

pub const CARD_LIMITATION_2: &'static str = "The per-fragment probability is the PHY's success probability under the interference present during that fragment; under the hard-threshold capture rule it is still the error model's, not the rule's 0/1.";

/// The definition of `frag_sdu_loss`.
pub open spec fn frag_sdu_loss_def() -> DefView {
    DefView {
        dims: seq![Dim::T, Dim::MsgType],
        source: Some(design_source("04-models.md §7.4"@)),
        min_samples: 1,
        min_value: Some(real_of(0, 1)),
        max_value: Some(real_of(1, 1)),
        not_accounted: seq!["losses above reassembly (queue, verification), on node.rx"@],
        ..bare_def("frag_sdu_loss"@, "ratio"@, AggView::Ratio { numerator: "fragmented SDUs with a fragment that did not decode"@, denominator: "fragmented SDUs attempted"@ }, Visibility::Gt, 10_000, FRAG_SDU_LOSS_DEFINITION@)
    }
}

/// The definition of `frag_sdu_loss`.
pub(crate) fn frag_sdu_loss() -> (d: MetricDef)
    ensures
        d@ == frag_sdu_loss_def(),
{
    let dims: Vec<Dim> = vec![Dim::T, Dim::MsgType];
    assert(dims@ =~= seq![Dim::T, Dim::MsgType]);
    let d = MetricDef::new("frag_sdu_loss", "ratio", Agg::ratio("fragmented SDUs with a fragment that did not decode", "fragmented SDUs attempted"), Visibility::Gt, Quantum::ratio(), FRAG_SDU_LOSS_DEFINITION)
        .with_dims(dims)
        .with_source(design("04-models.md §7.4"))
        .with_min_samples(1)
        .with_range(Some(Real::whole(0)), Some(Real::whole(1)))
        .not_accounting_for("losses above reassembly (queue, verification), on node.rx");
    assert(d@ =~= frag_sdu_loss_def());
    d
}

/// The definition of `frag_sdu_loss_predicted`.
pub open spec fn frag_sdu_loss_predicted_def() -> DefView {
    DefView {
        dims: seq![Dim::T, Dim::MsgType],
        source: Some(design_source("04-models.md §7.4"@)),
        min_samples: 1,
        min_value: Some(real_of(0, 1)),
        max_value: Some(real_of(1, 1)),
        not_accounted: seq!["correlation between fragments, which is what the gap shows"@],
        ..bare_def("frag_sdu_loss_predicted"@, "ratio"@, AggView::Ratio { numerator: "Σ (1 − Π (1 − p_i))"@, denominator: "fragmented SDUs attempted"@ }, Visibility::Gt, 10_000, FRAG_SDU_LOSS_PREDICTED_DEFINITION@)
    }
}

/// The definition of `frag_sdu_loss_predicted`.
pub(crate) fn frag_sdu_loss_predicted() -> (d: MetricDef)
    ensures
        d@ == frag_sdu_loss_predicted_def(),
{
    let dims: Vec<Dim> = vec![Dim::T, Dim::MsgType];
    assert(dims@ =~= seq![Dim::T, Dim::MsgType]);
    let d = MetricDef::new("frag_sdu_loss_predicted", "ratio", Agg::ratio("Σ (1 − Π (1 − p_i))", "fragmented SDUs attempted"), Visibility::Gt, Quantum::ratio(), FRAG_SDU_LOSS_PREDICTED_DEFINITION)
        .with_dims(dims)
        .with_source(design("04-models.md §7.4"))
        .with_min_samples(1)
        .with_range(Some(Real::whole(0)), Some(Real::whole(1)))
        .not_accounting_for("correlation between fragments, which is what the gap shows");
    assert(d@ =~= frag_sdu_loss_predicted_def());
    d
}

/// The definition of `frag_fragment_loss`.
pub open spec fn frag_fragment_loss_def() -> DefView {
    DefView {
        dims: seq![Dim::T, Dim::MsgType],
        source: Some(design_source("04-models.md §7.4"@)),
        min_samples: 1,
        min_value: Some(real_of(0, 1)),
        max_value: Some(real_of(1, 1)),
        not_accounted: seq!["fragments of SDUs no fragment of which reached the receiver"@],
        ..bare_def("frag_fragment_loss"@, "ratio"@, AggView::Ratio { numerator: "fragments that did not decode"@, denominator: "fragments of attempted SDUs"@ }, Visibility::Gt, 10_000, FRAG_FRAGMENT_LOSS_DEFINITION@)
    }
}

/// The definition of `frag_fragment_loss`.
pub(crate) fn frag_fragment_loss() -> (d: MetricDef)
    ensures
        d@ == frag_fragment_loss_def(),
{
    let dims: Vec<Dim> = vec![Dim::T, Dim::MsgType];
    assert(dims@ =~= seq![Dim::T, Dim::MsgType]);
    let d = MetricDef::new("frag_fragment_loss", "ratio", Agg::ratio("fragments that did not decode", "fragments of attempted SDUs"), Visibility::Gt, Quantum::ratio(), FRAG_FRAGMENT_LOSS_DEFINITION)
        .with_dims(dims)
        .with_source(design("04-models.md §7.4"))
        .with_min_samples(1)
        .with_range(Some(Real::whole(0)), Some(Real::whole(1)))
        .not_accounting_for("fragments of SDUs no fragment of which reached the receiver");
    assert(d@ =~= frag_fragment_loss_def());
    d
}

/// The definition of `frag_content_loss`.
pub open spec fn frag_content_loss_def() -> DefView {
    DefView {
        dims: seq![Dim::T, Dim::MsgType],
        source: Some(design_source("04-models.md §7.4"@)),
        min_samples: 1,
        min_value: Some(real_of(0, 1)),
        max_value: Some(real_of(1, 1)),
        not_accounted: seq!["content a decoded piece carried of an SDU never reassembled"@],
        ..bare_def("frag_content_loss"@, "ratio"@, AggView::Ratio { numerator: "Σ payload octets of fragments that did not decode"@, denominator: "Σ payload octets of attempted SDUs"@ }, Visibility::Gt, 10_000, FRAG_CONTENT_LOSS_DEFINITION@)
    }
}

/// The definition of `frag_content_loss`.
pub(crate) fn frag_content_loss() -> (d: MetricDef)
    ensures
        d@ == frag_content_loss_def(),
{
    let dims: Vec<Dim> = vec![Dim::T, Dim::MsgType];
    assert(dims@ =~= seq![Dim::T, Dim::MsgType]);
    let d = MetricDef::new("frag_content_loss", "ratio", Agg::ratio("Σ payload octets of fragments that did not decode", "Σ payload octets of attempted SDUs"), Visibility::Gt, Quantum::ratio(), FRAG_CONTENT_LOSS_DEFINITION)
        .with_dims(dims)
        .with_source(design("04-models.md §7.4"))
        .with_min_samples(1)
        .with_range(Some(Real::whole(0)), Some(Real::whole(1)))
        .not_accounting_for("content a decoded piece carried of an SDU never reassembled");
    assert(d@ =~= frag_content_loss_def());
    d
}

/// The definition of `frag_content_loss_predicted`.
pub open spec fn frag_content_loss_predicted_def() -> DefView {
    DefView {
        dims: seq![Dim::T, Dim::MsgType],
        source: Some(design_source("04-models.md §7.4"@)),
        min_samples: 1,
        min_value: Some(real_of(0, 1)),
        max_value: Some(real_of(1, 1)),
        not_accounted: seq!["correlation between fragments"@],
        ..bare_def("frag_content_loss_predicted"@, "ratio"@, AggView::Ratio { numerator: "Σ Σ_i w_i p_i"@, denominator: "fragmented SDUs attempted"@ }, Visibility::Gt, 10_000, FRAG_CONTENT_LOSS_PREDICTED_DEFINITION@)
    }
}

/// The definition of `frag_content_loss_predicted`.
pub(crate) fn frag_content_loss_predicted() -> (d: MetricDef)
    ensures
        d@ == frag_content_loss_predicted_def(),
{
    let dims: Vec<Dim> = vec![Dim::T, Dim::MsgType];
    assert(dims@ =~= seq![Dim::T, Dim::MsgType]);
    let d = MetricDef::new("frag_content_loss_predicted", "ratio", Agg::ratio("Σ Σ_i w_i p_i", "fragmented SDUs attempted"), Visibility::Gt, Quantum::ratio(), FRAG_CONTENT_LOSS_PREDICTED_DEFINITION)
        .with_dims(dims)
        .with_source(design("04-models.md §7.4"))
        .with_min_samples(1)
        .with_range(Some(Real::whole(0)), Some(Real::whole(1)))
        .not_accounting_for("correlation between fragments");
    assert(d@ =~= frag_content_loss_predicted_def());
    d
}

/// The definition of `frag_sdu_loss_independent`.
pub open spec fn frag_sdu_loss_independent_def() -> DefView {
    DefView {
        dims: seq![Dim::T, Dim::MsgType],
        source: Some(design_source("04-models.md §7.4"@)),
        min_samples: 1,
        min_value: Some(real_of(0, 1)),
        max_value: Some(real_of(1, 1)),
        not_accounted: seq!["the per-fragment loss's dependence on distance and size"@],
        ..bare_def("frag_sdu_loss_independent"@, "ratio"@, AggView::Ratio { numerator: "Σ (1 − (1 − p̂)^n_g)"@, denominator: "fragmented SDUs attempted"@ }, Visibility::Gt, 10_000, FRAG_SDU_LOSS_INDEPENDENT_DEFINITION@)
    }
}

/// The definition of `frag_sdu_loss_independent`.
pub(crate) fn frag_sdu_loss_independent() -> (d: MetricDef)
    ensures
        d@ == frag_sdu_loss_independent_def(),
{
    let dims: Vec<Dim> = vec![Dim::T, Dim::MsgType];
    assert(dims@ =~= seq![Dim::T, Dim::MsgType]);
    let d = MetricDef::new("frag_sdu_loss_independent", "ratio", Agg::ratio("Σ (1 − (1 − p̂)^n_g)", "fragmented SDUs attempted"), Visibility::Gt, Quantum::ratio(), FRAG_SDU_LOSS_INDEPENDENT_DEFINITION)
        .with_dims(dims)
        .with_source(design("04-models.md §7.4"))
        .with_min_samples(1)
        .with_range(Some(Real::whole(0)), Some(Real::whole(1)))
        .not_accounting_for("the per-fragment loss's dependence on distance and size");
    assert(d@ =~= frag_sdu_loss_independent_def());
    d
}


/// The definitions of the provider, in order.
pub open spec fn all_defs() -> Seq<DefView> {
    seq![
        frag_sdu_loss_def(),
        frag_sdu_loss_predicted_def(),
        frag_fragment_loss_def(),
        frag_content_loss_def(),
        frag_content_loss_predicted_def(),
        frag_sdu_loss_independent_def(),
    ]
}

/// The definitions of the provider, in order.
pub(crate) fn definitions() -> (r: Vec<MetricDef>)
    ensures
        views(r@) == all_defs(),
{
    broadcast use group_views;

    let mut out: Vec<MetricDef> = Vec::new();
    out.push(frag_sdu_loss());
    out.push(frag_sdu_loss_predicted());
    out.push(frag_fragment_loss());
    out.push(frag_content_loss());
    out.push(frag_content_loss_predicted());
    out.push(frag_sdu_loss_independent());
    out
}

/// The card of the provider.
pub open spec fn frag_card() -> CardView {
    let base = provider_card_view("metric/net/fragmentation"@, "1.0.0"@, CARD_PURPOSE@);
    CardView {
        equations: seq![EquationView { name: "frag_sdu_loss_predicted"@, latex_or_text: "mean over (SDU, receiver) of 1 − Π_i (1 − p_i), p_i = 1 − PSR_i"@ }, EquationView { name: "frag_content_loss_predicted"@, latex_or_text: "mean over (SDU, receiver) of Σ_i w_i p_i, w_i = payload_i / payload"@ }],
        parameters: statistics_parameters(),
        sources: seq![design_source("04-models.md §7.3 (the strategies) and §7.4 (loss amplification)"@), plain_source(SourceKind::Standard, CARD_SOURCE_2@)],
        assumptions: base.assumptions,
        limitations: seq![CARD_LIMITATION_1@, CARD_LIMITATION_2@],
        ignores: seq![],
        validation_tests: seq!["frag::tests::a_group_lost_to_one_fragment_amplifies_the_fragment_loss"@, "frag::tests::segments_lose_content_not_messages"@],
        ..base
    }
}

/// The card of the provider.
pub(crate) fn build_card() -> (r: ModelCard)
    ensures
        r@ == frag_card(),
{
    let mut card = provider_card("metric/net/fragmentation", "1.0.0", CARD_PURPOSE);
    card.parameters = statistics_params();
    let card = card
        .with_equation("frag_sdu_loss_predicted", "mean over (SDU, receiver) of 1 − Π_i (1 − p_i), p_i = 1 − PSR_i")
        .with_equation("frag_content_loss_predicted", "mean over (SDU, receiver) of Σ_i w_i p_i, w_i = payload_i / payload")
        .with_source(design("04-models.md §7.3 (the strategies) and §7.4 (loss amplification)"))
        .with_source(standard(CARD_SOURCE_2))
        .limited_by(CARD_LIMITATION_1)
        .limited_by(CARD_LIMITATION_2)
        .tested_by("frag::tests::a_group_lost_to_one_fragment_amplifies_the_fragment_loss")
        .tested_by("frag::tests::segments_lose_content_not_messages");
    assert(card@ =~= frag_card());
    card
}

} // verus!
