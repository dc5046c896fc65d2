//! The awareness metrics: their definitions and their card.

use vstd::prelude::*;
use crate::basic::Visibility;
use crate::bins::Bins;
use crate::card::{group_views, views, CardView, EquationView, ModelCard, SourceKind};
use crate::cards::{design, design_source, paper, param, plain_source, provider_card, provider_card_view, ranged_parameter, statistics_parameters, statistics_params};
use crate::def::{bare_def, Agg, AggView, BreakdownView, DefView, Dim, MetricDef};
use crate::quant::{real_of, Quantum, Real};
use crate::text::texts;

verus! {

pub const AOI_DEFINITION: &'static str = "Age of information: how old, on average over time, the freshest message a receiver holds from each neighbour is. Integrated exactly between deliveries on every directed link and pooled over links.";

pub const AOI_PEAK_DEFINITION: &'static str = "Peak age of information: the age of a receiver's information about a sender just before a new message from it arrives.";

pub const NAR_DEFINITION: &'static str = "Neighbourhood awareness ratio: of the vehicles truly within R metres of each equipped vehicle, the fraction it has received a message from in the last second. Reported at R = 100 m and R = 300 m. Sampled at every mobility step and pooled over the window; the 95 % Wilson interval is computed on the number of distinct neighbour pairs, not on the samples, because one pair seen ten times is not ten independent observations — so a sparse run reports an estimate with a wide interval instead of refusing.";

pub const NAR_SOURCE: &'static str = "Boban and d'Orey, IEEE Trans. Veh. Technol. 65(6), 2016; 08-measurement-and-data.md §2.1; the interval: Brown, Cai, DasGupta, Statistical Science 16(2), 2001 (Wilson for small n) and Kish, Survey Sampling, 1965 (effective sample size of a clustered sample)";

pub const DELIVERY_RATIO_DEFINITION: &'static str = "Application-level packet delivery ratio: of the reception attempts at candidate receivers, the fraction that reached the receiver's applications — after the PHY, reassembly, the receive queue, the verification policy and the signature check. With no dimension over every distance; `dist_bin` in 50 m bins out to 1 km.";

pub const CARD_PURPOSE: &'static str = "Age of information per neighbour, neighbourhood awareness ratio and application-level delivery ratio by distance.";

pub const AOI_EQUATION: &'static str = "aoi = Σ_links ∫ (t − g(t)) dt / Σ_links ∫ dt over the intervals between deliveries; one interval [d(k−1), d(k)) contributes (d(k) − d(k−1)) · ((d(k−1) + d(k))/2 − g(k−1))";

pub const NAR_EQUATION: &'static str = "nar(R) = Σ_i |{j : ‖p_i − p_j‖ ≤ R, t − last_heard(i, j) ≤ T}| / Σ_i |{j : ‖p_i − p_j‖ ≤ R}|";

pub const AOI_RESTART_S_SOURCE: &'static str = "this crate's choice: a link unheard for longer than this starts a new encounter rather than extending one age sawtooth across the gap";

pub const CARD_SOURCE_1: &'static str = "Kaul, Gruteser, Rai, Kenney, 'Minimizing age of information in vehicular networks', IEEE SECON 2011 (age of information defined for beaconing)";

pub const CARD_SOURCE_2: &'static str = "Kaul, Yates, Gruteser, 'Real-time status: how often should one update?', IEEE INFOCOM 2012 (the time-average age as the area under the sawtooth)";

pub const CARD_SOURCE_3: &'static str = "Costa, Codreanu, Ephremides, 'On the age of information in status update systems with packet management', IEEE Trans. Inf. Theory 62(4), 2016 (peak age of information)";

pub const CARD_SOURCE_4: &'static str = "Boban and d'Orey, 'Exploring the practical limits of cooperative awareness in vehicular communications', IEEE Trans. Veh. Technol. 65(6), 2016 (neighbourhood awareness ratio). Cited from memory of the published definition; the exact equation number is unverified.";

pub const CARD_LIMITATION_1: &'static str = "aoi integrates only between deliveries on a link: the time after a link's last delivery, when its age keeps growing, is not counted until the next delivery (or at all, if there is none). A link that went silent therefore looks fresher than it was; nar is the metric that sees silence.";

pub const CARD_LIMITATION_2: &'static str = "nar counts vehicles whose true position is within R. A vehicle behind a building is a neighbour here even if no radio could reach it, which is the definition, not an error.";

pub const CARD_LIMITATION_3: &'static str = "Roadside units are neither counted as neighbours nor as receivers in nar, because they carry no gt.kinematics record.";

pub const CARD_LIMITATION_4: &'static str = "nar is sampled at every mobility step and its interval assumes the samples of one neighbour pair are fully correlated (the effective sample size is the number of distinct pairs, Kish 1965). That is the conservative extreme: the true interval is somewhat narrower. An instant is sampled when the next instant's first record arrives, so a delivery up to one step after it can count as heard.";

/// The definition of `aoi`.
pub open spec fn aoi_def() -> DefView {
    DefView {
        dims: seq![Dim::T],
        source: Some(plain_source(SourceKind::Paper, "Kaul, Gruteser, Rai, Kenney, IEEE SECON 2011; Kaul, Yates, Gruteser, IEEE INFOCOM 2012"@)),
        min_samples: 1,
        min_value: Some(real_of(0, 1)),
        max_value: None,
        not_accounted: seq!["the age after a link's last delivery, which keeps growing unseen"@, "pseudonym changes: links are keyed by the true sender"@],
        ..bare_def("aoi"@, "ms"@, AggView::Ratio { numerator: "Σ age × time"@, denominator: "Σ time"@ }, Visibility::NodeAndGt, 1_000, AOI_DEFINITION@)
    }
}

/// The definition of `aoi`.
pub(crate) fn aoi() -> (d: MetricDef)
    ensures
        d@ == aoi_def(),
{
    let dims: Vec<Dim> = vec![Dim::T];
    assert(dims@ =~= seq![Dim::T]);
    let d = MetricDef::new("aoi", "ms", Agg::ratio("Σ age × time", "Σ time"), Visibility::NodeAndGt, Quantum::time_ms(), AOI_DEFINITION)
        .with_dims(dims)
        .with_source(paper("Kaul, Gruteser, Rai, Kenney, IEEE SECON 2011; Kaul, Yates, Gruteser, IEEE INFOCOM 2012"))
        .with_min_samples(1)
        .with_range(Some(Real::whole(0)), None)
        .not_accounting_for("the age after a link's last delivery, which keeps growing unseen")
        .not_accounting_for("pseudonym changes: links are keyed by the true sender");
    assert(d@ =~= aoi_def());
    d
}

/// The definition of `aoi_peak`.
pub open spec fn aoi_peak_def(min_samples: u64) -> DefView {
    DefView {
        dims: seq![Dim::T],
        source: Some(plain_source(SourceKind::Paper, "Costa, Codreanu, Ephremides, IEEE Trans. Inf. Theory 62(4), 2016"@)),
        min_samples,
        min_value: Some(real_of(0, 1)),
        max_value: None,
        not_accounted: seq!["the first message on a link, which has no predecessor"@, "links restarted after a silence longer than aoi_restart_s"@],
        ..bare_def("aoi_peak"@, "ms"@, AggView::Distribution, Visibility::NodeAndGt, 1_000, AOI_PEAK_DEFINITION@)
    }
}

/// The definition of `aoi_peak`.
pub(crate) fn aoi_peak(min_samples: u64) -> (d: MetricDef)
    ensures
        d@ == aoi_peak_def(min_samples),
{
    let dims: Vec<Dim> = vec![Dim::T];
    assert(dims@ =~= seq![Dim::T]);
    let d = MetricDef::new("aoi_peak", "ms", Agg::Distribution, Visibility::NodeAndGt, Quantum::time_ms(), AOI_PEAK_DEFINITION)
        .with_dims(dims)
        .with_source(paper("Costa, Codreanu, Ephremides, IEEE Trans. Inf. Theory 62(4), 2016"))
        .with_min_samples(min_samples)
        .with_range(Some(Real::whole(0)), None)
        .not_accounting_for("the first message on a link, which has no predecessor")
        .not_accounting_for("links restarted after a silence longer than aoi_restart_s");
    assert(d@ =~= aoi_peak_def(min_samples));
    d
}

/// The definition of `nar`.
pub open spec fn nar_def() -> DefView {
    DefView {
        dims: seq![Dim::T, Dim::Radius],
        breakdown: seq![BreakdownView { dim: Dim::Radius, values: seq!["100m"@, "300m"@] }],
        only_broken_down: true,
        source: Some(plain_source(SourceKind::Paper, NAR_SOURCE@)),
        min_samples: 1,
        min_value: Some(real_of(0, 1)),
        max_value: Some(real_of(1, 1)),
        not_accounted: seq!["roadside units, which have no ground-truth kinematics"@, "whether the neighbour was reachable at all (it is counted either way)"@],
        ..bare_def("nar"@, "ratio"@, AggView::Ratio { numerator: "neighbours within R heard within T"@, denominator: "neighbours within R"@ }, Visibility::NodeAndGt, 10_000, NAR_DEFINITION@)
    }
}

/// The definition of `nar`.
pub(crate) fn nar() -> (d: MetricDef)
    ensures
        d@ == nar_def(),
{
    let dims: Vec<Dim> = vec![Dim::T, Dim::Radius];
    assert(dims@ =~= seq![Dim::T, Dim::Radius]);
    let values: Vec<String> = vec!["100m".to_owned(), "300m".to_owned()];
    assert(texts(values@) =~= seq!["100m"@, "300m"@]);
    let d = MetricDef::new("nar", "ratio", Agg::ratio("neighbours within R heard within T", "neighbours within R"), Visibility::NodeAndGt, Quantum::ratio(), NAR_DEFINITION)
        .with_dims(dims)
        .with_breakdown(Dim::Radius, values)
        .breakdown_only()
        .with_source(paper(NAR_SOURCE))
        .with_min_samples(1)
        .with_range(Some(Real::whole(0)), Some(Real::whole(1)))
        .not_accounting_for("roadside units, which have no ground-truth kinematics")
        .not_accounting_for("whether the neighbour was reachable at all (it is counted either way)");
    assert(d@ =~= nar_def());
    d
}

/// The definition of `delivery_ratio`.
pub open spec fn delivery_ratio_def(min_samples: u64, bins: Bins) -> DefView {
    DefView {
        dims: seq![Dim::T, Dim::DistBin],
        breakdown: seq![BreakdownView { dim: Dim::DistBin, values: every_label(bins) }],
        source: Some(design_source("08-measurement-and-data.md §2.1"@)),
        min_samples,
        min_value: Some(real_of(0, 1)),
        max_value: Some(real_of(1, 1)),
        not_accounted: seq!["attempts still in flight when the run ended"@, "receivers outside the engine's 1 km candidate range"@],
        ..bare_def("delivery_ratio"@, "ratio"@, AggView::Ratio { numerator: "messages delivered to the application"@, denominator: "attempts resolved"@ }, Visibility::NodeAndGt, 10_000, DELIVERY_RATIO_DEFINITION@)
    }
}

/// The definition of `delivery_ratio`.
pub(crate) fn delivery_ratio(min_samples: u64, bins: &Bins) -> (d: MetricDef)
    ensures
        d@ == delivery_ratio_def(min_samples, *bins),
{
    let dims: Vec<Dim> = vec![Dim::T, Dim::DistBin];
    assert(dims@ =~= seq![Dim::T, Dim::DistBin]);
    let values = bin_labels(bins);
    let d = MetricDef::new("delivery_ratio", "ratio", Agg::ratio("messages delivered to the application", "attempts resolved"), Visibility::NodeAndGt, Quantum::ratio(), DELIVERY_RATIO_DEFINITION)
        .with_dims(dims)
        .with_breakdown(Dim::DistBin, values)
        .with_source(design("08-measurement-and-data.md §2.1"))
        .with_min_samples(min_samples)
        .with_range(Some(Real::whole(0)), Some(Real::whole(1)))
        .not_accounting_for("attempts still in flight when the run ended")
        .not_accounting_for("receivers outside the engine's 1 km candidate range");
    assert(d@ =~= delivery_ratio_def(min_samples, *bins));
    d
}


/// The labels of all bins.
pub open spec fn every_label(bins: Bins) -> Seq<Seq<char>> {
    Seq::new(bins.edges().len(), |i: int| bins.label_text(i))
}

fn bin_labels(bins: &Bins) -> (r: Vec<String>)
    ensures
        texts(r@) == every_label(*bins),
{
    let n: usize = bins.len();
    let mut out: Vec<String> = Vec::new();
    let mut i: usize = 0;
    while i < n
        invariant
            n == bins.edges().len(),
            i <= n,
            texts(out@) =~= every_label(*bins).subrange(0, i as int),
        decreases n - i,
    {
        broadcast use group_views;

        out.push(bins.label(i));
        i = i + 1;
    }
    assert(every_label(*bins).subrange(0, n as int) =~= every_label(*bins));
    out
}

/// The definitions of the provider, in order.
pub open spec fn all_defs(min_samples: u64, bins: Bins) -> Seq<DefView> {
    seq![
        aoi_def(),
        aoi_peak_def(min_samples),
        nar_def(),
        delivery_ratio_def(min_samples, bins),
    ]
}

/// The definitions of the provider, in order.
pub(crate) fn definitions(min_samples: u64, bins: &Bins) -> (r: Vec<MetricDef>)
    ensures
        views(r@) == all_defs(min_samples, *bins),
{
    broadcast use group_views;

    let mut out: Vec<MetricDef> = Vec::new();
    out.push(aoi());
    out.push(aoi_peak(min_samples));
    out.push(nar());
    out.push(delivery_ratio(min_samples, bins));
    out
}

/// The card of the provider.
pub open spec fn awareness_card() -> CardView {
    let base = provider_card_view("metric/awareness/aoi-nar"@, "1.0.0"@, CARD_PURPOSE@);
    CardView {
        equations: seq![EquationView { name: "aoi"@, latex_or_text: AOI_EQUATION@ }, EquationView { name: "aoi_peak"@, latex_or_text: "peak(k) = d(k) − g(k−1)"@ }, EquationView { name: "nar"@, latex_or_text: NAR_EQUATION@ }, EquationView { name: "delivery_ratio"@, latex_or_text: "delivery_ratio = delivered / (delivered + lost), per 50 m distance bin"@ }],
        parameters: statistics_parameters().push(ranged_parameter("nar_horizon_s"@, "s"@, "1.0"@, "0.1"@, "10.0"@, design_source("08-measurement-and-data.md §2.1 (nar: T = 1 s)"@), None)).push(ranged_parameter("aoi_restart_s"@, "s"@, "10.0"@, "1.0"@, "3600.0"@, design_source(AOI_RESTART_S_SOURCE@), None)),
        sources: seq![plain_source(SourceKind::Paper, CARD_SOURCE_1@), plain_source(SourceKind::Paper, CARD_SOURCE_2@), plain_source(SourceKind::Paper, CARD_SOURCE_3@), plain_source(SourceKind::Paper, CARD_SOURCE_4@), design_source("08-measurement-and-data.md §2.1 (nar, r = 100–300 m, T = 1 s)"@)],
        assumptions: base.assumptions,
        limitations: seq![CARD_LIMITATION_1@, CARD_LIMITATION_2@, CARD_LIMITATION_3@, CARD_LIMITATION_4@],
        ignores: seq!["Pseudonym changes: every metric here pairs on the sender's true node id."@],
        validation_tests: seq!["awareness::tests::aoi_of_a_periodic_link_is_half_the_period_plus_the_delay"@, "awareness::tests::nar_counts_heard_neighbours_within_the_radius"@],
        ..base
    }
}

/// The card of the provider.
pub(crate) fn build_card() -> (r: ModelCard)
    ensures
        r@ == awareness_card(),
{
    let mut card = provider_card("metric/awareness/aoi-nar", "1.0.0", CARD_PURPOSE);
    card.parameters = statistics_params();
    let card = card
        .with_equation("aoi", AOI_EQUATION)
        .with_equation("aoi_peak", "peak(k) = d(k) − g(k−1)")
        .with_equation("nar", NAR_EQUATION)
        .with_equation("delivery_ratio", "delivery_ratio = delivered / (delivered + lost), per 50 m distance bin")
        .with_parameter(param("nar_horizon_s", "s", "1.0", "0.1", "10.0", design("08-measurement-and-data.md §2.1 (nar: T = 1 s)")))
        .with_parameter(param("aoi_restart_s", "s", "10.0", "1.0", "3600.0", design(AOI_RESTART_S_SOURCE)))
        .with_source(paper(CARD_SOURCE_1))
        .with_source(paper(CARD_SOURCE_2))
        .with_source(paper(CARD_SOURCE_3))
        .with_source(paper(CARD_SOURCE_4))
        .with_source(design("08-measurement-and-data.md §2.1 (nar, r = 100–300 m, T = 1 s)"))
        .limited_by(CARD_LIMITATION_1)
        .limited_by(CARD_LIMITATION_2)
        .limited_by(CARD_LIMITATION_3)
        .limited_by(CARD_LIMITATION_4)
        .ignoring("Pseudonym changes: every metric here pairs on the sender's true node id.")
        .tested_by("awareness::tests::aoi_of_a_periodic_link_is_half_the_period_plus_the_delay")
        .tested_by("awareness::tests::nar_counts_heard_neighbours_within_the_radius");
    assert(card@ =~= awareness_card());
    card
}

} // verus!
