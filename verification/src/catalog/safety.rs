//! The mobility and safety metrics: their definitions and their card.

use vstd::prelude::*;
use crate::basic::Visibility;
use crate::card::{group_views, views, CardView, EquationView, ModelCard, SourceKind};
use crate::cards::{design, design_source, paper, param, param_todo, plain_source, provider_card, provider_card_view, ranged_parameter, statistics_parameters, statistics_params};
use crate::def::{bare_def, Agg, AggView, DefView, Dim, MetricDef};
use crate::quant::Quantum;

verus! {

pub const TTC_MIN_DEFINITION: &'static str = "Time to collision for a closing same-lane pair: `gap / (v_follower − v_leader)`, sampled at every mobility step. Reported as a distribution; the minimum of the run is its `min`.";

pub const TTC_CONFLICTS_DEFINITION: &'static str = "Same-lane pair-steps whose time to collision is below the 1.5 s threshold (the one verified threshold in 04-models.md §11). The comparison is made on the quantised value, so a boundary case cannot flip between platforms.";

pub const PET_DEFINITION: &'static str = "Post-encroachment time: the interval between one actor leaving a position and a different actor arriving at it, resolved to cells of `pet_cell_m`.";

pub const DRAC_DEFINITION: &'static str = "The deceleration rate required to avoid the crash: `(v_follower − v_leader)² / (2·gap)` for a closing same-lane pair.";

pub const HEADWAY_TIME_DEFINITION: &'static str = "Time headway: the gap to the leader divided by the follower's speed.";

pub const HEADWAY_DISTANCE_DEFINITION: &'static str = "Distance headway: the difference of lane positions between a follower and its leader.";

pub const FLOW_DEFINITION: &'static str = "Edie's flow over the window and the lane: `Σ v·Δt / (L·T)`, in veh/h.";

pub const DENSITY_DEFINITION: &'static str = "Edie's density over the window and the lane: `Σ Δt / (L·T)`, in veh/km.";

pub const MEAN_SPEED_DEFINITION: &'static str = "The **space**-mean speed, `q / k` — not the time-mean speed, which is 6–12 % higher on a mixed-speed signalised dataset (Wardrop 1952).";

pub const SPEED_DEFINITION: &'static str = "The distribution of sampled actor speeds over the window.";

pub const ACCELERATION_DEFINITION: &'static str = "The distribution of sampled actor accelerations over the window.";

pub const CARD_PURPOSE: &'static str = "Surrogate safety measures (time to collision, post-encroachment time, deceleration rate to avoid the crash), headway distributions, Edie's fundamental-diagram aggregates, and the speed and acceleration distributions.";

pub const TTC_EQUATION: &'static str = "ttc = gap / (v_follower − v_leader) for a closing same-lane pair; gap is the difference of reported lane positions, so vehicle length is not subtracted";

pub const PET_EQUATION: &'static str = "pet = t(actor B enters cell) − t(actor A left cell) for A ≠ B, over cells of pet_cell_m metres";

pub const TTC_THRESHOLD_S_SOURCE: &'static str = "FHWA-HRT-08-051 (SSAM): TTC threshold 1.5 s, the one verified surrogate threshold in 04-models.md §11";

pub const SAMPLE_INTERVAL_S_SOURCE: &'static str = "03-interfaces.md §13 (time.mobility_step_ms, default 100 ms): Edie's definitions weight every sample by this interval";

pub const PET_CELL_M_PLAN: &'static str = "Compare the cell-based PET distribution against a trajectory-intersection PET on the same recording for cell sizes 0.5, 1 and 2 m, and pick the largest size whose p50 and p95 agree with the intersection method within 5 %.";

pub const PET_HORIZON_S_PLAN: &'static str = "04-models.md §11 records the PET threshold as UNVERIFIED (commonly < 5 s, not confirmed). Plan: read FHWA-HRT-08-050 §3 and replace this default with the sourced number.";

pub const CARD_SOURCE_4: &'static str = "L. C. Edie, Discussion of traffic stream measurements and definitions, Proc. 2nd Int. Symp. on the Theory of Traffic Flow, 1963";

pub const CARD_SOURCE_6: &'static str = "J. G. Wardrop, 1952, via FHWA Traffic Flow Theory ch. 2: the time-mean versus space-mean speed difference this provider avoids by reporting the space-mean";

pub const CARD_LIMITATION_1: &'static str = "TTC, DRAC and the headways are computed between reported lane positions, so vehicle length is not subtracted: every gap is longer than the bumper-to-bumper gap and every TTC is correspondingly optimistic.";

pub const CARD_LIMITATION_2: &'static str = "Only same-lane, same-direction conflicts are found by the pairing. Crossing conflicts are covered, approximately, by the cell-based PET and not by TTC.";

pub const CARD_LIMITATION_3: &'static str = "PET is cell-based: it finds a shared position to within pet_cell_m and says nothing about the conflict angle. The cell size is a todo-calibrate parameter.";

pub const CARD_LIMITATION_4: &'static str = "The speed and acceleration distributions are time-sampled, so they are weighted by how long each vehicle spent at each speed. A stopped vehicle dominates them.";

pub const CARD_LIMITATION_5: &'static str = "Edie's aggregates need the lane's length, which the run declares. Undeclared lanes are excluded and counted.";

pub const CARD_IGNORES_1: &'static str = "Lane changes as conflicts: a vehicle moving between lanes leaves one pairing and joins another, and the transition itself is not measured.";

/// The definition of `ttc_min`.
pub open spec fn ttc_min_def(min_samples: u64) -> DefView {
    DefView {
        dims: seq![Dim::T],
        source: Some(plain_source(SourceKind::Paper, "FHWA-HRT-08-051 (SSAM); 04-models.md §11"@)),
        min_samples,
        not_accounted: seq!["vehicle length: the gap is between reported lane positions"@, "crossing conflicts, which need trajectory intersection"@, "a pair that is not closing, which has no time to collision"@],
        ..bare_def("ttc_min"@, "s"@, AggView::Distribution, Visibility::Gt, 1_000, TTC_MIN_DEFINITION@)
    }
}

/// The definition of `ttc_min`.
pub(crate) fn ttc_min(min_samples: u64) -> (d: MetricDef)
    ensures
        d@ == ttc_min_def(min_samples),
{
    let dims: Vec<Dim> = vec![Dim::T];
    assert(dims@ =~= seq![Dim::T]);
    let d = MetricDef::new("ttc_min", "s", Agg::Distribution, Visibility::Gt, Quantum::time_s(), TTC_MIN_DEFINITION)
        .with_dims(dims)
        .with_source(paper("FHWA-HRT-08-051 (SSAM); 04-models.md §11"))
        .with_min_samples(min_samples)
        .not_accounting_for("vehicle length: the gap is between reported lane positions")
        .not_accounting_for("crossing conflicts, which need trajectory intersection")
        .not_accounting_for("a pair that is not closing, which has no time to collision");
    assert(d@ =~= ttc_min_def(min_samples));
    d
}

/// The definition of `ttc_conflicts`.
pub open spec fn ttc_conflicts_def() -> DefView {
    DefView {
        dims: seq![Dim::T],
        source: Some(plain_source(SourceKind::Paper, "FHWA-HRT-08-051 (SSAM); 04-models.md §11"@)),
        min_samples: 1,
        not_accounted: seq!["distinct conflicts: a pair closing for ten steps counts ten times"@, "the threshold's own uncertainty"@],
        ..bare_def("ttc_conflicts"@, "count"@, AggView::Count, Visibility::Gt, 1_000, TTC_CONFLICTS_DEFINITION@)
    }
}

/// The definition of `ttc_conflicts`.
pub(crate) fn ttc_conflicts() -> (d: MetricDef)
    ensures
        d@ == ttc_conflicts_def(),
{
    let dims: Vec<Dim> = vec![Dim::T];
    assert(dims@ =~= seq![Dim::T]);
    let d = MetricDef::new("ttc_conflicts", "count", Agg::Count, Visibility::Gt, Quantum::count(), TTC_CONFLICTS_DEFINITION)
        .with_dims(dims)
        .with_source(paper("FHWA-HRT-08-051 (SSAM); 04-models.md §11"))
        .with_min_samples(1)
        .not_accounting_for("distinct conflicts: a pair closing for ten steps counts ten times")
        .not_accounting_for("the threshold's own uncertainty");
    assert(d@ =~= ttc_conflicts_def());
    d
}

/// The definition of `pet`.
pub open spec fn pet_def(min_samples: u64) -> DefView {
    DefView {
        dims: seq![Dim::T],
        source: Some(plain_source(SourceKind::Paper, "FHWA-HRT-08-051 (SSAM); 04-models.md §11"@)),
        min_samples,
        not_accounted: seq!["the conflict angle"@, "vehicle extent beyond one cell"@, "a cell revisited by the same actor, which is not a conflict"@],
        ..bare_def("pet"@, "s"@, AggView::Distribution, Visibility::Gt, 1_000, PET_DEFINITION@)
    }
}

/// The definition of `pet`.
pub(crate) fn pet(min_samples: u64) -> (d: MetricDef)
    ensures
        d@ == pet_def(min_samples),
{
    let dims: Vec<Dim> = vec![Dim::T];
    assert(dims@ =~= seq![Dim::T]);
    let d = MetricDef::new("pet", "s", Agg::Distribution, Visibility::Gt, Quantum::time_s(), PET_DEFINITION)
        .with_dims(dims)
        .with_source(paper("FHWA-HRT-08-051 (SSAM); 04-models.md §11"))
        .with_min_samples(min_samples)
        .not_accounting_for("the conflict angle")
        .not_accounting_for("vehicle extent beyond one cell")
        .not_accounting_for("a cell revisited by the same actor, which is not a conflict");
    assert(d@ =~= pet_def(min_samples));
    d
}

/// The definition of `drac`.
pub open spec fn drac_def(min_samples: u64) -> DefView {
    DefView {
        dims: seq![Dim::T],
        source: Some(plain_source(SourceKind::Paper, "FHWA-HRT-08-051 (SSAM); 04-models.md §11"@)),
        min_samples,
        not_accounted: seq!["the follower's braking capability or the road surface"@, "vehicle length, as with ttc_min"@],
        ..bare_def("drac"@, "m/s²"@, AggView::Distribution, Visibility::Gt, 1_000, DRAC_DEFINITION@)
    }
}

/// The definition of `drac`.
pub(crate) fn drac(min_samples: u64) -> (d: MetricDef)
    ensures
        d@ == drac_def(min_samples),
{
    let dims: Vec<Dim> = vec![Dim::T];
    assert(dims@ =~= seq![Dim::T]);
    let d = MetricDef::new("drac", "m/s²", Agg::Distribution, Visibility::Gt, Quantum::speed(), DRAC_DEFINITION)
        .with_dims(dims)
        .with_source(paper("FHWA-HRT-08-051 (SSAM); 04-models.md §11"))
        .with_min_samples(min_samples)
        .not_accounting_for("the follower's braking capability or the road surface")
        .not_accounting_for("vehicle length, as with ttc_min");
    assert(d@ =~= drac_def(min_samples));
    d
}

/// The definition of `headway_time`.
pub open spec fn headway_time_def(min_samples: u64) -> DefView {
    DefView {
        dims: seq![Dim::T],
        source: Some(design_source("08-measurement-and-data.md §2.5"@)),
        min_samples,
        not_accounted: seq!["a stopped follower, which contributes no sample"@, "vehicle length"@],
        ..bare_def("headway_time"@, "s"@, AggView::Distribution, Visibility::Gt, 1_000, HEADWAY_TIME_DEFINITION@)
    }
}

/// The definition of `headway_time`.
pub(crate) fn headway_time(min_samples: u64) -> (d: MetricDef)
    ensures
        d@ == headway_time_def(min_samples),
{
    let dims: Vec<Dim> = vec![Dim::T];
    assert(dims@ =~= seq![Dim::T]);
    let d = MetricDef::new("headway_time", "s", Agg::Distribution, Visibility::Gt, Quantum::time_s(), HEADWAY_TIME_DEFINITION)
        .with_dims(dims)
        .with_source(design("08-measurement-and-data.md §2.5"))
        .with_min_samples(min_samples)
        .not_accounting_for("a stopped follower, which contributes no sample")
        .not_accounting_for("vehicle length");
    assert(d@ =~= headway_time_def(min_samples));
    d
}

/// The definition of `headway_distance`.
pub open spec fn headway_distance_def(min_samples: u64) -> DefView {
    DefView {
        dims: seq![Dim::T],
        source: Some(design_source("08-measurement-and-data.md §2.5"@)),
        min_samples,
        not_accounted: seq!["vehicle length, so this is centre-to-centre, not gap"@, "vehicles on other lanes"@],
        ..bare_def("headway_distance"@, "m"@, AggView::Distribution, Visibility::Gt, 1_000, HEADWAY_DISTANCE_DEFINITION@)
    }
}

/// The definition of `headway_distance`.
pub(crate) fn headway_distance(min_samples: u64) -> (d: MetricDef)
    ensures
        d@ == headway_distance_def(min_samples),
{
    let dims: Vec<Dim> = vec![Dim::T];
    assert(dims@ =~= seq![Dim::T]);
    let d = MetricDef::new("headway_distance", "m", Agg::Distribution, Visibility::Gt, Quantum::length_m(), HEADWAY_DISTANCE_DEFINITION)
        .with_dims(dims)
        .with_source(design("08-measurement-and-data.md §2.5"))
        .with_min_samples(min_samples)
        .not_accounting_for("vehicle length, so this is centre-to-centre, not gap")
        .not_accounting_for("vehicles on other lanes");
    assert(d@ =~= headway_distance_def(min_samples));
    d
}

/// The definition of `flow`.
pub open spec fn flow_def() -> DefView {
    DefView {
        dims: seq![Dim::T, Dim::Region],
        source: Some(plain_source(SourceKind::Paper, "L. C. Edie 1963; FHWA Traffic Flow Theory ch. 2; 04-models.md §2.9"@)),
        min_samples: 1,
        not_accounted: seq!["lanes whose length the run did not declare"@, "the lane's capacity, which is a property of the road"@],
        ..bare_def("flow"@, "veh/h"@, AggView::Rate, Visibility::Gt, 1_000, FLOW_DEFINITION@)
    }
}

/// The definition of `flow`.
pub(crate) fn flow() -> (d: MetricDef)
    ensures
        d@ == flow_def(),
{
    let dims: Vec<Dim> = vec![Dim::T, Dim::Region];
    assert(dims@ =~= seq![Dim::T, Dim::Region]);
    let d = MetricDef::new("flow", "veh/h", Agg::Rate, Visibility::Gt, Quantum::traffic(), FLOW_DEFINITION)
        .with_dims(dims)
        .with_source(paper("L. C. Edie 1963; FHWA Traffic Flow Theory ch. 2; 04-models.md §2.9"))
        .with_min_samples(1)
        .not_accounting_for("lanes whose length the run did not declare")
        .not_accounting_for("the lane's capacity, which is a property of the road");
    assert(d@ =~= flow_def());
    d
}

/// The definition of `density`.
pub open spec fn density_def() -> DefView {
    DefView {
        dims: seq![Dim::T, Dim::Region],
        source: Some(plain_source(SourceKind::Paper, "L. C. Edie 1963; FHWA Traffic Flow Theory ch. 2; 04-models.md §2.9"@)),
        min_samples: 1,
        not_accounted: seq!["lanes whose length the run did not declare"@, "vehicle length, so this is a count density, not an occupancy"@],
        ..bare_def("density"@, "veh/km"@, AggView::Rate, Visibility::Gt, 1_000, DENSITY_DEFINITION@)
    }
}

/// The definition of `density`.
pub(crate) fn density() -> (d: MetricDef)
    ensures
        d@ == density_def(),
{
    let dims: Vec<Dim> = vec![Dim::T, Dim::Region];
    assert(dims@ =~= seq![Dim::T, Dim::Region]);
    let d = MetricDef::new("density", "veh/km", Agg::Rate, Visibility::Gt, Quantum::traffic(), DENSITY_DEFINITION)
        .with_dims(dims)
        .with_source(paper("L. C. Edie 1963; FHWA Traffic Flow Theory ch. 2; 04-models.md §2.9"))
        .with_min_samples(1)
        .not_accounting_for("lanes whose length the run did not declare")
        .not_accounting_for("vehicle length, so this is a count density, not an occupancy");
    assert(d@ =~= density_def());
    d
}

/// The definition of `mean_speed`.
pub open spec fn mean_speed_def() -> DefView {
    DefView {
        dims: seq![Dim::T, Dim::Region],
        source: Some(plain_source(SourceKind::Paper, "L. C. Edie 1963; FHWA Traffic Flow Theory ch. 2; 04-models.md §2.9"@)),
        min_samples: 1,
        not_accounted: seq!["lanes whose length the run did not declare"@, "the time-mean speed, which is a different quantity"@],
        ..bare_def("mean_speed"@, "m/s"@, AggView::Mean, Visibility::Gt, 1_000, MEAN_SPEED_DEFINITION@)
    }
}

/// The definition of `mean_speed`.
pub(crate) fn mean_speed() -> (d: MetricDef)
    ensures
        d@ == mean_speed_def(),
{
    let dims: Vec<Dim> = vec![Dim::T, Dim::Region];
    assert(dims@ =~= seq![Dim::T, Dim::Region]);
    let d = MetricDef::new("mean_speed", "m/s", Agg::Mean, Visibility::Gt, Quantum::speed(), MEAN_SPEED_DEFINITION)
        .with_dims(dims)
        .with_source(paper("L. C. Edie 1963; FHWA Traffic Flow Theory ch. 2; 04-models.md §2.9"))
        .with_min_samples(1)
        .not_accounting_for("lanes whose length the run did not declare")
        .not_accounting_for("the time-mean speed, which is a different quantity");
    assert(d@ =~= mean_speed_def());
    d
}

/// The definition of `speed`.
pub open spec fn speed_def(min_samples: u64) -> DefView {
    DefView {
        dims: seq![Dim::T],
        source: Some(design_source("08-measurement-and-data.md §2.5"@)),
        min_samples,
        not_accounted: seq!["the sampling bias: this is time-weighted, so a stopped vehicle dominates it"@],
        ..bare_def("speed"@, "m/s"@, AggView::Distribution, Visibility::Gt, 1_000, SPEED_DEFINITION@)
    }
}

/// The definition of `speed`.
pub(crate) fn speed(min_samples: u64) -> (d: MetricDef)
    ensures
        d@ == speed_def(min_samples),
{
    let dims: Vec<Dim> = vec![Dim::T];
    assert(dims@ =~= seq![Dim::T]);
    let d = MetricDef::new("speed", "m/s", Agg::Distribution, Visibility::Gt, Quantum::speed(), SPEED_DEFINITION)
        .with_dims(dims)
        .with_source(design("08-measurement-and-data.md §2.5"))
        .with_min_samples(min_samples)
        .not_accounting_for("the sampling bias: this is time-weighted, so a stopped vehicle dominates it");
    assert(d@ =~= speed_def(min_samples));
    d
}

/// The definition of `acceleration`.
pub open spec fn acceleration_def(min_samples: u64) -> DefView {
    DefView {
        dims: seq![Dim::T],
        source: Some(design_source("08-measurement-and-data.md §2.5"@)),
        min_samples,
        not_accounted: seq!["the same time-weighting bias as `speed`"@, "jerk, which the kinematics channel does not carry"@],
        ..bare_def("acceleration"@, "m/s²"@, AggView::Distribution, Visibility::Gt, 1_000, ACCELERATION_DEFINITION@)
    }
}

/// The definition of `acceleration`.
pub(crate) fn acceleration(min_samples: u64) -> (d: MetricDef)
    ensures
        d@ == acceleration_def(min_samples),
{
    let dims: Vec<Dim> = vec![Dim::T];
    assert(dims@ =~= seq![Dim::T]);
    let d = MetricDef::new("acceleration", "m/s²", Agg::Distribution, Visibility::Gt, Quantum::speed(), ACCELERATION_DEFINITION)
        .with_dims(dims)
        .with_source(design("08-measurement-and-data.md §2.5"))
        .with_min_samples(min_samples)
        .not_accounting_for("the same time-weighting bias as `speed`")
        .not_accounting_for("jerk, which the kinematics channel does not carry");
    assert(d@ =~= acceleration_def(min_samples));
    d
}


/// The definitions of the provider, in order.
pub open spec fn all_defs(min_samples: u64) -> Seq<DefView> {
    seq![
        ttc_min_def(min_samples),
        ttc_conflicts_def(),
        pet_def(min_samples),
        drac_def(min_samples),
        headway_time_def(min_samples),
        headway_distance_def(min_samples),
        flow_def(),
        density_def(),
        mean_speed_def(),
        speed_def(min_samples),
        acceleration_def(min_samples),
    ]
}

/// The definitions of the provider, in order.
pub(crate) fn definitions(min_samples: u64) -> (r: Vec<MetricDef>)
    ensures
        views(r@) == all_defs(min_samples),
{
    broadcast use group_views;

    let mut out: Vec<MetricDef> = Vec::new();
    out.push(ttc_min(min_samples));
    out.push(ttc_conflicts());
    out.push(pet(min_samples));
    out.push(drac(min_samples));
    out.push(headway_time(min_samples));
    out.push(headway_distance(min_samples));
    out.push(flow());
    out.push(density());
    out.push(mean_speed());
    out.push(speed(min_samples));
    out.push(acceleration(min_samples));
    out
}

/// The card of the provider.
pub open spec fn safety_card() -> CardView {
    let base = provider_card_view("metric/safety/surrogates-and-flow"@, "1.0.0"@, CARD_PURPOSE@);
    CardView {
        equations: seq![EquationView { name: "ttc"@, latex_or_text: TTC_EQUATION@ }, EquationView { name: "pet"@, latex_or_text: PET_EQUATION@ }, EquationView { name: "drac"@, latex_or_text: "drac = (v_follower − v_leader)² / (2·gap) for a closing same-lane pair"@ }, EquationView { name: "headway_time"@, latex_or_text: "headway_time = gap / v_follower"@ }, EquationView { name: "edie"@, latex_or_text: "k = Σ Δt / (L·T); q = Σ v·Δt / (L·T); v̄ = q / k (the space-mean speed)"@ }],
        parameters: statistics_parameters().push(ranged_parameter("ttc_threshold_s"@, "s"@, "1.5"@, "0.1"@, "10.0"@, plain_source(SourceKind::Paper, TTC_THRESHOLD_S_SOURCE@), None)).push(ranged_parameter("sample_interval_s"@, "s"@, "0.1"@, "0.001"@, "1.0"@, design_source(SAMPLE_INTERVAL_S_SOURCE@), None)).push(ranged_parameter("pet_cell_m"@, "m"@, "1.0"@, "0.1"@, "10.0"@, plain_source(SourceKind::TodoCalibrate, "the cell size at which a shared position counts as the same position for PET"@), Some(PET_CELL_M_PLAN@))).push(ranged_parameter("pet_horizon_s"@, "s"@, "5.0"@, "0.1"@, "60.0"@, plain_source(SourceKind::TodoCalibrate, "the longest gap that still counts as a post-encroachment conflict"@), Some(PET_HORIZON_S_PLAN@))),
        sources: seq![design_source("08-measurement-and-data.md §2.5 (traffic and safety)"@), design_source("04-models.md §11 (surrogate safety measures and their thresholds)"@), design_source("04-models.md §2.9 (fundamental-diagram validation targets)"@), plain_source(SourceKind::Paper, CARD_SOURCE_4@), plain_source(SourceKind::Paper, "FHWA-HRT-08-051, Surrogate Safety Assessment Model (SSAM): TTC, PET and DRAC"@), plain_source(SourceKind::Paper, CARD_SOURCE_6@)],
        assumptions: base.assumptions,
        limitations: seq![CARD_LIMITATION_1@, CARD_LIMITATION_2@, CARD_LIMITATION_3@, CARD_LIMITATION_4@, CARD_LIMITATION_5@],
        ignores: seq![CARD_IGNORES_1@, "Vehicle dynamics: DRAC is a required deceleration, not an achievable one."@],
        validation_tests: seq!["safety::tests::ttc_and_headway_reproduce_a_hand_computed_fixture"@, "safety::tests::edies_aggregates_reproduce_a_hand_computed_fixture"@, "safety::tests::pet_needs_two_different_actors_in_one_cell"@],
        ..base
    }
}

/// The card of the provider.
pub(crate) fn build_card() -> (r: ModelCard)
    ensures
        r@ == safety_card(),
{
    let mut card = provider_card("metric/safety/surrogates-and-flow", "1.0.0", CARD_PURPOSE);
    card.parameters = statistics_params();
    let card = card
        .with_equation("ttc", TTC_EQUATION)
        .with_equation("pet", PET_EQUATION)
        .with_equation("drac", "drac = (v_follower − v_leader)² / (2·gap) for a closing same-lane pair")
        .with_equation("headway_time", "headway_time = gap / v_follower")
        .with_equation("edie", "k = Σ Δt / (L·T); q = Σ v·Δt / (L·T); v̄ = q / k (the space-mean speed)")
        .with_parameter(param("ttc_threshold_s", "s", "1.5", "0.1", "10.0", paper(TTC_THRESHOLD_S_SOURCE)))
        .with_parameter(param("sample_interval_s", "s", "0.1", "0.001", "1.0", design(SAMPLE_INTERVAL_S_SOURCE)))
        .with_parameter(param_todo("pet_cell_m", "m", "1.0", "0.1", "10.0", "the cell size at which a shared position counts as the same position for PET", PET_CELL_M_PLAN))
        .with_parameter(param_todo("pet_horizon_s", "s", "5.0", "0.1", "60.0", "the longest gap that still counts as a post-encroachment conflict", PET_HORIZON_S_PLAN))
        .with_source(design("08-measurement-and-data.md §2.5 (traffic and safety)"))
        .with_source(design("04-models.md §11 (surrogate safety measures and their thresholds)"))
        .with_source(design("04-models.md §2.9 (fundamental-diagram validation targets)"))
        .with_source(paper(CARD_SOURCE_4))
        .with_source(paper("FHWA-HRT-08-051, Surrogate Safety Assessment Model (SSAM): TTC, PET and DRAC"))
        .with_source(paper(CARD_SOURCE_6))
        .limited_by(CARD_LIMITATION_1)
        .limited_by(CARD_LIMITATION_2)
        .limited_by(CARD_LIMITATION_3)
        .limited_by(CARD_LIMITATION_4)
        .limited_by(CARD_LIMITATION_5)
        .ignoring(CARD_IGNORES_1)
        .ignoring("Vehicle dynamics: DRAC is a required deceleration, not an achievable one.")
        .tested_by("safety::tests::ttc_and_headway_reproduce_a_hand_computed_fixture")
        .tested_by("safety::tests::edies_aggregates_reproduce_a_hand_computed_fixture")
        .tested_by("safety::tests::pet_needs_two_different_actors_in_one_cell");
    assert(card@ =~= safety_card());
    card
}

} // verus!
