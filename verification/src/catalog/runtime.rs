//! The runtime diagnostics: their definitions and their card.

use vstd::prelude::*;
use crate::basic::Visibility;
use crate::card::{group_views, views, CardView, EquationView, ModelCard};
use crate::cards::{design, design_source, param, provider_card, provider_card_view, ranged_parameter};
use crate::def::{bare_def, Agg, AggView, DefView, Dim, MetricDef};
use crate::quant::Quantum;

verus! {

pub const EVENTS_PROCESSED_DEFINITION: &'static str = "Events delivered to this provider. A property of the run, **not** of the machine, so it is digested: two hosts that processed different numbers of events did not run the same simulation.";

pub const EVENTS_PER_SECOND_DEFINITION: &'static str = "Events processed per wall-clock second. **A diagnostic**: machine-dependent, and excluded from every digested artefact.";

pub const WALL_CLOCK_PER_SIM_SECOND_DEFINITION: &'static str = "Wall-clock seconds per simulated second — the run's slowdown factor. **A diagnostic**: machine-dependent, and excluded from every digested artefact.";

pub const MEMORY_HIGH_WATER_MARK_DEFINITION: &'static str = "The peak resident size the host reported during the run. **A diagnostic**: machine-dependent, and excluded from every digested artefact.";

pub const CARD_PURPOSE: &'static str = "Machine-dependent runtime diagnostics — event throughput, wall clock per simulated second and the memory high-water mark — plus the deterministic event count they are measured against.";

pub const COUNT_CHANNELS_SOURCE: &'static str = "03-interfaces.md §14: the number of recording channels the event count is taken over. Declared because the count's meaning depends on it.";

pub const CARD_SOURCE_2: &'static str = "02-architecture.md §6.1 and ADR 0004: the determinism contract these three numbers cannot satisfy, which is why they are excluded from every digest";

pub const CARD_ASSUMPTION: &'static str = "The wall-clock and memory readings are taken by the caller: this crate reads no clock and queries no allocator.";

pub const CARD_LIMITATION_1: &'static str = "All three diagnostics are machine-dependent and are excluded from every digested artefact by construction (crate::DigestSet).";

pub const CARD_LIMITATION_2: &'static str = "The event count is over the channels this provider was told to count, which is not necessarily every channel the run produced.";

pub const CARD_LIMITATION_3: &'static str = "The memory high-water mark is whatever the host reported; it is not the engine's own byte accounting and is not comparable across platforms.";

pub const CARD_IGNORES_1: &'static str = "Per-phase timing and profiling, which belong to a benchmark harness rather than to a metric provider.";

/// The definition of `events_processed`.
pub open spec fn events_processed_def() -> DefView {
    DefView {
        dims: seq![Dim::T],
        source: Some(design_source("08-measurement-and-data.md §2"@)),
        min_samples: 1,
        not_accounted: seq!["channels this provider was not told to count"@, "events the engine produced and the recorder dropped"@],
        ..bare_def("events_processed"@, "count"@, AggView::Count, Visibility::Meta, 1_000, EVENTS_PROCESSED_DEFINITION@)
    }
}

/// The definition of `events_processed`.
pub(crate) fn events_processed() -> (d: MetricDef)
    ensures
        d@ == events_processed_def(),
{
    let dims: Vec<Dim> = vec![Dim::T];
    assert(dims@ =~= seq![Dim::T]);
    let d = MetricDef::new("events_processed", "count", Agg::Count, Visibility::Meta, Quantum::count(), EVENTS_PROCESSED_DEFINITION)
        .with_dims(dims)
        .with_source(design("08-measurement-and-data.md §2"))
        .with_min_samples(1)
        .not_accounting_for("channels this provider was not told to count")
        .not_accounting_for("events the engine produced and the recorder dropped");
    assert(d@ =~= events_processed_def());
    d
}

/// The definition of `events_per_second`.
pub open spec fn events_per_second_def() -> DefView {
    DefView {
        dims: seq![Dim::T],
        source: Some(design_source("08-measurement-and-data.md §2"@)),
        min_samples: 1,
        diagnostic: true,
        not_accounted: seq!["the machine it ran on, which dominates it"@, "what else the machine was doing"@],
        ..bare_def("events_per_second"@, "1/s"@, AggView::Rate, Visibility::Meta, 1_000, EVENTS_PER_SECOND_DEFINITION@)
    }
}

/// The definition of `events_per_second`.
pub(crate) fn events_per_second() -> (d: MetricDef)
    ensures
        d@ == events_per_second_def(),
{
    let dims: Vec<Dim> = vec![Dim::T];
    assert(dims@ =~= seq![Dim::T]);
    let d = MetricDef::new("events_per_second", "1/s", Agg::Rate, Visibility::Meta, Quantum::count(), EVENTS_PER_SECOND_DEFINITION)
        .with_dims(dims)
        .with_source(design("08-measurement-and-data.md §2"))
        .with_min_samples(1)
        .not_accounting_for("the machine it ran on, which dominates it")
        .not_accounting_for("what else the machine was doing")
        .as_diagnostic();
    assert(d@ =~= events_per_second_def());
    d
}

/// The definition of `wall_clock_per_sim_second`.
pub open spec fn wall_clock_per_sim_second_def() -> DefView {
    DefView {
        dims: seq![Dim::T],
        source: Some(design_source("08-measurement-and-data.md §2"@)),
        min_samples: 1,
        diagnostic: true,
        not_accounted: seq!["the machine, the thread count and the tier planner's choices"@, "time-dilation windows, which change what a simulated second costs"@],
        ..bare_def("wall_clock_per_sim_second"@, "s/s"@, AggView::Rate, Visibility::Meta, 1_000, WALL_CLOCK_PER_SIM_SECOND_DEFINITION@)
    }
}

/// The definition of `wall_clock_per_sim_second`.
pub(crate) fn wall_clock_per_sim_second() -> (d: MetricDef)
    ensures
        d@ == wall_clock_per_sim_second_def(),
{
    let dims: Vec<Dim> = vec![Dim::T];
    assert(dims@ =~= seq![Dim::T]);
    let d = MetricDef::new("wall_clock_per_sim_second", "s/s", Agg::Rate, Visibility::Meta, Quantum::time_s(), WALL_CLOCK_PER_SIM_SECOND_DEFINITION)
        .with_dims(dims)
        .with_source(design("08-measurement-and-data.md §2"))
        .with_min_samples(1)
        .not_accounting_for("the machine, the thread count and the tier planner's choices")
        .not_accounting_for("time-dilation windows, which change what a simulated second costs")
        .as_diagnostic();
    assert(d@ =~= wall_clock_per_sim_second_def());
    d
}

/// The definition of `memory_high_water_mark`.
pub open spec fn memory_high_water_mark_def() -> DefView {
    DefView {
        dims: seq![Dim::T],
        source: Some(design_source("08-measurement-and-data.md §2"@)),
        min_samples: 1,
        diagnostic: true,
        not_accounted: seq!["the allocator, the page size and the platform's accounting"@, "the engine's own byte counts, which are deterministic"@],
        ..bare_def("memory_high_water_mark"@, "B"@, AggView::Max, Visibility::Meta, 1_000, MEMORY_HIGH_WATER_MARK_DEFINITION@)
    }
}

/// The definition of `memory_high_water_mark`.
pub(crate) fn memory_high_water_mark() -> (d: MetricDef)
    ensures
        d@ == memory_high_water_mark_def(),
{
    let dims: Vec<Dim> = vec![Dim::T];
    assert(dims@ =~= seq![Dim::T]);
    let d = MetricDef::new("memory_high_water_mark", "B", Agg::Max, Visibility::Meta, Quantum::bytes(), MEMORY_HIGH_WATER_MARK_DEFINITION)
        .with_dims(dims)
        .with_source(design("08-measurement-and-data.md §2"))
        .with_min_samples(1)
        .not_accounting_for("the allocator, the page size and the platform's accounting")
        .not_accounting_for("the engine's own byte counts, which are deterministic")
        .as_diagnostic();
    assert(d@ =~= memory_high_water_mark_def());
    d
}


/// The definitions of the provider, in order.
pub open spec fn all_defs() -> Seq<DefView> {
    seq![
        events_processed_def(),
        events_per_second_def(),
        wall_clock_per_sim_second_def(),
        memory_high_water_mark_def(),
    ]
}

/// The definitions of the provider, in order.
pub(crate) fn definitions() -> (r: Vec<MetricDef>)
    ensures
        views(r@) == all_defs(),
{
    broadcast use group_views;

    let mut out: Vec<MetricDef> = Vec::new();
    out.push(events_processed());
    out.push(events_per_second());
    out.push(wall_clock_per_sim_second());
    out.push(memory_high_water_mark());
    out
}

/// The card of the provider.
pub open spec fn runtime_card() -> CardView {
    let base = provider_card_view("metric/runtime/diagnostics"@, "1.0.0"@, CARD_PURPOSE@);
    CardView {
        equations: seq![EquationView { name: "events_per_second"@, latex_or_text: "events_per_second = events processed / wall-clock seconds elapsed"@ }, EquationView { name: "wall_clock_per_sim_second"@, latex_or_text: "wall_clock_per_sim_second = wall-clock seconds / simulated seconds"@ }],
        parameters: Seq::empty().push(ranged_parameter("count_channels"@, "count"@, "15"@, "0"@, "64"@, design_source(COUNT_CHANNELS_SOURCE@), None)),
        sources: seq![design_source("08-measurement-and-data.md §2 (runtime numbers are diagnostics, not results)"@), design_source(CARD_SOURCE_2@)],
        assumptions: base.assumptions.push(CARD_ASSUMPTION@),
        limitations: seq![CARD_LIMITATION_1@, CARD_LIMITATION_2@, CARD_LIMITATION_3@],
        ignores: seq![CARD_IGNORES_1@],
        validation_tests: seq!["runtime::tests::the_three_diagnostics_are_flagged_and_the_event_count_is_not"@, "summary::tests::a_runtime_diagnostic_cannot_enter_a_digest"@],
        ..base
    }
}

/// The card of the provider.
pub(crate) fn build_card() -> (r: ModelCard)
    ensures
        r@ == runtime_card(),
{
    let mut card = provider_card("metric/runtime/diagnostics", "1.0.0", CARD_PURPOSE);
    
    let card = card
        .with_equation("events_per_second", "events_per_second = events processed / wall-clock seconds elapsed")
        .with_equation("wall_clock_per_sim_second", "wall_clock_per_sim_second = wall-clock seconds / simulated seconds")
        .with_parameter(param("count_channels", "count", "15", "0", "64", design(COUNT_CHANNELS_SOURCE)))
        .with_source(design("08-measurement-and-data.md §2 (runtime numbers are diagnostics, not results)"))
        .with_source(design(CARD_SOURCE_2))
        .assuming(CARD_ASSUMPTION)
        .limited_by(CARD_LIMITATION_1)
        .limited_by(CARD_LIMITATION_2)
        .limited_by(CARD_LIMITATION_3)
        .ignoring(CARD_IGNORES_1)
        .tested_by("runtime::tests::the_three_diagnostics_are_flagged_and_the_event_count_is_not")
        .tested_by("summary::tests::a_runtime_diagnostic_cannot_enter_a_digest");
    assert(card@ =~= runtime_card());
    card
}

} // verus!
