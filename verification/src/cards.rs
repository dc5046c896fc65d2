//! What the cards of the library's own providers have in common.

use vstd::prelude::*;
use crate::card::{bare_card, group_views, CardView, Family, ModelCard, Parameter, ParameterView, Source, SourceKind, SourceView, Tier};
use crate::text::join2;

verus! {

/// A citation of a section of the measurement design.
pub open spec fn design_source(section: Seq<char>) -> SourceView {
    SourceView {
        kind: SourceKind::Code,
        reference: "docs/design/"@ + section,
        accessed: Some("2026-09-18"@),
        note: None,
    }
}

/// A citation of a section of the measurement design.
pub fn design(section: &str) -> (r: Source)
    ensures
        r@ == design_source(section@),
{
    Source {
        kind: SourceKind::Code,
        reference: join2("docs/design/", section),
        accessed: Some("2026-09-18".to_owned()),
        note: None,
    }
}

/// A citation without a date.
pub open spec fn plain_source(kind: SourceKind, reference: Seq<char>) -> SourceView {
    SourceView { kind, reference, accessed: None, note: None }
}

/// A citation of a standard and clause.
pub fn standard(reference: &str) -> (r: Source)
    ensures
        r@ == plain_source(SourceKind::Standard, reference@),
{
    Source {
        kind: SourceKind::Standard,
        reference: reference.to_owned(),
        accessed: None,
        note: None,
    }
}

/// A citation of a paper or report.
pub fn paper(reference: &str) -> (r: Source)
    ensures
        r@ == plain_source(SourceKind::Paper, reference@),
{
    Source { kind: SourceKind::Paper, reference: reference.to_owned(), accessed: None, note: None }
}

/// A declared parameter with an inclusive range.
pub open spec fn ranged_parameter(
    name: Seq<char>,
    unit: Seq<char>,
    default: Seq<char>,
    min: Seq<char>,
    max: Seq<char>,
    source: SourceView,
    calibration: Option<Seq<char>>,
) -> ParameterView {
    ParameterView { name, unit, default, range: Some((min, max)), source, calibration }
}

/// A declared parameter with an inclusive range. The three values are JSON texts.
pub fn param(name: &str, unit: &str, default: &str, min: &str, max: &str, source: Source) -> (r:
    Parameter)
    ensures
        r@ == ranged_parameter(name@, unit@, default@, min@, max@, source@, None),
{
    Parameter {
        name: name.to_owned(),
        unit: unit.to_owned(),
        default: default.to_owned(),
        range: Some((min.to_owned(), max.to_owned())),
        source,
        calibration: None,
    }
}

/// A declared parameter whose default has no source yet, with the plan for getting one.
pub fn param_todo(
    name: &str,
    unit: &str,
    default: &str,
    min: &str,
    max: &str,
    what: &str,
    plan: &str,
) -> (r: Parameter)
    ensures
        r@ == ranged_parameter(
            name@,
            unit@,
            default@,
            min@,
            max@,
            plain_source(SourceKind::TodoCalibrate, what@),
            Some(plan@),
        ),
{
    Parameter {
        name: name.to_owned(),
        unit: unit.to_owned(),
        default: default.to_owned(),
        range: Some((min.to_owned(), max.to_owned())),
        source: Source {
            kind: SourceKind::TodoCalibrate,
            reference: what.to_owned(),
            accessed: None,
            note: None,
        },
        calibration: Some(plan.to_owned()),
    }
}

/// The two parameters that every provider with an estimate reads.
pub open spec fn statistics_parameters() -> Seq<ParameterView> {
    seq![
        ranged_parameter(
            "min_samples"@,
            "count"@,
            "30"@,
            "1"@,
            "1000000"@,
            design_source(
                "08-measurement-and-data.md §1 (a thin bin is reported as insufficient)"@,
            ),
            None,
        ),
        ranged_parameter(
            "confidence_level"@,
            "-"@,
            "0.95"@,
            "0.90"@,
            "0.99"@,
            design_source("08-measurement-and-data.md §4 (replications_policy: {ci: 0.95})"@),
            None,
        ),
    ]
}

/// The two parameters that every provider with an estimate reads: the insufficiency
/// threshold and the confidence level.
pub fn statistics_params() -> (r: Vec<Parameter>)
    ensures
        crate::card::views(r@) == statistics_parameters(),
{
    broadcast use group_views;

    let mut out: Vec<Parameter> = Vec::new();
    out.push(
        param(
            "min_samples",
            "count",
            "30",
            "1",
            "1000000",
            design("08-measurement-and-data.md §1 (a thin bin is reported as insufficient)"),
        ),
    );
    out.push(
        param(
            "confidence_level",
            "-",
            "0.95",
            "0.90",
            "0.99",
            design("08-measurement-and-data.md §4 (replications_policy: {ci: 0.95})"),
        ),
    );
    out
}

/// What the card of a metric provider says before the provider adds its own.
pub open spec fn provider_card_view(id: Seq<char>, version: Seq<char>, purpose: Seq<char>) -> CardView {
    CardView {
        tier: seq![Tier::Abstract, Tier::Medium, Tier::High],
        assumptions: seq![
            "Events arrive in the order the run produced them."@,
            "Every field this provider reads is filled by the producing model at the selected tier; an absent field is counted as absent, never as zero."@,
        ],
        ..bare_card(id, Family::Metric, version, purpose)
    }
}

/// The card of a metric provider: of the metric family, at every tier, drawing no random
/// numbers.
pub fn provider_card(id: &str, version: &str, purpose: &str) -> (r: ModelCard)
    ensures
        r@ == provider_card_view(id@, version@, purpose@),
{
    let mut card = ModelCard::new(id, Family::Metric, version, purpose);
    card.tier = vec![Tier::Abstract, Tier::Medium, Tier::High];
    assert(card.tier@ =~= seq![Tier::Abstract, Tier::Medium, Tier::High]);
    let card = card.assuming("Events arrive in the order the run produced them.");
    card.assuming(
        "Every field this provider reads is filled by the producing model at the selected tier; an absent field is counted as absent, never as zero.",
    )
}

} // verus!
