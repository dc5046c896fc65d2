//! The detection metrics: their definitions and their card.

use vstd::prelude::*;
use crate::basic::Visibility;
use crate::card::{group_views, views, CardView, EquationView, ModelCard, SourceKind};
use crate::cards::{design, design_source, plain_source, provider_card, provider_card_view, standard, statistics_parameters, statistics_params};
use crate::def::{bare_def, Agg, AggView, DefView, Dim, MetricDef};
use crate::quant::Quantum;
use crate::text::{join2, join3};
use crate::detection::Cell;

verus! {

pub const DET_RECALL_DEFINITION: &'static str = "Recall, also the true-positive rate: `tp / (tp + fn)`.";

pub const DET_FPR_DEFINITION: &'static str = "The false-positive rate: `fp / (fp + tn)`.";

pub const DET_FPR_OMITS_1: &'static str = "the base rate: at a 2 % attacker fraction a 1 % false-positive rate still produces more false than true positives";

pub const DET_PRECISION_DEFINITION: &'static str = "Precision: `tp / (tp + fp)`. At the `report` level this is the per-report precision of the legacy `validate.py`; at the `vehicle` level it is `revoked ∩ attacker / revoked`.";

pub const DET_F1_DEFINITION: &'static str = "The F1 score, `2·tp / (2·tp + fp + fn)`. Reported **without** a confidence interval: see the card's limitations.";

pub const DET_ACCURACY_DEFINITION: &'static str = "Accuracy: `(tp + tn) / total`.";

pub const TIME_TO_DETECT_DEFINITION: &'static str = "Attack onset to the first correct report about the attacker at the authority.";

pub const TIME_TO_DECISION_DEFINITION: &'static str = "Attack onset to the authority's decision about the attacker.";

pub const FALSE_ACCUSATIONS_DEFINITION: &'static str = "Benign subjects with at least one report (`level = report`) and benign subjects that were revoked (`level = vehicle`).";

pub const CARD_PURPOSE: &'static str = "The detection confusion matrix and the summaries derived from it — true and false positive rates, precision, recall, F1, accuracy — plus detection and decision latency and the false-accusation counts.";

pub const F1_EQUATION: &'static str = "f1 = 2·precision·recall / (precision + recall) = 2·tp / (2·tp + fp + fn); reported without a confidence interval, because no exact binomial interval exists for a function of two dependent proportions";

pub const CARD_LIMITATION_1: &'static str = "The subject-to-actor link is declared by the run, not derived: a report names its subject by pseudonym digest and resolving that is ground truth (I-C2). A subject nobody declared is outside the matrix and is counted separately.";

pub const CARD_LIMITATION_2: &'static str = "F1 carries no confidence interval. An interval across seeds is the experiment layer's bootstrap (08 §4), not a binomial interval on one run.";

pub const CARD_LIMITATION_3: &'static str = "Accuracy is reported because it is asked for, and is close to useless under the class imbalance a 2 % attacker fraction produces; the matrix is the answer.";

pub const CARD_LIMITATION_4: &'static str = "A pseudonym change makes one vehicle several subjects unless the run declares every pseudonym to the same actor. The count of undeclared subjects is the signal that it did not.";

/// The definition of `det_recall`.
pub open spec fn det_recall_def(min_samples: u64) -> DefView {
    DefView {
        dims: seq![Dim::T, Dim::Level],
        source: Some(design_source("08-measurement-and-data.md §2.4"@)),
        min_samples,
        not_accounted: seq!["how many reports each detection took"@, "attackers that never acted"@],
        ..bare_def("det_recall"@, "ratio"@, AggView::Ratio { numerator: "true positives"@, denominator: "truly misbehaving subjects"@ }, Visibility::NodeAndGt, 10_000, DET_RECALL_DEFINITION@)
    }
}

/// The definition of `det_recall`.
pub(crate) fn det_recall(min_samples: u64) -> (d: MetricDef)
    ensures
        d@ == det_recall_def(min_samples),
{
    let dims: Vec<Dim> = vec![Dim::T, Dim::Level];
    assert(dims@ =~= seq![Dim::T, Dim::Level]);
    let d = MetricDef::new("det_recall", "ratio", Agg::ratio("true positives", "truly misbehaving subjects"), Visibility::NodeAndGt, Quantum::ratio(), DET_RECALL_DEFINITION)
        .with_dims(dims)
        .with_source(design("08-measurement-and-data.md §2.4"))
        .with_min_samples(min_samples)
        .not_accounting_for("how many reports each detection took")
        .not_accounting_for("attackers that never acted");
    assert(d@ =~= det_recall_def(min_samples));
    d
}

/// The definition of `det_fpr`.
pub open spec fn det_fpr_def(min_samples: u64) -> DefView {
    DefView {
        dims: seq![Dim::T, Dim::Level],
        source: Some(design_source("08-measurement-and-data.md §2.4"@)),
        min_samples,
        not_accounted: seq![DET_FPR_OMITS_1@],
        ..bare_def("det_fpr"@, "ratio"@, AggView::Ratio { numerator: "false positives"@, denominator: "truly benign subjects"@ }, Visibility::NodeAndGt, 10_000, DET_FPR_DEFINITION@)
    }
}

/// The definition of `det_fpr`.
pub(crate) fn det_fpr(min_samples: u64) -> (d: MetricDef)
    ensures
        d@ == det_fpr_def(min_samples),
{
    let dims: Vec<Dim> = vec![Dim::T, Dim::Level];
    assert(dims@ =~= seq![Dim::T, Dim::Level]);
    let d = MetricDef::new("det_fpr", "ratio", Agg::ratio("false positives", "truly benign subjects"), Visibility::NodeAndGt, Quantum::ratio(), DET_FPR_DEFINITION)
        .with_dims(dims)
        .with_source(design("08-measurement-and-data.md §2.4"))
        .with_min_samples(min_samples)
        .not_accounting_for(DET_FPR_OMITS_1);
    assert(d@ =~= det_fpr_def(min_samples));
    d
}

/// The definition of `det_precision`.
pub open spec fn det_precision_def(min_samples: u64) -> DefView {
    DefView {
        dims: seq![Dim::T, Dim::Level],
        source: Some(design_source("08-measurement-and-data.md §2.4"@)),
        min_samples,
        not_accounted: seq!["the base rate"@, "reports about subjects the run never declared"@],
        ..bare_def("det_precision"@, "ratio"@, AggView::Ratio { numerator: "true positives"@, denominator: "positives"@ }, Visibility::NodeAndGt, 10_000, DET_PRECISION_DEFINITION@)
    }
}

/// The definition of `det_precision`.
pub(crate) fn det_precision(min_samples: u64) -> (d: MetricDef)
    ensures
        d@ == det_precision_def(min_samples),
{
    let dims: Vec<Dim> = vec![Dim::T, Dim::Level];
    assert(dims@ =~= seq![Dim::T, Dim::Level]);
    let d = MetricDef::new("det_precision", "ratio", Agg::ratio("true positives", "positives"), Visibility::NodeAndGt, Quantum::ratio(), DET_PRECISION_DEFINITION)
        .with_dims(dims)
        .with_source(design("08-measurement-and-data.md §2.4"))
        .with_min_samples(min_samples)
        .not_accounting_for("the base rate")
        .not_accounting_for("reports about subjects the run never declared");
    assert(d@ =~= det_precision_def(min_samples));
    d
}

/// The definition of `det_f1`.
pub open spec fn det_f1_def(min_samples: u64) -> DefView {
    DefView {
        dims: seq![Dim::T, Dim::Level],
        source: Some(design_source("08-measurement-and-data.md §2.4"@)),
        min_samples,
        not_accounted: seq!["a confidence interval, which has no exact binomial form here"@, "true negatives, which F1 ignores by construction"@],
        ..bare_def("det_f1"@, "ratio"@, AggView::Mean, Visibility::NodeAndGt, 10_000, DET_F1_DEFINITION@)
    }
}

/// The definition of `det_f1`.
pub(crate) fn det_f1(min_samples: u64) -> (d: MetricDef)
    ensures
        d@ == det_f1_def(min_samples),
{
    let dims: Vec<Dim> = vec![Dim::T, Dim::Level];
    assert(dims@ =~= seq![Dim::T, Dim::Level]);
    let d = MetricDef::new("det_f1", "ratio", Agg::Mean, Visibility::NodeAndGt, Quantum::ratio(), DET_F1_DEFINITION)
        .with_dims(dims)
        .with_source(design("08-measurement-and-data.md §2.4"))
        .with_min_samples(min_samples)
        .not_accounting_for("a confidence interval, which has no exact binomial form here")
        .not_accounting_for("true negatives, which F1 ignores by construction");
    assert(d@ =~= det_f1_def(min_samples));
    d
}

/// The definition of `det_accuracy`.
pub open spec fn det_accuracy_def(min_samples: u64) -> DefView {
    DefView {
        dims: seq![Dim::T, Dim::Level],
        source: Some(design_source("08-measurement-and-data.md §2.4"@)),
        min_samples,
        not_accounted: seq!["class imbalance: with 2 % attackers, calling everyone benign scores 0.98"@],
        ..bare_def("det_accuracy"@, "ratio"@, AggView::Ratio { numerator: "correct decisions"@, denominator: "subjects"@ }, Visibility::NodeAndGt, 10_000, DET_ACCURACY_DEFINITION@)
    }
}

/// The definition of `det_accuracy`.
pub(crate) fn det_accuracy(min_samples: u64) -> (d: MetricDef)
    ensures
        d@ == det_accuracy_def(min_samples),
{
    let dims: Vec<Dim> = vec![Dim::T, Dim::Level];
    assert(dims@ =~= seq![Dim::T, Dim::Level]);
    let d = MetricDef::new("det_accuracy", "ratio", Agg::ratio("correct decisions", "subjects"), Visibility::NodeAndGt, Quantum::ratio(), DET_ACCURACY_DEFINITION)
        .with_dims(dims)
        .with_source(design("08-measurement-and-data.md §2.4"))
        .with_min_samples(min_samples)
        .not_accounting_for("class imbalance: with 2 % attackers, calling everyone benign scores 0.98");
    assert(d@ =~= det_accuracy_def(min_samples));
    d
}

/// The definition of `time_to_detect`.
pub open spec fn time_to_detect_def() -> DefView {
    DefView {
        dims: seq![Dim::T],
        source: Some(design_source("08-measurement-and-data.md §2.4"@)),
        min_samples: 1,
        not_accounted: seq!["attackers never reported, which contribute no sample: read it beside det_recall"@, "reports about benign subjects, which are false_accusations"@],
        ..bare_def("time_to_detect"@, "s"@, AggView::Distribution, Visibility::NodeAndGt, 1_000, TIME_TO_DETECT_DEFINITION@)
    }
}

/// The definition of `time_to_detect`.
pub(crate) fn time_to_detect() -> (d: MetricDef)
    ensures
        d@ == time_to_detect_def(),
{
    let dims: Vec<Dim> = vec![Dim::T];
    assert(dims@ =~= seq![Dim::T]);
    let d = MetricDef::new("time_to_detect", "s", Agg::Distribution, Visibility::NodeAndGt, Quantum::time_s(), TIME_TO_DETECT_DEFINITION)
        .with_dims(dims)
        .with_source(design("08-measurement-and-data.md §2.4"))
        .with_min_samples(1)
        .not_accounting_for("attackers never reported, which contribute no sample: read it beside det_recall")
        .not_accounting_for("reports about benign subjects, which are false_accusations");
    assert(d@ =~= time_to_detect_def());
    d
}

/// The definition of `time_to_decision`.
pub open spec fn time_to_decision_def() -> DefView {
    DefView {
        dims: seq![Dim::T],
        source: Some(design_source("08-measurement-and-data.md §2.4"@)),
        min_samples: 1,
        not_accounted: seq!["attackers never decided about"@, "the decision's propagation, which is revocation_latency_stage"@],
        ..bare_def("time_to_decision"@, "s"@, AggView::Distribution, Visibility::NodeAndGt, 1_000, TIME_TO_DECISION_DEFINITION@)
    }
}

/// The definition of `time_to_decision`.
pub(crate) fn time_to_decision() -> (d: MetricDef)
    ensures
        d@ == time_to_decision_def(),
{
    let dims: Vec<Dim> = vec![Dim::T];
    assert(dims@ =~= seq![Dim::T]);
    let d = MetricDef::new("time_to_decision", "s", Agg::Distribution, Visibility::NodeAndGt, Quantum::time_s(), TIME_TO_DECISION_DEFINITION)
        .with_dims(dims)
        .with_source(design("08-measurement-and-data.md §2.4"))
        .with_min_samples(1)
        .not_accounting_for("attackers never decided about")
        .not_accounting_for("the decision's propagation, which is revocation_latency_stage");
    assert(d@ =~= time_to_decision_def());
    d
}

/// The definition of `false_accusations`.
pub open spec fn false_accusations_def() -> DefView {
    DefView {
        dims: seq![Dim::T, Dim::Level],
        source: Some(design_source("08-measurement-and-data.md §2.4"@)),
        min_samples: 1,
        not_accounted: seq!["how many times each benign subject was reported"@, "a benign subject reported and then cleared, which still counts"@],
        ..bare_def("false_accusations"@, "count"@, AggView::Count, Visibility::NodeAndGt, 1_000, FALSE_ACCUSATIONS_DEFINITION@)
    }
}

/// The definition of `false_accusations`.
pub(crate) fn false_accusations() -> (d: MetricDef)
    ensures
        d@ == false_accusations_def(),
{
    let dims: Vec<Dim> = vec![Dim::T, Dim::Level];
    assert(dims@ =~= seq![Dim::T, Dim::Level]);
    let d = MetricDef::new("false_accusations", "count", Agg::Count, Visibility::NodeAndGt, Quantum::count(), FALSE_ACCUSATIONS_DEFINITION)
        .with_dims(dims)
        .with_source(design("08-measurement-and-data.md §2.4"))
        .with_min_samples(1)
        .not_accounting_for("how many times each benign subject was reported")
        .not_accounting_for("a benign subject reported and then cleared, which still counts");
    assert(d@ =~= false_accusations_def());
    d
}


/// The definition of one cell's count.
pub open spec fn cell_def(c: Cell) -> DefView {
    DefView {
        dims: seq![Dim::T, Dim::Level, Dim::Cell],
        source: Some(design_source("08-measurement-and-data.md §2.4"@)),
        min_samples: 1,
        not_accounted: seq![
            "subjects the run never declared"@,
            "attackers that never acted, which are not in the population"@,
        ],
        ..bare_def(
            "det_"@ + c.text(),
            "count"@,
            AggView::Count,
            Visibility::NodeAndGt,
            1_000,
            "The `"@ + c.text()
                + "` cell of the detection confusion matrix over the declared subject population."@,
        )
    }
}

/// The definition of one cell's count.
pub(crate) fn cell_count(c: Cell) -> (d: MetricDef)
    ensures
        d@ == cell_def(c),
{
    let dims: Vec<Dim> = vec![Dim::T, Dim::Level, Dim::Cell];
    assert(dims@ =~= seq![Dim::T, Dim::Level, Dim::Cell]);
    let name = join2("det_", c.as_str());
    let text = join3(
        "The `",
        c.as_str(),
        "` cell of the detection confusion matrix over the declared subject population.",
    );
    let d = MetricDef::new(
        name.as_str(),
        "count",
        Agg::Count,
        Visibility::NodeAndGt,
        Quantum::count(),
        text.as_str(),
    ).with_dims(dims).with_source(design("08-measurement-and-data.md §2.4")).with_min_samples(
        1,
    ).not_accounting_for("subjects the run never declared").not_accounting_for(
        "attackers that never acted, which are not in the population",
    );
    assert(d@ =~= cell_def(c));
    d
}

/// The definitions of the provider, in order.
pub open spec fn all_defs(min_samples: u64) -> Seq<DefView> {
    seq![
        cell_def(Cell::Tp),
        cell_def(Cell::Fp),
        cell_def(Cell::Fn),
        cell_def(Cell::Tn),
        det_recall_def(min_samples),
        det_fpr_def(min_samples),
        det_precision_def(min_samples),
        det_f1_def(min_samples),
        det_accuracy_def(min_samples),
        time_to_detect_def(),
        time_to_decision_def(),
        false_accusations_def(),
    ]
}

/// The definitions of the provider, in order.
pub(crate) fn definitions(min_samples: u64) -> (r: Vec<MetricDef>)
    ensures
        views(r@) == all_defs(min_samples),
{
    broadcast use group_views;

    let mut out: Vec<MetricDef> = Vec::new();
    out.push(cell_count(Cell::Tp));
    out.push(cell_count(Cell::Fp));
    out.push(cell_count(Cell::Fn));
    out.push(cell_count(Cell::Tn));
    out.push(det_recall(min_samples));
    out.push(det_fpr(min_samples));
    out.push(det_precision(min_samples));
    out.push(det_f1(min_samples));
    out.push(det_accuracy(min_samples));
    out.push(time_to_detect());
    out.push(time_to_decision());
    out.push(false_accusations());
    out
}

/// The card of the provider.
pub open spec fn detection_card() -> CardView {
    let base = provider_card_view("metric/detection/confusion"@, "1.0.0"@, CARD_PURPOSE@);
    CardView {
        equations: seq![EquationView { name: "recall"@, latex_or_text: "recall = tpr = tp / (tp + fn)"@ }, EquationView { name: "fpr"@, latex_or_text: "fpr = fp / (fp + tn)"@ }, EquationView { name: "precision"@, latex_or_text: "precision = tp / (tp + fp)"@ }, EquationView { name: "f1"@, latex_or_text: F1_EQUATION@ }, EquationView { name: "accuracy"@, latex_or_text: "accuracy = (tp + tn) / (tp + fp + fn + tn)"@ }, EquationView { name: "time_to_detect"@, latex_or_text: "time_to_detect = t(first report about the subject at the authority) − t(attack onset)"@ }],
        parameters: statistics_parameters(),
        sources: seq![design_source("08-measurement-and-data.md §2.4 (detection)"@), design_source("01-inventory.md §5 / legacy validate.py: the two levels, over reports and over vehicles"@), plain_source(SourceKind::Standard, "ETSI TS 103 759 (misbehaviour reporting): the report the authority receives"@)],
        assumptions: base.assumptions,
        limitations: seq![CARD_LIMITATION_1@, CARD_LIMITATION_2@, CARD_LIMITATION_3@, CARD_LIMITATION_4@],
        ignores: seq!["Detector internals: this provider reads reports and decisions, not scores."@, "Residual harm after a decision, which is 08 §2.3."@],
        validation_tests: seq!["detection::tests::the_matrix_and_its_summaries_reproduce_a_hand_computed_fixture"@, "detection::tests::per_report_and_per_vehicle_precision_differ_and_both_are_reported"@],
        ..base
    }
}

/// The card of the provider.
pub(crate) fn build_card() -> (r: ModelCard)
    ensures
        r@ == detection_card(),
{
    let mut card = provider_card("metric/detection/confusion", "1.0.0", CARD_PURPOSE);
    card.parameters = statistics_params();
    let card = card
        .with_equation("recall", "recall = tpr = tp / (tp + fn)")
        .with_equation("fpr", "fpr = fp / (fp + tn)")
        .with_equation("precision", "precision = tp / (tp + fp)")
        .with_equation("f1", F1_EQUATION)
        .with_equation("accuracy", "accuracy = (tp + tn) / (tp + fp + fn + tn)")
        .with_equation("time_to_detect", "time_to_detect = t(first report about the subject at the authority) − t(attack onset)")
        .with_source(design("08-measurement-and-data.md §2.4 (detection)"))
        .with_source(design("01-inventory.md §5 / legacy validate.py: the two levels, over reports and over vehicles"))
        .with_source(standard("ETSI TS 103 759 (misbehaviour reporting): the report the authority receives"))
        .limited_by(CARD_LIMITATION_1)
        .limited_by(CARD_LIMITATION_2)
        .limited_by(CARD_LIMITATION_3)
        .limited_by(CARD_LIMITATION_4)
        .ignoring("Detector internals: this provider reads reports and decisions, not scores.")
        .ignoring("Residual harm after a decision, which is 08 §2.3.")
        .tested_by("detection::tests::the_matrix_and_its_summaries_reproduce_a_hand_computed_fixture")
        .tested_by("detection::tests::per_report_and_per_vehicle_precision_differ_and_both_are_reported");
    assert(card@ =~= detection_card());
    card
}

} // verus!
