#![allow(dead_code)]

use v2xw_metrics::basic::Visibility;
use v2xw_metrics::bins::{Bins, TimeBins};
use v2xw_metrics::card::{Family, ModelCard, Parameter, Source, SourceKind, Tier};
use v2xw_metrics::cards::{design, param, provider_card, statistics_params};
use v2xw_metrics::def::{no_dims, Agg, Dim, DimValue, Dims, MetricDef, MetricSample, SampleValue};
use v2xw_metrics::distribution::{Distribution, DistributionSummary, Interpolation, Percentile};
use v2xw_metrics::error::MetricError;
use v2xw_metrics::gate::{
    by_model, parameter_matches, parse_pattern, run, run_over_cards, CalibrationIssue, FailureReason, IssueRegister,
    IssueState, ISSUE_REGISTER_SCHEMA,
};
use v2xw_metrics::quant::{grid, quantise, Quantum, Real};
use v2xw_metrics::security::{stage_name, stage_rank};
use v2xw_metrics::stats::{
    ratio_of_sums, ratio_of_whole_sums, ConfidenceLevel, Estimate, Proportion, RatioEstimate,
};

fn f(r: Real) -> f64 {
    r.num() as f64 / r.den() as f64
}

fn q(num: i128, den: u128) -> Real {
    Real::new(num, den)
}

fn every_quantum() -> Vec<Quantum> {
    vec![
        Quantum::length_m(),
        Quantum::time_s(),
        Quantum::db(),
        Quantum::ratio(),
        Quantum::probability(),
        Quantum::bytes(),
        Quantum::speed(),
        Quantum::traffic(),
        Quantum::count(),
    ]
}

#[test]
fn quantising_is_idempotent_on_every_declared_grid() {
    for grid in every_quantum() {
        for x in [q(0, 1), q(1, 3), q(-1, 7), q(123_456_789, 10_000_000), q(1_000_000, 7)] {
            let once = grid.quantise(x);
            assert_eq!(grid.quantise(once), once, "{x:?} on {grid:?}");
            assert!(grid.holds(once), "{once:?} off the grid {grid:?}");
        }
    }
}

#[test]
fn a_ratio_keeps_four_decimals_and_a_probability_six() {
    assert_eq!(f(quantise(q(1, 3), Quantum::ratio())), 0.3333);
    assert_eq!(f(quantise(q(1, 3), Quantum::probability())), 0.333_333);
}

#[test]
fn the_grid_index_is_the_integer_two_platforms_agree_on() {
    assert_eq!(grid(q(3_333, 10_000), Quantum::ratio()), 3333);
    assert_eq!(
        grid(q(3_332_999_999_999_999, 10_000_000_000_000_000), Quantum::ratio()),
        grid(q(3_333_000_000_000_001, 10_000_000_000_000_000), Quantum::ratio())
    );
}

#[test]
fn rounding_is_to_the_nearest_and_halves_go_away_from_zero() {
    assert_eq!(grid(q(5, 10_000_000), Quantum::probability()), 1);
    assert_eq!(grid(q(-5, 10_000_000), Quantum::probability()), -1);
    assert_eq!(grid(q(4, 10_000_000), Quantum::probability()), 0);
    assert_eq!(grid(q(i128::MAX, 1), Quantum::ratio()), i64::MAX);
    assert_eq!(grid(q(i128::MIN, 1), Quantum::ratio()), i64::MIN);
}

#[test]
fn numbers_are_written_as_decimals_where_they_can_be() {
    assert_eq!(q(75, 100).to_text(), "0.75");
    assert_eq!(q(-1, 1_000).to_text(), "-0.001");
    assert_eq!(q(6, 3).to_text(), "6/3");
    assert_eq!(q(500, 100).to_text(), "5");
    assert!(q(1, 3).not_above(&q(1, 2)));
    assert!(!q(1, 2).not_above(&q(1, 3)));
}

#[test]
fn the_25m_bins_are_the_documented_ones() {
    let b = Bins::distance_25m(8).unwrap();
    assert_eq!(b.len(), 9, "eight finite bins plus the open-ended one");
    assert_eq!(b.label(0), "0-25");
    assert_eq!(b.label(1), "25-50");
    assert_eq!(b.label(7), "175-200");
    assert_eq!(b.label(8), "200+");
    assert_eq!(b.index_of(q(0, 1)), Some(0));
    assert_eq!(b.index_of(q(24_999, 1_000)), Some(0));
    assert_eq!(b.index_of(q(25, 1)), Some(1), "half-open: the edge is in the upper bin");
    assert_eq!(b.index_of(q(199_999, 1_000)), Some(7));
    assert_eq!(b.index_of(q(200, 1)), Some(8));
    assert_eq!(b.index_of(q(10_000, 1)), Some(8), "the top bin is open-ended");
    assert_eq!(b.index_of(q(-1, 1_000)), None);
}

#[test]
fn a_boundary_case_cannot_flip_on_the_grid() {
    let b = Bins::distance_25m(8).unwrap();
    let just_below = q(25_000_000_000_000_000 - 4, 1_000_000_000_000_000);
    let just_above = q(25_000_000_000_000_000 + 4, 1_000_000_000_000_000);
    assert_eq!(b.index_of(just_below), b.index_of(q(25, 1)));
    assert_eq!(b.index_of(just_above), b.index_of(q(25, 1)));
    assert_eq!(b.index_of(q(249_994, 10_000)), Some(0));
    assert_eq!(b.index_of(q(249_996, 10_000)), Some(1), "rounds onto the 25.000 grid point");
}

#[test]
fn edges_that_collapse_on_the_grid_are_refused() {
    let e = Bins::new("x", "m", &vec![q(0, 1), q(1, 10_000), q(1, 1)], Quantum::length_m());
    assert!(matches!(e, Err(MetricError::BadDefinition { .. })));
    assert!(Bins::new("x", "m", &vec![], Quantum::length_m()).is_err());
    assert!(Bins::uniform("x", "m", q(0, 1), 3, Quantum::length_m()).is_err());
    assert!(Bins::uniform("x", "m", q(25, 1), 0, Quantum::length_m()).is_err());
}

#[test]
fn density_bins_are_declared_not_assumed() {
    let edges = vec![q(0, 1), q(10, 1), q(25, 1), q(50, 1)];
    let b = Bins::new("density_bin", "veh/km", &edges, Quantum::traffic()).unwrap();
    assert_eq!(b.len(), 4);
    assert_eq!(b.label(3), "50+");
    assert_eq!(b.index_of(q(24_999, 1_000)), Some(1));
    assert_eq!(b.index_of(q(25, 1)), Some(2));
    assert_eq!(b.index_of(q(249_999, 10_000)), Some(2));
    assert_eq!(b.dimension(), "density_bin");
    assert_eq!(b.unit(), "veh/km");
}

#[test]
fn time_bins_are_integer_arithmetic() {
    let t = TimeBins::per_second(1_000_000_000);
    assert_eq!(t.index_of(999_999_999), None);
    assert_eq!(t.index_of(1_000_000_000), Some(0));
    assert_eq!(t.index_of(1_999_999_999), Some(0));
    assert_eq!(t.index_of(2_000_000_000), Some(1));
    assert_eq!(t.start_of(3), 4_000_000_000);
    assert!(TimeBins::new(0, 0).is_err());
}

#[test]
fn the_helper_card_validates_and_targets_this_engine() {
    let mut card = provider_card("metric/test/helper", "1.0.0", "A card.");
    card.parameters = statistics_params();
    card.sources.push(design("08-measurement-and-data.md §2"));
    assert_eq!(card.id, "metric/test/helper");
    assert_eq!(card.family, Family::Metric);
    assert_eq!(card.version, "1.0.0");
    assert!(!card.parameters.is_empty());
    assert!(card.sources.iter().any(|s| s.kind == SourceKind::Code));
}

#[test]
fn a_declared_default_inside_its_range_is_accepted() {
    let p = param("x", "m", "25.0", "0.0", "1000.0", design("08-measurement-and-data.md §2"));
    assert_eq!(p.default, "25.0");
    assert_eq!(p.range, Some(("0.0".to_string(), "1000.0".to_string())));
    let mut card = provider_card("metric/test/range", "1.0.0", "A card.");
    card.parameters = vec![p];
    assert_eq!(card.parameters.len(), 1);
}

fn a_def() -> MetricDef {
    MetricDef::new(
        "pdr",
        "ratio",
        Agg::ratio("received frames", "candidate receptions"),
        Visibility::NodeAndGt,
        Quantum::ratio(),
        "received / candidate",
    )
    .with_dims(vec![Dim::T, Dim::DistBin])
    .not_accounting_for("receivers outside the candidate range")
}

#[test]
fn a_definition_validates() {
    a_def().validate().unwrap();
}

#[test]
fn a_definition_without_a_stated_omission_is_refused() {
    let mut d = a_def();
    d.not_accounted.clear();
    assert!(d.validate().is_err());
}

#[test]
fn a_duplicated_dimension_is_refused() {
    let d = a_def().with_dims(vec![Dim::T, Dim::T]);
    let e = d.validate().unwrap_err();
    assert_eq!(e.to_text(), "metric definition pdr: dimension t is listed twice");
}

#[test]
fn a_ratio_without_both_terms_is_refused() {
    let mut d = a_def();
    d.agg = Agg::ratio("x", "  ");
    assert!(d.validate().is_err());
}

#[test]
fn a_quantile_outside_zero_to_one_is_refused() {
    let mut d = a_def();
    d.agg = Agg::Quantile { q: q(3, 2) };
    assert!(d.validate().is_err());
    d.agg = Agg::Quantile { q: q(-1, 10) };
    assert!(d.validate().is_err());
    d.agg = Agg::Quantile { q: q(95, 100) };
    assert_eq!(d.agg.tag(), "p95");
    assert!(d.validate().is_ok());
}

#[test]
fn a_blank_name_unit_or_text_is_refused() {
    let mut d = a_def();
    d.name = "  ".to_string();
    assert!(d.validate().is_err());
    let mut d = a_def();
    d.unit = String::new();
    assert!(d.validate().is_err());
    let mut d = a_def();
    d.definition_md = "\t".to_string();
    assert!(d.validate().is_err());
}

/// The bounds of a proportion at 95 %, for the tests that look at them.
fn wilson(successes: f64, n: f64) -> (f64, f64) {
    let z = 1.959_963_984_540_054_f64;
    let p = successes / n;
    let d = 1.0 + z * z / n;
    let c = (p + z * z / (2.0 * n)) / d;
    let h = z * (p * (1.0 - p) / n + z * z / (4.0 * n * n)).sqrt() / d;
    (c - h, c + h)
}

fn bounded(successes: u64, trials: u64) -> SampleValue {
    let (lo, hi) = wilson(successes as f64, trials as f64);
    let e = Proportion::from_counts(successes, trials).estimate(1, ConfidenceLevel::P95);
    SampleValue::Ratio(e.with_interval(
        q((lo * 1e9) as i128, 1_000_000_000),
        q((hi * 1e9) as i128, 1_000_000_000),
    ))
}

#[test]
fn a_sample_is_quantised_at_construction() {
    let def = a_def();
    let s = MetricSample::new(&def, 1_000, no_dims(), bounded(1, 3));
    assert_eq!(s.value.point().map(f), Some(0.3333));
    for (x, grid) in s.graded_floats() {
        assert!(grid.holds(x), "{x:?} off the grid {grid:?}");
    }
    assert_eq!(s.graded_floats()[0].1, Quantum::ratio(), "the point estimate");
    assert!(!Quantum::ratio().holds(s.graded_floats()[1].0), "the bound");
    assert_eq!(s.metric, "pdr");
    assert_eq!(s.agg, "ratio");
    assert!(!s.diagnostic);
}

fn observed(values: &[i64]) -> Distribution {
    let mut d = Distribution::new();
    for v in values {
        d.observe_quotient(*v as i128, 1);
    }
    d
}

#[test]
fn graded_floats_are_the_floats_the_quantiser_wrote() {
    let d = observed(&[1, 2, 3]);
    let values = vec![
        SampleValue::Scalar(Estimate::Value { point: q(1, 4), n: 4 }),
        SampleValue::Scalar(Estimate::Insufficient { n: 1, required: 30 }),
        bounded(1, 3),
        SampleValue::Ratio(ratio_of_whole_sums(1, 3, 4, 1)),
        SampleValue::Ratio(ratio_of_whole_sums(1, 0, 4, 1)),
        SampleValue::Distribution(d.summary(1)),
        SampleValue::Distribution(d.summary(30)),
        SampleValue::count(7),
    ];
    for v in values {
        let s = MetricSample::new(&a_def(), 0, no_dims(), v);
        let graded: Vec<Real> = s.graded_floats().into_iter().map(|(x, _)| x).collect();
        assert_eq!(graded, s.floats(), "{:?}", s.value);
        for (x, grid) in s.graded_floats() {
            assert!(grid.holds(x), "{x:?} off {grid:?} in {:?}", s.value);
        }
    }
}

#[test]
fn a_sample_key_is_stable_and_ordered() {
    let def = a_def();
    let mut dims: Dims = no_dims();
    dims.insert(Dim::DistBin, DimValue::label("25-50"));
    dims.insert(Dim::T, DimValue::index(3));
    let s = MetricSample::new(&def, 0, dims, SampleValue::count(7));
    assert_eq!(s.key(), "pdr|t=3|dist_bin=25-50");
}

#[test]
fn the_visibility_of_a_gt_derived_metric_propagates() {
    let def = a_def();
    let s = MetricSample::new(&def, 0, no_dims(), SampleValue::count(1));
    assert_eq!(s.visibility(), Visibility::NodeAndGt);
    assert!(!s.visibility().allowed_on_node_channel());
}

#[test]
fn a_definition_admits_what_its_range_holds() {
    let d = a_def().with_range(Some(q(0, 1)), Some(q(1, 1)));
    assert!(d.admits(q(0, 1)));
    assert!(d.admits(q(1, 1)));
    assert!(!d.admits(q(11, 10)));
    assert!(!d.admits(q(-1, 10)));
    assert!(a_def().admits(q(-1, 10)), "no range admits everything");
}

#[test]
fn percentiles_interpolate_between_neighbours() {
    let d = observed(&[4, 1, 3, 2]);
    let s = d.summary(1);
    assert_eq!(s.n(), 4);
    assert_eq!(s.mean().map(f), Some(2.5));
    assert_eq!(s.quantile(Percentile::P50).map(f), Some(2.5));
    assert_eq!(s.quantile(Percentile::P95).map(f), Some(3.85));
    assert_eq!(s.quantile(Percentile::P99).map(f), Some(3.97));
    if let DistributionSummary::Summary { min, max, interpolation, rejected, .. } = s {
        assert_eq!(f(min), 1.0);
        assert_eq!(f(max), 4.0);
        assert_eq!(interpolation, Interpolation::Type7Linear);
        assert_eq!(rejected, 0);
    } else {
        panic!("four observations are enough");
    }
    assert!(d.summary(5).is_insufficient());
    assert!(observed(&[]).summary(0).is_insufficient(), "nothing is never enough");
}

#[test]
fn a_value_that_is_no_number_is_refused_and_counted() {
    let mut d = observed(&[1, 2]);
    d.refuse();
    assert_eq!(d.len(), 2);
    assert_eq!(d.rejected(), 1);
}

#[test]
fn large_values_are_observed_and_kept_on_their_grid() {
    let mut d = Distribution::new();
    d.observe_quotient(10_000_000_000_000_000, 1_000_000);
    assert_eq!((d.len(), d.rejected()), (1, 0));
    assert_eq!(d.summary(1).mean().map(f), Some(1e10));
    let large = q(10_000_000_000_000_000, 1);
    assert!(Quantum::sum().holds(large));
    assert_eq!(f(Quantum::sum().quantise(large)), 1e16, "a grid value is left as it is");
    assert_eq!(Quantum::sum().grid(large), i64::MAX, "its index is a 64-bit integer");
    let most = 1_237_940_039_285_380_274_899_124_224i128;
    let mut many = Distribution::new();
    for _ in 0..200 {
        many.observe_quotient(most, 1);
    }
    assert_eq!(many.summary(1).mean(), Some(q(most * 1_000_000_000, 1_000_000_000)));
}

#[test]
fn the_order_of_observations_does_not_matter() {
    let a = observed(&[5, -3, 8, 8, 0]).summary(1);
    let b = observed(&[8, 0, 8, -3, 5]).summary(1);
    assert_eq!(a, b);
}

#[test]
fn a_thin_proportion_is_refused_and_a_thick_one_is_not() {
    let mut p = Proportion::new();
    p.observe(true);
    p.observe(false);
    p.observe_many(2, 4);
    assert_eq!((p.successes(), p.trials(), p.failures()), (3, 6, 3));
    assert_eq!(p.estimate(6, ConfidenceLevel::P95).point().map(f), Some(0.5));
    assert_eq!(
        p.estimate(7, ConfidenceLevel::P95),
        RatioEstimate::Insufficient { trials: 6, required: 7 }
    );
    assert!(Proportion::new().estimate(0, ConfidenceLevel::P90).is_insufficient());
    let clustered = p.estimate_clustered(2, 1, ConfidenceLevel::P99);
    assert!(matches!(clustered, RatioEstimate::Proportion { effective: 2, trials: 6, .. }));
    assert!(p.estimate_clustered(2, 3, ConfidenceLevel::P99).is_insufficient());
}

#[test]
fn a_ratio_of_sums_has_no_value_over_nothing() {
    let r = ratio_of_sums(q(240, 1), q(600, 1), q(240, 600), 2, 1);
    assert_eq!(r.point().map(f), Some(0.4));
    assert_eq!(r.n(), 2);
    assert!(ratio_of_sums(q(1, 1), q(0, 1), q(0, 1), 2, 1).is_insufficient());
    assert!(ratio_of_whole_sums(1, 2, 2, 3).is_insufficient());
}

#[test]
fn every_stage_has_its_own_rank() {
    for i in 0..8 {
        assert_eq!(stage_rank(stage_name(i)), Some(i));
    }
    assert_eq!(stage_rank("invented"), None);
}

fn todo_param(name: &str, plan: Option<&str>) -> Parameter {
    Parameter {
        name: name.to_string(),
        unit: "us".to_string(),
        default: "null".to_string(),
        range: None,
        source: Source {
            kind: SourceKind::TodoCalibrate,
            reference: "nobody has measured it".to_string(),
            accessed: None,
            note: None,
        },
        calibration: plan.map(str::to_string),
    }
}

fn cited_param(name: &str) -> Parameter {
    Parameter {
        name: name.to_string(),
        unit: "dB".to_string(),
        default: "3.0".to_string(),
        range: None,
        source: Source {
            kind: SourceKind::Datasheet,
            reference: "a real datasheet".to_string(),
            accessed: None,
            note: None,
        },
        calibration: None,
    }
}

fn card_with(id: &str, tiers: Vec<Tier>, parameters: Vec<Parameter>) -> ModelCard {
    let mut card = ModelCard::new(id, Family::Metric, "1.0.0", "A card for the calibration tests.");
    card.tier = tiers;
    card.parameters = parameters;
    card
}

fn issue(id: &str, state: IssueState, covers: &[&str]) -> CalibrationIssue {
    CalibrationIssue {
        id: id.to_string(),
        title: "an issue".to_string(),
        owner: "somebody".to_string(),
        state,
        covers: covers.iter().map(|s| (*s).to_string()).collect(),
        measurement: "bench the device".to_string(),
        tracker: None,
        blocked_by: None,
    }
}

fn register_of(issues: Vec<CalibrationIssue>) -> IssueRegister {
    IssueRegister { schema: ISSUE_REGISTER_SCHEMA.to_string(), issues }
}

fn one_card(plan: &str) -> Vec<ModelCard> {
    vec![card_with("metric/test/one", vec![Tier::High], vec![todo_param("threshold", Some(plan))])]
}

#[test]
fn an_uncalibrated_high_tier_default_with_no_issue_fails() {
    let report = run(&one_card("measure it on a test track"), &IssueRegister::empty());
    assert!(!report.passed(), "{}", report.summary());
    assert_eq!(report.high_tier_todo_parameters, 1);
    assert_eq!(report.failures.len(), 1);
    assert!(matches!(report.failures[0].reason, FailureReason::NoIssue));
    assert_eq!(report.covered, 0);
}

#[test]
fn a_live_issue_covers_it_and_the_gate_goes_green() {
    let register =
        register_of(vec![issue("CAL-001", IssueState::Open, &["metric/test/one::threshold"])]);
    let report = run(&one_card("measure it on a test track"), &register);
    assert!(report.passed(), "{}", report.summary());
    assert_eq!(report.covered, 1);
    assert!(report.unused_issues.is_empty());
    assert!(report.assert_pass().is_ok());
}

#[test]
fn a_closed_issue_is_a_contradiction_rather_than_coverage() {
    let register = register_of(vec![issue("CAL-002", IssueState::Closed, &["metric/test/one::*"])]);
    let report = run(&one_card("a plan"), &register);
    assert!(!report.passed());
    match &report.failures[0].reason {
        FailureReason::IssueClosed(ids) => assert_eq!(ids, &vec!["CAL-002".to_string()]),
        other => panic!("{other:?}"),
    }
}

#[test]
fn a_blocked_issue_still_counts_as_tracked_work() {
    let mut blocked = issue("CAL-003", IssueState::Blocked, &["metric/test/one::*"]);
    blocked.blocked_by = Some("the vendor will not release the datasheet".to_string());
    assert!(run(&one_card("a plan"), &register_of(vec![blocked])).passed());
}

#[test]
fn a_prefix_pattern_covers_a_family_of_fields_and_nothing_else() {
    let cards = vec![card_with(
        "obu/test-device",
        vec![Tier::Medium, Tier::High],
        vec![
            todo_param("hsm.queue_depth", Some("a plan")),
            todo_param("hsm.ops.sign.us", Some("a plan")),
            todo_param("power_w", Some("a plan")),
        ],
    )];
    let register = register_of(vec![issue("CAL-004", IssueState::Open, &["obu/test-device::hsm."])]);
    let literal = run(&cards, &register);
    assert_eq!(literal.failures.len(), 3);
    assert_eq!(literal.unused_issues, vec!["CAL-004".to_string()]);

    let register = register_of(vec![issue("CAL-004", IssueState::Open, &["obu/test-device::hsm.*"])]);
    let prefix = run(&cards, &register);
    assert_eq!(prefix.covered, 2);
    assert_eq!(prefix.failures.len(), 1);
    assert_eq!(prefix.failures[0].parameter, "power_w");
}

#[test]
fn a_registry_wide_wildcard_is_refused_and_fails_the_gate() {
    for pattern in ["*::*", "*::threshold", "metric/test/*::threshold"] {
        let register = register_of(vec![issue("CAL-005", IssueState::Open, &[pattern])]);
        let report = run(&one_card("a plan"), &register);
        assert!(!report.passed(), "{pattern} must not open the calibration rule");
        assert_eq!(report.malformed_patterns.len(), 1, "{pattern}");
        assert_eq!(report.failures.len(), 1, "{pattern}");
    }
}

#[test]
fn a_pattern_with_the_wrong_shape_is_reported_with_its_problem() {
    assert!(parse_pattern("a::b::c").is_err());
    assert!(parse_pattern("noseparator").is_err());
    assert!(parse_pattern("::threshold").is_err());
    assert!(parse_pattern("model::").is_err());
    assert!(parse_pattern("model::a*b").is_err());
    assert_eq!(parse_pattern("model::*"), Ok(("model", "*")));
    assert_eq!(parse_pattern(" model :: a.b "), Ok(("model", "a.b")));
}

#[test]
fn a_parameter_pattern_is_a_name_a_prefix_or_everything() {
    assert!(parameter_matches("*", "anything"));
    assert!(parameter_matches("hsm.*", "hsm.ops"));
    assert!(!parameter_matches("hsm.*", "hs"));
    assert!(parameter_matches("exact", "exact"));
    assert!(!parameter_matches("exact", "exactly"));
}

#[test]
fn a_cited_default_is_not_in_the_gates_scope() {
    let cards = vec![card_with(
        "metric/test/cited",
        vec![Tier::High],
        vec![cited_param("path_loss_exponent")],
    )];
    let report = run(&cards, &IssueRegister::empty());
    assert!(report.passed());
    assert_eq!(report.parameters, 1);
    assert_eq!(report.todo_parameters, 0);
}

#[test]
fn a_card_that_does_not_declare_the_high_tier_is_listed_outside_the_gate() {
    let cards = vec![card_with(
        "metric/test/cheap",
        vec![Tier::Abstract],
        vec![todo_param("threshold", Some("a plan"))],
    )];
    let report = run(&cards, &IssueRegister::empty());
    assert!(report.passed(), "the rule is about high-tier defaults");
    assert_eq!(report.todo_parameters, 1);
    assert_eq!(report.high_tier_todo_parameters, 0);
    assert_eq!(report.outside_gate.len(), 1, "and it is still visible");
}

#[test]
fn a_register_finds_its_issues_and_checks_its_schema() {
    let register = register_of(vec![issue("CAL-001", IssueState::InProgress, &["a/b::c"])]);
    assert!(register.schema_matches());
    assert_eq!(register.issues.len(), 1);
    assert_eq!(register.issues[0].state, IssueState::InProgress);
    assert!(register.get("CAL-001").is_some());
    assert!(register.get("CAL-999").is_none());
}

#[test]
fn a_parameter_with_no_plan_fails_for_that_reason_and_not_for_a_missing_issue() {
    let cards =
        vec![card_with("metric/test/noplan", vec![Tier::High], vec![todo_param("threshold", None)])];
    let report = run_over_cards(&cards, &IssueRegister::empty());
    assert_eq!(report.failures.len(), 1);
    assert!(matches!(report.failures[0].reason, FailureReason::NoPlan));

    let register = register_of(vec![issue("CAL-006", IssueState::Open, &["metric/test/noplan::*"])]);
    let covered = run_over_cards(&cards, &register);
    assert_eq!(covered.failures.len(), 1);
    assert!(matches!(covered.failures[0].reason, FailureReason::NoPlan));
}

#[test]
fn the_summary_says_pass_or_fail_with_the_numbers() {
    let report = run(&vec![], &IssueRegister::empty());
    assert!(report.summary().starts_with("PASS"));
    let failing = run(&one_card("a plan"), &IssueRegister::empty());
    assert!(failing.summary().starts_with("FAIL"));
    assert_eq!(failing.lines().len(), 1);
    assert!(failing.assert_pass().is_err());
}

#[test]
fn failures_are_grouped_by_model() {
    let mut cards = one_card("a plan");
    cards.push(card_with(
        "metric/test/a",
        vec![Tier::High],
        vec![todo_param("x", Some("a plan")), todo_param("y", Some("a plan"))],
    ));
    let report = run(&cards, &IssueRegister::empty());
    let groups = by_model(&report.failures);
    assert_eq!(groups.len(), 2);
    assert_eq!(groups.key_at(0), "metric/test/a");
    assert_eq!(groups.value_at(0).len(), 2);
    assert_eq!(groups.value_at(1).len(), 1);
}

#[test]
fn errors_say_what_went_wrong() {
    let e = MetricError::OffGrid {
        name: "pdr".to_string(),
        value: q(1, 3),
        quantum: Quantum::ratio().get(),
    };
    assert_eq!(e.to_text(), "metric pdr: value 1/3 is off its declared grid of 0.0001");
    let e = MetricError::ChannelMismatch { expected: "node.tx", got: "mac.cbr".to_string() };
    assert_eq!(e.to_text(), "expected a record on channel node.tx, got one on mac.cbr");
    let e = MetricError::Registry { id: "a".to_string(), problem: "b".to_string() };
    assert_eq!(e.to_text(), "model card a: b");
}

#[test]
fn a_greater_value_is_in_no_earlier_bin() {
    let b = Bins::distance_25m(8).unwrap();
    let mut last = None;
    for mm in (-3_000..230_000).step_by(499) {
        let bin = b.index_of(q(mm, 1_000));
        assert!(last <= bin, "{mm} mm");
        last = bin;
    }
    assert_eq!(last, Some(8));
}

#[test]
fn the_numbers_of_a_summary_are_in_order() {
    for values in [vec![5], vec![-7, 3], vec![9, 9, 1, 4, 4, -2, 100]] {
        if let DistributionSummary::Summary { min, max, mean, p50, p95, p99, .. } =
            observed(&values).summary(1)
        {
            for (a, b) in [(min, p50), (p50, p95), (p95, p99), (p99, max), (min, mean), (mean, max)] {
                assert!(a.not_above(&b), "{values:?}");
            }
        } else {
            panic!("{values:?} are enough");
        }
    }
}

#[test]
fn the_order_of_the_cards_does_not_change_the_report() {
    let cards = |reversed: bool| {
        let mut c = vec![
            card_with("metric/test/b", vec![Tier::High], vec![todo_param("y", Some("p")), todo_param("x", None)]),
            card_with("metric/test/a", vec![Tier::High], vec![todo_param("z", Some("p"))]),
            card_with("metric/test/c", vec![Tier::Abstract], vec![todo_param("w", Some("p"))]),
        ];
        if reversed {
            c.reverse();
        }
        c
    };
    let register = register_of(vec![issue("I-1", IssueState::Closed, &["metric/test/b::y", "a::b::c"])]);
    let one = run_over_cards(&cards(false), &register);
    let two = run_over_cards(&cards(true), &register);
    assert_eq!(one.lines(), two.lines());
    assert_eq!(one.summary(), two.summary());
    let models: Vec<&str> = one.failures.iter().map(|x| x.model.as_str()).collect();
    assert_eq!(models, vec!["metric/test/a", "metric/test/b", "metric/test/b"]);
    assert_eq!(one.outside_gate.len(), 1);
}

#[test]
fn a_pattern_is_put_together_from_its_halves() {
    for s in [" model :: a.b ", "m::*", "m::: x*", "m :: :x"] {
        let (m, q) = parse_pattern(s).unwrap();
        let again = format!("{m}::{q}");
        assert_eq!(parse_pattern(&again), Ok((m, q)), "{s}");
    }
}
