#![allow(dead_code)]

use arrow::array::{
    Array, ArrayRef, BooleanArray, Float64Array, Int64Array, RecordBatch, StringArray, UInt64Array,
};
use arrow::datatypes::DataType;
use arrow::ipc::reader::StreamReader;
use std::sync::Arc;
use v2xw_metrics::arrow_out::{
    confusion_columns, confusion_rows, confusion_schema, json_object, row, row_with, sample_columns, sample_rows,
    sample_schema, schema_metadata, state_of, to_ipc, Batch, ConfusionRow, MatrixEntry, SampleRow,
    CONFUSION_SCHEMA_ID, SAMPLE_SCHEMA_ID,
};
use v2xw_metrics::basic::Visibility;
use v2xw_metrics::def::{no_dims, Agg, Dim, DimValue, Dims, MetricDef, MetricSample, SampleValue};
use v2xw_metrics::detection::{ConfusionMatrix, DetectionLevel};
use v2xw_metrics::distribution::{Distribution, DistributionSummary, Interpolation};
use v2xw_metrics::error::MetricError;
use v2xw_metrics::quant::{Quantum, Real};
use v2xw_metrics::stats::{ratio_of_whole_sums, ConfidenceLevel, Estimate, Interval, Proportion, RatioEstimate};

fn f(r: Real) -> f64 {
    r.num() as f64 / r.den() as f64
}

fn q(num: i128, den: u128) -> Real {
    Real::new(num, den)
}

fn def(name: &str, unit: &str, quantum: Quantum) -> MetricDef {
    MetricDef::new(name, unit, Agg::Mean, Visibility::Node, quantum, "A test metric.")
        .not_accounting_for("being real")
}

fn dims() -> Dims {
    let mut d = no_dims();
    d.insert(Dim::DistBin, DimValue::label("25-50"));
    d.insert(Dim::Node, DimValue::index(3));
    d
}

/// Three of four, with the bounds of a proportion at 95 %.
fn three_of_four() -> RatioEstimate {
    Proportion::from_counts(3, 4)
        .estimate(1, ConfidenceLevel::P95)
        .with_interval(q(3_006_418, 10_000_000), q(9_544_127, 10_000_000))
}

fn all_four_shapes() -> Vec<MetricSample> {
    let ratio_def = def("pdr", "ratio", Quantum::ratio());
    let mut d = Distribution::new();
    for x in [1, 2, 3, 4] {
        d.observe_quotient(x, 1);
    }
    d.refuse();
    vec![
        MetricSample::new(&ratio_def, 1_000, dims(), SampleValue::Ratio(three_of_four())),
        MetricSample::new(
            &def("goodput", "B/s", Quantum::bytes()),
            1_000,
            no_dims(),
            SampleValue::Ratio(ratio_of_whole_sums(240, 600, 2, 1)),
        ),
        MetricSample::new(
            &def("e2e_latency", "ms", Quantum::time_ms()),
            1_000,
            no_dims(),
            SampleValue::Distribution(d.summary(1)),
        ),
        MetricSample::new(
            &def("ttc_conflicts", "count", Quantum::count()),
            1_000,
            no_dims(),
            SampleValue::count(7),
        ),
        MetricSample::new(
            &ratio_def,
            1_000,
            no_dims(),
            SampleValue::Ratio(Proportion::from_counts(1, 1).estimate(30, ConfidenceLevel::P95)),
        ),
    ]
}

fn numbers(rows: &[SampleRow], of: impl Fn(&SampleRow) -> Option<Real>) -> ArrayRef {
    Arc::new(Float64Array::from(rows.iter().map(|r| of(r).map(f)).collect::<Vec<_>>()))
}

fn texts(rows: &[SampleRow], of: impl Fn(&SampleRow) -> String) -> ArrayRef {
    Arc::new(StringArray::from(rows.iter().map(of).collect::<Vec<_>>()))
}

fn wholes(rows: &[SampleRow], of: impl Fn(&SampleRow) -> Option<u64>) -> ArrayRef {
    Arc::new(UInt64Array::from(rows.iter().map(of).collect::<Vec<_>>()))
}

/// The rows as a batch: it is refused unless the columns fit the schema.
fn batch(rows: &[SampleRow]) -> RecordBatch {
    let columns: Vec<ArrayRef> = vec![
        wholes(rows, |r| Some(r.t_ns)),
        texts(rows, |r| r.metric.clone()),
        texts(rows, |r| r.unit.clone()),
        texts(rows, |r| r.agg.clone()),
        texts(rows, |r| r.visibility.clone()),
        Arc::new(BooleanArray::from(rows.iter().map(|r| r.diagnostic).collect::<Vec<_>>())),
        texts(rows, |r| r.dims.clone()),
        texts(rows, |r| r.state.to_string()),
        numbers(rows, |r| Some(r.quantum)),
        wholes(rows, |r| Some(r.n)),
        wholes(rows, |r| r.required_n),
        numbers(rows, |r| r.value),
        Arc::new(Int64Array::from(rows.iter().map(|r| r.value_grid).collect::<Vec<_>>())),
        wholes(rows, |r| r.count),
        wholes(rows, |r| r.successes),
        numbers(rows, |r| r.ci_lo),
        numbers(rows, |r| r.ci_hi),
        numbers(rows, |r| r.ci_level),
        numbers(rows, |r| r.numerator),
        numbers(rows, |r| r.denominator),
        numbers(rows, |r| r.min),
        numbers(rows, |r| r.max),
        numbers(rows, |r| r.mean),
        numbers(rows, |r| r.p50),
        numbers(rows, |r| r.p95),
        numbers(rows, |r| r.p99),
        Arc::new(StringArray::from(rows.iter().map(|r| r.interpolation).collect::<Vec<_>>())),
        wholes(rows, |r| r.rejected),
    ];
    RecordBatch::try_new(sample_schema(), columns).unwrap()
}

fn samples_batch(samples: Vec<MetricSample>) -> RecordBatch {
    batch(&sample_rows(&samples).unwrap())
}

fn col_f64(batch: &RecordBatch, name: &str) -> Vec<Option<f64>> {
    let i = batch.schema().index_of(name).unwrap();
    let a = batch.column(i).as_any().downcast_ref::<Float64Array>().unwrap();
    (0..a.len()).map(|r| if a.is_null(r) { None } else { Some(a.value(r)) }).collect()
}

fn col_str(batch: &RecordBatch, name: &str) -> Vec<Option<String>> {
    let i = batch.schema().index_of(name).unwrap();
    let a = batch.column(i).as_any().downcast_ref::<StringArray>().unwrap();
    (0..a.len()).map(|r| if a.is_null(r) { None } else { Some(a.value(r).to_string()) }).collect()
}

fn col_u64(batch: &RecordBatch, name: &str) -> Vec<Option<u64>> {
    let i = batch.schema().index_of(name).unwrap();
    let a = batch.column(i).as_any().downcast_ref::<UInt64Array>().unwrap();
    (0..a.len()).map(|r| if a.is_null(r) { None } else { Some(a.value(r)) }).collect()
}

#[test]
fn the_batch_has_a_row_per_sample_and_the_declared_schema() {
    let batch = samples_batch(all_four_shapes());
    assert_eq!(batch.num_rows(), 5);
    assert_eq!(batch.num_columns(), sample_schema().fields().len());
    assert_eq!(
        batch.schema().metadata().get("schema").map(String::as_str),
        Some(SAMPLE_SCHEMA_ID)
    );
}

#[test]
fn each_shape_fills_its_own_columns_and_nulls_the_others() {
    let batch = samples_batch(all_four_shapes());
    assert_eq!(
        col_str(&batch, "state"),
        vec![
            Some("proportion".to_string()),
            Some("ratio-of-sums".to_string()),
            Some("distribution".to_string()),
            Some("count".to_string()),
            Some("insufficient".to_string()),
        ]
    );
    assert_eq!(col_f64(&batch, "value")[0], Some(0.75));
    assert_eq!(col_u64(&batch, "successes")[0], Some(3));
    assert!(col_f64(&batch, "ci_lo")[0].is_some());
    assert_eq!(col_f64(&batch, "numerator")[0], None);
    assert_eq!(col_f64(&batch, "p95")[0], None);
    assert_eq!(col_f64(&batch, "value")[1], Some(0.4));
    assert_eq!(col_f64(&batch, "numerator")[1], Some(240.0));
    assert_eq!(col_f64(&batch, "denominator")[1], Some(600.0));
    assert_eq!(col_f64(&batch, "ci_lo")[1], None);
    assert_eq!(col_f64(&batch, "min")[2], Some(1.0));
    assert_eq!(col_f64(&batch, "max")[2], Some(4.0));
    assert_eq!(col_f64(&batch, "mean")[2], Some(2.5));
    assert_eq!(col_f64(&batch, "p50")[2], Some(2.5));
    assert_eq!(
        col_str(&batch, "interpolation")[2],
        Some("hyndman-fan-type-7-linear".to_string())
    );
    assert_eq!(col_u64(&batch, "rejected")[2], Some(1));
    assert_eq!(col_u64(&batch, "count")[3], Some(7));
    assert_eq!(col_f64(&batch, "value")[4], None);
    assert_eq!(col_u64(&batch, "required_n")[4], Some(30));
    assert_eq!(col_u64(&batch, "n")[4], Some(1));
}

#[test]
fn the_dims_column_is_canonical_json() {
    let batch = samples_batch(all_four_shapes());
    assert_eq!(
        col_str(&batch, "dims")[0],
        Some(r#"{"dist_bin":"25-50","node":3}"#.to_string()),
        "compact, keys sorted"
    );
    assert_eq!(col_str(&batch, "dims")[1], Some("{}".to_string()));
}

#[test]
fn a_label_is_escaped_as_json() {
    let mut d = no_dims();
    d.insert(Dim::Cause, DimValue::label("say \"no\"\n"));
    let s = MetricSample::new(&def("x", "count", Quantum::count()), 0, d, SampleValue::count(1));
    assert_eq!(row(&s).unwrap().dims, r#"{"cause":"say \"no\"\n"}"#);
}

#[test]
fn an_object_is_written_in_the_order_of_its_names() {
    let members = vec![
        ("b".to_string(), "1".to_string()),
        ("a".to_string(), "\"x\"".to_string()),
        ("c".to_string(), "null".to_string()),
    ];
    assert_eq!(json_object(members), r#"{"a":"x","b":1,"c":null}"#);
    assert_eq!(json_object(vec![]), "{}");
}

#[test]
fn every_float_in_the_table_is_on_its_declared_grid() {
    let rows = sample_rows(&all_four_shapes()).unwrap();
    for r in &rows {
        let per_unit = (1.0 / f(r.quantum)).round() as u64;
        let grid = Quantum::new(per_unit);
        for v in [r.value, r.min, r.max, r.mean, r.p50, r.p95, r.p99].into_iter().flatten() {
            assert!(grid.holds(v), "{v:?} off the grid {grid:?}");
        }
        for v in [r.ci_lo, r.ci_hi].into_iter().flatten() {
            assert!(Quantum::probability().holds(v), "{v:?} off the probability grid");
        }
    }
    assert_eq!(rows[0].value_grid, Some(7_500));
    assert_eq!(rows[3].value_grid, Some(7));
}

#[test]
fn the_writer_refuses_a_float_that_bypassed_the_quantiser() {
    let mut s = MetricSample::new(
        &def("pdr", "ratio", Quantum::ratio()),
        0,
        no_dims(),
        SampleValue::Scalar(Estimate::Value { point: q(1, 2), n: 1 }),
    );
    s.value = SampleValue::Scalar(Estimate::Value { point: q(1, 3), n: 1 });
    let e = sample_rows(&vec![s]).unwrap_err();
    assert!(
        matches!(&e, MetricError::OffGrid { name, quantum, .. } if name == "pdr" && f(*quantum) == 1e-4),
        "{}",
        e.to_text()
    );
    let mut s = MetricSample::new(
        &def("e2e_latency", "ms", Quantum::time_ms()),
        0,
        no_dims(),
        SampleValue::count(0),
    );
    s.value = SampleValue::Distribution(DistributionSummary::Summary {
        n: 3,
        min: q(1, 1),
        max: q(3, 1),
        mean: q(2, 1),
        p50: q(2, 1),
        p95: q(1, 7),
        p99: q(3, 1),
        interpolation: Interpolation::Type7Linear,
        rejected: 0,
    });
    assert!(matches!(sample_rows(&vec![s]).unwrap_err(), MetricError::OffGrid { .. }));
}

#[test]
fn the_writer_refuses_a_bound_or_a_sum_that_bypassed_the_quantiser() {
    let make = |value: SampleValue| {
        MetricSample::new(&def("pdr", "ratio", Quantum::ratio()), 0, no_dims(), value)
    };
    let bounded = || Proportion::from_counts(30, 40).estimate(1, ConfidenceLevel::P95);
    let mut s = make(SampleValue::Ratio(bounded()));
    s.value = SampleValue::Ratio(bounded().with_interval(q(1, 3), q(1, 1)));
    let e = sample_rows(&vec![s]).unwrap_err();
    assert!(
        matches!(&e, MetricError::OffGrid { name, quantum, .. } if name == "pdr" && f(*quantum) == 1e-6),
        "{}",
        e.to_text()
    );

    let mut s = make(SampleValue::Ratio(ratio_of_whole_sums(1, 4, 40, 1)));
    if let SampleValue::Ratio(RatioEstimate::RatioOfSums { numerator, .. }) = &mut s.value {
        *numerator = q(1, 3);
    }
    let e = sample_rows(&vec![s]).unwrap_err();
    assert!(
        matches!(&e, MetricError::OffGrid { name, quantum, .. } if name == "pdr" && f(*quantum) == 1e-3),
        "{}",
        e.to_text()
    );

    let fine = vec![
        make(SampleValue::Ratio(bounded().with_interval(q(1, 3), q(1, 1)))),
        make(SampleValue::Ratio(ratio_of_whole_sums(1, 3, 40, 1))),
    ];
    assert!(sample_rows(&fine).is_ok());
}

#[test]
fn the_first_refusal_is_the_one_that_is_told() {
    let mut bad = all_four_shapes();
    bad[2].value = SampleValue::Scalar(Estimate::Value { point: q(1, 3), n: 1 });
    bad[3].value = SampleValue::Scalar(Estimate::Value { point: q(1, 7), n: 1 });
    match sample_rows(&bad).unwrap_err() {
        MetricError::OffGrid { name, .. } => assert_eq!(name, "e2e_latency"),
        other => panic!("{other:?}"),
    }
}

#[test]
fn a_row_takes_its_dimensions_as_they_are_written() {
    let s = MetricSample::new(
        &def("c", "count", Quantum::count()),
        9,
        no_dims(),
        SampleValue::count(u64::MAX),
    );
    let r = row_with(&s, "dims".to_string()).unwrap();
    assert_eq!(r.dims, "dims");
    assert_eq!(r.t_ns, 9);
    assert_eq!(r.count, Some(u64::MAX));
    assert_eq!(r.value_grid, Some(-1), "the bits of the count");
    assert_eq!(r.state, state_of(&s.value));
}

#[test]
fn a_tables_schema_metadata_has_exactly_one_entry() {
    for schema in [sample_schema(), confusion_schema()] {
        assert_eq!(
            schema.metadata().len(),
            1,
            "a second metadata entry would put the IPC bytes at the mercy of a hash seed"
        );
    }
    assert_eq!(schema_metadata("x"), vec![("schema".to_string(), "x".to_string())]);
}

#[test]
fn a_schema_has_the_declared_fields() {
    for (schema, columns) in
        [(sample_schema(), sample_columns()), (confusion_schema(), confusion_columns())]
    {
        assert_eq!(schema.fields().len(), columns.len());
        for (field, column) in schema.fields().iter().zip(&columns) {
            assert_eq!(field.name(), column.name);
            assert_eq!(field.is_nullable(), column.nullable);
        }
    }
    let schema = sample_schema();
    let kind = |name: &str| schema.field_with_name(name).unwrap().data_type().clone();
    assert_eq!(kind("t_ns"), DataType::UInt64);
    assert_eq!(kind("metric"), DataType::Utf8);
    assert_eq!(kind("diagnostic"), DataType::Boolean);
    assert_eq!(kind("value"), DataType::Float64);
    assert_eq!(kind("value_grid"), DataType::Int64);
}

#[test]
fn an_empty_batch_is_valid_and_has_no_rows() {
    let batch = samples_batch(vec![]);
    assert_eq!(batch.num_rows(), 0);
    assert_eq!(batch.num_columns(), sample_schema().fields().len());
}

fn entry(level: DetectionLevel, matrix: ConfusionMatrix) -> MatrixEntry {
    let bounds = Some(Interval { lo: q(3_006_418, 10_000_000), hi: q(9_544_127, 10_000_000) });
    MatrixEntry { level, matrix, recall_interval: bounds, precision_interval: bounds }
}

fn confusion_batch(rows: &[ConfusionRow]) -> RecordBatch {
    let whole = |of: &dyn Fn(&ConfusionRow) -> u64| -> ArrayRef {
        Arc::new(UInt64Array::from(rows.iter().map(of).collect::<Vec<_>>()))
    };
    let number = |of: &dyn Fn(&ConfusionRow) -> Option<Real>| -> ArrayRef {
        Arc::new(Float64Array::from(rows.iter().map(|r| of(r).map(f)).collect::<Vec<_>>()))
    };
    let columns: Vec<ArrayRef> = vec![
        Arc::new(StringArray::from(rows.iter().map(|r| r.level).collect::<Vec<_>>())),
        whole(&|r| r.tp),
        whole(&|r| r.fp),
        whole(&|r| r.fn_),
        whole(&|r| r.tn),
        whole(&|r| r.total),
        number(&|r| r.recall),
        number(&|r| r.recall_ci_lo),
        number(&|r| r.recall_ci_hi),
        number(&|r| r.fpr),
        number(&|r| r.precision),
        number(&|r| r.precision_ci_lo),
        number(&|r| r.precision_ci_hi),
        number(&|r| r.f1),
        number(&|r| r.accuracy),
        number(&|r| Some(r.ci_level)),
    ];
    RecordBatch::try_new(confusion_schema(), columns).unwrap()
}

#[test]
fn the_confusion_batch_carries_the_cells_beside_the_summaries() {
    let m = ConfusionMatrix { tp: 3, fp: 1, fn_: 1, tn: 5 };
    let rows = confusion_rows(&vec![entry(DetectionLevel::Vehicle, m)], 1, ConfidenceLevel::P95);
    let batch = confusion_batch(&rows);
    assert_eq!(batch.num_rows(), 1);
    assert_eq!(
        batch.schema().metadata().get("schema").map(String::as_str),
        Some(CONFUSION_SCHEMA_ID)
    );
    assert_eq!(col_u64(&batch, "tp")[0], Some(3));
    assert_eq!(col_u64(&batch, "fn")[0], Some(1));
    assert_eq!(col_u64(&batch, "total")[0], Some(10));
    assert_eq!(col_f64(&batch, "recall")[0], Some(0.75));
    assert_eq!(col_f64(&batch, "precision")[0], Some(0.75));
    assert_eq!(col_f64(&batch, "f1")[0], Some(0.75));
    assert_eq!(col_f64(&batch, "accuracy")[0], Some(0.8));
    assert_eq!(col_f64(&batch, "ci_level")[0], Some(0.95));
    assert_eq!(col_f64(&batch, "recall_ci_lo")[0], Some(0.300_642));
    assert!(batch.schema().index_of("f1_ci_lo").is_err());
}

#[test]
fn a_thin_matrix_nulls_its_summaries_and_keeps_its_counts() {
    let m = ConfusionMatrix { tp: 1, fp: 0, fn_: 0, tn: 1 };
    let rows = confusion_rows(&vec![entry(DetectionLevel::Report, m)], 30, ConfidenceLevel::P95);
    let batch = confusion_batch(&rows);
    assert_eq!(col_u64(&batch, "tp")[0], Some(1));
    assert_eq!(col_f64(&batch, "recall")[0], None, "too thin to estimate");
    assert_eq!(col_f64(&batch, "precision")[0], None);
    assert_eq!(col_f64(&batch, "recall_ci_lo")[0], None);
}

#[test]
fn the_batches_round_trip_through_an_ipc_stream() {
    let batch = samples_batch(all_four_shapes());
    let bytes = to_ipc(&vec![Batch { columns: batch.clone() }]).unwrap();
    let reader = StreamReader::try_new(bytes.as_slice(), None).unwrap();
    let read: Vec<RecordBatch> = reader.map(|b| b.unwrap()).collect();
    assert_eq!(read.len(), 1);
    assert_eq!(read[0].num_rows(), batch.num_rows());
    assert_eq!(
        read[0].schema().metadata().get("schema").map(String::as_str),
        Some(SAMPLE_SCHEMA_ID),
        "the schema id survives the stream"
    );
    assert_eq!(col_f64(&read[0], "value"), col_f64(&batch, "value"));
}

#[test]
fn every_batch_of_a_stream_is_written_in_order() {
    let all = all_four_shapes();
    let first = batch(&sample_rows(&all).unwrap()[..2]);
    let second = batch(&sample_rows(&all).unwrap()[2..]);
    let bytes =
        to_ipc(&vec![Batch { columns: first.clone() }, Batch { columns: second.clone() }]).unwrap();
    let reader = StreamReader::try_new(bytes.as_slice(), None).unwrap();
    let read: Vec<RecordBatch> = reader.map(|b| b.unwrap()).collect();
    assert_eq!(read, vec![first, second]);
}

#[test]
fn an_ipc_stream_needs_a_batch_to_carry_its_schema() {
    let e = to_ipc(&vec![]).unwrap_err();
    assert_eq!(
        e.to_text(),
        "arrow: Invalid argument error: an IPC stream needs at least one batch, to carry the schema"
    );
}

#[test]
fn the_ipc_bytes_are_reproducible() {
    let a = to_ipc(&vec![Batch { columns: samples_batch(all_four_shapes()) }]).unwrap();
    let b = to_ipc(&vec![Batch { columns: samples_batch(all_four_shapes()) }]).unwrap();
    assert_eq!(a, b);
}

#[test]
fn a_label_is_escaped_as_json_escapes_it() {
    let mut d = no_dims();
    d.insert(Dim::Cause, DimValue::label("\u{8}\t\n\u{c}\r\u{0}\u{1f}\"\\/\u{7f}é"));
    let s = MetricSample::new(&def("pdr", "ratio", Quantum::ratio()), 0, d, SampleValue::count(1));
    assert_eq!(
        row(&s).unwrap().dims,
        "{\"cause\":\"\\b\\t\\n\\f\\r\\u0000\\u001f\\\"\\\\/\u{7f}é\"}"
    );
}
