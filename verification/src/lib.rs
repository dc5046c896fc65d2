//! Metrics for simulations of vehicles that talk to one another.
//!
//! A run emits records. Providers reduce them to samples of metrics, each with a definition
//! that says what it counts and what it leaves out. Samples go into tables, and a set of
//! checks holds the records and the samples to the invariants of a run.
//!
//! Nothing here is a floating-point number. What a record carries are whole multiples of the
//! grid that it was recorded on: lengths in millimetres, speeds in millimetres per second,
//! powers in hundredths of a dBm, times in nanoseconds. What is computed from them are exact
//! quotients, and a quotient is rounded once, onto the grid that its metric declares.
//!
//! - [`channels`]: the records, by channel; [`ledger`]: all records of a run;
//! - [`def`]: definitions and samples; [`catalog`]: the definitions and the model cards;
//! - [`comms`], [`latency_metrics`], [`awareness`], [`load`], [`overhead`], [`frag`],
//!   [`detection_metrics`], [`safety`], [`runtime`]: the providers;
//! - [`provider`], [`providers`]: sets of them;
//! - [`stats`], [`distribution`], [`quant`], [`bins`]: estimates and grids;
//! - [`invariants`]: the checks; [`gate`]: the calibration rule on parameters that need calibration;
//! - [`arrow_out`]: tables.

pub mod arrange;
pub mod arrow_out;
pub mod awareness;
pub mod awareness_laws;
pub mod basic;
pub mod bins;
pub mod card;
pub mod cards;
pub mod catalog;
pub mod channels;
pub mod comms;
pub mod comms_laws;
pub mod coverage_laws;
pub mod def;
pub mod definition_laws;
pub mod detection;
pub mod detection_laws;
pub mod detection_metrics;
pub mod distribution;
pub mod drained;
pub mod error;
pub mod flush_laws;
pub mod frag;
pub mod frag_laws;
pub mod gains;
pub mod gate;
pub mod gate_laws;
pub mod invariants;
pub mod keyed;
pub mod latency;
pub mod latency_laws;
pub mod latency_metrics;
pub mod ledger;
pub mod ledger_laws;
pub mod load;
pub mod load_laws;
pub mod outside;
pub mod overhead;
pub mod overhead_laws;
pub mod provider;
pub mod providers;
pub mod quant;
pub mod refusals;
pub mod runtime;
pub mod runtime_laws;
pub mod safety;
pub mod safety_laws;
pub mod security;
pub mod stats;
pub mod table_laws;
pub mod tally;
pub mod text;
pub mod wide;

pub use def::{Agg, Dim, DimValue, Dims, MetricDef, MetricSample, SampleValue};
pub use detection::{Cell, ConfusionMatrix, DetectionLevel};
pub use distribution::{Distribution, DistributionSummary, Interpolation, Percentile};
pub use error::MetricError;
pub use gate::{CalibrationIssue, GateFailure, GateReport, IssueRegister, IssueState};
pub use invariants::{check_all, InvariantOutcome, InvariantReport, InvariantViolation};
pub use ledger::EventLedger;
pub use provider::{MetricProvider, ProviderSet};
pub use quant::Quantum;
pub use stats::{ConfidenceLevel, Estimate, Proportion, RatioEstimate};
