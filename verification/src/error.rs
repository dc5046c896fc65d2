//! What can go wrong.

use vstd::prelude::*;
use vstd::string::*;
use crate::quant::{number_text, Real};
use crate::text::{decimal, join2, join3, numeral};

verus! {

/// The errors of the library.
#[derive(Debug)]
pub enum MetricError {
    /// A record does not read as its channel's view.
    Decode {
        /// The channel the record claimed.
        channel: String,
        /// What the parser says is wrong with it.
        problem: String,
    },
    /// A record was read as a view of another channel.
    ChannelMismatch {
        /// The channel the view is of.
        expected: &'static str,
        /// The channel the record claimed.
        got: String,
    },
    /// A definition contradicts itself.
    BadDefinition {
        /// What is defined.
        name: String,
        /// What is wrong with it.
        problem: String,
    },
    /// A number reached a table off its declared grid.
    OffGrid {
        /// The metric whose value is off the grid.
        name: String,
        /// The value.
        value: Real,
        /// The distance between two points of the grid.
        quantum: Real,
    },
    /// A figure of the machine was offered to a digest.
    DiagnosticInDigest {
        /// The metric.
        name: String,
    },
    /// Some invariant was broken.
    InvariantViolated {
        /// How many violations there were.
        count: usize,
        /// The violations.
        detail: String,
    },
    /// Some parameter that needs calibration is not on the register.
    GateFailed {
        /// How many failures there were.
        count: usize,
        /// The failures.
        detail: String,
    },
    /// A provider's card was refused.
    Registry {
        /// The card's id.
        id: String,
        /// Why it was refused.
        problem: String,
    },
    /// A text is not JSON of the expected form.
    Json {
        /// What the parser says is wrong with it.
        problem: String,
    },
    /// A table could not be built or written.
    Arrow {
        /// What went wrong.
        problem: String,
    },
}

/// What an error says, apart from how its text is stored.
pub ghost enum ErrorView {
    Decode { channel: Seq<char>, problem: Seq<char> },
    ChannelMismatch { expected: Seq<char>, got: Seq<char> },
    BadDefinition { name: Seq<char>, problem: Seq<char> },
    OffGrid { name: Seq<char>, value: Real, quantum: Real },
    DiagnosticInDigest { name: Seq<char> },
    InvariantViolated { count: usize, detail: Seq<char> },
    GateFailed { count: usize, detail: Seq<char> },
    Registry { id: Seq<char>, problem: Seq<char> },
    Json { problem: Seq<char> },
    Arrow { problem: Seq<char> },
}

impl View for MetricError {
    type V = ErrorView;

    open spec fn view(&self) -> ErrorView {
        match *self {
            MetricError::Decode { channel, problem } => ErrorView::Decode {
                channel: channel@,
                problem: problem@,
            },
            MetricError::ChannelMismatch { expected, got } => ErrorView::ChannelMismatch {
                expected: expected@,
                got: got@,
            },
            MetricError::BadDefinition { name, problem } => ErrorView::BadDefinition {
                name: name@,
                problem: problem@,
            },
            MetricError::OffGrid { name, value, quantum } => ErrorView::OffGrid {
                name: name@,
                value,
                quantum,
            },
            MetricError::DiagnosticInDigest { name } => ErrorView::DiagnosticInDigest {
                name: name@,
            },
            MetricError::InvariantViolated { count, detail } => ErrorView::InvariantViolated {
                count,
                detail: detail@,
            },
            MetricError::GateFailed { count, detail } => ErrorView::GateFailed {
                count,
                detail: detail@,
            },
            MetricError::Registry { id, problem } => ErrorView::Registry {
                id: id@,
                problem: problem@,
            },
            MetricError::Json { problem } => ErrorView::Json { problem: problem@ },
            MetricError::Arrow { problem } => ErrorView::Arrow { problem: problem@ },
        }
    }
}

impl ErrorView {
    /// The error in words.
    pub open spec fn text(self) -> Seq<char> {
        match self {
            ErrorView::Decode { channel, problem } => "channel "@ + channel
                + ": record does not decode against the reader-side view: "@ + problem,
            ErrorView::ChannelMismatch { expected, got } => "expected a record on channel "@
                + expected + ", got one on "@ + got,
            ErrorView::BadDefinition { name, problem } => "metric definition "@ + name + ": "@
                + problem,
            ErrorView::OffGrid { name, value, quantum } => "metric "@ + name + ": value "@
                + number_text(value@) + " is off its declared grid of "@ + number_text(quantum@),
            ErrorView::DiagnosticInDigest { name } => "metric "@ + name
                + " is a runtime diagnostic and may not enter a digested artefact"@,
            ErrorView::InvariantViolated { count, detail } => numeral(count as nat)
                + " invariant violation(s): "@ + detail,
            ErrorView::GateFailed { count, detail } => numeral(count as nat)
                + " calibration gate failure(s): "@ + detail,
            ErrorView::Registry { id, problem } => "model card "@ + id + ": "@ + problem,
            ErrorView::Json { problem } => "json: "@ + problem,
            ErrorView::Arrow { problem } => "arrow: "@ + problem,
        }
    }
}

impl MetricError {
    /// The error in words.
    pub fn to_text(&self) -> (r: String)
        ensures
            r@ == self@.text(),
    {
        match self {
            MetricError::Decode { channel, problem } => {
                let mut r = join3(
                    "channel ",
                    channel.as_str(),
                    ": record does not decode against the reader-side view: ",
                );
                r.append(problem.as_str());
                r
            },
            MetricError::ChannelMismatch { expected, got } => {
                let mut r = join3("expected a record on channel ", expected, ", got one on ");
                r.append(got.as_str());
                r
            },
            MetricError::BadDefinition { name, problem } => {
                let mut r = join3("metric definition ", name.as_str(), ": ");
                r.append(problem.as_str());
                r
            },
            MetricError::OffGrid { name, value, quantum } => {
                let mut r = join3("metric ", name.as_str(), ": value ");
                r.append(value.to_text().as_str());
                r.append(" is off its declared grid of ");
                r.append(quantum.to_text().as_str());
                r
            },
            MetricError::DiagnosticInDigest { name } => join3(
                "metric ",
                name.as_str(),
                " is a runtime diagnostic and may not enter a digested artefact",
            ),
            MetricError::InvariantViolated { count, detail } => join3(
                decimal(*count as u64).as_str(),
                " invariant violation(s): ",
                detail.as_str(),
            ),
            MetricError::GateFailed { count, detail } => join3(
                decimal(*count as u64).as_str(),
                " calibration gate failure(s): ",
                detail.as_str(),
            ),
            MetricError::Registry { id, problem } => {
                let mut r = join3("model card ", id.as_str(), ": ");
                r.append(problem.as_str());
                r
            },
            MetricError::Json { problem } => join2("json: ", problem.as_str()),
            MetricError::Arrow { problem } => join2("arrow: ", problem.as_str()),
        }
    }
}

} // verus!
