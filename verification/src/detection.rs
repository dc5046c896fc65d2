//! Detection metrics: the confusion matrix, and the summaries derived from it.

use vstd::prelude::*;
use crate::quant::{real_of, Real};
use crate::stats::{needed, ConfidenceLevel, Counts, Estimate, Proportion, RatioEstimate};

verus! {

/// What a detection metric is measured over.
#[derive(Clone, Copy, Debug, PartialEq, Eq, Structural)]
pub enum DetectionLevel {
    /// A subject is predicted by a report about it.
    Report,
    /// A subject is predicted by the decision to revoke it.
    Vehicle,
}

impl DetectionLevel {
    /// Both levels, in order.
    pub fn all() -> (r: [DetectionLevel; 2])
        ensures
            r@ == seq![DetectionLevel::Report, DetectionLevel::Vehicle],
    {
        let r = [DetectionLevel::Report, DetectionLevel::Vehicle];
        assert(r@ =~= seq![DetectionLevel::Report, DetectionLevel::Vehicle]);
        r
    }

    /// The level's name.
    pub open spec fn text(self) -> Seq<char> {
        match self {
            DetectionLevel::Report => "report"@,
            DetectionLevel::Vehicle => "vehicle"@,
        }
    }

    /// The level's name.
    pub fn as_str(self) -> (r: &'static str)
        ensures
            r@ == self.text(),
    {
        match self {
            DetectionLevel::Report => "report",
            DetectionLevel::Vehicle => "vehicle",
        }
    }
}

/// One cell of a confusion matrix.
#[derive(Clone, Copy, Debug, PartialEq, Eq, Structural)]
pub enum Cell {
    /// True positive.
    Tp,
    /// False positive.
    Fp,
    /// False negative.
    Fn,
    /// True negative.
    Tn,
}

impl Cell {
    /// Every cell, in order.
    pub open spec fn every() -> Seq<Cell> {
        seq![Cell::Tp, Cell::Fp, Cell::Fn, Cell::Tn]
    }

    /// Every cell, in order.
    pub fn all() -> (r: [Cell; 4])
        ensures
            r@ == Cell::every(),
    {
        let r = [Cell::Tp, Cell::Fp, Cell::Fn, Cell::Tn];
        assert(r@ =~= Cell::every());
        r
    }

    /// The cell's name.
    pub open spec fn text(self) -> Seq<char> {
        match self {
            Cell::Tp => "tp"@,
            Cell::Fp => "fp"@,
            Cell::Fn => "fn"@,
            Cell::Tn => "tn"@,
        }
    }

    /// The cell's name.
    pub fn as_str(self) -> (r: &'static str)
        ensures
            r@ == self.text(),
    {
        match self {
            Cell::Tp => "tp",
            Cell::Fp => "fp",
            Cell::Fn => "fn",
            Cell::Tn => "tn",
        }
    }
}

/// A two-by-two confusion matrix: four exact counts.
#[derive(Clone, Copy, Debug, PartialEq, Eq, Structural)]
pub struct ConfusionMatrix {
    /// Predicted misbehaving, and misbehaving.
    pub tp: u64,
    /// Predicted misbehaving, and benign.
    pub fp: u64,
    /// Predicted benign, and misbehaving.
    pub fn_: u64,
    /// Predicted benign, and benign.
    pub tn: u64,
}

impl ConfusionMatrix {
    /// The number of subjects in the matrix.
    pub open spec fn sum(self) -> int {
        self.tp + self.fp + self.fn_ + self.tn
    }

    /// The count in one cell.
    pub open spec fn at(self, cell: Cell) -> u64 {
        match cell {
            Cell::Tp => self.tp,
            Cell::Fp => self.fp,
            Cell::Fn => self.fn_,
            Cell::Tn => self.tn,
        }
    }

    /// The matrix with no subject in it.
    pub open spec fn empty() -> ConfusionMatrix {
        ConfusionMatrix { tp: 0, fp: 0, fn_: 0, tn: 0 }
    }

    /// The matrix after one more subject.
    pub open spec fn and(self, predicted: bool, truth: bool) -> ConfusionMatrix {
        if predicted && truth {
            ConfusionMatrix { tp: (self.tp + 1) as u64, ..self }
        } else if predicted {
            ConfusionMatrix { fp: (self.fp + 1) as u64, ..self }
        } else if truth {
            ConfusionMatrix { fn_: (self.fn_ + 1) as u64, ..self }
        } else {
            ConfusionMatrix { tn: (self.tn + 1) as u64, ..self }
        }
    }

    /// An empty matrix.
    pub fn new() -> (r: ConfusionMatrix)
        ensures
            r == ConfusionMatrix::empty(),
    {
        ConfusionMatrix { tp: 0, fp: 0, fn_: 0, tn: 0 }
    }

    /// Counts one subject: what was predicted of it, and what it is.
    pub fn observe(&mut self, predicted_misbehaving: bool, truly_misbehaving: bool)
        requires
            old(self).sum() < u64::MAX,
        ensures
            *final(self) == old(self).and(predicted_misbehaving, truly_misbehaving),
            final(self).sum() == old(self).sum() + 1,
    {
        match (predicted_misbehaving, truly_misbehaving) {
            (true, true) => {
                self.tp = self.tp + 1;
            },
            (true, false) => {
                self.fp = self.fp + 1;
            },
            (false, true) => {
                self.fn_ = self.fn_ + 1;
            },
            (false, false) => {
                self.tn = self.tn + 1;
            },
        }
    }

    /// The number of subjects in the matrix.
    pub fn total(&self) -> (r: u64)
        requires
            self.sum() <= u64::MAX,
        ensures
            r == self.sum(),
    {
        self.tp + self.fp + self.fn_ + self.tn
    }

    /// The count in one cell.
    pub fn cell(&self, cell: Cell) -> (r: u64)
        ensures
            r == self.at(cell),
    {
        match cell {
            Cell::Tp => self.tp,
            Cell::Fp => self.fp,
            Cell::Fn => self.fn_,
            Cell::Tn => self.tn,
        }
    }

    /// Recall: of the misbehaving, the share that was predicted.
    pub open spec fn recall_of(self, min_samples: u64, level: ConfidenceLevel) -> RatioEstimate {
        Counts { successes: self.tp, trials: (self.tp + self.fn_) as u64 }.ratio(min_samples, level)
    }

    /// Recall: of the misbehaving, the share that was predicted.
    pub fn recall(&self, min_samples: u64, level: ConfidenceLevel) -> (r: RatioEstimate)
        requires
            self.tp + self.fn_ <= u64::MAX,
        ensures
            r == self.recall_of(min_samples, level),
    {
        Proportion::from_counts(self.tp, self.tp + self.fn_).estimate(min_samples, level)
    }

    /// The false-positive rate: of the benign, the share that was predicted.
    pub open spec fn fpr_of(self, min_samples: u64, level: ConfidenceLevel) -> RatioEstimate {
        Counts { successes: self.fp, trials: (self.fp + self.tn) as u64 }.ratio(min_samples, level)
    }

    /// The false-positive rate: of the benign, the share that was predicted.
    pub fn fpr(&self, min_samples: u64, level: ConfidenceLevel) -> (r: RatioEstimate)
        requires
            self.fp + self.tn <= u64::MAX,
        ensures
            r == self.fpr_of(min_samples, level),
    {
        Proportion::from_counts(self.fp, self.fp + self.tn).estimate(min_samples, level)
    }

    /// Precision: of the predicted, the share that is misbehaving.
    pub open spec fn precision_of(self, min_samples: u64, level: ConfidenceLevel) -> RatioEstimate {
        Counts { successes: self.tp, trials: (self.tp + self.fp) as u64 }.ratio(min_samples, level)
    }

    /// Precision: of the predicted, the share that is misbehaving.
    pub fn precision(&self, min_samples: u64, level: ConfidenceLevel) -> (r: RatioEstimate)
        requires
            self.tp + self.fp <= u64::MAX,
        ensures
            r == self.precision_of(min_samples, level),
    {
        Proportion::from_counts(self.tp, self.tp + self.fp).estimate(min_samples, level)
    }

    /// Accuracy: of all subjects, the share that was predicted as it is.
    pub open spec fn accuracy_of(self, min_samples: u64, level: ConfidenceLevel) -> RatioEstimate {
        Counts { successes: (self.tp + self.tn) as u64, trials: self.sum() as u64 }.ratio(
            min_samples,
            level,
        )
    }

    /// Accuracy: of all subjects, the share that was predicted as it is.
    pub fn accuracy(&self, min_samples: u64, level: ConfidenceLevel) -> (r: RatioEstimate)
        requires
            self.sum() <= u64::MAX,
        ensures
            r == self.accuracy_of(min_samples, level),
    {
        Proportion::from_counts(self.tp + self.tn, self.total()).estimate(min_samples, level)
    }

    /// The F1 score: twice the true positives, over those and the two kinds of error.
    pub open spec fn f1_of(self, min_samples: u64) -> Estimate {
        if 2 * self.tp + self.fp + self.fn_ == 0 || self.sum() < needed(min_samples) {
            Estimate::Insufficient { n: self.sum() as u64, required: needed(min_samples) }
        } else {
            Estimate::Value {
                point: real_of(2 * self.tp, 2 * self.tp + self.fp + self.fn_),
                n: self.sum() as u64,
            }
        }
    }

    /// The F1 score. It has no confidence interval: it is a function of two dependent
    /// proportions.
    pub fn f1(&self, min_samples: u64) -> (r: Estimate)
        requires
            self.sum() <= u64::MAX,
        ensures
            r == self.f1_of(min_samples),
    {
        let denom: u128 = 2 * (self.tp as u128) + self.fp as u128 + self.fn_ as u128;
        let required: u64 = if min_samples == 0 {
            1
        } else {
            min_samples
        };
        let n: u64 = self.total();
        if denom == 0 || n < required {
            return Estimate::Insufficient { n, required };
        }
        Estimate::Value { point: Real::new(2 * (self.tp as i128), denom), n }
    }
}

/// Two subjects may be counted in either order.
pub proof fn the_matrix_is_order_independent(
    m: ConfusionMatrix,
    p: bool,
    t: bool,
    q: bool,
    u: bool,
)
    ensures
        m.and(p, t).and(q, u) == m.and(q, u).and(p, t),
{
}

/// The four cells account for every subject.
pub proof fn the_cells_sum_to_the_total(m: ConfusionMatrix)
    ensures
        m.at(Cell::Tp) + m.at(Cell::Fp) + m.at(Cell::Fn) + m.at(Cell::Tn) == m.sum(),
{
}

} // verus!
