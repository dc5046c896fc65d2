//! Reductions that refuse to guess: proportions, ratios of sums and distributions.
//!
//! Every reduction carries the number of observations behind it, and answers
//! "insufficient" where there are fewer than were asked for. All of them work on integers,
//! so their results do not depend on the order of the observations.

use vstd::prelude::*;
use crate::quant::{quantised_real, real_of, Quantum, Quotient, Real};

verus! {

/// The number of observations below which a metric reports insufficient, unless its
/// definition says otherwise.
pub const DEFAULT_MIN_SAMPLES: u64 = 30;

/// The nominal coverage of a confidence interval.
#[derive(Clone, Copy, Debug, PartialEq, Eq, Structural)]
pub enum ConfidenceLevel {
    /// Nine in ten.
    P90,
    /// Nineteen in twenty.
    P95,
    /// Ninety-nine in a hundred.
    P99,
}

impl ConfidenceLevel {
    /// The coverage in hundredths.
    pub open spec fn percent(self) -> int {
        match self {
            ConfidenceLevel::P90 => 90,
            ConfidenceLevel::P95 => 95,
            ConfidenceLevel::P99 => 99,
        }
    }

    /// The coverage as a fraction.
    pub fn coverage(self) -> (r: Real)
        ensures
            r == real_of(self.percent(), 100),
    {
        match self {
            ConfidenceLevel::P90 => Real::new(90, 100),
            ConfidenceLevel::P95 => Real::new(95, 100),
            ConfidenceLevel::P99 => Real::new(99, 100),
        }
    }
}

/// The two bounds of a confidence interval.
#[derive(Clone, Copy, Debug, PartialEq, Eq, Structural)]
pub struct Interval {
    /// The lower bound.
    pub lo: Real,
    /// The upper bound.
    pub hi: Real,
}

/// A scalar with the number of observations behind it, or a refusal.
#[derive(Clone, Copy, Debug, PartialEq, Eq, Structural)]
pub enum Estimate {
    /// An estimate.
    Value {
        /// The estimate.
        point: Real,
        /// The observations behind it.
        n: u64,
    },
    /// Too few observations.
    Insufficient {
        /// The observations there were.
        n: u64,
        /// The observations that were asked for.
        required: u64,
    },
}

impl Estimate {
    /// The estimate, where there is one.
    pub fn point(&self) -> (r: Option<Real>)
        ensures
            r == match *self {
                Estimate::Value { point, .. } => Some(point),
                Estimate::Insufficient { .. } => None,
            },
    {
        match *self {
            Estimate::Value { point, .. } => Some(point),
            Estimate::Insufficient { .. } => None,
        }
    }

    /// The number of observations.
    pub open spec fn observations(self) -> u64 {
        match self {
            Estimate::Value { n, .. } => n,
            Estimate::Insufficient { n, .. } => n,
        }
    }

    /// The number of observations.
    pub fn n(&self) -> (r: u64)
        ensures
            r == self.observations(),
    {
        match *self {
            Estimate::Value { n, .. } => n,
            Estimate::Insufficient { n, .. } => n,
        }
    }

    /// True for a refusal.
    pub fn is_insufficient(&self) -> (r: bool)
        ensures
            r == (*self is Insufficient),
    {
        match *self {
            Estimate::Value { .. } => false,
            Estimate::Insufficient { .. } => true,
        }
    }

    /// The estimate rounded onto a grid.
    pub open spec fn on(self, per_unit: int) -> Estimate {
        match self {
            Estimate::Value { point, n } => Estimate::Value {
                point: quantised_real(point, per_unit),
                n,
            },
            Estimate::Insufficient { .. } => self,
        }
    }

    /// The estimate rounded onto the grid `q`.
    pub fn quantised(self, q: Quantum) -> (r: Estimate)
        ensures
            r == self.on(q@),
    {
        match self {
            Estimate::Value { point, n } => Estimate::Value { point: q.quantise(point), n },
            Estimate::Insufficient { n, required } => Estimate::Insufficient { n, required },
        }
    }
}

/// A ratio: a proportion of trials, a ratio of two sums, or a refusal.
#[derive(Clone, Copy, Debug, PartialEq, Eq, Structural)]
pub enum RatioEstimate {
    /// Successes over trials.
    Proportion {
        /// Successes over trials.
        point: Real,
        /// The interval around the point, once one has been computed.
        interval: Option<Interval>,
        /// The coverage that the interval has.
        level: ConfidenceLevel,
        /// The successes.
        successes: u64,
        /// The trials.
        trials: u64,
        /// The independent observations that the interval rests on.
        effective: u64,
    },
    /// One sum over another.
    RatioOfSums {
        /// The quotient of the two sums.
        point: Real,
        /// The sum above the line.
        numerator: Real,
        /// The sum below the line.
        denominator: Real,
        /// The observations behind the sums.
        n: u64,
    },
    /// Too few observations, or nothing to divide by.
    Insufficient {
        /// The observations there were.
        trials: u64,
        /// The observations that were asked for.
        required: u64,
    },
}

impl RatioEstimate {
    /// The ratio, where there is one.
    pub fn point(&self) -> (r: Option<Real>)
        ensures
            r == match *self {
                RatioEstimate::Proportion { point, .. } => Some(point),
                RatioEstimate::RatioOfSums { point, .. } => Some(point),
                RatioEstimate::Insufficient { .. } => None,
            },
    {
        match *self {
            RatioEstimate::Proportion { point, .. } => Some(point),
            RatioEstimate::RatioOfSums { point, .. } => Some(point),
            RatioEstimate::Insufficient { .. } => None,
        }
    }

    /// The interval, where there is one.
    pub fn interval(&self) -> (r: Option<Interval>)
        ensures
            r == match *self {
                RatioEstimate::Proportion { interval, .. } => interval,
                _ => None,
            },
    {
        match *self {
            RatioEstimate::Proportion { interval, .. } => interval,
            RatioEstimate::RatioOfSums { .. } => None,
            RatioEstimate::Insufficient { .. } => None,
        }
    }

    /// A proportion with its interval filled in; every other ratio as it is.
    pub fn with_interval(self, lo: Real, hi: Real) -> (r: RatioEstimate)
        ensures
            r == match self {
                RatioEstimate::Proportion { point, interval, level, successes, trials, effective } =>
                    RatioEstimate::Proportion {
                        point,
                        interval: Some(Interval { lo, hi }),
                        level,
                        successes,
                        trials,
                        effective,
                    },
                _ => self,
            },
    {
        match self {
            RatioEstimate::Proportion { point, interval: _, level, successes, trials, effective } =>
                RatioEstimate::Proportion {
                    point,
                    interval: Some(Interval { lo, hi }),
                    level,
                    successes,
                    trials,
                    effective,
                },
            other => other,
        }
    }

    /// The number of observations.
    pub open spec fn observations(self) -> u64 {
        match self {
            RatioEstimate::Proportion { trials, .. } => trials,
            RatioEstimate::RatioOfSums { n, .. } => n,
            RatioEstimate::Insufficient { trials, .. } => trials,
        }
    }

    /// The number of observations.
    pub fn n(&self) -> (r: u64)
        ensures
            r == self.observations(),
    {
        match *self {
            RatioEstimate::Proportion { trials, .. } => trials,
            RatioEstimate::RatioOfSums { n, .. } => n,
            RatioEstimate::Insufficient { trials, .. } => trials,
        }
    }

    /// True for a refusal.
    pub fn is_insufficient(&self) -> (r: bool)
        ensures
            r == (*self is Insufficient),
    {
        match *self {
            RatioEstimate::Insufficient { .. } => true,
            _ => false,
        }
    }

    /// The ratio with its point rounded onto the grid `q`, its bounds onto the grid of
    /// probabilities and its two sums onto the grid `sums`.
    pub open spec fn on(self, q: int, sums: int) -> RatioEstimate {
        match self {
            RatioEstimate::Proportion { point, interval, level, successes, trials, effective } =>
                RatioEstimate::Proportion {
                    point: quantised_real(point, q),
                    interval: match interval {
                        Some(i) => Some(
                            Interval {
                                lo: quantised_real(i.lo, 1_000_000),
                                hi: quantised_real(i.hi, 1_000_000),
                            },
                        ),
                        None => None,
                    },
                    level,
                    successes,
                    trials,
                    effective,
                },
            RatioEstimate::RatioOfSums { point, numerator, denominator, n } =>
                RatioEstimate::RatioOfSums {
                    point: quantised_real(point, q),
                    numerator: quantised_real(numerator, sums),
                    denominator: quantised_real(denominator, sums),
                    n,
                },
            RatioEstimate::Insufficient { .. } => self,
        }
    }

    /// The ratio rounded: its point onto `q`, its bounds onto the grid of probabilities,
    /// its sums onto `sums`.
    pub fn quantised(self, q: Quantum, sums: Quantum) -> (r: RatioEstimate)
        ensures
            r == self.on(q@, sums@),
    {
        match self {
            RatioEstimate::Proportion { point, interval, level, successes, trials, effective } => {
                let bounds = match interval {
                    Some(i) => Some(
                        Interval {
                            lo: Quantum::probability().quantise(i.lo),
                            hi: Quantum::probability().quantise(i.hi),
                        },
                    ),
                    None => None,
                };
                RatioEstimate::Proportion {
                    point: q.quantise(point),
                    interval: bounds,
                    level,
                    successes,
                    trials,
                    effective,
                }
            },
            RatioEstimate::RatioOfSums { point, numerator, denominator, n } =>
                RatioEstimate::RatioOfSums {
                    point: q.quantise(point),
                    numerator: sums.quantise(numerator),
                    denominator: sums.quantise(denominator),
                    n,
                },
            RatioEstimate::Insufficient { trials, required } => RatioEstimate::Insufficient {
                trials,
                required,
            },
        }
    }
}

/// The least number of observations that can carry an estimate: what was asked for, and
/// never none.
pub open spec fn needed(min_samples: u64) -> u64 {
    if min_samples == 0 {
        1
    } else {
        min_samples
    }
}

fn needed_samples(min_samples: u64) -> (r: u64)
    ensures
        r == needed(min_samples),
{
    if min_samples == 0 {
        1
    } else {
        min_samples
    }
}

/// The ratio that `successes` of `trials` is, with an interval that rests on `effective`
/// independent observations.
pub open spec fn proportion_of(
    successes: u64,
    trials: u64,
    effective: u64,
    min_samples: u64,
    level: ConfidenceLevel,
) -> RatioEstimate {
    if trials == 0 || effective < needed(min_samples) {
        RatioEstimate::Insufficient { trials, required: needed(min_samples) }
    } else {
        RatioEstimate::Proportion {
            point: real_of(successes as int, trials as int),
            interval: None,
            level,
            successes,
            trials,
            effective,
        }
    }
}

/// A count of trials and of the successes among them.
#[derive(Clone, Copy, Debug, PartialEq, Eq, Structural)]
pub struct Proportion {
    successes: u64,
    trials: u64,
}

/// What a [`Proportion`] has counted.
pub ghost struct Counts {
    pub successes: u64,
    pub trials: u64,
}

/// No trial yet.
pub open spec fn no_counts() -> Counts {
    Counts { successes: 0, trials: 0 }
}

impl Counts {
    /// The counts after one more trial.
    pub open spec fn and(self, success: bool) -> Counts {
        Counts {
            successes: if success {
                (self.successes + 1) as u64
            } else {
                self.successes
            },
            trials: (self.trials + 1) as u64,
        }
    }

    /// The ratio these counts are, every trial being independent.
    pub open spec fn ratio(self, min_samples: u64, level: ConfidenceLevel) -> RatioEstimate {
        proportion_of(self.successes, self.trials, self.trials, min_samples, level)
    }
}

impl View for Proportion {
    type V = Counts;

    closed spec fn view(&self) -> Counts {
        Counts { successes: self.successes, trials: self.trials }
    }
}

impl Proportion {
    #[verifier::type_invariant]
    spec fn valid(self) -> bool {
        self.successes <= self.trials
    }

    /// No trial yet.
    pub fn new() -> (r: Proportion)
        ensures
            r@ == no_counts(),
    {
        Proportion { successes: 0, trials: 0 }
    }

    /// `successes` of `trials`.
    pub fn from_counts(successes: u64, trials: u64) -> (r: Proportion)
        requires
            successes <= trials,
        ensures
            r@ == (Counts { successes, trials }),
    {
        Proportion { successes, trials }
    }

    /// Counts one trial.
    pub fn observe(&mut self, success: bool)
        requires
            old(self)@.trials < u64::MAX,
        ensures
            final(self)@ == old(self)@.and(success),
    {
        proof {
            use_type_invariant(&*self);
        }
        let successes: u64 = if success {
            self.successes + 1
        } else {
            self.successes
        };
        *self = Proportion { successes, trials: self.trials + 1 };
    }

    /// Counts `trials` more trials, `successes` of them successful.
    pub fn observe_many(&mut self, successes: u64, trials: u64)
        requires
            successes <= trials,
            old(self)@.trials + trials <= u64::MAX,
        ensures
            final(self)@ == (Counts {
                successes: (old(self)@.successes + successes) as u64,
                trials: (old(self)@.trials + trials) as u64,
            }),
    {
        proof {
            use_type_invariant(&*self);
        }
        *self = Proportion {
            successes: self.successes + successes,
            trials: self.trials + trials,
        };
    }

    /// The successes.
    pub fn successes(&self) -> (r: u64)
        ensures
            r == self@.successes,
            self@.successes <= self@.trials,
    {
        proof {
            use_type_invariant(self);
        }
        self.successes
    }

    /// The trials.
    pub fn trials(&self) -> (r: u64)
        ensures
            r == self@.trials,
            self@.successes <= self@.trials,
    {
        proof {
            use_type_invariant(self);
        }
        self.trials
    }

    /// The trials that were no success.
    pub fn failures(&self) -> (r: u64)
        ensures
            r == self@.trials - self@.successes,
            self@.successes <= self@.trials,
    {
        proof {
            use_type_invariant(self);
        }
        self.trials - self.successes
    }

    /// The ratio, or a refusal below `min_samples` trials.
    pub fn estimate(&self, min_samples: u64, level: ConfidenceLevel) -> (r: RatioEstimate)
        ensures
            r == self@.ratio(min_samples, level),
    {
        self.estimate_clustered(self.trials, min_samples, level)
    }

    /// The ratio, or a refusal below `min_samples` clusters: trials of one cluster are not
    /// independent, so the interval rests on the clusters and not on the trials.
    pub fn estimate_clustered(&self, clusters: u64, min_samples: u64, level: ConfidenceLevel) -> (r:
        RatioEstimate)
        ensures
            r == proportion_of(self@.successes, self@.trials, clusters, min_samples, level),
    {
        let required: u64 = needed_samples(min_samples);
        if self.trials == 0 || clusters < required {
            RatioEstimate::Insufficient { trials: self.trials, required }
        } else {
            RatioEstimate::Proportion {
                point: Real::new(self.successes as i128, self.trials as u128),
                interval: None,
                level,
                successes: self.successes,
                trials: self.trials,
                effective: clusters,
            }
        }
    }
}

/// The ratio of two sums with the given quotient, or a refusal.
pub open spec fn sums_ratio(
    numerator: Real,
    denominator: Real,
    point: Real,
    n: u64,
    min_samples: u64,
) -> RatioEstimate {
    if denominator@.num == 0 || n < needed(min_samples) {
        RatioEstimate::Insufficient { trials: n, required: needed(min_samples) }
    } else {
        RatioEstimate::RatioOfSums { point, numerator, denominator, n }
    }
}

/// True if `point` is the quotient of `numerator` and `denominator`.
pub open spec fn divides_to(numerator: Quotient, denominator: Quotient, point: Quotient) -> bool {
    point.num * (numerator.den * denominator.num) == point.den * (numerator.num * denominator.den)
}

/// One sum over another, whose quotient is `point`; a refusal below `min_samples`
/// observations or over a sum of zero.
pub fn ratio_of_sums(numerator: Real, denominator: Real, point: Real, n: u64, min_samples: u64) -> (r:
    RatioEstimate)
    requires
        divides_to(numerator@, denominator@, point@),
    ensures
        r == sums_ratio(numerator, denominator, point, n, min_samples),
{
    let required: u64 = needed_samples(min_samples);
    if denominator.num() == 0 || n < required {
        RatioEstimate::Insufficient { trials: n, required }
    } else {
        RatioEstimate::RatioOfSums { point, numerator, denominator, n }
    }
}

/// The ratio of two whole sums.
pub open spec fn whole_sums_ratio(numerator: u64, denominator: u64, n: u64, min_samples: u64) -> RatioEstimate {
    if denominator == 0 || n < needed(min_samples) {
        RatioEstimate::Insufficient { trials: n, required: needed(min_samples) }
    } else {
        RatioEstimate::RatioOfSums {
            point: real_of(numerator as int, denominator as int),
            numerator: real_of(numerator as int, 1),
            denominator: real_of(denominator as int, 1),
            n,
        }
    }
}

/// One whole sum over another.
pub fn ratio_of_whole_sums(numerator: u64, denominator: u64, n: u64, min_samples: u64) -> (r:
    RatioEstimate)
    ensures
        r == whole_sums_ratio(numerator, denominator, n, min_samples),
{
    let required: u64 = needed_samples(min_samples);
    if denominator == 0 || n < required {
        RatioEstimate::Insufficient { trials: n, required }
    } else {
        RatioEstimate::RatioOfSums {
            point: Real::new(numerator as i128, denominator as u128),
            numerator: Real::new(numerator as i128, 1),
            denominator: Real::new(denominator as i128, 1),
            n,
        }
    }
}

} // verus!
