//! Runnable invariant checks: which invariant failed, about what, and with what numbers.
//!
//! Each check reads a ledger, or the samples of a run, and returns an
//! [`InvariantOutcome`]: how many things it examined, and one [`InvariantViolation`] for
//! each that breaks the invariant. A check without data says so and holds.

use vstd::prelude::*;
use crate::card::{group_views, views};
use crate::def::{MetricSample, SampleView};
use crate::ledger::EventLedger;

pub mod accounting;
pub mod findings;
pub mod frames;
pub mod laws;
pub mod leaks;
pub mod fates;
pub mod outcome;
pub mod readings;
pub mod records;
pub mod runs;
pub mod samples;
pub mod windows;

pub use outcome::{finding, InvariantOutcome, InvariantReport, InvariantViolation, Number, OutcomeView, ViolationView};
pub use records::{check_i_m1, check_i_r3, I_M1, I_R3};
pub use accounting::{bucket_totals, check_i_n1, check_i_n2, I_N1, I_N2};
pub use leaks::{check_i_p4, check_i_t2, check_i_t3, I_P4, I_T2, I_T3};
pub use fates::{check_m_rx1, M_RX1};
pub use runs::{check_i_c1, check_i_s1, truncate, I_C1, I_S1};
pub use frames::{check_m_byte1, check_m_lat1, check_m_prr, M_BYTE1, M_LAT1, M_PRR};
pub use samples::{check_d9_quantisation, check_m_byte2, check_m_share, check_metric_ranges, D9, M_BYTE2, M_RANGE, M_SHARE};

verus! {

/// True if the counts and sums of the checks stay within what a 64-bit counter holds.
pub open spec fn auditable(l: EventLedger, samples: int) -> bool {
    &&& l.rx@.len() + l.tx@.len() <= u64::MAX
    &&& l.node_rx@.len() + l.latency@.len() <= u64::MAX
    &&& records::node_times_fit(l.tx@, l.cbr@)
    &&& accounting::unnamed_bytes(accounting::attributions(l)) <= u64::MAX
    &&& samples * 6 <= u64::MAX
}

/// What all checks on one run find, in order.
pub open spec fn all_outcomes(l: EventLedger, s: Seq<SampleView>) -> Seq<OutcomeView> {
    seq![
        records::i_m1(l),
        accounting::i_n1(l),
        leaks::i_p4(l),
        records::i_r3(l),
        leaks::i_t2(l),
        leaks::i_t3(l),
        frames::m_byte1(l),
        samples::m_byte2(s),
        frames::m_lat1(l),
        frames::m_prr(l),
        fates::m_rx1(l),
        samples::m_share(s),
        samples::d9(s),
    ]
}

/// Runs every check on one run's records and samples, in the order of their names.
pub fn check_all(ledger: &EventLedger, samples: &Vec<MetricSample>) -> (r: InvariantReport)
    requires
        auditable(*ledger, samples@.len() as int),
    ensures
        r.results() == all_outcomes(*ledger, views(samples@)),
{
    broadcast use group_views;

    let mut outcomes: Vec<InvariantOutcome> = Vec::new();
    outcomes.push(check_i_m1(ledger));
    outcomes.push(check_i_n1(ledger));
    outcomes.push(check_i_p4(ledger));
    outcomes.push(check_i_r3(ledger));
    outcomes.push(check_i_t2(ledger));
    outcomes.push(check_i_t3(ledger));
    outcomes.push(check_m_byte1(ledger));
    outcomes.push(check_m_byte2(samples));
    outcomes.push(check_m_lat1(ledger));
    outcomes.push(check_m_prr(ledger));
    outcomes.push(check_m_rx1(ledger));
    outcomes.push(check_m_share(samples));
    outcomes.push(check_d9_quantisation(samples));
    InvariantReport::new(outcomes)
}

} // verus!
