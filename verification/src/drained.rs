//! A window is reported once.
//!
//! The providers whose metrics are per window drain what they accumulated when they are
//! flushed, so a second flush reports no number again, at the same instant or at any other:
//! every sample of it is a refusal, a count of zero or a rate of zero.

use vstd::prelude::*;
use crate::awareness::AwarenessView;
use crate::basic::SimTime;
use crate::channels::ByteBucket;
use crate::comms::{window_length, CommsView};
use crate::def::{SampleValue, SampleView};
use crate::distribution::Observed;
use crate::frag::{FragView, GroupView};
use crate::keyed::orderly_empty;
use crate::latency_metrics::{FlowView, LatencyView};
use crate::load::LoadView;
use crate::overhead::{OverheadView, Sums};
use crate::safety::{LaneSums, SafetyView};
use crate::quant::{quantised_real, real_of, real_of_is_the_quotient, rounded_multiple, MAX_DEN};
use crate::stats::{Counts, Estimate};
use crate::tally::total_of_nothing;

verus! {

/// True if a value is a refusal, a count of zero or a rate of zero.
pub open spec fn says_nothing(v: SampleValue) -> bool {
    ||| v.refused()
    ||| v == SampleValue::Count { count: 0 }
    ||| v matches SampleValue::Scalar(Estimate::Value { point, .. }) && point@.num == 0
}

/// True if no sample says anything.
pub open spec fn silent(s: Seq<SampleView>) -> bool {
    forall|i: int| 0 <= i < s.len() ==> says_nothing((#[trigger] s[i]).value)
}

/// A rate of nothing is zero, also once it is rounded.
proof fn no_rate(den: int, per_unit: int)
    requires
        0 < den <= MAX_DEN,
        0 < per_unit <= MAX_DEN,
    ensures
        quantised_real(real_of(0, den), per_unit)@.num == 0,
{
    real_of_is_the_quotient(0, den);
    rounded_multiple(0, den);
    real_of_is_the_quotient(0, per_unit);
}

/// The second flush of the communication metrics is silent.
pub proof fn comms_is_drained(v: CommsView, first: SimTime, second: SimTime)
    ensures
        silent(v.flushed(first).samples(second)),
{
    orderly_empty::<usize, Counts>();
    orderly_empty::<String, u64>();
    orderly_empty::<Option<u16>, Observed>();
    orderly_empty::<u32, u64>();
    let w = v.flushed(first);
    total_of_nothing::<ByteBucket>();
    if let Some(ns) = window_length(w.window_start, second) {
        no_rate(ns as int, 1_000);
    }
    assert(silent(w.pdr_samples(second)));
    assert(silent(w.cause_samples(second)));
    assert(silent(w.air_samples(second)));
    assert(silent(w.airtime_samples(second)));
    assert(silent(w.byte_samples(second)));
    assert(silent(w.samples(second)));
}

/// The second flush of the load metrics is silent.
pub proof fn load_is_drained(v: LoadView, first: SimTime, second: SimTime)
    ensures
        silent(v.flushed(first).samples(second)),
{
    orderly_empty::<String, u64>();
    orderly_empty::<u32, u64>();
    orderly_empty::<u32, int>();
    let w = v.flushed(first);
    assert(w.demands() =~= Map::<u32, int>::empty());
    if w.window_us(second) > 0 {
        no_rate(w.window_us(second) as int, 1_000);
    }
    assert(silent(w.channel_samples(second)));
    assert(silent(w.loss_samples(second)));
    assert(silent(w.access_samples(second)));
    assert(silent(w.samples(second)));
}

/// The second flush of the safety metrics is silent.
pub proof fn safety_is_drained(v: SafetyView, first: SimTime, second: SimTime)
    ensures
        silent(v.flushed(first).samples(second)),
{
    orderly_empty::<u32, LaneSums>();
}

/// The second flush of the awareness metrics is silent: the instant that was being assembled
/// is not sampled again. It was not later than the first flush, or else it is sampled in the
/// second, once.
pub proof fn awareness_is_drained(v: AwarenessView, first: SimTime, second: SimTime)
    requires
        v.frame_t matches Some(t) ==> t <= first || second < t,
    ensures
        silent(v.flushed(first).samples(second)),
{
    orderly_empty::<usize, Counts>();
    let w = v.flushed(first);
    assert(w.ended(second) == w);
    assert(silent(w.age_samples(second)));
    assert(silent(w.nar_samples(second)));
    assert(silent(w.delivery_samples(second)));
}

/// The second flush of the overhead metrics is silent.
pub proof fn overhead_is_drained(v: OverheadView, first: SimTime, second: SimTime)
    ensures
        silent(v.flushed(first).samples(second)),
{
    orderly_empty::<Option<String>, Sums>();
    assert(silent(v.flushed(first).bucket_samples(second)));
}

/// The second flush of the fragmentation metrics is empty.
pub proof fn fragmentation_is_drained(v: FragView, second: SimTime)
    ensures
        v.flushed().samples(second).len() == 0,
{
    orderly_empty::<Option<String>, GroupView>();
}

/// The second flush of the latency metrics is silent.
pub proof fn latency_is_drained(v: LatencyView, second: SimTime)
    ensures
        silent(v.flushed().samples(second)),
{
    orderly_empty::<(String, Option<String>), FlowView>();
}

} // verus!
