//! What the runtime metrics measure.

use vstd::prelude::*;
use crate::basic::SimTime;
use crate::def::SampleValue;
use crate::gains::{a_quotient_is_read, a_small_quotient_fits, says_number};
use crate::runtime::RuntimeView;

verus! {

/// A record is one event more, and nothing else.
pub proof fn a_record_is_one_event(v: RuntimeView)
    requires
        v.events < u64::MAX,
    ensures
        v.after().events == v.events + 1,
        v.after().wall_ns == v.wall_ns,
        v.after().sim_ns == v.sim_ns,
        v.after().peak_bytes == v.peak_bytes,
        v.after().measurements == v.measurements,
{
}

/// A measured interval adds its two times, up to the longest time there is, and counts once.
pub proof fn an_interval_adds_its_times(v: RuntimeView, wall: u64, sim: u64)
    requires
        v.measurements < u64::MAX,
    ensures
        ({
            let w = v.after_interval(wall, sim);
            &&& v.wall_ns + wall <= u64::MAX ==> w.wall_ns == v.wall_ns + wall
            &&& v.wall_ns + wall > u64::MAX ==> w.wall_ns == u64::MAX
            &&& v.sim_ns + sim <= u64::MAX ==> w.sim_ns == v.sim_ns + sim
            &&& v.sim_ns + sim > u64::MAX ==> w.sim_ns == u64::MAX
            &&& w.measurements == v.measurements + 1
            &&& w.events == v.events && w.peak_bytes == v.peak_bytes
        }),
{
}

/// The memory in use is remembered at its highest.
pub proof fn the_peak_is_the_highest_reading(v: RuntimeView, bytes: u64)
    ensures
        ({
            let w = v.after_reading(bytes);
            &&& w.peak_bytes >= bytes && w.peak_bytes >= v.peak_bytes
            &&& w.peak_bytes == bytes || w.peak_bytes == v.peak_bytes
            &&& w.events == v.events && w.wall_ns == v.wall_ns && w.sim_ns == v.sim_ns
        }),
{
}

/// What is reported: the events; the events over the wall-clock time, per second; the
/// wall-clock time over the simulated time; and the peak of the memory. A rate over no time
/// is refused.
pub proof fn a_run_reports_its_rates(v: RuntimeView, at: SimTime)
    ensures
        ({
            let s = v.samples(at);
            &&& s.len() == 4
            &&& s[0].metric == "events_processed"@ && s[0].value == (SampleValue::Count {
                count: v.events,
            })
            &&& s[1].metric == "events_per_second"@
            &&& v.wall_ns > 0 ==> says_number(
                s[1].value,
                v.events * 1_000_000_000,
                v.wall_ns as int,
                v.events,
                1_000,
            )
            &&& v.wall_ns == 0 ==> s[1].value.refused()
            &&& s[2].metric == "wall_clock_per_sim_second"@
            &&& v.sim_ns > 0 ==> says_number(
                s[2].value,
                v.wall_ns as int,
                v.sim_ns as int,
                v.measurements,
                1_000,
            )
            &&& v.sim_ns == 0 ==> s[2].value.refused()
            &&& s[3].metric == "memory_high_water_mark"@ && s[3].value == (SampleValue::Count {
                count: v.peak_bytes,
            })
        }),
{
    if v.wall_ns > 0 {
        a_small_quotient_fits(v.events * 1_000_000_000, v.wall_ns as int, 1_000);
        a_quotient_is_read(v.events * 1_000_000_000, v.wall_ns as int, 1_000);
    }
    if v.sim_ns > 0 {
        a_small_quotient_fits(v.wall_ns as int, v.sim_ns as int, 1_000);
        a_quotient_is_read(v.wall_ns as int, v.sim_ns as int, 1_000);
    }
}

} // verus!
