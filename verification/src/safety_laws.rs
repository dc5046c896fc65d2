//! What the safety metrics measure.

use vstd::prelude::*;
use crate::basic::SimTime;
use crate::channels::{channel_named, Channel, EventRecord, GtKinematicsView, Payload};
use crate::def::{Dim, DimText, SampleValue};
use crate::distribution::total;
use crate::gains::{an_observation_is_kept, gained};
use crate::keyed::{in_order, listed, listed_at, orderly, ranked_at, Key};
use crate::quant::{quotient, real_of_is_the_quotient, rounded, rounded_is_monotone, rounded_is_nearest, rounded_multiple, NANO};
use crate::safety::{cell_of, lined_up, measures_untouched, queue, sums_at, LaneSums, Motion, SafetyView};
use crate::stats::{Estimate, RatioEstimate};

verus! {

/// A vehicle of a lane: the lane, its position in millimetres and the actor, with its speed
/// in millimetres per second.
pub type Vehicle = ((u32, i64, u32), i32);

/// What a pair of vehicles on one lane measures. The one behind has the headway to the one
/// ahead, and reaches it in the gap over its own speed. Where it closes in, exactly one time
/// to collision is observed, which times the closing speed is the gap, and one deceleration,
/// which times twice the gap is the square of the closing speed. It is a conflict exactly
/// where the time, to the nearest millisecond, is below one and a half seconds.
pub proof fn a_pair_measures_its_gap_and_closing_speed(v: SafetyView, behind: Vehicle, ahead: Vehicle)
    requires
        behind.0.0 == ahead.0.0,
        behind.0.1 < ahead.0.1,
        v.ttc_conflicts < u64::MAX,
    ensures
        ({
            let w = v.with_pair(behind, ahead);
            let gap = ahead.0.1 - behind.0.1;
            let closing = behind.1 - ahead.1;
            &&& gained(v.headway_distance, w.headway_distance, gap, 1_000)
            &&& behind.1 > 0 ==> gained(v.headway_time, w.headway_time, gap, behind.1 as int)
            &&& behind.1 <= 0 ==> w.headway_time == v.headway_time
            &&& closing > 0 ==> gained(v.ttc, w.ttc, gap, closing)
            &&& closing > 0 ==> gained(v.drac, w.drac, closing * closing, 2 * gap * 1_000)
            &&& closing > 0 ==> w.ttc_conflicts == v.ttc_conflicts + if 2 * gap * 1_000 < 2_999
                * closing {
                1int
            } else {
                0int
            }
            &&& closing <= 0 ==> w.ttc == v.ttc && w.drac == v.drac && w.ttc_conflicts
                == v.ttc_conflicts
        }),
{
    let gap = ahead.0.1 - behind.0.1;
    let closing = behind.1 - ahead.1;
    an_observation_is_kept(v.headway_distance, gap, 1_000);
    if behind.1 > 0 {
        an_observation_is_kept(v.headway_time, gap, behind.1 as int);
    }
    if closing > 0 {
        an_observation_is_kept(v.ttc, gap, closing);
        assert(0 < closing * closing <= 0x1_0000_0000 * 0x1_0000_0000) by (nonlinear_arith)
            requires
                0 < closing <= 0x1_0000_0000,
        ;
        an_observation_is_kept(v.drac, closing * closing, 2_000 * gap);
        let ms = rounded(gap * 1_000, closing);
        rounded_is_nearest(gap * 1_000, closing);
        if 2 * gap * 1_000 < 2_999 * closing {
            assert(ms < 1_500) by {
                if ms >= 1_500 {
                    assert((2 * (gap * 1_000) + closing) < 3_000 * closing);
                    assert(ms <= 1_499) by (nonlinear_arith)
                        requires
                            ms == (2 * (gap * 1_000) + closing) / (2 * closing),
                            2 * (gap * 1_000) + closing < 3_000 * closing,
                            closing > 0,
                    ;
                }
            }
        } else {
            assert(ms >= 1_500) by (nonlinear_arith)
                requires
                    ms == (2 * (gap * 1_000) + closing) / (2 * closing),
                    2 * (gap * 1_000) + closing >= 3_000 * closing,
                    closing > 0,
            ;
        }
    }
}

/// Nothing is measured between vehicles of two lanes, nor of two that stand on one point or
/// in the wrong order.
pub proof fn only_a_leader_on_the_same_lane_counts(v: SafetyView, behind: Vehicle, ahead: Vehicle)
    requires
        behind.0.0 != ahead.0.0 || ahead.0.1 <= behind.0.1,
    ensures
        v.with_pair(behind, ahead) == v,
{
}

/// The times to collision, the decelerations and the conflicts of a pair depend on the
/// difference of the two speeds alone.
pub proof fn a_common_speed_does_not_matter(
    v: SafetyView,
    behind: Vehicle,
    ahead: Vehicle,
    more: int,
)
    requires
        i32::MIN <= behind.1 + more <= i32::MAX,
        i32::MIN <= ahead.1 + more <= i32::MAX,
    ensures
        ({
            let a = v.with_pair(behind, ahead);
            let b = v.with_pair(
                (behind.0, (behind.1 + more) as i32),
                (ahead.0, (ahead.1 + more) as i32),
            );
            &&& a.ttc == b.ttc
            &&& a.drac == b.drac
            &&& a.ttc_conflicts == b.ttc_conflicts
            &&& a.headway_distance == b.headway_distance
        }),
{
}

/// Vehicles behind and ahead of one another on one lane, at different points.
pub open spec fn one_lane(q: Seq<Vehicle>) -> bool {
    forall|i: int, j: int|
        0 <= i < j < q.len() ==> (#[trigger] q[i]).0.0 == (#[trigger] q[j]).0.0 && q[i].0.1
            < q[j].0.1
}

/// On one lane every vehicle but the first has one ahead of it: there are as many distance
/// headways as vehicles, less one, and together they are the way from the last vehicle to
/// the first.
pub proof fn headways_add_up_to_the_queue(v: SafetyView, q: Seq<Vehicle>)
    requires
        q.len() > 0,
        one_lane(q),
    ensures
        ({
            let w = v.with_pairs(q);
            &&& w.headway_distance.samples.len() == v.headway_distance.samples.len() + q.len() - 1
            &&& total(w.headway_distance.samples) - total(v.headway_distance.samples) == (q.last().0.1
                - q[0].0.1) * 1_000_000
        }),
    decreases q.len(),
{
    if q.len() >= 2 {
        let init = q.drop_last();
        assert forall|i: int, j: int| 0 <= i < j < init.len() implies (#[trigger] init[i]).0.0 == (
        #[trigger] init[j]).0.0 && init[i].0.1 < init[j].0.1 by {
            assert(init[i] == q[i] && init[j] == q[j]);
        }
        headways_add_up_to_the_queue(v, init);
        let n = q.len() as int;
        assert(q[n - 2].0.0 == q[n - 1].0.0);
        let before = v.with_pairs(init);
        let gap = q[n - 1].0.1 - q[n - 2].0.1;
        assert(init.last() == q[n - 2]);
        assert(init[0] == q[0]);
        rounded_multiple(gap * 1_000_000, 1_000);
        assert((gap * 1_000_000) * 1_000 == gap * NANO);
        crate::gains::a_sample_adds_to_the_total(
            before.headway_distance.samples,
            (gap * 1_000_000) as i128,
        );
    }
}

/// Where every vehicle of a lane drives as fast as the others, none closes in on another.
pub proof fn a_platoon_has_no_conflicts(v: SafetyView, q: Seq<Vehicle>)
    requires
        forall|i: int, j: int|
            0 <= i < j < q.len() ==> (#[trigger] q[i]).1 == (#[trigger] q[j]).1,
    ensures
        v.with_pairs(q).ttc == v.ttc,
        v.with_pairs(q).drac == v.drac,
        v.with_pairs(q).ttc_conflicts == v.ttc_conflicts,
    decreases q.len(),
{
    if q.len() >= 2 {
        let init = q.drop_last();
        assert forall|i: int, j: int| 0 <= i < j < init.len() implies (#[trigger] init[i]).1 == (
        #[trigger] init[j]).1 by {
            assert(init[i] == q[i] && init[j] == q[j]);
        }
        a_platoon_has_no_conflicts(v, init);
        assert(q[q.len() - 2].1 == q[q.len() - 1].1);
    }
}

/// Vehicles of two lanes do not matter to one another: a queue that goes on with another
/// lane is measured as the two queues are, one after the other.
pub proof fn lanes_are_measured_apart(v: SafetyView, a: Seq<Vehicle>, b: Seq<Vehicle>)
    requires
        a.len() > 0,
        b.len() > 0,
        a.last().0.0 != b[0].0.0,
    ensures
        v.with_pairs(a + b) == v.with_pairs(a).with_pairs(b),
    decreases b.len(),
{
    let q = a + b;
    assert(q.last() == b.last());
    if b.len() == 1 {
        assert(q.drop_last() =~= a);
        assert(q[q.len() - 2] == a.last());
        assert(v.with_pairs(a).with_pairs(b) == v.with_pairs(a));
    } else {
        let c = b.drop_last();
        lanes_are_measured_apart(v, a, c);
        assert(q.drop_last() =~= a + c);
        assert(q[q.len() - 2] == b[b.len() - 2]);
    }
}

/// The queue of a frame holds just the vehicles that have a lane and a position on it, each
/// with its speed, in the order of lane, position and actor.
pub proof fn the_queue_is_the_frame(frame: Map<u32, Motion>)
    requires
        orderly::<(u32, i64, u32), i32>(lined_up(frame)),
    ensures
        forall|i: int, j: int|
            0 <= i < j < queue(frame).len() ==> {
                let (a, b) = ((#[trigger] queue(frame)[i]).0, (#[trigger] queue(frame)[j]).0);
                a.0 < b.0 || (a.0 == b.0 && (a.1 < b.1 || (a.1 == b.1 && a.2 < b.2)))
            },
        forall|i: int|
            0 <= i < queue(frame).len() ==> {
                let ((lane, pos, actor), speed) = #[trigger] queue(frame)[i];
                &&& frame.contains_key(actor)
                &&& frame[actor].lane == Some(lane)
                &&& frame[actor].lane_pos_mm == Some(pos)
                &&& frame[actor].speed_mmps == speed
            },
        forall|actor: u32| #[trigger]
            frame.contains_key(actor) && frame[actor].lane is Some && frame[actor].lane_pos_mm is Some
                ==> exists|i: int|
                0 <= i < queue(frame).len() && (#[trigger] queue(frame)[i]).0.2 == actor,
{
    let m = lined_up(frame);
    let q = queue(frame);
    assert forall|i: int, j: int| 0 <= i < j < q.len() implies {
        let (a, b) = ((#[trigger] q[i]).0, (#[trigger] q[j]).0);
        a.0 < b.0 || (a.0 == b.0 && (a.1 < b.1 || (a.1 == b.1 && a.2 < b.2)))
    } by {
        assert(<(u32, i64, u32) as Key>::before(q[i].0, q[j].0));
    }
    assert forall|i: int| 0 <= i < q.len() implies {
        let ((lane, pos, actor), speed) = #[trigger] q[i];
        &&& frame.contains_key(actor)
        &&& frame[actor].lane == Some(lane)
        &&& frame[actor].lane_pos_mm == Some(pos)
        &&& frame[actor].speed_mmps == speed
    } by {
        listed_at::<(u32, i64, u32), i32>(q, i);
        assert(m.contains_key(q[i].0));
    }
    assert forall|actor: u32| #[trigger]
        frame.contains_key(actor) && frame[actor].lane is Some && frame[actor].lane_pos_mm is Some implies exists|
        i: int,
    | 0 <= i < q.len() && (#[trigger] q[i]).0.2 == actor by {
        let k = (frame[actor].lane->Some_0, frame[actor].lane_pos_mm->Some_0, actor);
        assert(m.contains_key(k));
        assert(listed(q).contains_key(k));
        let i = choose|i: int| ranked_at(q, k, i);
        assert(q[i].0.2 == actor);
    }
}

/// True if `c` is the number of the cell whose middle is nearest to a coordinate.
pub open spec fn nearest_cell(c: i64, mm: i64, side: u32) -> bool {
    -side <= 2 * (c * side - mm) <= side
}

/// What one actor of a frame measures: its speed, its acceleration where it has one, and the
/// time since another actor was in the cell that it is in, where that is not longer ago than
/// the horizon. It is then the last one in that cell; all other cells are as they were.
pub proof fn an_actor_measures_its_motion(v: SafetyView, actor: u32, m: Motion, t: SimTime)
    requires
        v.cell_mm > 0,
    ensures
        ({
            let w = v.with_actor(actor, m, t);
            &&& gained(v.speed, w.speed, m.speed_mmps as int, 1_000)
            &&& m.acc_mmps2 matches Some(a) ==> gained(v.acceleration, w.acceleration, a as int, 1_000)
            &&& m.acc_mmps2 is None ==> w.acceleration == v.acceleration
            &&& exists|cx: i64, cy: i64|
                {
                    &&& #[trigger] nearest_cell(cx, m.x_mm, v.cell_mm)
                    &&& #[trigger] nearest_cell(cy, m.y_mm, v.cell_mm)
                    &&& w.cell_last == v.cell_last.insert((cx, cy), (actor, t))
                    &&& met(v, (cx, cy), actor, t) ==> gained(
                        v.pet,
                        w.pet,
                        t - v.cell_last[(cx, cy)].1,
                        1_000_000_000,
                    )
                    &&& !met(v, (cx, cy), actor, t) ==> w.pet == v.pet
                }
        }),
{
    let w = v.with_actor(actor, m, t);
    an_observation_is_kept(v.speed, m.speed_mmps as int, 1_000);
    if let Some(a) = m.acc_mmps2 {
        an_observation_is_kept(v.acceleration, a as int, 1_000);
    }
    let cx = cell_of(m.x_mm, v.cell_mm);
    let cy = cell_of(m.y_mm, v.cell_mm);
    cell_is_nearest(m.x_mm, v.cell_mm);
    cell_is_nearest(m.y_mm, v.cell_mm);
    assert(nearest_cell(cx, m.x_mm, v.cell_mm));
    assert(nearest_cell(cy, m.y_mm, v.cell_mm));
    if met(v, (cx, cy), actor, t) {
        an_observation_is_kept(v.pet, t - v.cell_last[(cx, cy)].1, 1_000_000_000);
    }
}

/// True if another actor was in a cell, not longer ago than the horizon.
pub open spec fn met(v: SafetyView, cell: (i64, i64), actor: u32, t: SimTime) -> bool {
    &&& v.cell_last.contains_key(cell)
    &&& v.cell_last[cell].0 != actor
    &&& v.cell_last[cell].1 <= t <= v.cell_last[cell].1 + v.pet_horizon
}

proof fn cell_is_nearest(mm: i64, side: u32)
    requires
        side > 0,
    ensures
        nearest_cell(cell_of(mm, side), mm, side),
{
    rounded_is_nearest(mm as int, side as int);
    let (a, s) = (mm as int, side as int);
    assert(a * 1 <= i64::MAX * s && i64::MIN * s <= a * 1) by (nonlinear_arith)
        requires
            i64::MIN <= a <= i64::MAX,
            s >= 1,
    ;
    rounded_is_monotone(a, s, i64::MAX as int, 1);
    rounded_is_monotone(i64::MIN as int, 1, a, s);
    rounded_multiple(i64::MAX as int, 1);
    rounded_multiple(i64::MIN as int, 1);
}

/// A sample on a lane of known length adds one step and its speed to that lane, and to no
/// other; one on a lane of unknown length lists the lane; one without a lane does neither.
pub proof fn an_actor_is_counted_on_its_lane(v: SafetyView, actor: u32, m: Motion, t: SimTime)
    requires
        v.sound(),
        m.lane matches Some(l) ==> sums_at(v.lanes, l).samples < u64::MAX,
    ensures
        ({
            let w = v.with_actor(actor, m, t);
            &&& match m.lane {
                Some(l) => if v.lane_length_mm.contains_key(l) {
                    &&& w.lanes.contains_key(l)
                    &&& w.lanes[l].samples == sums_at(v.lanes, l).samples + 1
                    &&& w.lanes[l].speeds == sums_at(v.lanes, l).speeds + m.speed_mmps
                    &&& forall|k: u32| k != l ==> #[trigger] sums_at(w.lanes, k) == sums_at(v.lanes, k)
                    &&& w.undeclared == v.undeclared
                } else {
                    w.lanes == v.lanes && w.undeclared == v.undeclared.insert(l)
                },
                None => w.lanes == v.lanes && w.undeclared == v.undeclared,
            }
        }),
{
}

/// Every actor of a frame is measured once: as many speeds are observed as there are actors.
pub proof fn every_actor_is_measured_once(v: SafetyView, s: Seq<(u32, Motion)>, t: SimTime)
    ensures
        v.with_actors(s, t).speed.samples.len() == v.speed.samples.len() + s.len(),
    decreases s.len(),
{
    if s.len() > 0 {
        every_actor_is_measured_once(v, s.drop_last(), t);
        let before = v.with_actors(s.drop_last(), t);
        an_observation_is_kept(before.speed, s.last().1.speed_mmps as int, 1_000);
    }
}

/// A sample of a known instant joins its frame and measures nothing yet; one of a new
/// instant ends the frame before it, and starts one of its own.
pub proof fn a_sample_joins_the_frame_of_its_instant(
    v: SafetyView,
    ev: EventRecord,
    k: GtKinematicsView,
)
    requires
        channel_named(ev.channel@) == Some(Channel::GtKinematics),
        ev.payload == Payload::GtKinematics(k),
    ensures
        ({
            let w = v.after(ev);
            &&& w.frame_t == Some(k.t)
            &&& w.frame.contains_key(k.actor)
            &&& w.frame[k.actor].speed_mmps == k.speed_mmps
            &&& w.frame[k.actor].acc_mmps2 == k.acc_mmps2
            &&& w.frame[k.actor].lane == k.lane
            &&& w.frame[k.actor].lane_pos_mm == k.lane_pos_mm
            &&& w.frame[k.actor].x_mm == k.x_mm
            &&& w.frame[k.actor].y_mm == k.y_mm
            &&& v.frame_t == Some(k.t) ==> {
                &&& w.frame.dom() == v.frame.dom().insert(k.actor)
                &&& forall|a: u32| a != k.actor && v.frame.contains_key(a) ==> #[trigger] w.frame[a]
                    == v.frame[a]
                &&& w.speed == v.speed && w.ttc == v.ttc && w.pet == v.pet && w.lanes == v.lanes
                &&& w.ttc_conflicts == v.ttc_conflicts && w.headway_distance == v.headway_distance
            }
            &&& v.frame_t != Some(k.t) ==> {
                &&& w.frame.dom() == Set::<u32>::empty().insert(k.actor)
                &&& w.speed.samples.len() == v.speed.samples.len() + if v.frame_t is Some {
                    in_order::<u32, Motion>(v.frame).len() as int
                } else {
                    0
                }
            }
        }),
{
    let w = v.after(ev);
    if v.frame_t == Some(k.t) {
        assert(w.frame.dom() =~= v.frame.dom().insert(k.actor));
    } else {
        closing_measures_every_actor(v);
        assert(w.frame.dom() =~= Set::<u32>::empty().insert(k.actor));
    }
}

proof fn pairs_leave_the_rest(v: SafetyView, q: Seq<Vehicle>)
    ensures
        ({
            let w = v.with_pairs(q);
            &&& w.speed == v.speed
            &&& w.acceleration == v.acceleration
            &&& w.pet == v.pet
            &&& w.lanes == v.lanes
            &&& w.frame == v.frame
            &&& w.frame_t == v.frame_t
            &&& w.cell_last == v.cell_last
            &&& w.undeclared == v.undeclared
        }),
    decreases q.len(),
{
    if q.len() >= 2 {
        pairs_leave_the_rest(v, q.drop_last());
    }
}

proof fn closing_measures_every_actor(v: SafetyView)
    ensures
        v.closed().frame == Map::<u32, Motion>::empty(),
        v.closed().frame_t is None,
        v.closed().speed.samples.len() == v.speed.samples.len() + if v.frame_t is Some {
            in_order::<u32, Motion>(v.frame).len() as int
        } else {
            0
        },
{
    if let Some(t) = v.frame_t {
        let cleared = SafetyView { frame_t: None, frame: Map::empty(), ..v };
        let s = in_order::<u32, Motion>(v.frame);
        every_actor_is_measured_once(cleared, s, t);
        measures_untouched(cleared, s, t);
        pairs_leave_the_rest(cleared.with_actors(s, t), queue(v.frame));
    }
}

/// True if a number of thousandths is as near to a quotient as any other.
pub open spec fn nearest_thousandth(p: int, num: int, den: int) -> bool {
    -den <= 2 * (p * den - num * 1_000) <= den
}

/// True if a quotient, in thousandths, is one that a number holds.
pub open spec fn holds_in_thousandths(num: int, den: int) -> bool {
    i128::MIN <= rounded(num * 1_000, den) <= i128::MAX
}

/// The aggregates of a lane over a window. The flow times the length and the window is the
/// distance that was driven, and the density times them is the time that was spent: in
/// vehicles per hour and per kilometre, to the nearest thousandth. The mean speed times the
/// number of samples is the sum of their speeds.
pub proof fn a_lane_reports_its_flow_density_and_speed(
    v: SafetyView,
    lane: u32,
    sums: LaneSums,
    at: SimTime,
)
    requires
        v.window_start < at,
        v.length_of(lane) > 0,
        v.dt > 0,
        sums.samples > 0,
        sums.bounded(),
        holds_in_thousandths(
            sums.speeds * 3_600 * v.dt,
            v.length_of(lane) * ((at - v.window_start) as u64),
        ),
        holds_in_thousandths(
            sums.samples * 1_000_000 * v.dt,
            v.length_of(lane) * ((at - v.window_start) as u64),
        ),
    ensures
        ({
            let s = v.samples_of_lane(lane, sums, at);
            let area = v.length_of(lane) * ((at - v.window_start) as u64);
            &&& s.len() == 3
            &&& s[0].metric == "flow"@ && s[1].metric == "density"@ && s[2].metric == "mean_speed"@
            &&& forall|i: int|
                0 <= i < 3 ==> (#[trigger] s[i]).t == at && s[i].dims == seq![
                    (Dim::Region, DimText::Index(lane as u64)),
                ]
            &&& s[0].value matches SampleValue::Scalar(Estimate::Value { point, n }) && n
                == sums.samples && point@.den == 1_000 && nearest_thousandth(
                point@.num,
                sums.speeds * 3_600 * v.dt,
                area,
            )
            &&& s[1].value matches SampleValue::Scalar(Estimate::Value { point, n }) && n
                == sums.samples && point@.den == 1_000 && nearest_thousandth(
                point@.num,
                sums.samples * 1_000_000 * v.dt,
                area,
            )
            &&& s[2].value matches SampleValue::Ratio(RatioEstimate::RatioOfSums { point, n, .. })
                && n == sums.samples && point@.den == 1_000 && nearest_thousandth(
                point@.num,
                sums.speeds as int,
                1_000 * sums.samples,
            )
        }),
{
    let t = (at - v.window_start) as u64;
    let len = v.length_of(lane);
    let area = len * t;
    assert(area > 0) by (nonlinear_arith)
        requires
            len > 0,
            t > 0,
            area == len * t,
    ;
    reported_in_thousandths(sums.speeds * 3_600 * v.dt, area);
    reported_in_thousandths(sums.samples * 1_000_000 * v.dt, area);
    let (a, b) = (sums.speeds as int, 1_000 * sums.samples);
    rounded_is_nearest(a * 1_000, b);
    real_of_is_the_quotient(a, b);
    assert(a * 1_000 * 1 <= 0x1_0000_0000_0000 * b && -0x1_0000_0000_0000 * b <= a * 1_000 * 1);
    rounded_is_monotone(a * 1_000, b, 0x1_0000_0000_0000, 1);
    rounded_is_monotone(-0x1_0000_0000_0000, 1, a * 1_000, b);
    rounded_multiple(0x1_0000_0000_0000, 1);
    rounded_multiple(-0x1_0000_0000_0000, 1);
    real_of_is_the_quotient(rounded(a * 1_000, b), 1_000);
}

proof fn reported_in_thousandths(num: int, den: int)
    requires
        den > 0,
        holds_in_thousandths(num, den),
    ensures
        ({
            let x = crate::safety::in_thousandths(quotient(num, den));
            let y = crate::quant::quantised_real(x, 1_000);
            y@.den == 1_000 && nearest_thousandth(y@.num, num, den)
        }),
{
    let g = rounded(num * 1_000, den);
    rounded_is_nearest(num * 1_000, den);
    real_of_is_the_quotient(g, 1_000);
    rounded_multiple(g, 1_000);
}

/// What a window reports of the run: each distribution under its own name, and the number of
/// conflicts; then the lanes.
pub proof fn each_measure_is_reported_under_its_name(v: SafetyView, at: SimTime)
    ensures
        ({
            let s = v.samples(at);
            let w = v.closed();
            let m = v.closed().min_samples;
            &&& s.len() >= 8
            &&& s[0].metric == "ttc_min"@ && s[0].value == SampleValue::Distribution(
                w.ttc.summary(m),
            ).on(1_000)
            &&& s[1].metric == "pet"@ && s[1].value == SampleValue::Distribution(
                w.pet.summary(m),
            ).on(1_000)
            &&& s[2].metric == "drac"@ && s[2].value == SampleValue::Distribution(
                w.drac.summary(m),
            ).on(1_000)
            &&& s[3].metric == "headway_time"@ && s[3].value == SampleValue::Distribution(
                w.headway_time.summary(m),
            ).on(1_000)
            &&& s[4].metric == "headway_distance"@ && s[4].value == SampleValue::Distribution(
                w.headway_distance.summary(m),
            ).on(1_000)
            &&& s[5].metric == "speed"@ && s[5].value == SampleValue::Distribution(
                w.speed.summary(m),
            ).on(1_000)
            &&& s[6].metric == "acceleration"@ && s[6].value == SampleValue::Distribution(
                w.acceleration.summary(m),
            ).on(1_000)
            &&& s[7].metric == "ttc_conflicts"@ && s[7].value == (SampleValue::Count {
                count: w.ttc_conflicts,
            })
        }),
{
}

/// Closing a frame measures the pairs of its queue, and closing none measures nothing.
pub proof fn closing_a_frame_measures_its_queue(v: SafetyView)
    ensures
        ({
            let w = v.closed();
            let x = v.with_pairs(queue(v.frame));
            &&& v.frame_t is Some ==> {
                &&& w.ttc == x.ttc && w.drac == x.drac && w.ttc_conflicts == x.ttc_conflicts
                &&& w.headway_time == x.headway_time && w.headway_distance == x.headway_distance
            }
            &&& v.frame_t is None ==> {
                &&& w.ttc == v.ttc && w.drac == v.drac && w.ttc_conflicts == v.ttc_conflicts
                &&& w.headway_time == v.headway_time && w.headway_distance == v.headway_distance
                &&& w.speed == v.speed && w.pet == v.pet && w.lanes == v.lanes
            }
        }),
{
    if let Some(t) = v.frame_t {
        let cleared = SafetyView { frame_t: None, frame: Map::empty(), ..v };
        let s = in_order::<u32, Motion>(v.frame);
        measures_untouched(cleared, s, t);
        same_pairs(cleared.with_actors(s, t), v, queue(v.frame));
    }
}

proof fn same_pairs(a: SafetyView, b: SafetyView, q: Seq<Vehicle>)
    requires
        a.ttc == b.ttc,
        a.drac == b.drac,
        a.ttc_conflicts == b.ttc_conflicts,
        a.headway_time == b.headway_time,
        a.headway_distance == b.headway_distance,
    ensures
        a.with_pairs(q).ttc == b.with_pairs(q).ttc,
        a.with_pairs(q).drac == b.with_pairs(q).drac,
        a.with_pairs(q).ttc_conflicts == b.with_pairs(q).ttc_conflicts,
        a.with_pairs(q).headway_time == b.with_pairs(q).headway_time,
        a.with_pairs(q).headway_distance == b.with_pairs(q).headway_distance,
    decreases q.len(),
{
    if q.len() >= 2 {
        same_pairs(a, b, q.drop_last());
    }
}

/// The lane sums of a closed frame are those of its actors, and what the frame was is gone.
pub proof fn closing_a_frame_counts_its_lanes(v: SafetyView)
    ensures
        v.closed().frame == Map::<u32, Motion>::empty(),
        v.closed().frame_t is None,
        v.frame_t matches Some(t) ==> {
            let cleared = SafetyView { frame_t: None, frame: Map::empty(), ..v };
            let w = cleared.with_actors(in_order::<u32, Motion>(v.frame), t);
            &&& v.closed().lanes == w.lanes && v.closed().speed == w.speed && v.closed().pet == w.pet
            &&& v.closed().acceleration == w.acceleration && v.closed().undeclared == w.undeclared
            &&& v.closed().cell_last == w.cell_last
        },
{
    if let Some(t) = v.frame_t {
        let cleared = SafetyView { frame_t: None, frame: Map::empty(), ..v };
        let s = in_order::<u32, Motion>(v.frame);
        measures_untouched(cleared, s, t);
        pairs_leave_the_rest(cleared.with_actors(s, t), queue(v.frame));
    }
}

/// A flush starts a new window at its instant. It keeps what was declared, and the cells that
/// were occupied no longer ago than the horizon.
pub proof fn a_flush_starts_a_new_window(v: SafetyView, at: SimTime)
    ensures
        ({
            let w = v.flushed(at);
            let c = v.closed();
            &&& w.window_start == at
            &&& w.lane_length_mm == c.lane_length_mm && w.dt == c.dt && w.cell_mm == c.cell_mm
            &&& w.undeclared == c.undeclared && w.rejected == c.rejected
            &&& w.pet_horizon == c.pet_horizon && w.min_samples == c.min_samples
            &&& forall|k: (i64, i64)| #[trigger] w.cell_last.contains_key(k)
                <==> c.cell_last.contains_key(k) && at - c.cell_last[k].1 <= c.pet_horizon
            &&& forall|k: (i64, i64)| #[trigger] w.cell_last.contains_key(k) ==> w.cell_last[k]
                == c.cell_last[k]
        }),
{
}

/// Every lane is reported, one after the other, behind the measures of the run.
pub proof fn every_lane_is_reported(v: SafetyView, s: Seq<(u32, LaneSums)>, e: (u32, LaneSums), at: SimTime)
    ensures
        v.lane_samples(s.push(e), at) == v.lane_samples(s, at) + v.samples_of_lane(e.0, e.1, at),
        v.lane_samples(Seq::empty(), at).len() == 0,
        v.samples(at).subrange(8, v.samples(at).len() as int) == v.closed().lane_samples(
            in_order::<u32, LaneSums>(v.closed().lanes),
            at,
        ),
{
    assert(s.push(e).drop_last() =~= s);
    assert(v.samples(at).subrange(8, v.samples(at).len() as int) =~= v.closed().lane_samples(
        in_order::<u32, LaneSums>(v.closed().lanes),
        at,
    ));
}

/// A new provider samples every tenth of a second, in cells of one metre, and meets within
/// five seconds.
pub proof fn a_provider_starts_with_nothing(t0: SimTime)
    ensures
        ({
            let v = crate::safety::fresh(t0);
            &&& v.dt == 100_000_000 && v.cell_mm == 1_000 && v.pet_horizon == 5_000_000_000
            &&& v.window_start == t0 && v.frame_t is None && v.ttc_conflicts == 0
            &&& v.ttc.samples.len() == 0 && v.lanes == Map::<u32, LaneSums>::empty()
        }),
{
}

} // verus!
