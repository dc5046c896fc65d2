//! Surrogate safety measures, headways and the fundamental diagram.
//!
//! The vehicles of a frame, all the samples with one instant, are paired lane by lane in the
//! order of their positions. A frame is measured when the first sample of another instant
//! arrives, or at a flush.

use vstd::prelude::*;
use crate::basic::SimTime;
use crate::card::{group_views, views, ModelCard};
use crate::catalog::safety as catalog;
use crate::channels::{channel_named, find_channel, Channel, EventRecord, GtKinematicsView, Payload};
use crate::comms::{length_of_window, window_length};
use crate::def::{no_dims, one_dim, sample_of, DefView, Dim, DimText, DimValue, MetricDef, MetricSample, SampleValue, SampleView};
use crate::distribution::{nothing_observed, Distribution, Observed};
use crate::keyed::{in_order, listed, ranked_at, retained, SortedMap, SortedSet};
use crate::quant::{clamped, index_of, quotient, real_of, rounded, Quotient, Real};
use crate::stats::{Estimate, RatioEstimate, DEFAULT_MIN_SAMPLES};
use crate::wide::scaled;

verus! {

/// The time to collision below which a pair is in conflict, in milliseconds.
pub const TTC_THRESHOLD_MS: i64 = 1_500;

/// What a frame keeps of an actor's motion.
#[derive(Clone, Copy, Debug)]
pub struct Motion {
    /// Easting, in millimetres.
    pub x_mm: i64,
    /// Northing, in millimetres.
    pub y_mm: i64,
    /// Speed, in millimetres per second.
    pub speed_mmps: i32,
    /// Acceleration, in millimetres per second squared.
    pub acc_mmps2: Option<i32>,
    /// The lane.
    pub lane: Option<u32>,
    /// Position along the lane, in millimetres.
    pub lane_pos_mm: Option<i64>,
}

impl View for Motion {
    type V = Motion;

    open spec fn view(&self) -> Motion {
        *self
    }
}

/// The motion that a sample reports.
pub open spec fn motion_of(v: GtKinematicsView) -> Motion {
    Motion {
        x_mm: v.x_mm,
        y_mm: v.y_mm,
        speed_mmps: v.speed_mmps,
        acc_mmps2: v.acc_mmps2,
        lane: v.lane,
        lane_pos_mm: v.lane_pos_mm,
    }
}

/// What one lane has seen in a window.
#[derive(Clone, Copy, Debug)]
pub struct LaneSums {
    /// One sample per actor and step.
    pub samples: u64,
    /// The sum of their speeds, in millimetres per second.
    pub speeds: i128,
}

impl View for LaneSums {
    type V = LaneSums;

    open spec fn view(&self) -> LaneSums {
        *self
    }
}

impl LaneSums {
    /// The sum of the speeds is one of so many 32-bit integers.
    pub open spec fn bounded(self) -> bool {
        -0x8000_0000 * self.samples <= self.speeds <= 0x8000_0000 * self.samples
    }

    /// The sums with one more sample.
    pub open spec fn and(self, speed: i32) -> LaneSums {
        LaneSums {
            samples: (self.samples + 1) as u64,
            speeds: (self.speeds + speed) as i128,
        }
    }
}

/// The sums of a lane, nothing where it has none.
pub open spec fn sums_at(m: Map<u32, LaneSums>, lane: u32) -> LaneSums {
    if m.contains_key(lane) {
        m[lane]
    } else {
        LaneSums { samples: 0, speeds: 0 }
    }
}

/// The safety metrics of a run.
pub struct SafetyProvider {
    min_samples: u64,
    dt: u64,
    cell_mm: u32,
    pet_horizon: u64,
    lane_length_mm: SortedMap<u32, u64>,
    undeclared: SortedSet<u32>,
    frame_t: Option<SimTime>,
    frame: SortedMap<u32, Motion>,
    ttc: Distribution,
    ttc_conflicts: u64,
    drac: Distribution,
    headway_time: Distribution,
    headway_distance: Distribution,
    pet: Distribution,
    speed: Distribution,
    acceleration: Distribution,
    lanes: SortedMap<u32, LaneSums>,
    cell_last: SortedMap<(i64, i64), (u32, u64)>,
    window_start: SimTime,
    rejected: u64,
}

/// What the safety metrics have accumulated.
#[verifier::ext_equal]
pub ghost struct SafetyView {
    pub min_samples: u64,
    pub dt: u64,
    pub cell_mm: u32,
    pub pet_horizon: u64,
    pub lane_length_mm: Map<u32, u64>,
    pub undeclared: Set<u32>,
    pub frame_t: Option<SimTime>,
    pub frame: Map<u32, Motion>,
    pub ttc: Observed,
    pub ttc_conflicts: u64,
    pub drac: Observed,
    pub headway_time: Observed,
    pub headway_distance: Observed,
    pub pet: Observed,
    pub speed: Observed,
    pub acceleration: Observed,
    pub lanes: Map<u32, LaneSums>,
    pub cell_last: Map<(i64, i64), (u32, u64)>,
    pub window_start: SimTime,
    pub rejected: u64,
}

impl View for SafetyProvider {
    type V = SafetyView;

    closed spec fn view(&self) -> SafetyView {
        SafetyView {
            min_samples: self.min_samples,
            dt: self.dt,
            cell_mm: self.cell_mm,
            pet_horizon: self.pet_horizon,
            lane_length_mm: self.lane_length_mm@,
            undeclared: self.undeclared@,
            frame_t: self.frame_t,
            frame: self.frame@,
            ttc: self.ttc@,
            ttc_conflicts: self.ttc_conflicts,
            drac: self.drac@,
            headway_time: self.headway_time@,
            headway_distance: self.headway_distance@,
            pet: self.pet@,
            speed: self.speed@,
            acceleration: self.acceleration@,
            lanes: self.lanes@,
            cell_last: self.cell_last@,
            window_start: self.window_start,
            rejected: self.rejected,
        }
    }
}

/// A provider that has seen nothing yet: samples every 100 ms, cells of one metre, and
/// encroachments within five seconds.
pub open spec fn fresh(t0: SimTime) -> SafetyView {
    SafetyView {
        min_samples: DEFAULT_MIN_SAMPLES,
        dt: 100_000_000,
        cell_mm: 1_000,
        pet_horizon: 5_000_000_000,
        lane_length_mm: Map::empty(),
        undeclared: Set::empty(),
        frame_t: None,
        frame: Map::empty(),
        ttc: nothing_observed(),
        ttc_conflicts: 0,
        drac: nothing_observed(),
        headway_time: nothing_observed(),
        headway_distance: nothing_observed(),
        pet: nothing_observed(),
        speed: nothing_observed(),
        acceleration: nothing_observed(),
        lanes: Map::empty(),
        cell_last: Map::empty(),
        window_start: t0,
        rejected: 0,
    }
}

/// The cell that a coordinate falls in.
pub open spec fn cell_of(mm: i64, cell_mm: u32) -> i64 {
    clamped(rounded(mm as int, cell_mm as int)) as i64
}

fn find_cell(mm: i64, cell_mm: u32) -> (r: i64)
    requires
        cell_mm > 0,
    ensures
        r == cell_of(mm, cell_mm),
{
    let negative: bool = mm < 0;
    let m: i128 = if negative {
        -(mm as i128)
    } else {
        mm as i128
    };
    let q: i128 = (2 * m + cell_mm as i128) / (2 * (cell_mm as i128));
    let v: i128 = if negative {
        -q
    } else {
        q
    };
    if v > i64::MAX as i128 {
        i64::MAX
    } else if v < i64::MIN as i128 {
        i64::MIN
    } else {
        v as i64
    }
}

/// The vehicles of a frame by lane, position and actor, with their speeds.
pub open spec fn lined_up(frame: Map<u32, Motion>) -> Map<(u32, i64, u32), i32> {
    Map::new(
        |k: (u32, i64, u32)|
            frame.contains_key(k.2) && frame[k.2].lane == Some(k.0) && frame[k.2].lane_pos_mm
                == Some(k.1),
        |k: (u32, i64, u32)| frame[k.2].speed_mmps,
    )
}

/// The vehicles of a frame in the order in which they follow one another.
pub open spec fn queue(frame: Map<u32, Motion>) -> Seq<((u32, i64, u32), i32)> {
    in_order::<(u32, i64, u32), i32>(lined_up(frame))
}

impl SafetyView {
    /// A cell has a side, and the sums of every lane are of so many samples.
    pub open spec fn sound(self) -> bool {
        &&& self.cell_mm > 0
        &&& forall|l: u32| #[trigger] self.lanes.contains_key(l) ==> self.lanes[l].bounded()
    }

    /// The measures after one follower and its leader.
    pub open spec fn with_pair(
        self,
        follower: ((u32, i64, u32), i32),
        leader: ((u32, i64, u32), i32),
    ) -> SafetyView {
        let gap = leader.0.1 - follower.0.1;
        let closing = follower.1 - leader.1;
        if follower.0.0 != leader.0.0 || gap <= 0 {
            self
        } else {
            let near = SafetyView {
                headway_distance: self.headway_distance.and_quotient(gap, 1_000),
                headway_time: if follower.1 > 0 {
                    self.headway_time.and_quotient(gap, follower.1 as int)
                } else {
                    self.headway_time
                },
                ..self
            };
            if closing > 0 {
                SafetyView {
                    ttc: self.ttc.and_quotient(gap, closing),
                    ttc_conflicts: if clamped(rounded(gap * 1_000, closing)) < TTC_THRESHOLD_MS {
                        (self.ttc_conflicts + 1) as u64
                    } else {
                        self.ttc_conflicts
                    },
                    drac: self.drac.and_quotient(closing * closing, 2_000 * gap),
                    ..near
                }
            } else {
                near
            }
        }
    }

    /// The measures after every vehicle of a queue and the one before it.
    pub open spec fn with_pairs(self, q: Seq<((u32, i64, u32), i32)>) -> SafetyView
        decreases q.len(),
    {
        if q.len() < 2 {
            self
        } else {
            self.with_pairs(q.drop_last()).with_pair(q[q.len() - 2], q.last())
        }
    }

    /// The time since another actor was last in a cell, if it is within the horizon.
    pub open spec fn encroachment(self, cell: (i64, i64), actor: u32, t: SimTime) -> Option<int> {
        if self.cell_last.contains_key(cell) {
            let (who, when) = self.cell_last[cell];
            if who != actor && t >= when && t - when <= self.pet_horizon {
                Some(t - when)
            } else {
                None
            }
        } else {
            None
        }
    }

    /// After the motion of one actor.
    pub open spec fn with_actor(self, actor: u32, v: Motion, t: SimTime) -> SafetyView {
        let cell = (cell_of(v.x_mm, self.cell_mm), cell_of(v.y_mm, self.cell_mm));
        SafetyView {
            speed: self.speed.and_quotient(v.speed_mmps as int, 1_000),
            acceleration: match v.acc_mmps2 {
                Some(a) => self.acceleration.and_quotient(a as int, 1_000),
                None => self.acceleration,
            },
            pet: match self.encroachment(cell, actor, t) {
                Some(ns) => self.pet.and_quotient(ns, 1_000_000_000),
                None => self.pet,
            },
            cell_last: self.cell_last.insert(cell, (actor, t)),
            lanes: match v.lane {
                Some(l) => if self.lane_length_mm.contains_key(l) {
                    self.lanes.insert(l, sums_at(self.lanes, l).and(v.speed_mmps))
                } else {
                    self.lanes
                },
                None => self.lanes,
            },
            undeclared: match v.lane {
                Some(l) => if self.lane_length_mm.contains_key(l) {
                    self.undeclared
                } else {
                    self.undeclared.insert(l)
                },
                None => self.undeclared,
            },
            ..self
        }
    }

    /// After the motions of some actors.
    pub open spec fn with_actors(self, s: Seq<(u32, Motion)>, t: SimTime) -> SafetyView
        decreases s.len(),
    {
        if s.len() == 0 {
            self
        } else {
            self.with_actors(s.drop_last(), t).with_actor(s.last().0, s.last().1, t)
        }
    }

    /// With the frame that was being assembled measured.
    pub open spec fn closed(self) -> SafetyView {
        let cleared = SafetyView { frame_t: None, frame: Map::empty(), ..self };
        match self.frame_t {
            None => cleared,
            Some(t) => cleared.with_actors(in_order::<u32, Motion>(self.frame), t).with_pairs(
                queue(self.frame),
            ),
        }
    }

    /// After a sample of an actor's motion.
    pub open spec fn after_motion(self, v: GtKinematicsView) -> SafetyView {
        let ready = if self.frame_t == Some(v.t) {
            self
        } else {
            SafetyView { frame_t: Some(v.t), ..self.closed() }
        };
        SafetyView { frame: ready.frame.insert(v.actor, motion_of(v)), ..ready }
    }

    /// After one record.
    pub open spec fn after(self, ev: EventRecord) -> SafetyView {
        match (channel_named(ev.channel@), ev.payload) {
            (Some(Channel::GtKinematics), Payload::GtKinematics(v)) => self.after_motion(v),
            (Some(Channel::GtKinematics), _) => SafetyView {
                rejected: (self.rejected + 1) as u64,
                ..self
            },
            _ => self,
        }
    }

    /// True if no counter overflows when the frame is measured.
    pub open spec fn room_to_close(self) -> bool {
        let actors = in_order::<u32, Motion>(self.frame).len();
        let vehicles = queue(self.frame).len();
        &&& forall|l: u32|
            #![trigger sums_at(self.lanes, l)]
            sums_at(self.lanes, l).samples + actors <= u64::MAX
        &&& self.ttc_conflicts + vehicles <= u64::MAX
    }

    /// True if no counter overflows on `ev`.
    pub open spec fn room_for(self, ev: EventRecord) -> bool {
        match (channel_named(ev.channel@), ev.payload) {
            (Some(Channel::GtKinematics), Payload::GtKinematics(v)) => self.frame_t != Some(v.t)
                ==> self.room_to_close(),
            _ => self.rejected < u64::MAX,
        }
    }
}

impl SafetyProvider {
    /// A provider whose first window starts at `t0`.
    pub fn new(t0: SimTime) -> (r: SafetyProvider)
        ensures
            r@ == fresh(t0),
            r@.sound(),
    {
        SafetyProvider {
            min_samples: DEFAULT_MIN_SAMPLES,
            dt: 100_000_000,
            cell_mm: 1_000,
            pet_horizon: 5_000_000_000,
            lane_length_mm: SortedMap::new(),
            undeclared: SortedSet::new(),
            frame_t: None,
            frame: SortedMap::new(),
            ttc: Distribution::new(),
            ttc_conflicts: 0,
            drac: Distribution::new(),
            headway_time: Distribution::new(),
            headway_distance: Distribution::new(),
            pet: Distribution::new(),
            speed: Distribution::new(),
            acceleration: Distribution::new(),
            lanes: SortedMap::new(),
            cell_last: SortedMap::new(),
            window_start: t0,
            rejected: 0,
        }
    }

    /// Sets the insufficiency threshold.
    pub fn with_min_samples(self, n: u64) -> (r: SafetyProvider)
        ensures
            r@ == (SafetyView { min_samples: n, ..self@ }),
    {
        let mut p = self;
        p.min_samples = n;
        p
    }

    /// Sets the sampling interval, in nanoseconds.
    pub fn with_sample_interval(self, dt: u64) -> (r: SafetyProvider)
        ensures
            r@ == (SafetyView { dt, ..self@ }),
            self@.sound() ==> r@.sound(),
    {
        let mut p = self;
        p.dt = dt;
        p
    }

    /// Sets the side of an encroachment cell, in millimetres.
    pub fn with_pet_cell(self, cell_mm: u32) -> (r: SafetyProvider)
        requires
            cell_mm > 0,
        ensures
            r@ == (SafetyView { cell_mm, ..self@ }),
            self@.sound() ==> r@.sound(),
    {
        let mut p = self;
        p.cell_mm = cell_mm;
        p
    }

    /// Declares a lane's length, in millimetres; the lane is no longer listed as undeclared.
    pub fn declare_lane_length(&mut self, lane: u32, mm: u64)
        ensures
            final(self)@ == (SafetyView {
                lane_length_mm: old(self)@.lane_length_mm.insert(lane, mm),
                undeclared: old(self)@.undeclared.remove(lane),
                ..old(self)@
            }),
            old(self)@.sound() ==> final(self)@.sound(),
    {
        let _ = self.lane_length_mm.insert(lane, mm);
        self.undeclared.remove(&lane);
    }

    /// The lanes that were seen and whose length was never declared.
    pub fn undeclared_lanes(&self) -> (r: &SortedSet<u32>)
        ensures
            r@ == self@.undeclared,
    {
        &self.undeclared
    }

    fn observe_actor(&mut self, actor: u32, v: Motion, t: SimTime)
        requires
            old(self)@.sound(),
            v.lane matches Some(l) ==> sums_at(old(self)@.lanes, l).samples < u64::MAX,
        ensures
            final(self)@ == old(self)@.with_actor(actor, v, t),
            final(self)@.sound(),
    {
        let ghost before = self@;
        self.speed.observe_quotient(v.speed_mmps as i128, 1_000);
        if let Some(a) = v.acc_mmps2 {
            self.acceleration.observe_quotient(a as i128, 1_000);
        }
        let cell = (find_cell(v.x_mm, self.cell_mm), find_cell(v.y_mm, self.cell_mm));
        if let Some((who, when)) = self.cell_last.insert(cell, (actor, t)) {
            if who != actor && t >= when && t - when <= self.pet_horizon {
                self.pet.observe_quotient((t - when) as i128, 1_000_000_000);
            }
        }
        if let Some(lane) = v.lane {
            if self.lane_length_mm.contains_key(&lane) {
                let sums: LaneSums = match self.lanes.get(&lane) {
                    Some(s) => *s,
                    None => LaneSums { samples: 0, speeds: 0 },
                };
                assert(sums == sums_at(before.lanes, lane));
                assert(sums.bounded());
                let more = LaneSums {
                    samples: sums.samples + 1,
                    speeds: sums.speeds + v.speed_mmps as i128,
                };
                let _ = self.lanes.insert(lane, more);
                assert(more == sums.and(v.speed_mmps));
                assert(more.bounded());
            } else {
                self.undeclared.insert(lane);
            }
        }
        assert(self@ =~= before.with_actor(actor, v, t));
    }

    fn observe_actors(&mut self, frame: &SortedMap<u32, Motion>, t: SimTime)
        requires
            old(self)@.sound(),
            ({
                let actors = in_order::<u32, Motion>(frame@).len();
                &&& forall|l: u32|
                    #![trigger sums_at(old(self)@.lanes, l)]
                    sums_at(old(self)@.lanes, l).samples + actors <= u64::MAX
            }),
        ensures
            final(self)@ == old(self)@.with_actors(in_order::<u32, Motion>(frame@), t),
            final(self)@.sound(),
    {
        let n: usize = frame.len();
        let ghost s = frame.listing();
        let ghost v0 = self@;
        let mut i: usize = 0;
        assert(s.subrange(0, 0) =~= Seq::<(u32, Motion)>::empty());
        while i < n
            invariant
                s == frame.listing(),
                n == s.len(),
                i <= n,
                self@ == v0.with_actors(s.subrange(0, i as int), t),
                self@.sound(),
                forall|l: u32|
                    #![trigger sums_at(v0.lanes, l)]
                    sums_at(v0.lanes, l).samples + n <= u64::MAX,
                forall|l: u32|
                    #![trigger sums_at(self@.lanes, l)]
                    sums_at(self@.lanes, l).samples <= sums_at(v0.lanes, l).samples + i,
            decreases n - i,
        {
            proof {
                let next = s.subrange(0, i as int + 1);
                assert(next.drop_last() =~= s.subrange(0, i as int));
                assert(next.last() == s[i as int]);
            }
            let ghost before = self@;
            let actor: u32 = *frame.key_at(i);
            let v: Motion = *frame.value_at(i);
            self.observe_actor(actor, v, t);
            proof {
                assert forall|l: u32|
                    #![trigger sums_at(self@.lanes, l)]
                    sums_at(self@.lanes, l).samples <= sums_at(v0.lanes, l).samples + (i + 1) by {
                    assert(sums_at(before.lanes, l).samples <= sums_at(v0.lanes, l).samples + i);
                }
            }
            i = i + 1;
        }
        assert(s.subrange(0, n as int) =~= s);
    }

    fn line_up(frame: &SortedMap<u32, Motion>) -> (m: SortedMap<(u32, i64, u32), i32>)
        ensures
            m@ == lined_up(frame@),
    {
        let mut m: SortedMap<(u32, i64, u32), i32> = SortedMap::new();
        let n: usize = frame.len();
        let ghost s = frame.listing();
        let mut i: usize = 0;
        while i < n
            invariant
                s == frame.listing(),
                n == s.len(),
                i <= n,
                forall|j: int|
                    0 <= j < n ==> frame@.contains_key(#[trigger] s[j].0) && frame@[s[j].0]
                        == s[j].1,
                forall|k: (u32, i64, u32)| #[trigger]
                    m@.contains_key(k) == (lined_up(frame@).contains_key(k) && exists|j: int|
                        0 <= j < i && (#[trigger] s[j]).0 == k.2),
                forall|k: (u32, i64, u32)| #[trigger]
                    m@.contains_key(k) ==> m@[k] == lined_up(frame@)[k],
            decreases n - i,
        {
            let actor: u32 = *frame.key_at(i);
            let v: Motion = *frame.value_at(i);
            let ghost before = m@;
            assert(s[i as int].0 == actor && frame@[actor] == v);
            if let Some(lane) = v.lane {
                if let Some(pos) = v.lane_pos_mm {
                    let _ = m.insert((lane, pos, actor), v.speed_mmps);
                }
            }
            proof {
                assert forall|k: (u32, i64, u32)| #[trigger]
                    m@.contains_key(k) == (lined_up(frame@).contains_key(k) && exists|j: int|
                        0 <= j < i + 1 && (#[trigger] s[j]).0 == k.2) by {
                    assert(before.contains_key(k) == (lined_up(frame@).contains_key(k)
                        && exists|j: int| 0 <= j < i && (#[trigger] s[j]).0 == k.2));
                    if k.2 == actor {
                        assert(s[i as int].0 == k.2);
                    }
                }
            }
            i = i + 1;
        }
        proof {
            assert forall|k: (u32, i64, u32)| #[trigger]
                m@.contains_key(k) == lined_up(frame@).contains_key(k) by {
                if lined_up(frame@).contains_key(k) {
                    let j = choose|j: int| ranked_at(s, k.2, j);
                    assert(frame@ == listed(s));
                    assert(s[j].0 == k.2);
                }
            }
            assert(m@ =~= lined_up(frame@));
        }
        m
    }

    fn observe_pair(&mut self, follower: ((u32, i64, u32), i32), leader: ((u32, i64, u32), i32))
        requires
            old(self)@.sound(),
            old(self)@.ttc_conflicts < u64::MAX,
        ensures
            final(self)@ == old(self)@.with_pair(follower, leader),
            final(self)@.sound(),
    {
        let ghost before = self@;
        if follower.0.0 != leader.0.0 {
            return ;
        }
        let gap: i128 = leader.0.1 as i128 - follower.0.1 as i128;
        if gap <= 0 {
            return ;
        }
        self.headway_distance.observe_quotient(gap, 1_000);
        if follower.1 > 0 {
            self.headway_time.observe_quotient(gap, follower.1 as u128);
        }
        let closing: i128 = follower.1 as i128 - leader.1 as i128;
        if closing > 0 {
            self.ttc.observe_quotient(gap, closing as u128);
            let ms: i128 = (2 * (gap * 1_000) + closing) / (2 * closing);
            assert(ms == rounded(gap * 1_000, closing as int));
            if ms < TTC_THRESHOLD_MS as i128 {
                self.ttc_conflicts = self.ttc_conflicts + 1;
            }
            assert(closing * closing <= 0x1_0000_0000 * 0x1_0000_0000) by (nonlinear_arith)
                requires
                    0 < closing <= 0x1_0000_0000,
            ;
            assert(closing * closing >= 0) by (nonlinear_arith)
                requires
                    0 < closing,
            ;
            self.drac.observe_quotient(closing * closing, 2_000 * (gap as u128));
        }
        assert(self@ =~= before.with_pair(follower, leader));
    }

    fn observe_pairs(&mut self, frame: &SortedMap<u32, Motion>)
        requires
            old(self)@.sound(),
            ({
                let vehicles = queue(frame@).len();
                &&& old(self)@.ttc_conflicts + vehicles <= u64::MAX
            }),
        ensures
            final(self)@ == old(self)@.with_pairs(queue(frame@)),
            final(self)@.sound(),
    {
        let q = Self::line_up(frame);
        let n: usize = q.len();
        let ghost s = q.listing();
        let ghost v0 = self@;
        let mut i: usize = 1;
        if n < 2 {
            return ;
        }
        while i < n
            invariant
                s == q.listing(),
                n == s.len(),
                1 <= i <= n,
                self@ == v0.with_pairs(s.subrange(0, i as int)),
                self@.sound(),
                v0.ttc_conflicts + n <= u64::MAX,
                self@.ttc_conflicts <= v0.ttc_conflicts + i - 1,
            decreases n - i,
        {
            proof {
                let next = s.subrange(0, i as int + 1);
                assert(next.drop_last() =~= s.subrange(0, i as int));
                assert(next.last() == s[i as int]);
                assert(next[next.len() - 2] == s[i as int - 1]);
            }
            let follower = (*q.key_at(i - 1), *q.value_at(i - 1));
            let leader = (*q.key_at(i), *q.value_at(i));
            self.observe_pair(follower, leader);
            i = i + 1;
        }
        assert(s.subrange(0, n as int) =~= s);
    }

    fn close_frame(&mut self)
        requires
            old(self)@.sound(),
            old(self)@.room_to_close(),
        ensures
            final(self)@ == old(self)@.closed(),
            final(self)@.sound(),
    {
        let frame = self.frame.drain();
        if let Some(t) = self.frame_t {
            self.frame_t = None;
            let ghost cleared = self@;
            self.observe_actors(&frame, t);
            proof {
                measures_untouched(cleared, in_order::<u32, Motion>(frame@), t);
            }
            self.observe_pairs(&frame);
        }
    }

    fn on_kinematics(&mut self, v: &GtKinematicsView)
        requires
            old(self)@.sound(),
            old(self)@.frame_t != Some(v.t) ==> old(self)@.room_to_close(),
        ensures
            final(self)@ == old(self)@.after_motion(*v),
            final(self)@.sound(),
    {
        let same = match self.frame_t {
            Some(t) => t == v.t,
            None => false,
        };
        if !same {
            self.close_frame();
            self.frame_t = Some(v.t);
        }
        let motion = Motion {
            x_mm: v.x_mm,
            y_mm: v.y_mm,
            speed_mmps: v.speed_mmps,
            acc_mmps2: v.acc_mmps2,
            lane: v.lane,
            lane_pos_mm: v.lane_pos_mm,
        };
        let _ = self.frame.insert(v.actor, motion);
    }

    /// Consumes one record.
    pub fn on_event(&mut self, ev: &EventRecord)
        requires
            old(self)@.sound(),
            old(self)@.room_for(*ev),
        ensures
            final(self)@ == old(self)@.after(*ev),
            final(self)@.sound(),
    {
        match (find_channel(ev.channel.as_str()), &ev.payload) {
            (Some(Channel::GtKinematics), Payload::GtKinematics(v)) => self.on_kinematics(v),
            (Some(Channel::GtKinematics), _) => {
                self.rejected = self.rejected + 1;
            },
            _ => {},
        }
    }
}

/// Measuring the actors of a frame leaves the measures of pairs alone.
pub(crate) proof fn measures_untouched(v: SafetyView, s: Seq<(u32, Motion)>, t: SimTime)
    ensures
        ({
            let w = v.with_actors(s, t);
            &&& w.ttc == v.ttc
            &&& w.ttc_conflicts == v.ttc_conflicts
            &&& w.drac == v.drac
            &&& w.headway_time == v.headway_time
            &&& w.headway_distance == v.headway_distance
            &&& w.frame == v.frame
            &&& w.frame_t == v.frame_t
        }),
    decreases s.len(),
{
    if s.len() > 0 {
        measures_untouched(v, s.drop_last(), t);
    }
}

/// The flow on a lane, in vehicles per hour: the distance driven on it over its length and
/// the window.
pub open spec fn flow_of(sums: LaneSums, dt: u64, length_mm: u64, t: u64) -> Quotient {
    quotient(sums.speeds * 3_600 * dt, length_mm * t)
}

/// The density on a lane, in vehicles per kilometre: the time spent on it over its length
/// and the window.
pub open spec fn density_of(sums: LaneSums, dt: u64, length_mm: u64, t: u64) -> Quotient {
    quotient(sums.samples * 1_000_000 * dt, length_mm * t)
}

/// The mean speed over space, in metres per second: the distance over the time.
pub open spec fn mean_speed_of(sums: LaneSums) -> Quotient {
    quotient(sums.speeds as int, 1_000 * sums.samples)
}

/// A quotient in whole thousandths.
pub open spec fn in_thousandths(x: Quotient) -> Real {
    real_of(index_of(x, 1_000), 1_000)
}

/// The flow, the density and the mean speed of a lane: the sums over the lane and the
/// window, in thousandths.
pub open spec fn edie(sums: LaneSums, dt: u64, length_mm: u64, window: Option<u64>) -> (
    Estimate,
    Estimate,
    RatioEstimate,
) {
    match window {
        Some(t) if length_mm > 0 && t > 0 => (
            Estimate::Value {
                point: in_thousandths(flow_of(sums, dt, length_mm, t)),
                n: sums.samples,
            },
            Estimate::Value {
                point: in_thousandths(density_of(sums, dt, length_mm, t)),
                n: sums.samples,
            },
            if sums.samples == 0 || dt == 0 {
                RatioEstimate::Insufficient { trials: sums.samples, required: 1 }
            } else {
                RatioEstimate::RatioOfSums {
                    point: real_of(mean_speed_of(sums).num, mean_speed_of(sums).den),
                    numerator: in_thousandths(quotient(sums.speeds * dt, 1_000_000_000_000)),
                    denominator: in_thousandths(quotient(sums.samples * dt, 1_000_000_000)),
                    n: sums.samples,
                }
            },
        ),
        _ => (
            Estimate::Insufficient { n: sums.samples, required: 1 },
            Estimate::Insufficient { n: sums.samples, required: 1 },
            RatioEstimate::Insufficient { trials: sums.samples, required: 1 },
        ),
    }
}

/// `a` times `k`, times `b`, over `d`, in thousandths.
fn thousandths(a: i128, k: i128, b: u64, d: u128) -> (r: Real)
    requires
        d > 0,
        0 < k <= 1_000_000,
        -0x8000_0000_0000_0000_0000_0000 <= a <= 0x8000_0000_0000_0000_0000_0000,
    ensures
        r == in_thousandths(quotient(a * k * b, d as int)),
{
    proof {
        assert(-0x8000_0000_0000_0000_0000_0000 * 1_000_000 <= a * k
            <= 0x8000_0000_0000_0000_0000_0000 * 1_000_000) by (nonlinear_arith)
            requires
                0 < k <= 1_000_000,
                -0x8000_0000_0000_0000_0000_0000 <= a <= 0x8000_0000_0000_0000_0000_0000,
        ;
        assert((a * k * 1_000) * b == (a * k * b) * 1_000) by (nonlinear_arith);
    }
    Real::new(scaled(a * k * 1_000, b, d), 1_000)
}

/// The flow, density and mean speed of a lane.
fn lane_aggregates(sums: LaneSums, dt: u64, length_mm: u64, window: Option<u64>) -> (r: (
    Estimate,
    Estimate,
    RatioEstimate,
))
    requires
        sums.bounded(),
    ensures
        r == edie(sums, dt, length_mm, window),
{
    let n: u64 = sums.samples;
    match window {
        Some(t) => {
            if length_mm > 0 && t > 0 {
                proof {
                    assert(0 < length_mm * t <= 0xffff_ffff_ffff_ffff * 0xffff_ffff_ffff_ffff)
                        by (nonlinear_arith)
                        requires
                            0 < length_mm <= 0xffff_ffff_ffff_ffff,
                            0 < t <= 0xffff_ffff_ffff_ffff,
                    ;
                }
                let area: u128 = (length_mm as u128) * (t as u128);
                let mean: RatioEstimate = if n == 0 || dt == 0 {
                    RatioEstimate::Insufficient { trials: n, required: 1 }
                } else {
                    assert(sums.speeds * 1 * dt == sums.speeds * dt);
                    assert(sums.samples * 1 * dt == sums.samples * dt);
                    RatioEstimate::RatioOfSums {
                        point: Real::new(sums.speeds, 1_000 * (n as u128)),
                        numerator: thousandths(sums.speeds, 1, dt, 1_000_000_000_000),
                        denominator: thousandths(n as i128, 1, dt, 1_000_000_000),
                        n,
                    }
                };
                (
                    Estimate::Value { point: thousandths(sums.speeds, 3_600, dt, area), n },
                    Estimate::Value { point: thousandths(n as i128, 1_000_000, dt, area), n },
                    mean,
                )
            } else {
                (
                    Estimate::Insufficient { n, required: 1 },
                    Estimate::Insufficient { n, required: 1 },
                    RatioEstimate::Insufficient { trials: n, required: 1 },
                )
            }
        },
        None => (
            Estimate::Insufficient { n, required: 1 },
            Estimate::Insufficient { n, required: 1 },
            RatioEstimate::Insufficient { trials: n, required: 1 },
        ),
    }
}

/// The sample of one distribution over the run.
pub open spec fn distribution_sample(def: DefView, at: SimTime, d: Observed, min: u64) -> SampleView {
    sample_of(def, at, Seq::empty(), SampleValue::Distribution(d.summary(min)))
}

impl SafetyView {
    /// The samples that are not of a lane.
    pub open spec fn run_samples(self, at: SimTime) -> Seq<SampleView> {
        let m = self.min_samples;
        seq![
            distribution_sample(catalog::ttc_min_def(m), at, self.ttc, m),
            distribution_sample(catalog::pet_def(m), at, self.pet, m),
            distribution_sample(catalog::drac_def(m), at, self.drac, m),
            distribution_sample(catalog::headway_time_def(m), at, self.headway_time, m),
            distribution_sample(catalog::headway_distance_def(m), at, self.headway_distance, m),
            distribution_sample(catalog::speed_def(m), at, self.speed, m),
            distribution_sample(catalog::acceleration_def(m), at, self.acceleration, m),
            sample_of(
                catalog::ttc_conflicts_def(),
                at,
                Seq::empty(),
                SampleValue::Count { count: self.ttc_conflicts },
            ),
        ]
    }

    /// The declared length of a lane, zero where there is none.
    pub open spec fn length_of(self, lane: u32) -> u64 {
        if self.lane_length_mm.contains_key(lane) {
            self.lane_length_mm[lane]
        } else {
            0
        }
    }

    /// The samples of one lane.
    pub open spec fn samples_of_lane(self, lane: u32, sums: LaneSums, at: SimTime) -> Seq<
        SampleView,
    > {
        let dims = seq![(Dim::Region, DimText::Index(lane as u64))];
        let (flow, density, mean) = edie(
            sums,
            self.dt,
            self.length_of(lane),
            window_length(self.window_start, at),
        );
        seq![
            sample_of(catalog::flow_def(), at, dims, SampleValue::Scalar(flow)),
            sample_of(catalog::density_def(), at, dims, SampleValue::Scalar(density)),
            sample_of(catalog::mean_speed_def(), at, dims, SampleValue::Ratio(mean)),
        ]
    }

    /// The samples of some lanes.
    pub open spec fn lane_samples(self, s: Seq<(u32, LaneSums)>, at: SimTime) -> Seq<SampleView>
        decreases s.len(),
    {
        if s.len() == 0 {
            Seq::empty()
        } else {
            self.lane_samples(s.drop_last(), at) + self.samples_of_lane(
                s.last().0,
                s.last().1,
                at,
            )
        }
    }

    /// All samples of the window that ends at `at`.
    pub open spec fn samples(self, at: SimTime) -> Seq<SampleView> {
        let v = self.closed();
        v.run_samples(at) + v.lane_samples(in_order::<u32, LaneSums>(v.lanes), at)
    }

    /// The cells that were occupied since the horizon before `at`.
    pub open spec fn recent_cells(self, at: SimTime) -> Map<(i64, i64), (u32, u64)> {
        Map::new(
            |c: (i64, i64)|
                self.cell_last.contains_key(c) && self.cell_last[c].1 + self.pet_horizon >= at,
            |c: (i64, i64)| self.cell_last[c],
        )
    }

    /// The state after the window that ends at `at` was flushed. Cells outlive the window:
    /// an encroachment may span its end.
    pub open spec fn flushed(self, at: SimTime) -> SafetyView {
        let v = self.closed();
        SafetyView {
            min_samples: v.min_samples,
            dt: v.dt,
            cell_mm: v.cell_mm,
            pet_horizon: v.pet_horizon,
            lane_length_mm: v.lane_length_mm,
            undeclared: v.undeclared,
            cell_last: v.recent_cells(at),
            rejected: v.rejected,
            ..fresh(at)
        }
    }
}

impl SafetyProvider {
    fn emit_run(&self, at: SimTime, out: &mut Vec<MetricSample>)
        ensures
            views(final(out)@) == views(old(out)@) + self@.run_samples(at),
    {
        broadcast use group_views;

        let ghost start = views(out@);
        let m: u64 = self.min_samples;
        out.push(
            MetricSample::new(
                &catalog::ttc_min(m),
                at,
                no_dims(),
                SampleValue::Distribution(self.ttc.summary(m)),
            ),
        );
        out.push(
            MetricSample::new(
                &catalog::pet(m),
                at,
                no_dims(),
                SampleValue::Distribution(self.pet.summary(m)),
            ),
        );
        out.push(
            MetricSample::new(
                &catalog::drac(m),
                at,
                no_dims(),
                SampleValue::Distribution(self.drac.summary(m)),
            ),
        );
        out.push(
            MetricSample::new(
                &catalog::headway_time(m),
                at,
                no_dims(),
                SampleValue::Distribution(self.headway_time.summary(m)),
            ),
        );
        out.push(
            MetricSample::new(
                &catalog::headway_distance(m),
                at,
                no_dims(),
                SampleValue::Distribution(self.headway_distance.summary(m)),
            ),
        );
        out.push(
            MetricSample::new(
                &catalog::speed(m),
                at,
                no_dims(),
                SampleValue::Distribution(self.speed.summary(m)),
            ),
        );
        out.push(
            MetricSample::new(
                &catalog::acceleration(m),
                at,
                no_dims(),
                SampleValue::Distribution(self.acceleration.summary(m)),
            ),
        );
        out.push(
            MetricSample::new(
                &catalog::ttc_conflicts(),
                at,
                no_dims(),
                SampleValue::count(self.ttc_conflicts),
            ),
        );
        assert(views(out@) =~= start + self@.run_samples(at));
    }

    fn emit_lane(&self, lane: u32, sums: LaneSums, at: SimTime, out: &mut Vec<MetricSample>)
        requires
            self@.sound(),
            sums.bounded(),
        ensures
            views(final(out)@) == views(old(out)@) + self@.samples_of_lane(lane, sums, at),
    {
        broadcast use group_views;

        let ghost start = views(out@);
        let length: u64 = match self.lane_length_mm.get(&lane) {
            Some(l) => *l,
            None => 0,
        };
        let (flow, density, mean) = lane_aggregates(
            sums,
            self.dt,
            length,
            length_of_window(self.window_start, at),
        );
        out.push(
            MetricSample::new(
                &catalog::flow(),
                at,
                one_dim(Dim::Region, DimValue::index(lane as u64)),
                SampleValue::Scalar(flow),
            ),
        );
        out.push(
            MetricSample::new(
                &catalog::density(),
                at,
                one_dim(Dim::Region, DimValue::index(lane as u64)),
                SampleValue::Scalar(density),
            ),
        );
        out.push(
            MetricSample::new(
                &catalog::mean_speed(),
                at,
                one_dim(Dim::Region, DimValue::index(lane as u64)),
                SampleValue::Ratio(mean),
            ),
        );
        assert(views(out@) =~= start + self@.samples_of_lane(lane, sums, at));
    }

    fn emit_lanes(&self, at: SimTime, out: &mut Vec<MetricSample>)
        requires
            self@.sound(),
        ensures
            views(final(out)@) == views(old(out)@) + self@.lane_samples(
                in_order::<u32, LaneSums>(self@.lanes),
                at,
            ),
    {
        let ghost start = views(out@);
        let n: usize = self.lanes.len();
        let ghost s = self.lanes.listing();
        let mut i: usize = 0;
        assert(s.subrange(0, 0) =~= Seq::<(u32, LaneSums)>::empty());
        assert(start + self@.lane_samples(s.subrange(0, 0), at) =~= start);
        assert forall|k: int| 0 <= k < n implies (#[trigger] s[k]).1.bounded() by {
            assert(self@.lanes.contains_key(s[k].0));
        }
        while i < n
            invariant
                s == self.lanes.listing(),
                n == s.len(),
                i <= n,
                self@.sound(),
                forall|k: int| 0 <= k < n ==> (#[trigger] s[k]).1.bounded(),
                views(out@) == start + self@.lane_samples(s.subrange(0, i as int), at),
            decreases n - i,
        {
            let ghost before = self@.lane_samples(s.subrange(0, i as int), at);
            proof {
                let next = s.subrange(0, i as int + 1);
                assert(next.drop_last() =~= s.subrange(0, i as int));
                assert(next.last() == s[i as int]);
            }
            let lane: u32 = *self.lanes.key_at(i);
            let sums: LaneSums = *self.lanes.value_at(i);
            self.emit_lane(lane, sums, at, out);
            assert(views(out@) =~= start + (before + self@.samples_of_lane(lane, sums, at)));
            i = i + 1;
        }
        assert(s.subrange(0, n as int) =~= s);
    }

    fn prune_cells(&mut self, at: SimTime)
        ensures
            final(self)@ == (SafetyView {
                cell_last: old(self)@.recent_cells(at),
                ..old(self)@
            }),
    {
        let ghost v = self@;
        let n: usize = self.cell_last.len();
        let ghost s = self.cell_last.listing();
        let mut keep: Vec<bool> = Vec::new();
        let mut i: usize = 0;
        while i < n
            invariant
                v == self@,
                s == self.cell_last.listing(),
                n == s.len(),
                i <= n,
                i == keep@.len(),
                forall|j: int|
                    0 <= j < i ==> #[trigger] keep@[j] == (s[j].1.1 + v.pet_horizon >= at),
            decreases n - i,
        {
            let last: (u32, u64) = *self.cell_last.value_at(i);
            keep.push(at <= last.1 || at - last.1 <= self.pet_horizon);
            i = i + 1;
        }
        let kept = retained(&self.cell_last, &keep);
        proof {
            assert(v.cell_last == listed(s));
            assert forall|c: (i64, i64)| #[trigger]
                kept@.contains_key(c) == v.recent_cells(at).contains_key(c) by {
                if v.cell_last.contains_key(c) {
                    let j = choose|j: int| ranked_at(s, c, j);
                    assert(v.cell_last.contains_key(s[j].0) && v.cell_last[s[j].0] == s[j].1);
                    if v.recent_cells(at).contains_key(c) {
                        assert(ranked_at(s, c, j) && keep@[j]);
                    }
                }
                if kept@.contains_key(c) {
                    let j = choose|j: int| ranked_at(s, c, j) && keep@[j];
                    assert(v.cell_last.contains_key(s[j].0) && v.cell_last[s[j].0] == s[j].1);
                }
            }
            assert(kept@ =~= v.recent_cells(at));
        }
        self.cell_last = kept;
    }

    /// The samples of the window that ends at `at`; what was accumulated is drained, and a
    /// new window starts.
    pub fn flush(&mut self, at: SimTime) -> (out: Vec<MetricSample>)
        requires
            old(self)@.sound(),
            old(self)@.room_to_close(),
        ensures
            views(out@) == old(self)@.samples(at),
            final(self)@ == old(self)@.flushed(at),
            final(self)@.sound(),
    {
        broadcast use group_views;

        self.close_frame();
        let ghost v = self@;
        let mut out: Vec<MetricSample> = Vec::new();
        self.emit_run(at, &mut out);
        self.emit_lanes(at, &mut out);
        assert(views(out@) =~= old(self)@.samples(at));
        let _ = self.ttc.drain();
        let _ = self.pet.drain();
        let _ = self.drac.drain();
        let _ = self.headway_time.drain();
        let _ = self.headway_distance.drain();
        let _ = self.speed.drain();
        let _ = self.acceleration.drain();
        let _ = self.lanes.drain();
        self.ttc_conflicts = 0;
        self.prune_cells(at);
        self.window_start = at;
        proof {
            frame_is_empty(old(self)@);
            assert(self@.cell_last =~= v.recent_cells(at));
            assert(self@ =~= old(self)@.flushed(at));
        }
        out
    }

    /// How many records could not be read.
    pub fn rejected(&self) -> (r: u64)
        ensures
            r == self@.rejected,
    {
        self.rejected
    }

    /// The card of the provider.
    pub fn card(&self) -> (r: ModelCard)
        ensures
            r@ == catalog::safety_card(),
    {
        catalog::build_card()
    }

    /// The definitions of the provider's metrics.
    pub fn definitions(&self) -> (r: Vec<MetricDef>)
        ensures
            views(r@) == catalog::all_defs(self@.min_samples),
    {
        catalog::definitions(self.min_samples)
    }
}

/// Measuring pairs changes only their measures.
proof fn pairs_touch_measures_only(v: SafetyView, q: Seq<((u32, i64, u32), i32)>)
    ensures
        ({
            let w = v.with_pairs(q);
            &&& w.frame == v.frame
            &&& w.frame_t == v.frame_t
        }),
    decreases q.len(),
{
    if q.len() >= 2 {
        pairs_touch_measures_only(v, q.drop_last());
    }
}

/// A measured frame is empty.
proof fn frame_is_empty(v: SafetyView)
    ensures
        v.closed().frame == Map::<u32, Motion>::empty(),
        v.closed().frame_t == None::<SimTime>,
{
    let cleared = SafetyView { frame_t: None, frame: Map::empty(), ..v };
    if let Some(t) = v.frame_t {
        let s = in_order::<u32, Motion>(v.frame);
        measures_untouched(cleared, s, t);
        pairs_touch_measures_only(cleared.with_actors(s, t), queue(v.frame));
    }
}

/// The flow is the density times the mean speed: in vehicles per hour, per kilometre and
/// metres per second, `flow = 3.6 * density * speed`, exactly; what is reported is each of
/// the three, rounded.
pub proof fn flow_is_density_times_mean_speed(sums: LaneSums, dt: u64, length_mm: u64, t: u64)
    ensures
        ({
            let q = flow_of(sums, dt, length_mm, t);
            let k = density_of(sums, dt, length_mm, t);
            let v = mean_speed_of(sums);
            10 * q.num * (k.den * v.den) == 36 * (k.num * v.num) * q.den
        }),
{
    let (s, n, d, l, w) = (
        sums.speeds as int,
        sums.samples as int,
        dt as int,
        length_mm as int,
        t as int,
    );
    assert(10 * (s * 3_600 * d) * ((l * w) * (1_000 * n)) == 36 * ((n * 1_000_000 * d) * s) * (l
        * w)) by (nonlinear_arith);
}

/// The samples of one instant may come in any order.
pub proof fn actors_of_a_frame_commute(v: SafetyView, a: GtKinematicsView, b: GtKinematicsView)
    requires
        a.t == b.t,
        a.actor != b.actor,
    ensures
        v.after_motion(a).after_motion(b) == v.after_motion(b).after_motion(a),
{
    let x = v.after_motion(a).after_motion(b);
    let y = v.after_motion(b).after_motion(a);
    assert(x.frame =~= y.frame);
    assert(x =~= y);
}

/// A sample that repeats an actor's sample of the same instant changes nothing.
pub proof fn a_repeated_sample_counts_once(v: SafetyView, a: GtKinematicsView)
    ensures
        v.after_motion(a).after_motion(a) == v.after_motion(a),
{
    let x = v.after_motion(a);
    assert(x.after_motion(a).frame =~= x.frame);
    assert(x.after_motion(a) =~= x);
}

} // verus!
