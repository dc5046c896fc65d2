//! Awareness and freshness: what each vehicle knows of its neighbours, and how old it is.

use vstd::prelude::*;
use vstd::pervasive::unreached;
use vstd::set_lib::lemma_len_subset;
use crate::basic::SimTime;
use crate::bins::{whole_bins_are_valid, Bins};
use crate::card::{group_views, views, ModelCard};
use crate::catalog::awareness as catalog;
use crate::channels::{channel_named, find_channel, Channel, EventRecord, GtKinematicsView, NodeRxView, Payload, RxFate};
use crate::comms::{counts_at, distance_bin, find_bin, UNBINNED};
use crate::def::{no_dims, one_dim, sample_of, Dim, DimText, DimValue, MetricDef, MetricSample, SampleValue, SampleView};
use crate::distribution::{nothing_observed, Distribution, Observed};
use crate::keyed::{in_order, listed, ranked_at, retained, SortedMap, SortedSet};
use crate::quant::{real_of, real_of_is_the_quotient, Quantum, Real};
use crate::stats::{no_counts, proportion_of, ratio_of_sums, sums_ratio, ConfidenceLevel, Counts, Proportion, RatioEstimate, DEFAULT_MIN_SAMPLES};

verus! {

/// The smaller radius of a neighbourhood, in metres.
pub const NEAR_RADIUS_M: u32 = 100;

/// The larger radius of a neighbourhood, in metres.
pub const FAR_RADIUS_M: u32 = 300;

/// How recently a neighbour must have been heard to be known, in nanoseconds.
pub const NAR_HORIZON: u64 = 1_000_000_000;

/// How many distinct pairs a window needs for an awareness ratio.
pub const NAR_MIN_PAIRS: u64 = 1;

/// How long a link may go unheard before its age starts anew, in nanoseconds.
pub const AOI_RESTART: u64 = 10_000_000_000;

/// How old a position may be and still place a vehicle, in nanoseconds.
pub const POSITION_STALE: u64 = 2_000_000_000;

/// The longest time over which ages are averaged in one window, in nanoseconds.
pub const MAX_AGED: u128 = 77371252455336267181195264;

/// The freshest message of a directed link.
#[derive(Clone, Copy, Debug)]
pub struct Link {
    /// When it was delivered.
    pub delivered: SimTime,
    /// When it was generated.
    pub generated: SimTime,
}

impl View for Link {
    type V = Link;

    open spec fn view(&self) -> Link {
        *self
    }
}

/// Where a vehicle was last known to be.
#[derive(Clone, Copy, Debug)]
pub struct Position {
    /// When.
    pub t: SimTime,
    /// Easting, in millimetres.
    pub x_mm: i64,
    /// Northing, in millimetres.
    pub y_mm: i64,
}

impl View for Position {
    type V = Position;

    open spec fn view(&self) -> Position {
        *self
    }
}

/// The awareness metrics of a run.
pub struct AwarenessProvider {
    level: ConfidenceLevel,
    min_samples: u64,
    bins: Bins,
    window_start: SimTime,
    last_heard: SortedMap<(u32, u32), u64>,
    links: SortedMap<(u32, u32), Link>,
    positions: SortedMap<u32, Position>,
    aoi_area: u128,
    aoi_time: u128,
    aoi_updates: u64,
    aoi_peak_ms: Distribution,
    delivery_by_bin: SortedMap<usize, Proportion>,
    delivery_unbinned: Proportion,
    delivery_all: Proportion,
    frame_t: Option<SimTime>,
    nar_sampled_at: Option<SimTime>,
    near: Proportion,
    near_pairs: SortedSet<(u32, u32)>,
    far: Proportion,
    far_pairs: SortedSet<(u32, u32)>,
    rejected: u64,
}

/// What the awareness metrics have accumulated.
#[verifier::ext_equal]
pub ghost struct AwarenessView {
    pub level: ConfidenceLevel,
    pub min_samples: u64,
    pub bins: Bins,
    pub window_start: SimTime,
    pub last_heard: Map<(u32, u32), u64>,
    pub links: Map<(u32, u32), Link>,
    pub positions: Map<u32, Position>,
    pub aoi_area: u128,
    pub aoi_time: u128,
    pub aoi_updates: u64,
    pub aoi_peak_ms: Observed,
    pub delivery_by_bin: Map<usize, Counts>,
    pub delivery_unbinned: Counts,
    pub delivery_all: Counts,
    pub frame_t: Option<SimTime>,
    pub nar_sampled_at: Option<SimTime>,
    pub near: Counts,
    pub near_pairs: Set<(u32, u32)>,
    pub far: Counts,
    pub far_pairs: Set<(u32, u32)>,
    pub rejected: u64,
}

impl View for AwarenessProvider {
    type V = AwarenessView;

    closed spec fn view(&self) -> AwarenessView {
        AwarenessView {
            level: self.level,
            min_samples: self.min_samples,
            bins: self.bins,
            window_start: self.window_start,
            last_heard: self.last_heard@,
            links: self.links@,
            positions: self.positions@,
            aoi_area: self.aoi_area,
            aoi_time: self.aoi_time,
            aoi_updates: self.aoi_updates,
            aoi_peak_ms: self.aoi_peak_ms@,
            delivery_by_bin: self.delivery_by_bin@,
            delivery_unbinned: self.delivery_unbinned@,
            delivery_all: self.delivery_all@,
            frame_t: self.frame_t,
            nar_sampled_at: self.nar_sampled_at,
            near: self.near@,
            near_pairs: self.near_pairs@,
            far: self.far@,
            far_pairs: self.far_pairs@,
            rejected: self.rejected,
        }
    }
}

/// A provider that has seen nothing yet.
pub open spec fn fresh(t0: SimTime, bins: Bins) -> AwarenessView {
    AwarenessView {
        level: ConfidenceLevel::P95,
        min_samples: DEFAULT_MIN_SAMPLES,
        bins,
        window_start: t0,
        last_heard: Map::empty(),
        links: Map::empty(),
        positions: Map::empty(),
        aoi_area: 0,
        aoi_time: 0,
        aoi_updates: 0,
        aoi_peak_ms: nothing_observed(),
        delivery_by_bin: Map::empty(),
        delivery_unbinned: no_counts(),
        delivery_all: no_counts(),
        frame_t: None,
        nar_sampled_at: None,
        near: no_counts(),
        near_pairs: Set::empty(),
        far: no_counts(),
        far_pairs: Set::empty(),
        rejected: 0,
    }
}

/// True if two positions are at most `r_mm` apart.
pub open spec fn within(a: Position, b: Position, r_mm: int) -> bool {
    (b.x_mm - a.x_mm) * (b.x_mm - a.x_mm) + (b.y_mm - a.y_mm) * (b.y_mm - a.y_mm) <= r_mm * r_mm
}

/// A time less another, zero where it is the greater one.
pub open spec fn less(a: u64, b: u64) -> int {
    if a >= b {
        a - b
    } else {
        0
    }
}

/// Twice the area under the age of a link from one delivery to the next.
pub open spec fn aged(prev: Link, d: SimTime) -> int {
    (d - prev.delivered) * (less(prev.delivered, prev.generated) + less(d, prev.generated))
}

impl AwarenessView {
    /// True if a node's position is recent enough at `at`.
    pub open spec fn located(self, n: u32, at: SimTime) -> bool {
        self.positions.contains_key(n) && at <= self.positions[n].t + POSITION_STALE
    }

    /// The pairs of a receiver and another vehicle within `r_mm` of it.
    pub open spec fn neighbours(self, at: SimTime, r_mm: int) -> Set<(u32, u32)> {
        Set::new(
            |p: (u32, u32)|
                p.0 != p.1 && self.located(p.0, at) && self.located(p.1, at) && within(
                    self.positions[p.0],
                    self.positions[p.1],
                    r_mm,
                ),
        )
    }

    /// True if the receiver has heard the other within the horizon.
    pub open spec fn hears(self, p: (u32, u32), at: SimTime) -> bool {
        self.last_heard.contains_key(p) && at <= self.last_heard[p] + NAR_HORIZON
    }

    /// The neighbours that the receiver has heard.
    pub open spec fn heard_neighbours(self, at: SimTime, r_mm: int) -> Set<(u32, u32)> {
        Set::new(|p: (u32, u32)| self.neighbours(at, r_mm).contains(p) && self.hears(p, at))
    }

    /// With more observations of neighbours.
    pub open spec fn observed_pairs(self, c: Counts, at: SimTime, r_mm: int) -> Counts {
        Counts {
            successes: (c.successes + self.heard_neighbours(at, r_mm).len()) as u64,
            trials: (c.trials + self.neighbours(at, r_mm).len()) as u64,
        }
    }

    /// With the neighbourhoods at `at` sampled, once per instant.
    pub open spec fn sampled(self, at: SimTime) -> AwarenessView {
        if self.nar_sampled_at == Some(at) {
            self
        } else {
            AwarenessView {
                nar_sampled_at: Some(at),
                near: self.observed_pairs(self.near, at, 100_000),
                near_pairs: self.near_pairs.union(self.neighbours(at, 100_000)),
                far: self.observed_pairs(self.far, at, 300_000),
                far_pairs: self.far_pairs.union(self.neighbours(at, 300_000)),
                ..self
            }
        }
    }

    /// After a sample of an actor's motion. One of a new instant ends the previous one.
    pub open spec fn after_motion(self, v: GtKinematicsView) -> AwarenessView {
        let ready = if self.frame_t == Some(v.t) {
            self
        } else {
            let before = match self.frame_t {
                Some(prev) => self.sampled(prev),
                None => self,
            };
            AwarenessView { frame_t: Some(v.t), ..before }
        };
        match v.node {
            Some(node) => AwarenessView {
                positions: ready.positions.insert(
                    node,
                    (Position { t: v.t, x_mm: v.x_mm, y_mm: v.y_mm }),
                ),
                ..ready
            },
            None => ready,
        }
    }

    /// After an attempt that is resolved.
    pub open spec fn after_attempt(self, dist_mm: Option<i64>, delivered: bool) -> AwarenessView {
        let all = AwarenessView { delivery_all: self.delivery_all.and(delivered), ..self };
        match distance_bin(self.bins, dist_mm) {
            Some(i) => AwarenessView {
                delivery_by_bin: self.delivery_by_bin.insert(
                    i as usize,
                    counts_at(self.delivery_by_bin, i as usize).and(delivered),
                ),
                ..all
            },
            None => AwarenessView {
                delivery_unbinned: self.delivery_unbinned.and(delivered),
                ..all
            },
        }
    }

    /// True if a message of a link is fresher than the one it holds.
    pub open spec fn fresher(self, key: (u32, u32), d: SimTime, g: SimTime) -> bool {
        g > self.links[key].generated && d >= self.links[key].delivered
    }

    /// True if an update extends the age of its link.
    pub open spec fn extends(self, key: (u32, u32), d: SimTime, g: SimTime) -> bool {
        &&& self.links.contains_key(key)
        &&& self.fresher(key, d, g)
        &&& d - self.links[key].delivered <= AOI_RESTART
    }

    /// After a delivery at `d` on a link of a message generated at `g`.
    pub open spec fn after_delivery(self, key: (u32, u32), d: SimTime, g: SimTime) -> AwarenessView {
        let heard = AwarenessView {
            last_heard: self.last_heard.insert(
                key,
                if self.last_heard.contains_key(key) && self.last_heard[key] >= d {
                    self.last_heard[key]
                } else {
                    d
                },
            ),
            ..self
        };
        let updated = AwarenessView {
            links: self.links.insert(key, Link { delivered: d, generated: g }),
            ..heard
        };
        if !self.links.contains_key(key) {
            updated
        } else if !self.fresher(key, d, g) {
            heard
        } else if self.extends(key, d, g) {
            let prev = self.links[key];
            AwarenessView {
                aoi_area: (self.aoi_area + aged(prev, d) / 2) as u128,
                aoi_time: (self.aoi_time + (d - prev.delivered)) as u128,
                aoi_updates: (self.aoi_updates + 1) as u64,
                aoi_peak_ms: self.aoi_peak_ms.and_quotient(less(d, prev.generated), 1_000_000),
                ..updated
            }
        } else {
            updated
        }
    }

    /// After the fate of a message.
    pub open spec fn after_fate(self, v: NodeRxView) -> AwarenessView {
        match v.outcome {
            RxFate::InFlight => self,
            RxFate::Lost => self.after_attempt(v.dist_mm, false),
            RxFate::Delivered => {
                let counted = self.after_attempt(v.dist_mm, true);
                match (v.tx, v.t_delivered, v.t_generated) {
                    (Some(tx), Some(d), Some(g)) => counted.after_delivery((v.rx, tx), d, g),
                    _ => counted,
                }
            },
        }
    }

    /// After one record.
    pub open spec fn after(self, ev: EventRecord) -> AwarenessView {
        let refused = AwarenessView { rejected: (self.rejected + 1) as u64, ..self };
        match (channel_named(ev.channel@), ev.payload) {
            (Some(Channel::NodeRx), Payload::NodeRx(v)) => self.after_fate(v),
            (Some(Channel::GtKinematics), Payload::GtKinematics(v)) => self.after_motion(v),
            (Some(Channel::NodeRx), _) => refused,
            (Some(Channel::GtKinematics), _) => refused,
            _ => self,
        }
    }

    /// Only bins that there are have been counted, and the average age is exact.
    pub open spec fn sound(self) -> bool {
        &&& forall|i: usize|
            #[trigger] self.delivery_by_bin.contains_key(i) ==> i < self.bins.edges().len()
        &&& self.aoi_area <= i128::MAX
        &&& self.aoi_time <= MAX_AGED
    }

    /// True if there is room for the neighbourhoods at `at`.
    pub open spec fn room_to_sample(self, at: SimTime) -> bool {
        &&& self.near.trials + self.neighbours(at, 100_000).len() <= u64::MAX
        &&& self.far.trials + self.neighbours(at, 300_000).len() <= u64::MAX
    }

    /// True if there is room for an attempt.
    pub open spec fn room_for_attempt(self, dist_mm: Option<i64>) -> bool {
        &&& self.delivery_all.trials < u64::MAX
        &&& match distance_bin(self.bins, dist_mm) {
            Some(i) => counts_at(self.delivery_by_bin, i as usize).trials < u64::MAX,
            None => self.delivery_unbinned.trials < u64::MAX,
        }
    }

    /// True if there is room for a delivery.
    pub open spec fn room_for_delivery(self, key: (u32, u32), d: SimTime, g: SimTime) -> bool {
        self.extends(key, d, g) ==> {
            let prev = self.links[key];
            &&& self.aoi_area + aged(prev, d) / 2 <= i128::MAX
            &&& self.aoi_time + (d - prev.delivered) <= MAX_AGED
            &&& self.aoi_updates < u64::MAX
        }
    }

    /// True if there is room for the fate of a message.
    pub open spec fn room_for_fate(self, v: NodeRxView) -> bool {
        v.outcome != RxFate::InFlight ==> {
            &&& self.room_for_attempt(v.dist_mm)
            &&& match (v.tx, v.t_delivered, v.t_generated) {
                (Some(tx), Some(d), Some(g)) => self.room_for_delivery((v.rx, tx), d, g),
                _ => true,
            }
        }
    }

    /// True if no counter overflows on `ev`.
    pub open spec fn room_for(self, ev: EventRecord) -> bool {
        match (channel_named(ev.channel@), ev.payload) {
            (Some(Channel::NodeRx), Payload::NodeRx(v)) => self.room_for_fate(v),
            (Some(Channel::GtKinematics), Payload::GtKinematics(v)) => match self.frame_t {
                Some(prev) => self.room_to_sample(prev),
                None => true,
            },
            _ => self.rejected < u64::MAX,
        }
    }
}

/// The cell of a coordinate, in a grid as wide as the larger radius.
pub open spec fn cell(mm: i64) -> int {
    (mm as int) / 300_000
}

fn find_cell(mm: i64) -> (r: i64)
    ensures
        r == cell(mm),
        -0x4000_0000_0000_0000 <= r <= 0x4000_0000_0000_0000,
{
    if mm >= 0 {
        mm / 300_000
    } else {
        let below: i64 = -(mm + 1);
        -(below / 300_000) - 1
    }
}

/// Coordinates within the larger radius are in the same cell or in neighbouring ones.
proof fn neighbouring_cells(a: Position, b: Position, r_mm: int)
    requires
        within(a, b, r_mm),
        0 < r_mm <= 300_000,
    ensures
        cell(a.x_mm) - 1 <= cell(b.x_mm) <= cell(a.x_mm) + 1,
        cell(a.y_mm) - 1 <= cell(b.y_mm) <= cell(a.y_mm) + 1,
{
    let (x, y) = (b.x_mm - a.x_mm, b.y_mm - a.y_mm);
    assert(-r_mm <= x <= r_mm && -r_mm <= y <= r_mm) by (nonlinear_arith)
        requires
            x * x + y * y <= r_mm * r_mm,
            0 < r_mm,
    ;
}

fn is_within(a: &Position, b: &Position, r_mm: i64) -> (r: bool)
    requires
        0 < r_mm <= 300_000,
    ensures
        r == within(*a, *b, r_mm as int),
{
    let x: i128 = b.x_mm as i128 - a.x_mm as i128;
    let y: i128 = b.y_mm as i128 - a.y_mm as i128;
    let d: i128 = r_mm as i128;
    proof {
        assert(x * x + y * y <= d * d ==> -d <= x <= d && -d <= y <= d) by (nonlinear_arith)
            requires
                0 < d,
        ;
    }
    if x < -d || x > d || y < -d || y > d {
        return false;
    }
    assert(0 <= x * x <= 300_000 * 300_000) by (nonlinear_arith)
        requires
            -300_000 <= x <= 300_000,
    ;
    assert(0 <= y * y <= 300_000 * 300_000) by (nonlinear_arith)
        requires
            -300_000 <= y <= 300_000,
    ;
    assert(0 <= d * d <= 300_000 * 300_000) by (nonlinear_arith)
        requires
            0 <= d <= 300_000,
    ;
    x * x + y * y <= d * d
}

impl AwarenessView {
    /// The located vehicles by the cell that they are in.
    pub open spec fn gridded(self, at: SimTime) -> Map<(i64, i64, u32), Position> {
        Map::new(
            |k: (i64, i64, u32)|
                self.located(k.2, at) && cell(self.positions[k.2].x_mm) == k.0 && cell(
                    self.positions[k.2].y_mm,
                ) == k.1,
            |k: (i64, i64, u32)| self.positions[k.2],
        )
    }
}

impl AwarenessProvider {
    /// A provider with twenty distance bins of fifty metres, whose first window starts at
    /// `t0`.
    pub fn new(t0: SimTime) -> (r: AwarenessProvider)
        ensures
            r@ == fresh(t0, r@.bins),
            r@.sound(),
            r@.bins.edges() == Seq::new(21, |i: int| i * 50 * 1_000),
            r@.bins.per_unit() == 1_000,
            r@.bins.dimension_text() == "dist_bin"@,
            r@.bins.unit_text() == "m"@,
    {
        proof {
            whole_bins_are_valid(50, 20, 1_000);
        }
        match Bins::uniform("dist_bin", "m", Real::whole(50), 20, Quantum::length_m()) {
            Ok(bins) => AwarenessProvider {
                level: ConfidenceLevel::P95,
                min_samples: DEFAULT_MIN_SAMPLES,
                bins,
                window_start: t0,
                last_heard: SortedMap::new(),
                links: SortedMap::new(),
                positions: SortedMap::new(),
                aoi_area: 0,
                aoi_time: 0,
                aoi_updates: 0,
                aoi_peak_ms: Distribution::new(),
                delivery_by_bin: SortedMap::new(),
                delivery_unbinned: Proportion::new(),
                delivery_all: Proportion::new(),
                frame_t: None,
                nar_sampled_at: None,
                near: Proportion::new(),
                near_pairs: SortedSet::new(),
                far: Proportion::new(),
                far_pairs: SortedSet::new(),
                rejected: 0,
            },
            Err(_) => unreached(),
        }
    }

    /// Sets the insufficiency threshold.
    pub fn with_min_samples(self, n: u64) -> (r: AwarenessProvider)
        ensures
            r@ == (AwarenessView { min_samples: n, ..self@ }),
    {
        let mut p = self;
        p.min_samples = n;
        p
    }

    fn on_attempt(&mut self, dist_mm: Option<i64>, delivered: bool)
        requires
            old(self)@.sound(),
            old(self)@.room_for_attempt(dist_mm),
        ensures
            final(self)@ == old(self)@.after_attempt(dist_mm, delivered),
            final(self)@.sound(),
    {
        self.delivery_all.observe(delivered);
        match find_bin(&self.bins, dist_mm) {
            Some(i) => {
                let mut p: Proportion = match self.delivery_by_bin.get(&i) {
                    Some(p) => *p,
                    None => Proportion::new(),
                };
                p.observe(delivered);
                let _ = self.delivery_by_bin.insert(i, p);
            },
            None => self.delivery_unbinned.observe(delivered),
        }
    }

    fn on_delivery(&mut self, key: (u32, u32), d: SimTime, g: SimTime)
        requires
            old(self)@.sound(),
            old(self)@.room_for_delivery(key, d, g),
        ensures
            final(self)@ == old(self)@.after_delivery(key, d, g),
            final(self)@.sound(),
    {
        let ghost before = self@;
        let latest: u64 = match self.last_heard.get(&key) {
            Some(t) => if *t >= d {
                *t
            } else {
                d
            },
            None => d,
        };
        let _ = self.last_heard.insert(key, latest);
        let held: Option<Link> = match self.links.get(&key) {
            Some(l) => Some(*l),
            None => None,
        };
        match held {
            Some(prev) => {
                if g > prev.generated && d >= prev.delivered {
                    let dt: u64 = d - prev.delivered;
                    if dt <= AOI_RESTART {
                        let a0: u64 = if prev.delivered >= prev.generated {
                            prev.delivered - prev.generated
                        } else {
                            0
                        };
                        let a1: u64 = if d >= prev.generated {
                            d - prev.generated
                        } else {
                            0
                        };
                        assert(before.extends(key, d, g));
                        let ages: u128 = a0 as u128 + a1 as u128;
                        assert(0 <= dt * ages <= 10_000_000_000 * 0x2_0000_0000_0000_0000)
                            by (nonlinear_arith)
                            requires
                                0 <= dt <= 10_000_000_000,
                                0 <= ages <= 0x2_0000_0000_0000_0000,
                        ;
                        assert(dt * ages == aged(prev, d));
                        self.aoi_area = self.aoi_area + (dt as u128) * ages / 2;
                        self.aoi_time = self.aoi_time + dt as u128;
                        self.aoi_updates = self.aoi_updates + 1;
                        self.aoi_peak_ms.observe_quotient(a1 as i128, 1_000_000);
                    }
                    let _ = self.links.insert(key, Link { delivered: d, generated: g });
                }
            },
            None => {
                let _ = self.links.insert(key, Link { delivered: d, generated: g });
            },
        }
        assert(self@ =~= before.after_delivery(key, d, g));
    }

    fn on_rx(&mut self, v: &NodeRxView)
        requires
            old(self)@.sound(),
            old(self)@.room_for_fate(*v),
        ensures
            final(self)@ == old(self)@.after_fate(*v),
            final(self)@.sound(),
    {
        match v.outcome {
            RxFate::InFlight => {},
            RxFate::Lost => self.on_attempt(v.dist_mm, false),
            RxFate::Delivered => {
                self.on_attempt(v.dist_mm, true);
                match (v.tx, v.t_delivered, v.t_generated) {
                    (Some(tx), Some(d), Some(g)) => self.on_delivery((v.rx, tx), d, g),
                    _ => {},
                }
            },
        }
    }

    fn grid_at(&self, at: SimTime) -> (m: SortedMap<(i64, i64, u32), Position>)
        ensures
            m@ == self@.gridded(at),
    {
        let mut m: SortedMap<(i64, i64, u32), Position> = SortedMap::new();
        let n: usize = self.positions.len();
        let ghost v = self@;
        let ghost s = self.positions.listing();
        let mut i: usize = 0;
        while i < n
            invariant
                v == self@,
                s == self.positions.listing(),
                n == s.len(),
                i <= n,
                forall|j: int|
                    0 <= j < n ==> v.positions.contains_key(#[trigger] s[j].0)
                        && v.positions[s[j].0] == s[j].1,
                forall|k: (i64, i64, u32)| #[trigger]
                    m@.contains_key(k) == (v.gridded(at).contains_key(k) && exists|j: int|
                        0 <= j < i && (#[trigger] s[j]).0 == k.2),
                forall|k: (i64, i64, u32)| #[trigger]
                    m@.contains_key(k) ==> m@[k] == v.gridded(at)[k],
            decreases n - i,
        {
            let node: u32 = *self.positions.key_at(i);
            let p: Position = *self.positions.value_at(i);
            let ghost before = m@;
            assert(s[i as int].0 == node && v.positions[node] == p);
            if at <= p.t || at - p.t <= POSITION_STALE {
                let _ = m.insert((find_cell(p.x_mm), find_cell(p.y_mm), node), p);
            }
            proof {
                assert forall|k: (i64, i64, u32)| #[trigger]
                    m@.contains_key(k) == (v.gridded(at).contains_key(k) && exists|j: int|
                        0 <= j < i + 1 && (#[trigger] s[j]).0 == k.2) by {
                    assert(before.contains_key(k) == (v.gridded(at).contains_key(k) && exists|
                        j: int,
                    |
                        0 <= j < i && (#[trigger] s[j]).0 == k.2));
                    if k.2 == node {
                        assert(s[i as int].0 == k.2);
                    }
                }
            }
            i = i + 1;
        }
        proof {
            assert forall|k: (i64, i64, u32)| #[trigger]
                m@.contains_key(k) == v.gridded(at).contains_key(k) by {
                if v.gridded(at).contains_key(k) {
                    assert(v.positions == listed(s));
                    let j = choose|j: int| ranked_at(s, k.2, j);
                    assert(s[j].0 == k.2);
                }
            }
            assert(m@ =~= v.gridded(at));
        }
        m
    }

    /// Adds the neighbours of `rx` in one column of cells.
    fn scan_column(
        &self,
        grid: &SortedMap<(i64, i64, u32), Position>,
        at: SimTime,
        r_mm: i64,
        rx: u32,
        here: &Position,
        column: i64,
        row: i64,
        near: &mut SortedSet<(u32, u32)>,
        heard: &mut SortedSet<(u32, u32)>,
    )
        requires
            grid@ == self@.gridded(at),
            0 < r_mm <= 300_000,
            self@.located(rx, at),
            self@.positions[rx] == *here,
            row == cell(here.y_mm),
            -0x4000_0000_0000_0000 <= row <= 0x4000_0000_0000_0000,
        ensures
            forall|p: (u32, u32)| #[trigger]
                final(near)@.contains(p) == (old(near)@.contains(p) || (p.0 == rx
                    && self@.neighbours(at, r_mm as int).contains(p) && cell(
                    self@.positions[p.1].x_mm,
                ) == column)),
            forall|p: (u32, u32)| #[trigger]
                final(heard)@.contains(p) == (old(heard)@.contains(p) || (p.0 == rx
                    && self@.heard_neighbours(at, r_mm as int).contains(p) && cell(
                    self@.positions[p.1].x_mm,
                ) == column)),
    {
        let ghost v = self@;
        let ghost near0 = near@;
        let ghost heard0 = heard@;
        let ghost s = grid.listing();
        let n: usize = grid.len();
        let first: (i64, i64, u32) = (column, row - 1, 0);
        let start: usize = grid.position(&first);
        let mut i: usize = start;
        while i < n
            invariant
                v == self@,
                s == grid.listing(),
                n == s.len(),
                start <= i <= n,
                0 < r_mm <= 300_000,
                v.located(rx, at),
                v.positions[rx] == *here,
                -0x4000_0000_0000_0000 <= row <= 0x4000_0000_0000_0000,
                grid@ == v.gridded(at),
                forall|j: int|
                    0 <= j < n ==> grid@.contains_key(#[trigger] s[j].0) && grid@[s[j].0]
                        == s[j].1,
                forall|j: int| start <= j < i ==> (#[trigger] s[j]).0.0 == column,
                forall|p: (u32, u32)| #[trigger]
                    near@.contains(p) == (near0.contains(p) || (p.0 == rx && v.neighbours(
                        at,
                        r_mm as int,
                    ).contains(p) && exists|j: int|
                        start <= j < i && (#[trigger] s[j]).0.2 == p.1)),
                forall|p: (u32, u32)| #[trigger]
                    heard@.contains(p) == (heard0.contains(p) || (p.0 == rx && v.heard_neighbours(
                        at,
                        r_mm as int,
                    ).contains(p) && exists|j: int|
                        start <= j < i && (#[trigger] s[j]).0.2 == p.1)),
            ensures
                i == n || (s[i as int].0.0 != column || s[i as int].0.1 > row + 1),
            decreases n - i,
        {
            let k: (i64, i64, u32) = *grid.key_at(i);
            let there: Position = *grid.value_at(i);
            assert(s[i as int].0 == k && grid@[k] == there);
            if k.0 != column || k.1 > row + 1 {
                break ;
            }
            let pair: (u32, u32) = (rx, k.2);
            let ghost near1 = near@;
            let ghost heard1 = heard@;
            if k.2 != rx && is_within(here, &there, r_mm) {
                near.insert(pair);
                let known = match self.last_heard.get(&pair) {
                    Some(t) => at <= *t || at - *t <= NAR_HORIZON,
                    None => false,
                };
                if known {
                    heard.insert(pair);
                }
            }
            proof {
                assert forall|p: (u32, u32)| #[trigger]
                    near@.contains(p) == (near0.contains(p) || (p.0 == rx && v.neighbours(
                        at,
                        r_mm as int,
                    ).contains(p) && exists|j: int|
                        start <= j < i + 1 && (#[trigger] s[j]).0.2 == p.1)) by {
                    assert(near1.contains(p) == (near0.contains(p) || (p.0 == rx && v.neighbours(
                        at,
                        r_mm as int,
                    ).contains(p) && exists|j: int|
                        start <= j < i && (#[trigger] s[j]).0.2 == p.1)));
                    assert(s[i as int].0.2 == pair.1);
                }
                assert forall|p: (u32, u32)| #[trigger]
                    heard@.contains(p) == (heard0.contains(p) || (p.0 == rx && v.heard_neighbours(
                        at,
                        r_mm as int,
                    ).contains(p) && exists|j: int|
                        start <= j < i + 1 && (#[trigger] s[j]).0.2 == p.1)) by {
                    assert(heard1.contains(p) == (heard0.contains(p) || (p.0 == rx
                        && v.heard_neighbours(at, r_mm as int).contains(p) && exists|j: int|
                        start <= j < i && (#[trigger] s[j]).0.2 == p.1)));
                    assert(s[i as int].0.2 == pair.1);
                }
            }
            i = i + 1;
        }
        proof {
            assert forall|p: (u32, u32)|
                p.0 == rx && v.neighbours(at, r_mm as int).contains(p) implies (cell(
                v.positions[p.1].x_mm,
            ) == column) == (exists|j: int| start <= j < i && (#[trigger] s[j]).0.2 == p.1) by {
                let there = v.positions[p.1];
                if cell(there.x_mm) == column {
                    neighbouring_cells(*here, there, r_mm as int);
                    let k = (cell(there.x_mm) as i64, cell(there.y_mm) as i64, p.1);
                    assert(v.gridded(at).contains_key(k));
                    assert(grid@ == listed(s));
                    let j = choose|j: int| ranked_at(s, k, j);
                    assert(s[j].0 == k);
                }
                if exists|j: int| start <= j < i && (#[trigger] s[j]).0.2 == p.1 {
                    let j = choose|j: int| start <= j < i && (#[trigger] s[j]).0.2 == p.1;
                    assert(grid@.contains_key(s[j].0));
                }
            }
        }
    }

    /// The pairs of a receiver and a neighbour, and those that were heard.
    fn find_neighbours(&self, grid: &SortedMap<(i64, i64, u32), Position>, at: SimTime, r_mm: i64) -> (r: (
        SortedSet<(u32, u32)>,
        SortedSet<(u32, u32)>,
    ))
        requires
            grid@ == self@.gridded(at),
            0 < r_mm <= 300_000,
        ensures
            r.0@ == self@.neighbours(at, r_mm as int),
            r.1@ == self@.heard_neighbours(at, r_mm as int),
    {
        let ghost v = self@;
        let ghost s = grid.listing();
        let mut near: SortedSet<(u32, u32)> = SortedSet::new();
        let mut heard: SortedSet<(u32, u32)> = SortedSet::new();
        let n: usize = grid.len();
        let mut i: usize = 0;
        while i < n
            invariant
                v == self@,
                s == grid.listing(),
                n == s.len(),
                i <= n,
                0 < r_mm <= 300_000,
                grid@ == v.gridded(at),
                forall|j: int|
                    0 <= j < n ==> grid@.contains_key(#[trigger] s[j].0) && grid@[s[j].0]
                        == s[j].1,
                forall|p: (u32, u32)| #[trigger]
                    near@.contains(p) == (v.neighbours(at, r_mm as int).contains(p) && exists|j: int|
                        0 <= j < i && (#[trigger] s[j]).0.2 == p.0),
                forall|p: (u32, u32)| #[trigger]
                    heard@.contains(p) == (v.heard_neighbours(at, r_mm as int).contains(p)
                        && exists|j: int| 0 <= j < i && (#[trigger] s[j]).0.2 == p.0),
            decreases n - i,
        {
            let k: (i64, i64, u32) = *grid.key_at(i);
            let here: Position = *grid.value_at(i);
            let ghost near1 = near@;
            let ghost heard1 = heard@;
            assert(s[i as int].0 == k && grid@[k] == here);
            let column: i64 = find_cell(here.x_mm);
            let row: i64 = find_cell(here.y_mm);
            self.scan_column(grid, at, r_mm, k.2, &here, column - 1, row, &mut near, &mut heard);
            self.scan_column(grid, at, r_mm, k.2, &here, column, row, &mut near, &mut heard);
            self.scan_column(grid, at, r_mm, k.2, &here, column + 1, row, &mut near, &mut heard);
            proof {
                assert forall|p: (u32, u32)| p.0 == k.2 && v.neighbours(at, r_mm as int).contains(p) implies column
                    - 1 <= cell(v.positions[p.1].x_mm) <= column + 1 by {
                    neighbouring_cells(here, v.positions[p.1], r_mm as int);
                }
                assert forall|p: (u32, u32)| #[trigger]
                    near@.contains(p) == (v.neighbours(at, r_mm as int).contains(p) && exists|j: int|
                        0 <= j < i + 1 && (#[trigger] s[j]).0.2 == p.0) by {
                    assert(near1.contains(p) == (v.neighbours(at, r_mm as int).contains(p)
                        && exists|j: int| 0 <= j < i && (#[trigger] s[j]).0.2 == p.0));
                    assert(s[i as int].0.2 == k.2);
                }
                assert forall|p: (u32, u32)| #[trigger]
                    heard@.contains(p) == (v.heard_neighbours(at, r_mm as int).contains(p)
                        && exists|j: int| 0 <= j < i + 1 && (#[trigger] s[j]).0.2 == p.0) by {
                    assert(heard1.contains(p) == (v.heard_neighbours(at, r_mm as int).contains(p)
                        && exists|j: int| 0 <= j < i && (#[trigger] s[j]).0.2 == p.0));
                    assert(s[i as int].0.2 == k.2);
                }
            }
            i = i + 1;
        }
        proof {
            assert forall|p: (u32, u32)| v.neighbours(at, r_mm as int).contains(p) implies exists|
                j: int,
            |
                0 <= j < n && (#[trigger] s[j]).0.2 == p.0 by {
                let here = v.positions[p.0];
                assert(i64::MIN <= cell(here.x_mm) <= i64::MAX);
                assert(i64::MIN <= cell(here.y_mm) <= i64::MAX);
                let k = (cell(here.x_mm) as i64, cell(here.y_mm) as i64, p.0);
                assert(v.gridded(at).contains_key(k));
                assert(grid@ == listed(s));
                let j = choose|j: int| ranked_at(s, k, j);
                assert(s[j].0 == k);
            }
            assert(near@ =~= v.neighbours(at, r_mm as int));
            assert(heard@ =~= v.heard_neighbours(at, r_mm as int));
        }
        (near, heard)
    }
}

/// Adds the members of one set to another.
fn add_all(set: &mut SortedSet<(u32, u32)>, more: &SortedSet<(u32, u32)>)
    ensures
        final(set)@ == old(set)@.union(more@),
{
    let ghost before = set@;
    let n: usize = more.len();
    let ghost s = more.ordered();
    let mut i: usize = 0;
    while i < n
        invariant
            s == more.ordered(),
            n == s.len(),
            i <= n,
            forall|j: int| 0 <= j < n ==> more@.contains(#[trigger] s[j]),
            forall|p: (u32, u32)| more@.contains(p) ==> s.contains(p),
            forall|p: (u32, u32)| #[trigger]
                set@.contains(p) == (before.contains(p) || exists|j: int|
                    0 <= j < i && #[trigger] s[j] == p),
        decreases n - i,
    {
        let ghost now = set@;
        let pair: (u32, u32) = *more.at(i);
        set.insert(pair);
        proof {
            assert(s[i as int] == pair);
            assert forall|p: (u32, u32)| #[trigger]
                set@.contains(p) == (before.contains(p) || exists|j: int|
                    0 <= j < i + 1 && #[trigger] s[j] == p) by {
                assert(now.contains(p) == (before.contains(p) || exists|j: int|
                    0 <= j < i && #[trigger] s[j] == p));
            }
        }
        i = i + 1;
    }
    proof {
        assert forall|p: (u32, u32)| #[trigger]
            set@.contains(p) == before.union(more@).contains(p) by {
            if more@.contains(p) {
                let j = choose|j: int| 0 <= j < s.len() && s[j] == p;
                assert(s[j] == p);
            }
        }
        assert(set@ =~= before.union(more@));
    }
}

/// The average age of the links, in milliseconds: the area under their ages over the time
/// that it took.
pub open spec fn average_age(area: u128, time: u128, n: u64) -> RatioEstimate {
    sums_ratio(
        real_of(area as int, 1_000_000),
        real_of(time as int, 1),
        real_of(area as int, 1_000_000 * time),
        n,
        1,
    )
}

fn find_average_age(area: u128, time: u128, n: u64) -> (r: RatioEstimate)
    requires
        area <= i128::MAX,
        time <= MAX_AGED,
    ensures
        r == average_age(area, time, n),
{
    if time == 0 {
        proof {
            real_of_is_the_quotient(0, 1);
        }
        RatioEstimate::Insufficient { trials: n, required: 1 }
    } else {
        let (a, t) = (area as i128, time as i128);
        assert(a * (1_000_000 * t) == (1_000_000 * t) * (a * 1)) by (nonlinear_arith);
        ratio_of_sums(
            Real::new(a, 1_000_000),
            Real::new(t, 1),
            Real::new(a, 1_000_000 * time),
            n,
            1,
        )
    }
}

impl AwarenessView {
    /// The age of the links, on average and just before each update.
    pub open spec fn age_samples(self, at: SimTime) -> Seq<SampleView> {
        seq![
            sample_of(
                catalog::aoi_def(),
                at,
                Seq::empty(),
                SampleValue::Ratio(average_age(self.aoi_area, self.aoi_time, self.aoi_updates)),
            ),
            sample_of(
                catalog::aoi_peak_def(self.min_samples),
                at,
                Seq::empty(),
                SampleValue::Distribution(self.aoi_peak_ms.summary(self.min_samples)),
            ),
        ]
    }

    /// The share of neighbours that were heard. The observations of one pair depend on one
    /// another, so the ratio rests on the distinct pairs.
    pub open spec fn nar_samples(self, at: SimTime) -> Seq<SampleView> {
        seq![
            sample_of(
                catalog::nar_def(),
                at,
                seq![(Dim::Radius, DimText::Label("100m"@))],
                SampleValue::Ratio(
                    proportion_of(
                        self.near.successes,
                        self.near.trials,
                        self.near_pairs.len() as u64,
                        NAR_MIN_PAIRS,
                        self.level,
                    ),
                ),
            ),
            sample_of(
                catalog::nar_def(),
                at,
                seq![(Dim::Radius, DimText::Label("300m"@))],
                SampleValue::Ratio(
                    proportion_of(
                        self.far.successes,
                        self.far.trials,
                        self.far_pairs.len() as u64,
                        NAR_MIN_PAIRS,
                        self.level,
                    ),
                ),
            ),
        ]
    }

    /// The share of attempts that were delivered: of all, of each distance bin that has
    /// any, and of those at no known distance if there are any.
    pub open spec fn delivery_samples(self, at: SimTime) -> Seq<SampleView> {
        let def = catalog::delivery_ratio_def(self.min_samples, self.bins);
        let bins = in_order::<usize, Counts>(self.delivery_by_bin);
        let binned = seq![
            sample_of(
                def,
                at,
                Seq::empty(),
                SampleValue::Ratio(self.delivery_all.ratio(self.min_samples, self.level)),
            ),
        ] + Seq::new(
            bins.len(),
            |i: int|
                sample_of(
                    def,
                    at,
                    seq![(Dim::DistBin, DimText::Label(self.bins.label_text(bins[i].0 as int)))],
                    SampleValue::Ratio(bins[i].1.ratio(self.min_samples, self.level)),
                ),
        );
        if self.delivery_unbinned.trials > 0 {
            binned.push(
                sample_of(
                    def,
                    at,
                    seq![(Dim::DistBin, DimText::Label(UNBINNED@))],
                    SampleValue::Ratio(
                        self.delivery_unbinned.ratio(self.min_samples, self.level),
                    ),
                ),
            )
        } else {
            binned
        }
    }

    /// With the instant that is being assembled sampled, unless it is past `at`.
    pub open spec fn ended(self, at: SimTime) -> AwarenessView {
        match self.frame_t {
            Some(t) => if t <= at {
                self.sampled(t)
            } else {
                self
            },
            None => self,
        }
    }

    /// All samples of the window that ends at `at`.
    pub open spec fn samples(self, at: SimTime) -> Seq<SampleView> {
        self.age_samples(at) + self.ended(at).nar_samples(at) + self.delivery_samples(at)
    }

    /// The links that were heard since the restart horizon.
    pub open spec fn recent_links(self, at: SimTime) -> Map<(u32, u32), Link> {
        Map::new(
            |k: (u32, u32)|
                self.links.contains_key(k) && at <= self.links[k].delivered + AOI_RESTART,
            |k: (u32, u32)| self.links[k],
        )
    }

    /// The deliveries since the restart horizon.
    pub open spec fn recently_heard(self, at: SimTime) -> Map<(u32, u32), u64> {
        Map::new(
            |k: (u32, u32)|
                self.last_heard.contains_key(k) && at <= self.last_heard[k] + AOI_RESTART,
            |k: (u32, u32)| self.last_heard[k],
        )
    }

    /// The positions that are recent enough to place a vehicle.
    pub open spec fn recent_positions(self, at: SimTime) -> Map<u32, Position> {
        Map::new(|n: u32| self.located(n, at), |n: u32| self.positions[n])
    }

    /// The state after the window that ends at `at` was flushed: what can no longer affect
    /// a metric is dropped.
    pub open spec fn flushed(self, at: SimTime) -> AwarenessView {
        let v = self.ended(at);
        AwarenessView {
            level: v.level,
            min_samples: v.min_samples,
            last_heard: v.recently_heard(at),
            links: v.recent_links(at),
            positions: v.recent_positions(at),
            frame_t: v.frame_t,
            nar_sampled_at: v.nar_sampled_at,
            rejected: v.rejected,
            ..fresh(at, v.bins)
        }
    }

    /// True if there is room for the neighbourhoods of the instant being assembled.
    pub open spec fn room_to_flush(self) -> bool {
        match self.frame_t {
            Some(t) => self.room_to_sample(t),
            None => true,
        }
    }
}

impl AwarenessProvider {
    fn sample_nar(&mut self, at: SimTime)
        requires
            old(self)@.sound(),
            old(self)@.room_to_sample(at),
        ensures
            final(self)@ == old(self)@.sampled(at),
            final(self)@.sound(),
    {
        let ghost v = self@;
        let done = match self.nar_sampled_at {
            Some(t) => t == at,
            None => false,
        };
        if done {
            return ;
        }
        let grid = self.grid_at(at);
        let (near, near_heard) = self.find_neighbours(&grid, at, 100_000);
        let (far, far_heard) = self.find_neighbours(&grid, at, 300_000);
        let n: usize = near.len();
        let h: usize = near_heard.len();
        let m: usize = far.len();
        let g: usize = far_heard.len();
        proof {
            lemma_len_subset(near_heard@, near@);
            lemma_len_subset(far_heard@, far@);
        }
        self.nar_sampled_at = Some(at);
        self.near.observe_many(h as u64, n as u64);
        add_all(&mut self.near_pairs, &near);
        self.far.observe_many(g as u64, m as u64);
        add_all(&mut self.far_pairs, &far);
        assert(self@ =~= v.sampled(at));
    }

    fn on_kinematics(&mut self, v: &GtKinematicsView)
        requires
            old(self)@.sound(),
            old(self)@.frame_t matches Some(prev) ==> old(self)@.room_to_sample(prev),
        ensures
            final(self)@ == old(self)@.after_motion(*v),
            final(self)@.sound(),
    {
        let same = match self.frame_t {
            Some(t) => t == v.t,
            None => false,
        };
        if !same {
            if let Some(prev) = self.frame_t {
                self.sample_nar(prev);
            }
            self.frame_t = Some(v.t);
        }
        if let Some(node) = v.node {
            let _ = self.positions.insert(
                node,
                Position { t: v.t, x_mm: v.x_mm, y_mm: v.y_mm },
            );
        }
    }

    fn refuse(&mut self)
        requires
            old(self)@.rejected < u64::MAX,
        ensures
            final(self)@ == (AwarenessView {
                rejected: (old(self)@.rejected + 1) as u64,
                ..old(self)@
            }),
    {
        self.rejected = self.rejected + 1;
    }

    /// Consumes one record.
    pub fn on_event(&mut self, ev: &EventRecord)
        requires
            old(self)@.sound(),
            old(self)@.room_for(*ev),
        ensures
            final(self)@ == old(self)@.after(*ev),
            final(self)@.sound(),
    {
        match (find_channel(ev.channel.as_str()), &ev.payload) {
            (Some(Channel::NodeRx), Payload::NodeRx(v)) => self.on_rx(v),
            (Some(Channel::GtKinematics), Payload::GtKinematics(v)) => self.on_kinematics(v),
            (Some(Channel::NodeRx), _) => self.refuse(),
            (Some(Channel::GtKinematics), _) => self.refuse(),
            _ => {},
        }
    }

    fn emit_ages(&self, at: SimTime, out: &mut Vec<MetricSample>)
        requires
            self@.sound(),
        ensures
            views(final(out)@) == views(old(out)@) + self@.age_samples(at),
    {
        broadcast use group_views;

        let ghost start = views(out@);
        out.push(
            MetricSample::new(
                &catalog::aoi(),
                at,
                no_dims(),
                SampleValue::Ratio(
                    find_average_age(self.aoi_area, self.aoi_time, self.aoi_updates),
                ),
            ),
        );
        out.push(
            MetricSample::new(
                &catalog::aoi_peak(self.min_samples),
                at,
                no_dims(),
                SampleValue::Distribution(self.aoi_peak_ms.summary(self.min_samples)),
            ),
        );
        assert(views(out@) =~= start + self@.age_samples(at));
    }

    fn emit_nar(&self, at: SimTime, out: &mut Vec<MetricSample>)
        ensures
            views(final(out)@) == views(old(out)@) + self@.nar_samples(at),
    {
        broadcast use group_views;

        let ghost start = views(out@);
        let near: usize = self.near_pairs.len();
        let far: usize = self.far_pairs.len();
        out.push(
            MetricSample::new(
                &catalog::nar(),
                at,
                one_dim(Dim::Radius, DimValue::label("100m")),
                SampleValue::Ratio(
                    self.near.estimate_clustered(near as u64, NAR_MIN_PAIRS, self.level),
                ),
            ),
        );
        out.push(
            MetricSample::new(
                &catalog::nar(),
                at,
                one_dim(Dim::Radius, DimValue::label("300m")),
                SampleValue::Ratio(
                    self.far.estimate_clustered(far as u64, NAR_MIN_PAIRS, self.level),
                ),
            ),
        );
        assert(views(out@) =~= start + self@.nar_samples(at));
    }

    fn emit_delivery(&self, at: SimTime, out: &mut Vec<MetricSample>)
        requires
            self@.sound(),
        ensures
            views(final(out)@) == views(old(out)@) + self@.delivery_samples(at),
    {
        broadcast use group_views;

        let ghost start = views(out@);
        let ghost v = self@;
        let ghost bins = in_order::<usize, Counts>(v.delivery_by_bin);
        let def = catalog::delivery_ratio(self.min_samples, &self.bins);
        out.push(
            MetricSample::new(
                &def,
                at,
                no_dims(),
                SampleValue::Ratio(self.delivery_all.estimate(self.min_samples, self.level)),
            ),
        );
        let ghost all = self@.delivery_samples(at);
        let n: usize = self.delivery_by_bin.len();
        let mut i: usize = 0;
        assert(views(out@) =~= start + all.subrange(0, 1));
        while i < n
            invariant
                v == self@,
                all == v.delivery_samples(at),
                def@ == catalog::delivery_ratio_def(v.min_samples, v.bins),
                bins == self.delivery_by_bin.listing(),
                bins == in_order::<usize, Counts>(v.delivery_by_bin),
                n == bins.len(),
                all.len() >= n + 1,
                i <= n,
                forall|k: int| 0 <= k < n ==> (#[trigger] bins[k]).0 < self.bins.edges().len(),
                views(out@) == start + all.subrange(0, i as int + 1),
            decreases n - i,
        {
            broadcast use group_views;

            let bin: usize = *self.delivery_by_bin.key_at(i);
            let p = self.delivery_by_bin.value_at(i);
            let label = self.bins.label(bin);
            let s = MetricSample::new(
                &def,
                at,
                one_dim(Dim::DistBin, DimValue::label(label.as_str())),
                SampleValue::Ratio(p.estimate(self.min_samples, self.level)),
            );
            assert(s@ == all[i as int + 1]);
            out.push(s);
            assert(views(out@) =~= start + all.subrange(0, i as int + 2));
            i = i + 1;
        }
        if self.delivery_unbinned.trials() > 0 {
            out.push(
                MetricSample::new(
                    &def,
                    at,
                    one_dim(Dim::DistBin, DimValue::label(UNBINNED)),
                    SampleValue::Ratio(
                        self.delivery_unbinned.estimate(self.min_samples, self.level),
                    ),
                ),
            );
        }
        assert(views(out@) =~= start + all);
    }

    fn prune_links(&mut self, at: SimTime)
        ensures
            final(self)@ == (AwarenessView {
                links: old(self)@.recent_links(at),
                ..old(self)@
            }),
    {
        let ghost v = self@;
        let n: usize = self.links.len();
        let ghost s = self.links.listing();
        let mut keep: Vec<bool> = Vec::new();
        let mut i: usize = 0;
        while i < n
            invariant
                v == self@,
                s == self.links.listing(),
                n == s.len(),
                i <= n,
                i == keep@.len(),
                forall|j: int| 0 <= j < i ==> #[trigger] keep@[j] == (at <= s[j].1.delivered + AOI_RESTART),
            decreases n - i,
        {
            let t: SimTime = self.links.value_at(i).delivered;
            keep.push(at <= t || at - t <= AOI_RESTART);
            i = i + 1;
        }
        let kept = retained(&self.links, &keep);
        proof {
            assert(v.links == listed(s));
            assert forall|c: (u32, u32)| #[trigger]
                kept@.contains_key(c) == v.recent_links(at).contains_key(c) by {
                if v.links.contains_key(c) {
                    let j = choose|j: int| ranked_at(s, c, j);
                    assert(v.links.contains_key(s[j].0) && v.links[s[j].0] == s[j].1);
                    if v.recent_links(at).contains_key(c) {
                        assert(ranked_at(s, c, j) && keep@[j]);
                    }
                }
                if kept@.contains_key(c) {
                    let j = choose|j: int| ranked_at(s, c, j) && keep@[j];
                    assert(v.links.contains_key(s[j].0) && v.links[s[j].0] == s[j].1);
                }
            }
            assert(kept@ =~= v.recent_links(at));
        }
        self.links = kept;
    }

    fn prune_heard(&mut self, at: SimTime)
        ensures
            final(self)@ == (AwarenessView {
                last_heard: old(self)@.recently_heard(at),
                ..old(self)@
            }),
    {
        let ghost v = self@;
        let n: usize = self.last_heard.len();
        let ghost s = self.last_heard.listing();
        let mut keep: Vec<bool> = Vec::new();
        let mut i: usize = 0;
        while i < n
            invariant
                v == self@,
                s == self.last_heard.listing(),
                n == s.len(),
                i <= n,
                i == keep@.len(),
                forall|j: int| 0 <= j < i ==> #[trigger] keep@[j] == (at <= s[j].1 + AOI_RESTART),
            decreases n - i,
        {
            let t: SimTime = *self.last_heard.value_at(i);
            keep.push(at <= t || at - t <= AOI_RESTART);
            i = i + 1;
        }
        let kept = retained(&self.last_heard, &keep);
        proof {
            assert(v.last_heard == listed(s));
            assert forall|c: (u32, u32)| #[trigger]
                kept@.contains_key(c) == v.recently_heard(at).contains_key(c) by {
                if v.last_heard.contains_key(c) {
                    let j = choose|j: int| ranked_at(s, c, j);
                    assert(v.last_heard.contains_key(s[j].0) && v.last_heard[s[j].0] == s[j].1);
                    if v.recently_heard(at).contains_key(c) {
                        assert(ranked_at(s, c, j) && keep@[j]);
                    }
                }
                if kept@.contains_key(c) {
                    let j = choose|j: int| ranked_at(s, c, j) && keep@[j];
                    assert(v.last_heard.contains_key(s[j].0) && v.last_heard[s[j].0] == s[j].1);
                }
            }
            assert(kept@ =~= v.recently_heard(at));
        }
        self.last_heard = kept;
    }

    fn prune_positions(&mut self, at: SimTime)
        ensures
            final(self)@ == (AwarenessView {
                positions: old(self)@.recent_positions(at),
                ..old(self)@
            }),
    {
        let ghost v = self@;
        let n: usize = self.positions.len();
        let ghost s = self.positions.listing();
        let mut keep: Vec<bool> = Vec::new();
        let mut i: usize = 0;
        while i < n
            invariant
                v == self@,
                s == self.positions.listing(),
                n == s.len(),
                i <= n,
                i == keep@.len(),
                forall|j: int| 0 <= j < i ==> #[trigger] keep@[j] == (at <= s[j].1.t + POSITION_STALE),
            decreases n - i,
        {
            let t: SimTime = self.positions.value_at(i).t;
            keep.push(at <= t || at - t <= POSITION_STALE);
            i = i + 1;
        }
        let kept = retained(&self.positions, &keep);
        proof {
            assert(v.positions == listed(s));
            assert forall|c: u32| #[trigger]
                kept@.contains_key(c) == v.recent_positions(at).contains_key(c) by {
                if v.positions.contains_key(c) {
                    let j = choose|j: int| ranked_at(s, c, j);
                    assert(v.positions.contains_key(s[j].0) && v.positions[s[j].0] == s[j].1);
                    if v.recent_positions(at).contains_key(c) {
                        assert(ranked_at(s, c, j) && keep@[j]);
                    }
                }
                if kept@.contains_key(c) {
                    let j = choose|j: int| ranked_at(s, c, j) && keep@[j];
                    assert(v.positions.contains_key(s[j].0) && v.positions[s[j].0] == s[j].1);
                }
            }
            assert(kept@ =~= v.recent_positions(at));
        }
        self.positions = kept;
    }

    /// The samples of the window that ends at `at`; what was accumulated is drained, and a
    /// new window starts.
    pub fn flush(&mut self, at: SimTime) -> (out: Vec<MetricSample>)
        requires
            old(self)@.sound(),
            old(self)@.room_to_flush(),
        ensures
            views(out@) == old(self)@.samples(at),
            final(self)@ == old(self)@.flushed(at),
            final(self)@.sound(),
    {
        broadcast use group_views;

        let mut out: Vec<MetricSample> = Vec::new();
        self.emit_ages(at, &mut out);
        if let Some(t) = self.frame_t {
            if t <= at {
                self.sample_nar(t);
            }
        }
        let ghost v = self@;
        self.emit_nar(at, &mut out);
        self.emit_delivery(at, &mut out);
        assert(v.delivery_samples(at) == old(self)@.delivery_samples(at));
        assert(views(out@) =~= old(self)@.samples(at));
        self.aoi_area = 0;
        self.aoi_time = 0;
        self.aoi_updates = 0;
        let _ = self.aoi_peak_ms.drain();
        self.near = Proportion::new();
        let _ = self.near_pairs.drain();
        self.far = Proportion::new();
        let _ = self.far_pairs.drain();
        self.delivery_all = Proportion::new();
        let _ = self.delivery_by_bin.drain();
        self.delivery_unbinned = Proportion::new();
        self.prune_links(at);
        self.prune_heard(at);
        self.prune_positions(at);
        self.window_start = at;
        proof {
            assert(self@.links =~= v.recent_links(at));
            assert(self@.last_heard =~= v.recently_heard(at));
            assert(self@.positions =~= v.recent_positions(at));
            assert(self@ =~= old(self)@.flushed(at));
        }
        out
    }

    /// How many records could not be read.
    pub fn rejected(&self) -> (r: u64)
        ensures
            r == self@.rejected,
    {
        self.rejected
    }

    /// The card of the provider.
    pub fn card(&self) -> (r: ModelCard)
        ensures
            r@ == catalog::awareness_card(),
    {
        catalog::build_card()
    }

    /// The definitions of the provider's metrics.
    pub fn definitions(&self) -> (r: Vec<MetricDef>)
        ensures
            views(r@) == catalog::all_defs(self@.min_samples, self@.bins),
    {
        catalog::definitions(self.min_samples, &self.bins)
    }
}

/// An instant is sampled once, however often its sampling is asked for.
pub proof fn an_instant_is_sampled_once(v: AwarenessView, at: SimTime)
    ensures
        v.sampled(at).sampled(at) == v.sampled(at),
{
}

/// Whoever is near is a neighbour at the larger radius too.
pub proof fn near_neighbours_are_far_neighbours(v: AwarenessView, at: SimTime)
    ensures
        v.neighbours(at, 100_000).subset_of(v.neighbours(at, 300_000)),
        v.heard_neighbours(at, 100_000).subset_of(v.heard_neighbours(at, 300_000)),
{
}

/// Being a neighbour is mutual; having been heard need not be.
pub proof fn neighbours_are_mutual(v: AwarenessView, at: SimTime, r_mm: int, a: u32, b: u32)
    ensures
        v.neighbours(at, r_mm).contains((a, b)) == v.neighbours(at, r_mm).contains((b, a)),
{
    if v.located(a, at) && v.located(b, at) {
        let (p, q) = (v.positions[a], v.positions[b]);
        let (x, y) = (q.x_mm - p.x_mm, q.y_mm - p.y_mm);
        assert(x * x == (-x) * (-x)) by (nonlinear_arith);
        assert(y * y == (-y) * (-y)) by (nonlinear_arith);
    }
}

/// A message that is no fresher than the one held leaves the age of its link alone.
pub proof fn an_older_message_changes_no_age(
    v: AwarenessView,
    key: (u32, u32),
    d: SimTime,
    g: SimTime,
)
    requires
        v.links.contains_key(key),
        g <= v.links[key].generated,
    ensures
        ({
            let w = v.after_delivery(key, d, g);
            &&& w.links == v.links
            &&& w.aoi_area == v.aoi_area
            &&& w.aoi_time == v.aoi_time
            &&& w.aoi_updates == v.aoi_updates
            &&& w.aoi_peak_ms == v.aoi_peak_ms
        }),
{
}

} // verus!
