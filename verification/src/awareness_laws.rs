//! What the awareness metrics measure.

use vstd::prelude::*;
use crate::awareness::{AwarenessView, Link};
use crate::basic::SimTime;
use crate::channels::{channel_named, Channel, EventRecord, GtKinematicsView, NodeRxView, Payload, RxFate};
use crate::comms::counts_at;
use crate::def::{Dim, DimText, SampleValue};
use crate::gains::{a_proportion_says_its_share, a_quotient_is_read, an_observation_is_kept, gained, reads, says_share, tried};
use crate::keyed::in_order;
use crate::quant::{real_of_is_the_quotient, rounded};
use crate::stats::{Counts, RatioEstimate};

verus! {

/// True if a receiver and another vehicle were both seen in the two seconds before `at`, and
/// are at most `metres` apart.
pub open spec fn apart(v: AwarenessView, p: (u32, u32), at: SimTime, metres: int) -> bool {
    let (a, b) = (v.positions[p.0], v.positions[p.1]);
    let (x, y) = (a.x_mm - b.x_mm, a.y_mm - b.y_mm);
    &&& p.0 != p.1
    &&& v.positions.contains_key(p.0) && v.positions.contains_key(p.1)
    &&& at - a.t <= 2_000_000_000 && at - b.t <= 2_000_000_000
    &&& x * x + y * y <= (metres * 1_000) * (metres * 1_000)
}

/// True if the receiver of a pair had a message of the other in the second before `at`, or
/// later.
pub open spec fn aware(v: AwarenessView, p: (u32, u32), at: SimTime) -> bool {
    v.last_heard.contains_key(p) && at - v.last_heard[p] <= 1_000_000_000
}

/// The pairs at most `metres` apart.
pub open spec fn pairs(v: AwarenessView, at: SimTime, metres: int) -> Set<(u32, u32)> {
    Set::new(|p: (u32, u32)| apart(v, p, at, metres))
}

/// Those of them whose receiver is aware of the other.
pub open spec fn aware_pairs(v: AwarenessView, at: SimTime, metres: int) -> Set<(u32, u32)> {
    Set::new(|p: (u32, u32)| apart(v, p, at, metres) && aware(v, p, at))
}

/// An instant that is sampled adds, at each of the two radii, a trial for every ordered pair
/// within that radius, and a success for every one of those same pairs whose receiver heard
/// the other. The pairs themselves join the distinct ones.
pub proof fn an_instant_tries_every_pair_in_range(v: AwarenessView, at: SimTime)
    requires
        v.nar_sampled_at != Some(at),
        v.room_to_sample(at),
        v.near.successes <= v.near.trials,
        v.far.successes <= v.far.trials,
        pairs(v, at, 100).finite(),
        pairs(v, at, 300).finite(),
    ensures
        ({
            let w = v.sampled(at);
            &&& w.nar_sampled_at == Some(at)
            &&& w.near.trials == v.near.trials + pairs(v, at, 100).len()
            &&& w.near.successes == v.near.successes + aware_pairs(v, at, 100).len()
            &&& w.far.trials == v.far.trials + pairs(v, at, 300).len()
            &&& w.far.successes == v.far.successes + aware_pairs(v, at, 300).len()
            &&& w.near_pairs == v.near_pairs.union(pairs(v, at, 100))
            &&& w.far_pairs == v.far_pairs.union(pairs(v, at, 300))
            &&& w.positions == v.positions && w.last_heard == v.last_heard && w.links == v.links
            &&& w.delivery_all == v.delivery_all && w.delivery_by_bin == v.delivery_by_bin
        }),
{
    same_pairs(v, at, 100);
    same_pairs(v, at, 300);
    vstd::set_lib::lemma_len_subset(aware_pairs(v, at, 100), pairs(v, at, 100));
    vstd::set_lib::lemma_len_subset(aware_pairs(v, at, 300), pairs(v, at, 300));
}

proof fn same_pairs(v: AwarenessView, at: SimTime, metres: int)
    ensures
        v.neighbours(at, metres * 1_000) == pairs(v, at, metres),
        v.heard_neighbours(at, metres * 1_000) == aware_pairs(v, at, metres),
{
    assert forall|p: (u32, u32)| #[trigger]
        v.neighbours(at, metres * 1_000).contains(p) == pairs(v, at, metres).contains(p) by {
        if v.positions.contains_key(p.0) && v.positions.contains_key(p.1) {
            let (a, b) = (v.positions[p.0], v.positions[p.1]);
            let (x, y) = (a.x_mm - b.x_mm, a.y_mm - b.y_mm);
            assert((-x) * (-x) == x * x) by (nonlinear_arith);
            assert((-y) * (-y) == y * y) by (nonlinear_arith);
        }
    }
    assert(v.neighbours(at, metres * 1_000) =~= pairs(v, at, metres));
    assert(v.heard_neighbours(at, metres * 1_000) =~= aware_pairs(v, at, metres));
}

/// Where every pair within a radius is aware of one another, all trials are successes; where
/// none is, none is.
pub proof fn full_awareness_is_one(v: AwarenessView, at: SimTime, metres: int)
    requires
        metres == 100 || metres == 300,
        v.nar_sampled_at != Some(at),
        v.room_to_sample(at),
        v.near.successes <= v.near.trials,
        v.far.successes <= v.far.trials,
        pairs(v, at, 100).finite(),
        pairs(v, at, 300).finite(),
    ensures
        ({
            let w = v.sampled(at);
            let (tried, heard) = if metres == 100 {
                (w.near.trials - v.near.trials, w.near.successes - v.near.successes)
            } else {
                (w.far.trials - v.far.trials, w.far.successes - v.far.successes)
            };
            &&& (forall|p: (u32, u32)| #[trigger] apart(v, p, at, metres) ==> aware(v, p, at))
                ==> heard == tried
            &&& (forall|p: (u32, u32)| #[trigger] apart(v, p, at, metres) ==> !aware(v, p, at))
                ==> heard == 0
            &&& heard <= tried
        }),
{
    an_instant_tries_every_pair_in_range(v, at);
    vstd::set_lib::lemma_len_subset(aware_pairs(v, at, metres), pairs(v, at, metres));
    if forall|p: (u32, u32)| #[trigger] apart(v, p, at, metres) ==> aware(v, p, at) {
        assert(aware_pairs(v, at, metres) =~= pairs(v, at, metres));
    }
    if forall|p: (u32, u32)| #[trigger] apart(v, p, at, metres) ==> !aware(v, p, at) {
        assert(aware_pairs(v, at, metres) =~= Set::empty());
    }
}

/// A sample of a vehicle's motion places it where and when it says; one of a new instant
/// first samples the neighbourhoods of the instant before it, once.
pub proof fn a_motion_places_its_vehicle(v: AwarenessView, ev: EventRecord, k: GtKinematicsView)
    requires
        channel_named(ev.channel@) == Some(Channel::GtKinematics),
        ev.payload == Payload::GtKinematics(k),
    ensures
        ({
            let w = v.after(ev);
            &&& w.frame_t == Some(k.t)
            &&& k.node matches Some(n) ==> {
                &&& w.positions.contains_key(n)
                &&& w.positions[n].t == k.t && w.positions[n].x_mm == k.x_mm && w.positions[n].y_mm
                    == k.y_mm
                &&& forall|m: u32| m != n ==> #[trigger] w.positions.contains_key(m)
                    == v.positions.contains_key(m) && w.positions[m] == v.positions[m]
            }
            &&& k.node is None ==> w.positions == v.positions
            &&& (v.frame_t is None || v.frame_t == Some(k.t)) ==> w.near == v.near && w.far == v.far
            &&& v.frame_t matches Some(t) ==> t != k.t ==> w.near == v.sampled(t).near && w.far
                == v.sampled(t).far && w.nar_sampled_at == Some(t)
            &&& w.links == v.links && w.last_heard == v.last_heard && w.delivery_all == v.delivery_all
        }),
{
}

/// A resolved attempt is one trial of the delivery ratio, of all attempts and of those in
/// its distance bin or outside all bins, and a success exactly where it was delivered. One in
/// flight is none.
pub proof fn an_attempt_is_tried_once(v: AwarenessView, ev: EventRecord, r: NodeRxView)
    requires
        channel_named(ev.channel@) == Some(Channel::NodeRx),
        ev.payload == Payload::NodeRx(r),
        v.room_for_attempt(r.dist_mm),
        v.delivery_all.successes <= v.delivery_all.trials,
        v.delivery_unbinned.successes <= v.delivery_unbinned.trials,
        forall|b: usize| (#[trigger] counts_at(v.delivery_by_bin, b)).successes <= counts_at(
            v.delivery_by_bin,
            b,
        ).trials,
    ensures
        ({
            let w = v.after(ev);
            &&& r.outcome == RxFate::InFlight ==> w == v
            &&& r.outcome != RxFate::InFlight ==> {
                let ok = r.outcome == RxFate::Delivered;
                &&& tried(v.delivery_all, w.delivery_all, ok)
                &&& match crate::comms::distance_bin(v.bins, r.dist_mm) {
                    Some(b) => {
                        &&& tried(
                            counts_at(v.delivery_by_bin, b as usize),
                            counts_at(w.delivery_by_bin, b as usize),
                            ok,
                        )
                        &&& forall|c: usize|
                            c != b as usize ==> #[trigger] counts_at(w.delivery_by_bin, c)
                                == counts_at(v.delivery_by_bin, c)
                        &&& w.delivery_unbinned == v.delivery_unbinned
                    },
                    None => tried(v.delivery_unbinned, w.delivery_unbinned, ok)
                        && w.delivery_by_bin == v.delivery_by_bin,
                }
                &&& !ok ==> w.links == v.links && w.last_heard == v.last_heard && w.aoi_time
                    == v.aoi_time
            }
            &&& w.near == v.near && w.far == v.far && w.positions == v.positions
        }),
{
}

/// What a delivery says of its directed link, from the transmitter to the receiver. It is
/// heard no earlier than before. A message that is generated after the one held and comes no
/// earlier takes its place, and extends the age of the link where it comes within ten seconds:
/// the time between the two deliveries is counted, the age just before the second one is
/// observed in milliseconds, and twice the area is that time, times the sum of the ages at
/// its two ends. Other links are as they were.
pub proof fn a_delivery_ages_its_link(
    v: AwarenessView,
    ev: EventRecord,
    r: NodeRxView,
    tx: u32,
    d: SimTime,
    g: SimTime,
)
    requires
        channel_named(ev.channel@) == Some(Channel::NodeRx),
        ev.payload == Payload::NodeRx(r),
        r.outcome == RxFate::Delivered,
        r.tx == Some(tx),
        r.t_delivered == Some(d),
        r.t_generated == Some(g),
        v.room_for_fate(r),
        v.aoi_updates < u64::MAX,
    ensures
        ({
            let w = v.after(ev);
            let key = (r.rx, tx);
            let held = v.links.contains_key(key);
            let prev = v.links[key];
            let fresh = held && g > prev.generated && d >= prev.delivered;
            &&& w.last_heard.contains_key(key) && w.last_heard[key] >= d
            &&& w.last_heard[key] == d || (v.last_heard.contains_key(key) && w.last_heard[key]
                == v.last_heard[key])
            &&& v.last_heard.contains_key(key) ==> w.last_heard[key] >= v.last_heard[key]
            &&& forall|k: (u32, u32)| k != key ==> #[trigger] w.last_heard.contains_key(k)
                == v.last_heard.contains_key(k) && w.last_heard[k] == v.last_heard[k]
            &&& forall|k: (u32, u32)| k != key ==> #[trigger] w.links.contains_key(k)
                == v.links.contains_key(k) && w.links[k] == v.links[k]
            &&& (!held || fresh) ==> w.links.contains_key(key) && w.links[key] == (Link {
                delivered: d,
                generated: g,
            })
            &&& (held && !fresh) ==> w.links == v.links
            &&& (fresh && d - prev.delivered <= 10_000_000_000 && prev.generated <= prev.delivered)
                ==> {
                let dt = d - prev.delivered;
                &&& w.aoi_updates == v.aoi_updates + 1
                &&& w.aoi_time == v.aoi_time + dt
                &&& 0 <= dt * ((prev.delivered - prev.generated) + (d - prev.generated)) - 2 * (
                w.aoi_area - v.aoi_area) <= 1
                &&& gained(v.aoi_peak_ms, w.aoi_peak_ms, d - prev.generated, 1_000_000)
            }
            &&& (!fresh || d - prev.delivered > 10_000_000_000) ==> w.aoi_updates == v.aoi_updates
                && w.aoi_time == v.aoi_time && w.aoi_area == v.aoi_area && w.aoi_peak_ms
                == v.aoi_peak_ms
        }),
{
    let key = (r.rx, tx);
    let prev = v.links[key];
    if v.links.contains_key(key) && g > prev.generated && d >= prev.delivered && d - prev.delivered
        <= 10_000_000_000 && prev.generated <= prev.delivered {
        an_observation_is_kept(v.aoi_peak_ms, d - prev.generated, 1_000_000);
        let dt = d - prev.delivered;
        let ages = (prev.delivered - prev.generated) + (d - prev.generated);
        assert(0 <= dt * ages) by (nonlinear_arith)
            requires
                dt >= 0,
                ages >= 0,
        ;
    }
}

/// The average age that a window reports is the area under the ages over the time, in
/// milliseconds, and the ages just before every update are reported beside it.
pub proof fn a_window_reports_its_ages(v: AwarenessView, at: SimTime)
    requires
        v.sound(),
    ensures
        ({
            let s = v.age_samples(at);
            let fits = i128::MIN <= rounded(v.aoi_area * 1_000, 1_000_000 * v.aoi_time) <= i128::MAX;
            &&& s.len() == 2
            &&& v.samples(at).subrange(0, 2) == s
            &&& s[0].metric == "aoi"@ && s[0].t == at && s[0].dims.len() == 0
            &&& (v.aoi_time > 0 && v.aoi_updates > 0 && fits) ==> (
            s[0].value matches SampleValue::Ratio(RatioEstimate::RatioOfSums { point, n, .. }) && n
                == v.aoi_updates && reads(
                point,
                v.aoi_area as int,
                1_000_000 * v.aoi_time,
                1_000,
            ))
            &&& (v.aoi_time == 0 || v.aoi_updates == 0) ==> s[0].value.refused()
            &&& s[1].metric == "aoi_peak"@ && s[1].t == at && s[1].dims.len() == 0
            &&& s[1].value == SampleValue::Distribution(v.aoi_peak_ms.summary(v.min_samples)).on(1_000)
        }),
{
    assert(v.samples(at).subrange(0, 2) =~= v.age_samples(at));
    real_of_is_the_quotient(v.aoi_time as int, 1);
    if v.aoi_time > 0 && v.aoi_updates > 0 && i128::MIN <= rounded(
        v.aoi_area * 1_000,
        1_000_000 * v.aoi_time,
    ) <= i128::MAX {
        a_quotient_is_read(v.aoi_area as int, 1_000_000 * v.aoi_time, 1_000);
    }
}

/// The awareness at each radius is the share of its own successes in its own trials, on as
/// many independent observations as there are distinct pairs. The instant that is being
/// assembled counts, unless it is past the end of the window.
pub proof fn a_window_reports_its_awareness(v: AwarenessView, at: SimTime)
    ensures
        ({
            let s = v.samples(at);
            let w = match v.frame_t {
                Some(t) => if t <= at {
                    v.sampled(t)
                } else {
                    v
                },
                None => v,
            };
            &&& s.len() >= 4
            &&& s[2].metric == "nar"@ && s[2].t == at && s[2].dims == seq![
                (Dim::Radius, DimText::Label("100m"@)),
            ]
            &&& says_share(
                s[2].value,
                w.near.successes,
                w.near.trials,
                w.near_pairs.len() as u64,
                1,
                10_000,
                v.level,
            )
            &&& s[3].metric == "nar"@ && s[3].t == at && s[3].dims == seq![
                (Dim::Radius, DimText::Label("300m"@)),
            ]
            &&& says_share(
                s[3].value,
                w.far.successes,
                w.far.trials,
                w.far_pairs.len() as u64,
                1,
                10_000,
                v.level,
            )
        }),
{
    let w = v.ended(at);
    a_proportion_says_its_share(
        w.near.successes,
        w.near.trials,
        w.near_pairs.len() as u64,
        1,
        w.level,
        10_000,
    );
    a_proportion_says_its_share(
        w.far.successes,
        w.far.trials,
        w.far_pairs.len() as u64,
        1,
        w.level,
        10_000,
    );
    let n = w.nar_samples(at);
    assert(v.samples(at)[2] == n[0]);
    assert(v.samples(at)[3] == n[1]);
}

/// The delivery ratio is the share of the attempts that were delivered: of all attempts, of
/// those in each bin, and of those outside all bins where there are any.
pub proof fn a_window_reports_its_deliveries(v: AwarenessView, at: SimTime)
    ensures
        ({
            let s = v.delivery_samples(at);
            let bins = in_order::<usize, Counts>(v.delivery_by_bin);
            let all = v.delivery_all;
            let loose = v.delivery_unbinned;
            &&& v.samples(at).subrange(4, v.samples(at).len() as int) == s
            &&& s.len() == 1 + bins.len() + if loose.trials > 0 {
                1int
            } else {
                0int
            }
            &&& forall|i: int| 0 <= i < s.len() ==> (#[trigger] s[i]).metric == "delivery_ratio"@ && s[i].t
                == at
            &&& s[0].dims.len() == 0
            &&& says_share(s[0].value, all.successes, all.trials, all.trials, v.min_samples, 10_000, v.level)
            &&& forall|i: int|
                0 <= i < bins.len() ==> {
                    let c = (#[trigger] bins[i]).1;
                    &&& says_share(
                        s[i + 1].value,
                        c.successes,
                        c.trials,
                        c.trials,
                        v.min_samples,
                        10_000,
                        v.level,
                    )
                    &&& s[i + 1].dims == seq![
                        (Dim::DistBin, DimText::Label(v.bins.label_text(bins[i].0 as int))),
                    ]
                }
            &&& loose.trials > 0 ==> says_share(
                s.last().value,
                loose.successes,
                loose.trials,
                loose.trials,
                v.min_samples,
                10_000,
                v.level,
            ) && s.last().dims == seq![(Dim::DistBin, DimText::Label("unbinned"@))]
        }),
{
    let s = v.delivery_samples(at);
    let bins = in_order::<usize, Counts>(v.delivery_by_bin);
    let (all, loose) = (v.delivery_all, v.delivery_unbinned);
    assert(v.samples(at).subrange(4, v.samples(at).len() as int) =~= s);
    a_proportion_says_its_share(
        all.successes,
        all.trials,
        all.trials,
        v.min_samples,
        v.level,
        10_000,
    );
    a_proportion_says_its_share(
        loose.successes,
        loose.trials,
        loose.trials,
        v.min_samples,
        v.level,
        10_000,
    );
    assert forall|i: int| 0 <= i < bins.len() implies {
        let c = (#[trigger] bins[i]).1;
        &&& says_share(s[i + 1].value, c.successes, c.trials, c.trials, v.min_samples, 10_000, v.level)
        &&& s[i + 1].dims == seq![
            (Dim::DistBin, DimText::Label(v.bins.label_text(bins[i].0 as int))),
        ]
    } by {
        let c = bins[i].1;
        a_proportion_says_its_share(c.successes, c.trials, c.trials, v.min_samples, v.level, 10_000);
    }
}

/// A flush forgets only what can no longer count: positions older than two seconds, and
/// links that were not heard for ten.
pub proof fn a_flush_forgets_what_is_stale(v: AwarenessView, at: SimTime)
    ensures
        ({
            let w = v.flushed(at);
            &&& forall|n: u32| #[trigger] w.positions.contains_key(n) <==> v.positions.contains_key(n)
                && at - v.positions[n].t <= 2_000_000_000
            &&& forall|n: u32| #[trigger] w.positions.contains_key(n) ==> w.positions[n]
                == v.positions[n]
            &&& forall|k: (u32, u32)| #[trigger] w.links.contains_key(k) <==> v.links.contains_key(k)
                && at - v.links[k].delivered <= 10_000_000_000
            &&& forall|k: (u32, u32)| #[trigger] w.links.contains_key(k) ==> w.links[k] == v.links[k]
            &&& forall|k: (u32, u32)| #[trigger] w.last_heard.contains_key(k)
                <==> v.last_heard.contains_key(k) && at - v.last_heard[k] <= 10_000_000_000
            &&& forall|k: (u32, u32)| #[trigger] w.last_heard.contains_key(k) ==> w.last_heard[k]
                == v.last_heard[k]
            &&& w.window_start == at && w.rejected == v.rejected
        }),
{
}

} // verus!
