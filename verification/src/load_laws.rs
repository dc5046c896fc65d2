//! What the load metrics measure.

use vstd::prelude::*;
use crate::basic::SimTime;
use crate::channels::{channel_named, Channel, EventRecord, MacCbrView, NodeRxView, NodeTxView, Payload, RxFate};
use crate::def::{Dim, DimText, SampleValue};
use crate::gains::{a_proportion_says_its_share, a_quotient_is_read, a_small_quotient_fits, an_observation_is_kept, gained, raised, says_number, says_share};
use crate::keyed::in_order;
use crate::load::{collisions, demand_shares, own_shares, some_losses_are_at_most_all, LoadView};
use crate::tally::amount;

verus! {

/// What a node asks of the channel is what it senses, and on top of that the greater of what
/// it sent and what it offered to send.
pub proof fn a_demand_is_what_is_sensed_and_own(v: LoadView, node: u32)
    ensures
        v.demand(node) >= amount(v.sensed_us, node) + amount(v.own_us, node),
        v.demand(node) >= amount(v.sensed_us, node) + amount(v.offered_us, node),
        v.demand(node) == amount(v.sensed_us, node) + amount(v.own_us, node) || v.demand(node)
            == amount(v.sensed_us, node) + amount(v.offered_us, node),
{
}

/// True if an arrival is at least as strong as the busy threshold, of minus eighty-five dBm.
pub open spec fn is_busy(r: NodeRxView) -> bool {
    r.rssi_dbm matches Some(p) && -85 * p@.den <= p@.num
}

/// An arrival that is strong enough raises what its receiver asks of the channel by its air
/// time, whatever the node sent or offered itself; a weaker one does not, and neither does
/// either for another node.
pub proof fn sensing_raises_the_demand(v: LoadView, ev: EventRecord, r: NodeRxView, node: u32)
    requires
        channel_named(ev.channel@) == Some(Channel::NodeRx),
        ev.payload == Payload::NodeRx(r),
        v.room_for(ev),
    ensures
        ({
            let w = v.after(ev);
            &&& w.demand(node) - v.demand(node) == if node == r.rx && is_busy(r)
                && r.airtime_us is Some {
                r.airtime_us->Some_0 as int
            } else {
                0
            }
            &&& is_busy(r) ==> (r.airtime_us matches Some(us) ==> raised(
                v.sensed_us,
                w.sensed_us,
                r.rx,
                us as int,
            ))
            &&& (!is_busy(r) || r.airtime_us is None) ==> w.sensed_us == v.sensed_us
            &&& w.own_us == v.own_us && w.offered_us == v.offered_us
        }),
{
}

/// The fate of an attempt is one more that is resolved, unless it is in flight, and a loss is
/// one more of its own cause, or of the unknown one, and of no other.
pub proof fn a_loss_is_counted_under_its_cause(v: LoadView, ev: EventRecord, r: NodeRxView)
    requires
        channel_named(ev.channel@) == Some(Channel::NodeRx),
        ev.payload == Payload::NodeRx(r),
        v.room_for(ev),
        forall|c: Seq<char>| #[trigger] amount(v.lost_by_cause, c) <= v.resolved,
    ensures
        ({
            let w = v.after(ev);
            let cause = match r.cause {
                Some(c) => c@,
                None => "unknown"@,
            };
            &&& w.resolved == v.resolved + if r.outcome == RxFate::InFlight {
                0int
            } else {
                1int
            }
            &&& r.outcome == RxFate::Lost ==> raised(v.lost_by_cause, w.lost_by_cause, cause, 1)
            &&& r.outcome != RxFate::Lost ==> w.lost_by_cause == v.lost_by_cause
            &&& w.carried_bits == v.carried_bits && w.access_ms == v.access_ms && w.queue_depth
                == v.queue_depth && w.mac_drops == v.mac_drops
        }),
{
    if r.outcome == RxFate::Lost {
        let c = crate::load::loss_cause(r);
        assert(amount(v.lost_by_cause, c) <= v.resolved);
    }
}

/// A transmission raises what its node asks of the channel by its air time, where the node
/// offered nothing, whatever it senses; and never by more. Its bits are carried, and it
/// waited for access from when it was signed.
pub proof fn sending_raises_the_demand(v: LoadView, ev: EventRecord, t: NodeTxView, node: u32)
    requires
        channel_named(ev.channel@) == Some(Channel::NodeTx),
        ev.payload == Payload::NodeTx(t),
        v.room_for(ev),
    ensures
        ({
            let w = v.after(ev);
            &&& amount(v.offered_us, node) == 0 ==> w.demand(node) - v.demand(node) == if node
                == t.node && t.airtime_us is Some {
                t.airtime_us->Some_0 as int
            } else {
                0
            }
            &&& node != t.node ==> w.demand(node) == v.demand(node)
            &&& t.airtime_us matches Some(us) ==> raised(v.own_us, w.own_us, t.node, us as int)
            &&& t.airtime_us is None ==> w.own_us == v.own_us
            &&& w.sensed_us == v.sensed_us && w.offered_us == v.offered_us
            &&& w.carried_bits == v.carried_bits + 8 * t.bytes_on_wire
            &&& (t.t_signed is Some && t.t_signed->Some_0 <= t.t) ==> gained(
                v.access_ms,
                w.access_ms,
                t.t - t.t_signed->Some_0,
                1_000_000,
            )
            &&& (t.t_signed is None || t.t_signed->Some_0 > t.t) ==> w.access_ms == v.access_ms
            &&& w.resolved == v.resolved && w.lost_by_cause == v.lost_by_cause
        }),
{
    if let Some(signed) = t.t_signed {
        if signed <= t.t {
            an_observation_is_kept(v.access_ms, t.t - signed, 1_000_000);
        }
    }
}

/// A report of the medium access layer adds what it states, each to its own figure.
pub proof fn a_report_adds_what_it_states(v: LoadView, ev: EventRecord, m: MacCbrView)
    requires
        channel_named(ev.channel@) == Some(Channel::MacCbr),
        ev.payload == Payload::MacCbr(m),
        v.room_for(ev),
    ensures
        ({
            let w = v.after(ev);
            &&& m.queue_depth matches Some(d) ==> gained(v.queue_depth, w.queue_depth, d as int, 1)
            &&& m.queue_depth is None ==> w.queue_depth == v.queue_depth
            &&& w.mac_drops == v.mac_drops + match m.mac_drops {
                Some(d) => d as int,
                None => 0,
            }
            &&& w.offered_bits == v.offered_bits + match m.offered_bytes {
                Some(b) => 8 * b,
                None => 0,
            }
            &&& w.offered_reported == (v.offered_reported || m.offered_bytes is Some)
            &&& m.offered_airtime_us matches Some(us) ==> raised(
                v.offered_us,
                w.offered_us,
                m.node,
                us as int,
            )
            &&& m.offered_airtime_us is None ==> w.offered_us == v.offered_us
            &&& w.own_us == v.own_us && w.sensed_us == v.sensed_us && w.carried_bits
                == v.carried_bits && w.resolved == v.resolved && w.access_ms == v.access_ms
        }),
{
    if let Some(d) = m.queue_depth {
        an_observation_is_kept(v.queue_depth, d as int, 1);
    }
}

/// One more node adds one share: its air time over the window, or what it asks of the
/// channel over the window.
pub proof fn a_node_is_observed_over_the_window(
    own: Seq<(u32, u64)>,
    demands: Seq<(u32, int)>,
    node: u32,
    us: u64,
    demand: int,
    window: u64,
)
    requires
        window > 0,
        0 <= demand <= 3 * u64::MAX,
    ensures
        gained(
            own_shares(own, window),
            own_shares(own.push((node, us)), window),
            us as int,
            window as int,
        ),
        gained(
            demand_shares(demands, window),
            demand_shares(demands.push((node, demand)), window),
            demand,
            window as int,
        ),
        own_shares(Seq::empty(), window).samples.len() == 0,
        demand_shares(Seq::empty(), window).samples.len() == 0,
{
    assert(own.push((node, us)).drop_last() =~= own);
    assert(demands.push((node, demand)).drop_last() =~= demands);
    an_observation_is_kept(own_shares(own, window), us as int, window as int);
    an_observation_is_kept(demand_shares(demands, window), demand, window as int);
}

/// The demand is reported of every node that sent, sensed or offered anything, and of no
/// other.
pub proof fn every_active_node_has_a_demand(v: LoadView, node: u32)
    ensures
        v.demands().contains_key(node) <==> (v.own_us.contains_key(node) || v.sensed_us.contains_key(
            node,
        ) || v.offered_us.contains_key(node)),
        v.demands().contains_key(node) ==> v.demands()[node] == v.demand(node),
{
}

/// What a window reports of the channel: the shares of all nodes, and the bits per second
/// that were offered and that were carried. No fewer were offered than carried.
pub proof fn a_window_reports_its_loads(v: LoadView, at: SimTime)
    ensures
        ({
            let s = v.channel_samples(at);
            let us = if at <= v.window_start {
                0u64
            } else {
                ((at - v.window_start) / 1_000) as u64
            };
            let offered = if v.offered_reported && v.offered_bits > v.carried_bits {
                v.offered_bits
            } else {
                v.carried_bits
            };
            &&& s.len() == 4
            &&& v.samples(at).subrange(0, 4) == s
            &&& s[0].metric == "channel_occupancy"@ && s[0].value == SampleValue::Distribution(
                own_shares(in_order::<u32, u64>(v.own_us), us).summary(1),
            ).on(10_000)
            &&& s[1].metric == "channel_load"@ && s[1].value == SampleValue::Distribution(
                demand_shares(in_order::<u32, int>(v.demands()), us).summary(1),
            ).on(10_000)
            &&& s[2].metric == "offered_load"@ && s[3].metric == "carried_load"@
            &&& us > 0 ==> says_number(s[2].value, offered * 1_000_000, us as int, 1, 1_000)
                && says_number(s[3].value, v.carried_bits * 1_000_000, us as int, 1, 1_000)
            &&& us == 0 ==> s[2].value.refused() && s[3].value.refused()
        }),
{
    assert(v.samples(at).subrange(0, 4) =~= v.channel_samples(at));
    let us = v.window_us(at);
    if us > 0 {
        a_small_quotient_fits(v.offered() * 1_000_000, us as int, 1_000);
        a_quotient_is_read(v.offered() * 1_000_000, us as int, 1_000);
        a_small_quotient_fits(v.carried_bits * 1_000_000, us as int, 1_000);
        a_quotient_is_read(v.carried_bits * 1_000_000, us as int, 1_000);
    }
}

/// The losses that a window reports are shares of all resolved attempts: of every cause, of
/// the three kinds of collision together, and of the half-duplex ones. What the medium access
/// layer reported stands beside them, each under its name.
pub proof fn a_window_reports_its_losses(v: LoadView, at: SimTime)
    requires
        v.sound(),
        crate::keyed::orderly::<String, u64>(v.lost_by_cause),
    ensures
        ({
            let causes = in_order::<String, u64>(v.lost_by_cause);
            let s = v.loss_samples(at);
            let a = v.access_samples(at);
            let m = v.lost_by_cause;
            let n = v.min_samples;
            let collided = amount(m, "collision"@) + amount(m, "hidden-terminal"@) + amount(
                m,
                "resource-collision"@,
            );
            &&& s.len() == causes.len()
            &&& forall|i: int|
                0 <= i < s.len() ==> {
                    &&& (#[trigger] s[i]).metric == "loss_rate"@
                    &&& s[i].dims == seq![(Dim::Cause, DimText::Label(causes[i].0))]
                    &&& says_share(s[i].value, causes[i].1, v.resolved, v.resolved, n, 10_000, v.level)
                }
            &&& a.len() == 5
            &&& a[0].metric == "collision_rate"@ && says_share(
                a[0].value,
                collided as u64,
                v.resolved,
                v.resolved,
                n,
                10_000,
                v.level,
            )
            &&& a[1].metric == "half_duplex_rate"@ && says_share(
                a[1].value,
                amount(m, "half-duplex"@),
                v.resolved,
                v.resolved,
                n,
                10_000,
                v.level,
            )
            &&& a[2].metric == "mac_queue_depth"@ && a[2].value == SampleValue::Distribution(
                v.queue_depth.summary(1),
            ).on(1_000)
            &&& a[3].metric == "mac_drops"@ && a[3].value == (SampleValue::Count {
                count: v.mac_drops,
            })
            &&& a[4].metric == "mac_access_delay"@ && a[4].value == SampleValue::Distribution(
                v.access_ms.summary(n),
            ).on(1_000)
            &&& collided <= v.resolved
        }),
{
    some_losses_are_at_most_all(v.lost_by_cause);
    let (n, l) = (v.min_samples, v.level);
    let causes = in_order::<String, u64>(v.lost_by_cause);
    let s = v.loss_samples(at);
    a_proportion_says_its_share(
        collisions(v.lost_by_cause) as u64,
        v.resolved,
        v.resolved,
        n,
        l,
        10_000,
    );
    a_proportion_says_its_share(
        amount(v.lost_by_cause, "half-duplex"@),
        v.resolved,
        v.resolved,
        n,
        l,
        10_000,
    );
    assert forall|i: int| 0 <= i < s.len() implies {
        &&& (#[trigger] s[i]).metric == "loss_rate"@
        &&& s[i].dims == seq![(Dim::Cause, DimText::Label(causes[i].0))]
        &&& says_share(s[i].value, causes[i].1, v.resolved, v.resolved, n, 10_000, v.level)
    } by {
        a_proportion_says_its_share(causes[i].1, v.resolved, v.resolved, n, l, 10_000);
    }
}

} // verus!
