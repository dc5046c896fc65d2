//! What the fragmentation metrics measure.

use vstd::prelude::*;
use crate::basic::SimTime;
use crate::channels::{channel_named, Channel, EventRecord, NetReassemblyView, Payload};
use crate::def::{Dim, DimText};
use crate::frag::{groups_at, independent_losses, survival, survival_is_a_probability, FragView, GroupView};
use crate::gains::{a_proportion_says_its_share, a_quotient_is_read, a_ratio_says_its_quotient, a_small_quotient_fits, says_number, says_ratio, says_share, tried};
use crate::quant::{rounded_is_monotone, rounded_multiple};

verus! {

/// True if `after` is `before` with one more group: a loss of the whole exactly where some
/// fragment is missing, as many lost fragments as are missing, the octets that are missing,
/// and what was predicted.
pub open spec fn one_group_more(before: GroupView, after: GroupView, g: NetReassemblyView) -> bool {
    &&& tried(before.groups, after.groups, g.received < g.fragments)
    &&& after.fragments.trials == before.fragments.trials + g.fragments
    &&& after.fragments.successes == before.fragments.successes + g.fragments - g.received
    &&& after.bytes == before.bytes + g.bytes
    &&& after.bytes_lost == before.bytes_lost + g.bytes - g.bytes_received
    &&& after.predicted_e6 == before.predicted_e6 + g.predicted_loss_e6
    &&& after.predicted_content_e6 == before.predicted_content_e6 + g.predicted_content_loss_e6
    &&& after.counts == before.counts.push(g.fragments)
}

/// A group counts once over all message types and once for its own type, where it has one.
/// One without fragments, or that claims more than it had, is refused and counted as such.
pub proof fn a_group_counts_for_all_and_for_its_type(v: FragView, ev: EventRecord, g: NetReassemblyView)
    requires
        channel_named(ev.channel@) == Some(Channel::NetReassembly),
        ev.payload == Payload::NetReassembly(g),
        v.room_for(ev),
        forall|k: Option<Seq<char>>| #[trigger]
            groups_at(v.sums, k).groups.successes <= groups_at(v.sums, k).groups.trials
                && groups_at(v.sums, k).fragments.successes <= groups_at(v.sums, k).fragments.trials,
    ensures
        ({
            let w = v.after(ev);
            let sane = g.fragments > 0 && g.received <= g.fragments && g.bytes_received <= g.bytes;
            &&& !sane ==> w.sums == v.sums && w.rejected == v.rejected + 1
            &&& sane ==> {
                &&& one_group_more(groups_at(v.sums, None), groups_at(w.sums, None), g)
                &&& g.msg_type matches Some(m) ==> one_group_more(
                    groups_at(v.sums, Some(m@)),
                    groups_at(w.sums, Some(m@)),
                    g,
                )
                &&& forall|k: Seq<char>|
                    (g.msg_type is None || g.msg_type->Some_0@ != k) ==> #[trigger] groups_at(
                        w.sums,
                        Some(k),
                    ) == groups_at(v.sums, Some(k))
                &&& w.rejected == v.rejected
            }
        }),
{
    assert(groups_at(v.sums, None).groups.successes <= groups_at(v.sums, None).groups.trials);
    if let Some(m) = g.msg_type {
        assert(groups_at(v.sums, Some(m@)).groups.successes <= groups_at(
            v.sums,
            Some(m@),
        ).groups.trials);
    }
}

/// Where no fragment is lost, every group survives, and where all are, none of any fragment
/// does; a group of one fragment is lost as often as a fragment is.
pub proof fn survival_at_its_ends(lost: u64, all: u64, n: nat)
    requires
        0 < all,
        lost <= all,
    ensures
        lost == 0 ==> survival(lost, all, n) == 1_000_000_000_000,
        lost == all && n > 0 ==> survival(lost, all, n) == 0,
        -(all as int) <= 2 * (survival(lost, all, 1) * all - 1_000_000_000_000 * (all - lost)) <= all,
    decreases n,
{
    crate::quant::rounded_is_nearest(1_000_000_000_000 * (all - lost), all as int);
    assert(survival(lost, all, 0) == 1_000_000_000_000);
    assert(survival(lost, all, 1) == crate::quant::rounded(
        survival(lost, all, 0) * (all - lost),
        all as int,
    ));
    if n > 0 {
        let m = (n - 1) as nat;
        if lost == 0 {
            survival_at_its_ends(lost, all, m);
            rounded_multiple(1_000_000_000_000, all as int);
        }
        if lost == all {
            assert(survival(lost, all, m) * 0 == 0) by (nonlinear_arith);
            rounded_multiple(0, all as int);
        }
    }
}

/// More fragments survive no more often.
pub proof fn a_longer_group_survives_no_more_often(lost: u64, all: u64, n: nat)
    requires
        0 < all,
        lost <= all,
    ensures
        survival(lost, all, n + 1) <= survival(lost, all, n),
{
    survival_is_a_probability(lost, all, n);
    let s = survival(lost, all, n);
    let (k, d) = (all - lost, all as int);
    assert((s * k) * 1 <= s * d) by (nonlinear_arith)
        requires
            0 <= k <= d,
            s >= 0,
    ;
    rounded_is_monotone(s * k, d, s, 1);
    rounded_multiple(s, 1);
    assert(survival(lost, all, n + 1) == crate::quant::rounded(s * k, d));
}

/// One more group adds what it does not survive.
pub proof fn a_group_adds_its_loss(lost: u64, all: u64, counts: Seq<u32>, n: u32)
    ensures
        independent_losses(lost, all, counts.push(n)) - independent_losses(lost, all, counts)
            == 1_000_000_000_000 - survival(lost, all, n as nat),
        independent_losses(lost, all, Seq::empty()) == 0,
{
    assert(counts.push(n).drop_last() =~= counts);
}

/// What a message type reports: the groups that were lost over all groups; the mean of what
/// was predicted of them; the fragments that were lost over all fragments; the octets that
/// were lost over all octets; and the means of the two other predictions.
pub proof fn a_type_reports_its_losses(v: FragView, key: Option<Seq<char>>, s: GroupView, at: SimTime)
    requires
        s.groups.trials > 0,
        s.fragments.trials > 0,
        s.fragments.successes <= s.fragments.trials,
        s.counts.len() == s.groups.trials,
    ensures
        ({
            let r = v.samples_of_type(key, s, at);
            let n = s.groups.trials;
            &&& r.len() == 6
            &&& forall|i: int|
                0 <= i < 6 ==> (#[trigger] r[i]).t == at && r[i].dims == match key {
                    Some(t) => seq![(Dim::MsgType, DimText::Label(t))],
                    None => Seq::empty(),
                }
            &&& r[0].metric == "frag_sdu_loss"@ && says_share(
                r[0].value,
                s.groups.successes,
                n,
                n,
                v.min_samples,
                10_000,
                v.level,
            )
            &&& r[1].metric == "frag_sdu_loss_predicted"@ && says_number(
                r[1].value,
                s.predicted_e6 as int,
                1_000_000 * n,
                n,
                10_000,
            )
            &&& r[2].metric == "frag_fragment_loss"@ && says_share(
                r[2].value,
                s.fragments.successes,
                s.fragments.trials,
                s.fragments.trials,
                v.min_samples,
                10_000,
                v.level,
            )
            &&& r[3].metric == "frag_content_loss"@ && says_ratio(
                r[3].value,
                s.bytes_lost,
                s.bytes,
                n,
                10_000,
            )
            &&& r[4].metric == "frag_content_loss_predicted"@ && says_number(
                r[4].value,
                s.predicted_content_e6 as int,
                1_000_000 * n,
                n,
                10_000,
            )
            &&& r[5].metric == "frag_sdu_loss_independent"@ && says_number(
                r[5].value,
                independent_losses(s.fragments.successes, s.fragments.trials, s.counts),
                1_000_000_000_000 * n,
                n,
                10_000,
            )
        }),
{
    let n = s.groups.trials;
    let l = v.level;
    a_proportion_says_its_share(s.groups.successes, n, n, v.min_samples, l, 10_000);
    a_proportion_says_its_share(
        s.fragments.successes,
        s.fragments.trials,
        s.fragments.trials,
        v.min_samples,
        l,
        10_000,
    );
    a_ratio_says_its_quotient(s.bytes_lost, s.bytes, n, 10_000);
    a_small_quotient_fits(s.predicted_e6 as int, 1_000_000 * n, 10_000);
    a_quotient_is_read(s.predicted_e6 as int, 1_000_000 * n, 10_000);
    a_small_quotient_fits(s.predicted_content_e6 as int, 1_000_000 * n, 10_000);
    a_quotient_is_read(s.predicted_content_e6 as int, 1_000_000 * n, 10_000);
    losses_are_bounded(s.fragments.successes, s.fragments.trials, s.counts);
    let x = independent_losses(s.fragments.successes, s.fragments.trials, s.counts);
    crate::gains::a_large_quotient_fits(x, 1_000_000_000_000 * n, 10_000);
    a_quotient_is_read(x, 1_000_000_000_000 * n, 10_000);
}

proof fn losses_are_bounded(lost: u64, all: u64, counts: Seq<u32>)
    requires
        0 < all,
        lost <= all,
    ensures
        0 <= independent_losses(lost, all, counts) <= 1_000_000_000_000 * counts.len(),
    decreases counts.len(),
{
    if counts.len() > 0 {
        losses_are_bounded(lost, all, counts.drop_last());
        survival_is_a_probability(lost, all, counts.last() as nat);
    }
}

/// Every message type reports its six samples, one type after the other.
pub proof fn every_type_is_reported(
    v: FragView,
    s: Seq<(Option<Seq<char>>, GroupView)>,
    e: (Option<Seq<char>>, GroupView),
    at: SimTime,
)
    ensures
        v.type_samples(s.push(e), at) == v.type_samples(s, at) + v.samples_of_type(e.0, e.1, at),
        v.type_samples(Seq::empty(), at).len() == 0,
{
    assert(s.push(e).drop_last() =~= s);
}

} // verus!
