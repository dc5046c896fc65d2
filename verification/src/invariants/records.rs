//! Checks on the records of one run.

use vstd::prelude::*;
use vstd::string::*;
use crate::card::{group_views, views};
use crate::channels::{GtKinematicsView, MacCbrView, NodeTxView, PhyRxView, RxOutcome};
use crate::invariants::outcome::{did_not_run, finding, ran, InvariantOutcome, InvariantViolation, OutcomeView, ViolationView};
use crate::keyed::in_order;
use crate::ledger::{one_more, EventLedger};
use crate::tally::{amount, Amounts, Tally};
use crate::text::{decimal, join2, join3, numeral, str_texts};

verus! {

/// Some violations, and one more where there is one.
pub open spec fn appended(s: Seq<ViolationView>, v: Option<ViolationView>) -> Seq<ViolationView> {
    match v {
        Some(x) => s.push(x),
        None => s,
    }
}

/// Loss causes and airtime accounting.
pub const I_R3: &'static str = "every `Lost` carries exactly one cause, and the channel accounting sums to the transmitted airtime";

/// What a reception is called.
pub open spec fn reception_subject(i: int, r: PhyRxView) -> Seq<char> {
    "phy.rx["@ + numeral(i as nat) + "] rx="@ + numeral(r.rx as nat) + " t_end="@ + numeral(
        r.t_end as nat,
    )
}

/// A loss carries exactly one cause, and a reception none.
pub open spec fn cause_finding(i: int, r: PhyRxView) -> Option<ViolationView> {
    let n = r.every_cause().len();
    if r.outcome == RxOutcome::Lost && n != 1 {
        Some(
            finding(
                "I-R3"@,
                Some(reception_subject(i, r)),
                "a lost frame must carry exactly one cause, this one carries "@ + numeral(n),
            ).count("causes"@, n as int),
        )
    } else if r.outcome == RxOutcome::Received && n != 0 {
        Some(
            finding(
                "I-R3"@,
                Some(reception_subject(i, r)),
                "a received frame must carry no loss cause, this one carries "@ + numeral(n),
            ).count("causes"@, n as int),
        )
    } else {
        None
    }
}

/// The receptions with the wrong number of causes.
pub open spec fn cause_findings(rx: Seq<PhyRxView>) -> Seq<ViolationView>
    decreases rx.len(),
{
    if rx.len() == 0 {
        Seq::empty()
    } else {
        appended(cause_findings(rx.drop_last()), cause_finding(rx.len() - 1, rx.last()))
    }
}

/// How many transmissions on each channel report an air time, or do not.
pub open spec fn airtime_reports(tx: Seq<NodeTxView>, with: bool) -> Map<Option<u16>, u64>
    decreases tx.len(),
{
    if tx.len() == 0 {
        Map::empty()
    } else {
        let m = airtime_reports(tx.drop_last(), with);
        if (tx.last().airtime_us is Some) == with {
            one_more(m, tx.last().channel)
        } else {
            m
        }
    }
}

/// The air time that each node transmitted.
pub open spec fn airtime_by_node(tx: Seq<NodeTxView>) -> Map<u32, u64>
    decreases tx.len(),
{
    if tx.len() == 0 {
        Map::empty()
    } else {
        let m = airtime_by_node(tx.drop_last());
        match tx.last().airtime_us {
            Some(us) => m.insert(tx.last().node, (amount(m, tx.last().node) + us) as u64),
            None => m,
        }
    }
}

/// The air time that one node transmitted.
pub open spec fn airtime_of(tx: Seq<NodeTxView>, node: u32) -> int
    decreases tx.len(),
{
    if tx.len() == 0 {
        0
    } else {
        airtime_of(tx.drop_last(), node) + (match tx.last().airtime_us {
            Some(us) => if tx.last().node == node {
                us as int
            } else {
                0
            },
            None => 0,
        })
    }
}

/// The busy time that each node reported.
pub open spec fn busy_by_node(cbr: Seq<MacCbrView>) -> Map<u32, u64>
    decreases cbr.len(),
{
    if cbr.len() == 0 {
        Map::empty()
    } else {
        let m = busy_by_node(cbr.drop_last());
        match cbr.last().busy_us {
            Some(us) => m.insert(cbr.last().node, (amount(m, cbr.last().node) + us) as u64),
            None => m,
        }
    }
}

/// The busy time that one node reported.
pub open spec fn busy_time_of(cbr: Seq<MacCbrView>, node: u32) -> int
    decreases cbr.len(),
{
    if cbr.len() == 0 {
        0
    } else {
        busy_time_of(cbr.drop_last(), node) + (match cbr.last().busy_us {
            Some(us) => if cbr.last().node == node {
                us as int
            } else {
                0
            },
            None => 0,
        })
    }
}

/// True if every node's air time and every node's busy time fit a counter.
pub open spec fn node_times_fit(tx: Seq<NodeTxView>, cbr: Seq<MacCbrView>) -> bool {
    &&& forall|node: u32| #[trigger] airtime_of(tx, node) <= u64::MAX
    &&& forall|node: u32| #[trigger] busy_time_of(cbr, node) <= u64::MAX
}

/// What a channel is called.
pub open spec fn channel_subject(c: Option<u16>) -> Seq<char> {
    match c {
        Some(n) => "channel "@ + numeral(n as nat),
        None => "unspecified channel"@,
    }
}

/// The channels on which only some transmissions report an air time.
pub open spec fn partial_findings(with: Seq<(Option<u16>, u64)>, without: Map<Option<u16>, u64>) -> Seq<
    ViolationView,
>
    decreases with.len(),
{
    if with.len() == 0 {
        Seq::empty()
    } else {
        let (c, n) = with.last();
        appended(
            partial_findings(with.drop_last(), without),
            if without.contains_key(c) {
                Some(
                    finding(
                        "I-R3"@,
                        Some(channel_subject(c)),
                        "airtime accounting is partial: some transmissions on this channel report an airtime and others do not, so the channel's accounting cannot sum to the transmitted airtime"@,
                    ).count("with_airtime"@, n as int).count(
                        "without_airtime"@,
                        without[c] as int,
                    ),
                )
            } else {
                None
            },
        )
    }
}

/// The nodes whose reported busy time does not cover their own transmissions.
pub open spec fn busy_findings(own: Seq<(u32, u64)>, busy: Map<u32, u64>) -> Seq<ViolationView>
    decreases own.len(),
{
    if own.len() == 0 {
        Seq::empty()
    } else {
        let (node, us) = own.last();
        appended(
            busy_findings(own.drop_last(), busy),
            if busy.contains_key(node) && busy[node] < us {
                Some(
                    finding(
                        "I-R3"@,
                        Some("node "@ + numeral(node as nat)),
                        "the node's reported channel busy time is less than its own transmitted airtime: a transmitter hears itself, so the busy accounting has lost time"@,
                    ).count("transmitted_us"@, us as int).count(
                        "busy_us"@,
                        busy[node] as int,
                    ).count("missing_us"@, us - busy[node]),
                )
            } else {
                None
            },
        )
    }
}

/// What the check of loss causes and airtime accounting finds.
pub open spec fn i_r3(l: EventLedger) -> OutcomeView {
    if l.rx@.len() == 0 && l.tx@.len() == 0 {
        did_not_run("I-R3"@, I_R3@, "no phy.rx or node.tx records"@)
    } else {
        ran(
            "I-R3"@,
            I_R3@,
            (l.rx@.len() + l.tx@.len()) as int,
            cause_findings(l.rx@) + partial_findings(
                in_order::<Option<u16>, u64>(airtime_reports(l.tx@, true)),
                airtime_reports(l.tx@, false),
            ) + busy_findings(
                in_order::<u32, u64>(airtime_by_node(l.tx@)),
                busy_by_node(l.cbr@),
            ),
        )
    }
}

proof fn airtime_grows(tx: Seq<NodeTxView>, i: int, node: u32)
    requires
        0 <= i <= tx.len(),
    ensures
        0 <= airtime_of(tx.subrange(0, i), node) <= airtime_of(tx, node),
    decreases tx.len(),
{
    if i == tx.len() {
        assert(tx.subrange(0, i) =~= tx);
        if i > 0 {
            airtime_grows(tx.drop_last(), i - 1, node);
            assert(tx.drop_last().subrange(0, i - 1) =~= tx.drop_last());
        }
    } else {
        airtime_grows(tx.drop_last(), i, node);
        assert(tx.drop_last().subrange(0, i) =~= tx.subrange(0, i));
    }
}

proof fn busy_time_grows(cbr: Seq<MacCbrView>, i: int, node: u32)
    requires
        0 <= i <= cbr.len(),
    ensures
        0 <= busy_time_of(cbr.subrange(0, i), node) <= busy_time_of(cbr, node),
    decreases cbr.len(),
{
    if i == cbr.len() {
        assert(cbr.subrange(0, i) =~= cbr);
        if i > 0 {
            busy_time_grows(cbr.drop_last(), i - 1, node);
            assert(cbr.drop_last().subrange(0, i - 1) =~= cbr.drop_last());
        }
    } else {
        busy_time_grows(cbr.drop_last(), i, node);
        assert(cbr.drop_last().subrange(0, i) =~= cbr.subrange(0, i));
    }
}

fn audit_causes(rx: &Vec<PhyRxView>) -> (r: Vec<InvariantViolation>)
    ensures
        views(r@) == cause_findings(rx@),
{
    broadcast use group_views;

    let mut out: Vec<InvariantViolation> = Vec::new();
    let mut i: usize = 0;
    assert(rx@.subrange(0, 0) =~= Seq::<PhyRxView>::empty());
    while i < rx.len()
        invariant
            i <= rx@.len(),
            views(out@) == cause_findings(rx@.subrange(0, i as int)),
        decreases rx@.len() - i,
    {
        broadcast use group_views;

        let r = &rx[i];
        proof {
            let next = rx@.subrange(0, i as int + 1);
            assert(next.drop_last() =~= rx@.subrange(0, i as int));
            assert(next.last() == *r);
        }
        let causes = r.all_causes();
        assert(str_texts(causes@).len() == causes@.len());
        let n: usize = causes.len();
        let bad: bool = match r.outcome {
            RxOutcome::Lost => n != 1,
            RxOutcome::Received => n != 0,
        };
        if bad {
            let mut subject = join3("phy.rx[", decimal(i as u64).as_str(), "] rx=");
            subject.append(decimal(r.rx as u64).as_str());
            subject.append(" t_end=");
            subject.append(decimal(r.t_end).as_str());
            let what = match r.outcome {
                RxOutcome::Lost => "a lost frame must carry exactly one cause, this one carries ",
                RxOutcome::Received =>
                    "a received frame must carry no loss cause, this one carries ",
            };
            let detail = join2(what, decimal(n as u64).as_str());
            out.push(
                InvariantViolation::new("I-R3", Some(subject), detail).count("causes", n as u64),
            );
        }
        i = i + 1;
    }
    assert(rx@.subrange(0, i as int) =~= rx@);
    out
}

fn busy_of(cbr: &Vec<MacCbrView>) -> (busy: Amounts<u32>)
    requires
        forall|node: u32| #[trigger] busy_time_of(cbr@, node) <= u64::MAX,
    ensures
        busy@ == busy_by_node(cbr@),
{
    let mut busy: Amounts<u32> = Amounts::new();
    let mut i: usize = 0;
    assert(cbr@.subrange(0, 0) =~= Seq::<MacCbrView>::empty());
    while i < cbr.len()
        invariant
            i <= cbr@.len(),
            forall|node: u32| #[trigger] busy_time_of(cbr@, node) <= u64::MAX,
            busy@ == busy_by_node(cbr@.subrange(0, i as int)),
            forall|node: u32| #[trigger]
                amount(busy@, node) == busy_time_of(cbr@.subrange(0, i as int), node),
        decreases cbr@.len() - i,
    {
        let ghost before = busy@;
        proof {
            let next = cbr@.subrange(0, i as int + 1);
            assert(next.drop_last() =~= cbr@.subrange(0, i as int));
            busy_time_grows(cbr@, i as int + 1, cbr@[i as int].node);
            assert(amount(before, cbr@[i as int].node) == busy_time_of(
                cbr@.subrange(0, i as int),
                cbr@[i as int].node,
            ));
        }
        if let Some(us) = cbr[i].busy_us {
            busy.increase(cbr[i].node, us);
        }
        proof {
            assert forall|node: u32| #[trigger]
                amount(busy@, node) == busy_time_of(cbr@.subrange(0, i as int + 1), node) by {
                assert(amount(before, node) == busy_time_of(cbr@.subrange(0, i as int), node));
            }
        }
        i = i + 1;
    }
    assert(cbr@.subrange(0, i as int) =~= cbr@);
    busy
}

/// Checks that every loss carries exactly one cause and every reception none, that air
/// time is reported for all transmissions on a channel or for none, and that a node's busy
/// time covers its own transmissions.
pub fn check_i_r3(ledger: &EventLedger) -> (r: InvariantOutcome)
    requires
        ledger.rx@.len() + ledger.tx@.len() <= u64::MAX,
        node_times_fit(ledger.tx@, ledger.cbr@),
    ensures
        r@ == i_r3(*ledger),
{
    broadcast use group_views;

    if ledger.rx.len() == 0 && ledger.tx.len() == 0 {
        return InvariantOutcome::not_run("I-R3", I_R3, "no phy.rx or node.tx records");
    }
    let mut out = audit_causes(&ledger.rx);
    let ghost causes = cause_findings(ledger.rx@);
    let mut with: Tally<Option<u16>> = Tally::new();
    let mut without: Tally<Option<u16>> = Tally::new();
    let mut own: Amounts<u32> = Amounts::new();
    let tx = &ledger.tx;
    let mut i: usize = 0;
    assert(tx@.subrange(0, 0) =~= Seq::<NodeTxView>::empty());
    while i < tx.len()
        invariant
            i <= tx@.len(),
            tx@.len() <= u64::MAX,
            forall|node: u32| #[trigger] airtime_of(tx@, node) <= u64::MAX,
            with@ == airtime_reports(tx@.subrange(0, i as int), true),
            without@ == airtime_reports(tx@.subrange(0, i as int), false),
            own@ == airtime_by_node(tx@.subrange(0, i as int)),
            with.sum() + without.sum() == i,
            with.sum() >= 0,
            without.sum() >= 0,
            forall|node: u32| #[trigger]
                amount(own@, node) == airtime_of(tx@.subrange(0, i as int), node),
        decreases tx@.len() - i,
    {
        let ghost before = own@;
        proof {
            let next = tx@.subrange(0, i as int + 1);
            assert(next.drop_last() =~= tx@.subrange(0, i as int));
            airtime_grows(tx@, i as int + 1, tx@[i as int].node);
            assert(amount(before, tx@[i as int].node) == airtime_of(
                tx@.subrange(0, i as int),
                tx@[i as int].node,
            ));
        }
        match tx[i].airtime_us {
            Some(us) => {
                with.increase(tx[i].channel, 1);
                own.increase(tx[i].node, us);
            },
            None => {
                without.increase(tx[i].channel, 1);
            },
        }
        proof {
            assert forall|node: u32| #[trigger]
                amount(own@, node) == airtime_of(tx@.subrange(0, i as int + 1), node) by {
                assert(amount(before, node) == airtime_of(tx@.subrange(0, i as int), node));
            }
        }
        i = i + 1;
    }
    assert(tx@.subrange(0, i as int) =~= tx@);
    let n: usize = with.len();
    let ghost listing = with.listing();
    let mut j: usize = 0;
    assert(listing.subrange(0, 0) =~= Seq::<(Option<u16>, u64)>::empty());
    assert(causes + Seq::<ViolationView>::empty() =~= causes);
    while j < n
        invariant
            n == with.listing().len(),
            listing == with.listing(),
            j <= n,
            views(out@) == causes + partial_findings(listing.subrange(0, j as int), without@),
        decreases n - j,
    {
        broadcast use group_views;

        let ghost before = partial_findings(listing.subrange(0, j as int), without@);
        proof {
            let next = listing.subrange(0, j as int + 1);
            assert(next.drop_last() =~= listing.subrange(0, j as int));
            assert(next.last() == listing[j as int]);
        }
        let c: Option<u16> = *with.key_at(j);
        if without.contains_key(&c) {
            let subject = match c {
                Some(k) => join2("channel ", decimal(k as u64).as_str()),
                None => "unspecified channel".to_owned(),
            };
            let v = InvariantViolation::new(
                "I-R3",
                Some(subject),
                "airtime accounting is partial: some transmissions on this channel report an airtime and others do not, so the channel's accounting cannot sum to the transmitted airtime".to_owned(),
            ).count("with_airtime", with.amount_at(j)).count("without_airtime", without.get(&c));
            out.push(v);
            assert(views(out@) =~= causes + before.push(v@));
        }
        j = j + 1;
    }
    assert(listing.subrange(0, n as int) =~= listing);
    let ghost so_far = causes + partial_findings(listing, without@);
    let busy = busy_of(&ledger.cbr);
    let m: usize = own.len();
    let ghost nodes = own.listing();
    let mut k: usize = 0;
    assert(nodes.subrange(0, 0) =~= Seq::<(u32, u64)>::empty());
    assert(so_far + Seq::<ViolationView>::empty() =~= so_far);
    while k < m
        invariant
            m == own.listing().len(),
            nodes == own.listing(),
            k <= m,
            views(out@) == so_far + busy_findings(nodes.subrange(0, k as int), busy@),
        decreases m - k,
    {
        broadcast use group_views;

        let ghost before = busy_findings(nodes.subrange(0, k as int), busy@);
        proof {
            let next = nodes.subrange(0, k as int + 1);
            assert(next.drop_last() =~= nodes.subrange(0, k as int));
            assert(next.last() == nodes[k as int]);
        }
        let node: u32 = *own.key_at(k);
        let us: u64 = own.amount_at(k);
        if busy.contains_key(&node) && busy.get(&node) < us {
            let reported: u64 = busy.get(&node);
            let v = InvariantViolation::new(
                "I-R3",
                Some(join2("node ", decimal(node as u64).as_str())),
                "the node's reported channel busy time is less than its own transmitted airtime: a transmitter hears itself, so the busy accounting has lost time".to_owned(),
            ).count("transmitted_us", us).count("busy_us", reported).count(
                "missing_us",
                us - reported,
            );
            out.push(v);
            assert(views(out@) =~= so_far + before.push(v@));
        }
        k = k + 1;
    }
    assert(nodes.subrange(0, m as int) =~= nodes);
    let checked: u64 = ledger.rx.len() as u64 + ledger.tx.len() as u64;
    InvariantOutcome::of("I-R3", I_R3, checked, out)
}

/// The order of one mobility step.
pub const I_M1: &'static str = "`step` output ordering is by `ActorId`";

/// How many mobility steps some records are from.
pub open spec fn steps(k: Seq<GtKinematicsView>) -> int
    decreases k.len(),
{
    if k.len() == 0 {
        0
    } else if k.len() > 1 && k[k.len() - 2].t == k.last().t {
        steps(k.drop_last())
    } else {
        steps(k.drop_last()) + 1
    }
}

/// The records that come before one of a smaller actor in the same step.
pub open spec fn order_findings(k: Seq<GtKinematicsView>) -> Seq<ViolationView>
    decreases k.len(),
{
    if k.len() == 0 {
        Seq::empty()
    } else {
        let before = order_findings(k.drop_last());
        if k.len() > 1 && k[k.len() - 2].t == k.last().t && k.last().actor < k[k.len() - 2].actor {
            before.push(
                finding(
                    "I-M1"@,
                    Some("t="@ + numeral(k.last().t as nat)),
                    "one mobility step's output is out of actor order"@,
                ).count("previous_actor"@, k[k.len() - 2].actor as int).count(
                    "this_actor"@,
                    k.last().actor as int,
                ),
            )
        } else {
            before
        }
    }
}

/// What the check of the order of mobility steps finds.
pub open spec fn i_m1(l: EventLedger) -> OutcomeView {
    if l.kinematics@.len() == 0 {
        did_not_run("I-M1"@, I_M1@, "no gt.kinematics records"@)
    } else {
        ran("I-M1"@, I_M1@, steps(l.kinematics@), order_findings(l.kinematics@))
    }
}

/// Checks that within one instant the motion records come in the order of the actors.
pub fn check_i_m1(ledger: &EventLedger) -> (r: InvariantOutcome)
    ensures
        r@ == i_m1(*ledger),
{
    broadcast use group_views;

    let k = &ledger.kinematics;
    if k.len() == 0 {
        return InvariantOutcome::not_run("I-M1", I_M1, "no gt.kinematics records");
    }
    let mut out: Vec<InvariantViolation> = Vec::new();
    let mut frames: u64 = 0;
    let mut i: usize = 0;
    assert(k@.subrange(0, 0) =~= Seq::<GtKinematicsView>::empty());
    while i < k.len()
        invariant
            i <= k@.len(),
            0 <= frames <= i,
            frames == steps(k@.subrange(0, i as int)),
            views(out@) == order_findings(k@.subrange(0, i as int)),
        decreases k@.len() - i,
    {
        broadcast use group_views;

        proof {
            let next = k@.subrange(0, i as int + 1);
            assert(next.drop_last() =~= k@.subrange(0, i as int));
            assert(next.last() == k@[i as int]);
            if i > 0 {
                assert(next[next.len() - 2] == k@[i - 1]);
            }
        }
        if i > 0 && k[i - 1].t == k[i].t {
            if k[i].actor < k[i - 1].actor {
                out.push(
                    InvariantViolation::new(
                        "I-M1",
                        Some(join2("t=", decimal(k[i].t).as_str())),
                        "one mobility step's output is out of actor order".to_owned(),
                    ).count("previous_actor", k[i - 1].actor as u64).count(
                        "this_actor",
                        k[i].actor as u64,
                    ),
                );
            }
        } else {
            frames = frames + 1;
        }
        i = i + 1;
    }
    assert(k@.subrange(0, i as int) =~= k@);
    InvariantOutcome::of("I-M1", I_M1, frames, out)
}

} // verus!
