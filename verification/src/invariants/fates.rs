//! The check on what became of every reception attempt.

use vstd::prelude::*;
use vstd::string::*;
use crate::card::{group_views, views};
use crate::channels::{cause_is_known, cause_is_phy, is_known_cause, is_phy_cause, NodeRxView, PhyRxView, RxFate, RxOutcome};
use crate::invariants::outcome::{did_not_run, finding, ran, InvariantOutcome, InvariantViolation, OutcomeView, ViolationView};
use crate::invariants::records::appended;
use crate::keyed::{in_order, optional_text, SortedMap};
use crate::ledger::{one_more, EventLedger};
use crate::outside::{quoted, quoted_text};
use crate::tally::Tally;
use crate::text::{decimal, join2, join3, numeral, same_text, str_texts};

verus! {

/// Every reception attempt has exactly one fate.
pub const M_RX1: &'static str = "every reception attempt on phy.rx is followed to exactly one node.rx fate — delivered, lost with exactly one known cause, or in flight at the end of the run — so delivered + lost + in flight = attempts, and a PHY loss is the same loss on both channels";

/// Why the physical layer lost a frame, if it did.
pub struct PhyLoss {
    /// The cause, empty where none was recorded; nothing where the frame was received.
    pub cause: Option<String>,
}

impl View for PhyLoss {
    type V = Option<Seq<char>>;

    open spec fn view(&self) -> Option<Seq<char>> {
        optional_text(self.cause)
    }
}

/// What the physical layer says of one reception.
pub open spec fn phy_loss(r: PhyRxView) -> Option<Seq<char>> {
    if r.outcome == RxOutcome::Lost {
        if r.every_cause().len() > 0 {
            Some(r.every_cause()[0])
        } else {
            Some(Seq::empty())
        }
    } else {
        None
    }
}

/// What the physical layer says of every attempt that names its message, the latest word
/// counting.
pub open spec fn phy_attempts(rx: Seq<PhyRxView>) -> Map<(u64, u32), Option<Seq<char>>>
    decreases rx.len(),
{
    if rx.len() == 0 {
        Map::empty()
    } else {
        let m = phy_attempts(rx.drop_last());
        match rx.last().msg {
            Some(k) => m.insert((k, rx.last().rx), phy_loss(rx.last())),
            None => m,
        }
    }
}

/// How many attempts name no message.
pub open spec fn unkeyed_attempts(rx: Seq<PhyRxView>) -> int
    decreases rx.len(),
{
    if rx.len() == 0 {
        0
    } else {
        unkeyed_attempts(rx.drop_last()) + (if rx.last().msg is None {
            1int
        } else {
            0int
        })
    }
}

/// What an attempt is called.
pub open spec fn attempt_subject(msg: Option<u64>, rx: u32) -> Seq<char> {
    "msg "@ + (match msg {
        Some(m) => numeral(m as nat),
        None => "?"@,
    }) + " at node "@ + numeral(rx as nat)
}

/// The attempts that the physical layer records twice.
pub open spec fn repeated_findings(rx: Seq<PhyRxView>) -> Seq<ViolationView>
    decreases rx.len(),
{
    if rx.len() == 0 {
        Seq::empty()
    } else {
        let before = repeated_findings(rx.drop_last());
        match rx.last().msg {
            Some(m) => if phy_attempts(rx.drop_last()).contains_key((m, rx.last().rx)) {
                before.push(
                    finding(
                        "M-RX1"@,
                        Some(attempt_subject(Some(m), rx.last().rx)),
                        "phy.rx records the same attempt twice"@,
                    ),
                )
            } else {
                before
            },
            None => before,
        }
    }
}

/// How many fates are of one kind.
pub open spec fn fate_count(s: Seq<NodeRxView>, f: RxFate) -> int
    decreases s.len(),
{
    if s.len() == 0 {
        0
    } else {
        fate_count(s.drop_last(), f) + (if s.last().outcome == f {
            1int
        } else {
            0int
        })
    }
}

/// How many fates each attempt has.
pub open spec fn fates_seen(s: Seq<NodeRxView>) -> Map<(u64, u32), u64>
    decreases s.len(),
{
    if s.len() == 0 {
        Map::empty()
    } else {
        let m = fates_seen(s.drop_last());
        match s.last().msg {
            Some(k) => one_more(m, (k, s.last().rx)),
            None => m,
        }
    }
}

/// An optional text as it is written for debugging.
pub open spec fn optional_debug(s: Option<Seq<char>>) -> Seq<char> {
    match s {
        Some(t) => "Some("@ + quoted_text(t) + ")"@,
        None => "None"@,
    }
}

/// What is wrong with the cause of one fate.
pub open spec fn fate_cause_finding(v: NodeRxView) -> Option<ViolationView> {
    let subject = Some(attempt_subject(v.msg, v.rx));
    match v.outcome {
        RxFate::Delivered => if v.cause is Some {
            Some(finding("M-RX1"@, subject, "a delivered attempt carries a loss cause"@))
        } else {
            None
        },
        RxFate::Lost => match v.cause {
            None => Some(finding("M-RX1"@, subject, "a lost attempt carries no cause"@)),
            Some(c) => if !cause_is_known(c@) {
                Some(
                    finding(
                        "M-RX1"@,
                        subject,
                        "the loss cause '"@ + c@ + "' is not in the node.rx vocabulary"@,
                    ),
                )
            } else {
                None
            },
        },
        RxFate::InFlight => None,
    }
}

/// How one fate disagrees with the physical layer.
pub open spec fn fate_match_finding(
    v: NodeRxView,
    phy: Map<(u64, u32), Option<Seq<char>>>,
) -> Option<ViolationView> {
    let subject = Some(attempt_subject(v.msg, v.rx));
    match v.msg {
        None => Some(
            finding(
                "M-RX1"@,
                subject,
                "a node.rx record names no message, so it cannot be matched to its attempt"@,
            ),
        ),
        Some(m) => if !phy.contains_key((m, v.rx)) {
            Some(finding("M-RX1"@, subject, "a node.rx fate with no phy.rx attempt behind it"@))
        } else {
            match phy[(m, v.rx)] {
                Some(cause) => if v.outcome != RxFate::Lost || optional_text(v.cause) != Some(
                    cause,
                ) {
                    Some(
                        finding(
                            "M-RX1"@,
                            subject,
                            "the PHY lost this frame to '"@ + cause + "', and node.rx says "@
                                + v.outcome.text() + " ("@ + optional_debug(optional_text(v.cause))
                                + ")"@,
                        ),
                    )
                } else {
                    None
                },
                None => if v.cause is Some && cause_is_phy(v.cause->Some_0@) {
                    Some(
                        finding(
                            "M-RX1"@,
                            subject,
                            "the PHY decoded this frame, and node.rx blames the PHY for losing it"@,
                        ),
                    )
                } else {
                    None
                },
            }
        },
    }
}

/// Everything wrong with some fates.
pub open spec fn fate_findings(
    s: Seq<NodeRxView>,
    phy: Map<(u64, u32), Option<Seq<char>>>,
) -> Seq<ViolationView>
    decreases s.len(),
{
    if s.len() == 0 {
        Seq::empty()
    } else {
        appended(
            appended(fate_findings(s.drop_last(), phy), fate_cause_finding(s.last())),
            fate_match_finding(s.last(), phy),
        )
    }
}

/// The attempts with more than one fate.
pub open spec fn double_fate_findings(s: Seq<((u64, u32), u64)>) -> Seq<ViolationView>
    decreases s.len(),
{
    if s.len() == 0 {
        Seq::empty()
    } else {
        let ((m, rx), n) = s.last();
        appended(
            double_fate_findings(s.drop_last()),
            if n > 1 {
                Some(
                    finding(
                        "M-RX1"@,
                        Some(attempt_subject(Some(m), rx)),
                        numeral(n as nat) + " node.rx fates for one attempt"@,
                    ).count("fates"@, n as int),
                )
            } else {
                None
            },
        )
    }
}

/// How many of some attempts have no fate.
pub open spec fn fateless(
    s: Seq<((u64, u32), Option<Seq<char>>)>,
    seen: Map<(u64, u32), u64>,
) -> int
    decreases s.len(),
{
    if s.len() == 0 {
        0
    } else {
        fateless(s.drop_last(), seen) + (if seen.contains_key(s.last().0) {
            0int
        } else {
            1int
        })
    }
}

/// The finding that the fates are not the attempts.
pub open spec fn balance_finding(
    attempts: int,
    delivered: int,
    in_flight: int,
    lost: int,
    unmatched: int,
) -> Option<ViolationView> {
    if delivered + lost + in_flight != attempts || unmatched > 0 {
        Some(
            finding(
                "M-RX1"@,
                None,
                "delivered + lost + in flight on node.rx is not the attempts on phy.rx"@,
            ).count("attempts"@, attempts).count("delivered"@, delivered).count(
                "in_flight"@,
                in_flight,
            ).count("lost"@, lost).count("unmatched_attempts"@, unmatched),
        )
    } else {
        None
    }
}

/// What the check of reception fates finds.
pub open spec fn m_rx1(l: EventLedger) -> OutcomeView {
    let rx = l.rx@;
    let s = l.node_rx@;
    if s.len() == 0 {
        did_not_run("M-RX1"@, M_RX1@, "no node.rx records"@)
    } else {
        let phy = phy_attempts(rx);
        let attempts = in_order::<(u64, u32), Option<Seq<char>>>(phy);
        let seen = fates_seen(s);
        ran(
            "M-RX1"@,
            M_RX1@,
            s.len() as int,
            appended(
                repeated_findings(rx) + fate_findings(s, phy) + double_fate_findings(
                    in_order::<(u64, u32), u64>(seen),
                ),
                balance_finding(
                    attempts.len() + unkeyed_attempts(rx),
                    fate_count(s, RxFate::Delivered),
                    fate_count(s, RxFate::InFlight),
                    fate_count(s, RxFate::Lost),
                    fateless(attempts, seen),
                ),
            ),
        )
    }
}

fn attempt_name(msg: Option<u64>, rx: u32) -> (r: String)
    ensures
        r@ == attempt_subject(msg, rx),
{
    let m = match msg {
        Some(m) => decimal(m),
        None => "?".to_owned(),
    };
    let mut s = join3("msg ", m.as_str(), " at node ");
    s.append(decimal(rx as u64).as_str());
    s
}

fn first_loss(r: &PhyRxView) -> (l: PhyLoss)
    ensures
        l@ == phy_loss(*r),
{
    match r.outcome {
        RxOutcome::Received => PhyLoss { cause: None },
        RxOutcome::Lost => {
            let causes = r.all_causes();
            assert(str_texts(causes@).len() == causes@.len());
            if causes.len() > 0 {
                assert(str_texts(causes@)[0] == causes@[0]@);
                PhyLoss { cause: Some(causes[0].to_owned()) }
            } else {
                PhyLoss { cause: Some(String::new()) }
            }
        },
    }
}

fn audit_fate(v: &NodeRxView, phy: &SortedMap<(u64, u32), PhyLoss>, out: &mut Vec<InvariantViolation>)
    ensures
        views(final(out)@) == appended(
            appended(views(old(out)@), fate_cause_finding(*v)),
            fate_match_finding(*v, phy@),
        ),
{
    broadcast use group_views;

    let subject = attempt_name(v.msg, v.rx);
    match v.outcome {
        RxFate::Delivered => {
            if v.cause.is_some() {
                out.push(
                    InvariantViolation::new(
                        "M-RX1",
                        Some(subject.clone()),
                        "a delivered attempt carries a loss cause".to_owned(),
                    ),
                );
            }
        },
        RxFate::Lost => {
            match &v.cause {
                None => {
                    out.push(
                        InvariantViolation::new(
                            "M-RX1",
                            Some(subject.clone()),
                            "a lost attempt carries no cause".to_owned(),
                        ),
                    );
                },
                Some(c) => {
                    if !is_known_cause(c.as_str()) {
                        out.push(
                            InvariantViolation::new(
                                "M-RX1",
                                Some(subject.clone()),
                                join3(
                                    "the loss cause '",
                                    c.as_str(),
                                    "' is not in the node.rx vocabulary",
                                ),
                            ),
                        );
                    }
                },
            }
        },
        RxFate::InFlight => {},
    }
    match v.msg {
        None => {
            out.push(
                InvariantViolation::new(
                    "M-RX1",
                    Some(subject),
                    "a node.rx record names no message, so it cannot be matched to its attempt".to_owned(),
                ),
            );
        },
        Some(m) => {
            match phy.get(&(m, v.rx)) {
                None => {
                    out.push(
                        InvariantViolation::new(
                            "M-RX1",
                            Some(subject),
                            "a node.rx fate with no phy.rx attempt behind it".to_owned(),
                        ),
                    );
                },
                Some(loss) => match &loss.cause {
                    Some(cause) => {
                        let same: bool = match &v.cause {
                            Some(c) => same_text(c.as_str(), cause.as_str()),
                            None => false,
                        };
                        if v.outcome != RxFate::Lost || !same {
                            let mut detail = join3(
                                "the PHY lost this frame to '",
                                cause.as_str(),
                                "', and node.rx says ",
                            );
                            detail.append(v.outcome.as_str());
                            detail.append(" (");
                            let shown = match &v.cause {
                                Some(c) => join3("Some(", quoted(c.as_str()).as_str(), ")"),
                                None => "None".to_owned(),
                            };
                            detail.append(shown.as_str());
                            detail.append(")");
                            out.push(InvariantViolation::new("M-RX1", Some(subject), detail));
                        }
                    },
                    None => {
                        let blames: bool = match &v.cause {
                            Some(c) => is_phy_cause(c.as_str()),
                            None => false,
                        };
                        if blames {
                            out.push(
                                InvariantViolation::new(
                                    "M-RX1",
                                    Some(subject),
                                    "the PHY decoded this frame, and node.rx blames the PHY for losing it".to_owned(),
                                ),
                            );
                        }
                    },
                },
            }
        },
    }
}

/// Checks that every reception attempt is followed to exactly one fate, that every loss
/// names a known cause, and that the physical layer's losses are the same on both
/// channels.
pub fn check_m_rx1(ledger: &EventLedger) -> (r: InvariantOutcome)
    ensures
        r@ == m_rx1(*ledger),
{
    broadcast use group_views;

    let rx = &ledger.rx;
    let s = &ledger.node_rx;
    if s.len() == 0 {
        return InvariantOutcome::not_run("M-RX1", M_RX1, "no node.rx records");
    }
    let mut out: Vec<InvariantViolation> = Vec::new();
    let mut phy: SortedMap<(u64, u32), PhyLoss> = SortedMap::new();
    let mut unkeyed: u64 = 0;
    let mut i: usize = 0;
    assert(rx@.subrange(0, 0) =~= Seq::<PhyRxView>::empty());
    while i < rx.len()
        invariant
            i <= rx@.len(),
            0 <= unkeyed <= i,
            unkeyed == unkeyed_attempts(rx@.subrange(0, i as int)),
            phy@ == phy_attempts(rx@.subrange(0, i as int)),
            phy.listing().len() + unkeyed <= i,
            views(out@) == repeated_findings(rx@.subrange(0, i as int)),
        decreases rx@.len() - i,
    {
        broadcast use group_views;

        let r = &rx[i];
        proof {
            let next = rx@.subrange(0, i as int + 1);
            assert(next.drop_last() =~= rx@.subrange(0, i as int));
            assert(next.last() == *r);
        }
        match r.msg {
            Some(m) => {
                if phy.insert((m, r.rx), first_loss(r)).is_some() {
                    out.push(
                        InvariantViolation::new(
                            "M-RX1",
                            Some(attempt_name(Some(m), r.rx)),
                            "phy.rx records the same attempt twice".to_owned(),
                        ),
                    );
                }
            },
            None => {
                unkeyed = unkeyed + 1;
            },
        }
        i = i + 1;
    }
    assert(rx@.subrange(0, i as int) =~= rx@);
    let ghost first = repeated_findings(rx@);
    let mut delivered: u64 = 0;
    let mut lost: u64 = 0;
    let mut in_flight: u64 = 0;
    let mut seen: Tally<(u64, u32)> = Tally::new();
    let mut j: usize = 0;
    assert(s@.subrange(0, 0) =~= Seq::<NodeRxView>::empty());
    assert(first + Seq::<ViolationView>::empty() =~= first);
    while j < s.len()
        invariant
            j <= s@.len(),
            0 <= delivered <= j,
            0 <= lost <= j,
            0 <= in_flight <= j,
            delivered + lost + in_flight == j,
            delivered == fate_count(s@.subrange(0, j as int), RxFate::Delivered),
            lost == fate_count(s@.subrange(0, j as int), RxFate::Lost),
            in_flight == fate_count(s@.subrange(0, j as int), RxFate::InFlight),
            seen@ == fates_seen(s@.subrange(0, j as int)),
            seen.sum() <= j,
            views(out@) == first + fate_findings(s@.subrange(0, j as int), phy@),
        decreases s@.len() - j,
    {
        let v = &s[j];
        let ghost before = fate_findings(s@.subrange(0, j as int), phy@);
        proof {
            let next = s@.subrange(0, j as int + 1);
            assert(next.drop_last() =~= s@.subrange(0, j as int));
            assert(next.last() == *v);
        }
        match v.outcome {
            RxFate::Delivered => {
                delivered = delivered + 1;
            },
            RxFate::Lost => {
                lost = lost + 1;
            },
            RxFate::InFlight => {
                in_flight = in_flight + 1;
            },
        }
        audit_fate(v, &phy, &mut out);
        assert(views(out@) =~= first + appended(
            appended(before, fate_cause_finding(*v)),
            fate_match_finding(*v, phy@),
        ));
        if let Some(m) = v.msg {
            seen.increase((m, v.rx), 1);
        }
        j = j + 1;
    }
    assert(s@.subrange(0, j as int) =~= s@);
    let ghost second = first + fate_findings(s@, phy@);
    let n: usize = seen.len();
    let ghost listing = seen.listing();
    let mut k: usize = 0;
    assert(listing.subrange(0, 0) =~= Seq::<((u64, u32), u64)>::empty());
    assert(second + Seq::<ViolationView>::empty() =~= second);
    while k < n
        invariant
            n == seen.listing().len(),
            listing == seen.listing(),
            k <= n,
            views(out@) == second + double_fate_findings(listing.subrange(0, k as int)),
        decreases n - k,
    {
        broadcast use group_views;

        let ghost before = double_fate_findings(listing.subrange(0, k as int));
        proof {
            let next = listing.subrange(0, k as int + 1);
            assert(next.drop_last() =~= listing.subrange(0, k as int));
            assert(next.last() == listing[k as int]);
        }
        let fates: u64 = seen.amount_at(k);
        if fates > 1 {
            let key: (u64, u32) = *seen.key_at(k);
            let v = InvariantViolation::new(
                "M-RX1",
                Some(attempt_name(Some(key.0), key.1)),
                join2(decimal(fates).as_str(), " node.rx fates for one attempt"),
            ).count("fates", fates);
            out.push(v);
            assert(views(out@) =~= second + before.push(v@));
        }
        k = k + 1;
    }
    assert(listing.subrange(0, n as int) =~= listing);
    let m: usize = phy.len();
    let ghost attempts = phy.listing();
    let mut missing: u64 = 0;
    let mut q: usize = 0;
    assert(attempts.subrange(0, 0) =~= Seq::<((u64, u32), Option<Seq<char>>)>::empty());
    while q < m
        invariant
            m == phy.listing().len(),
            attempts == phy.listing(),
            q <= m,
            0 <= missing <= q,
            missing == fateless(attempts.subrange(0, q as int), seen@),
        decreases m - q,
    {
        proof {
            let next = attempts.subrange(0, q as int + 1);
            assert(next.drop_last() =~= attempts.subrange(0, q as int));
            assert(next.last() == attempts[q as int]);
        }
        if !seen.contains_key(phy.key_at(q)) {
            missing = missing + 1;
        }
        q = q + 1;
    }
    assert(attempts.subrange(0, m as int) =~= attempts);
    let total: u64 = m as u64 + unkeyed;
    if delivered + lost + in_flight != total || missing > 0 {
        out.push(
            InvariantViolation::new(
                "M-RX1",
                None,
                "delivered + lost + in flight on node.rx is not the attempts on phy.rx".to_owned(),
            ).count("attempts", total).count("delivered", delivered).count(
                "in_flight",
                in_flight,
            ).count("lost", lost).count("unmatched_attempts", missing),
        );
    }
    InvariantOutcome::of("M-RX1", M_RX1, s.len() as u64, out)
}

} // verus!
