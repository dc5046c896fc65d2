//! Checks on reception censuses, latency decompositions and the layers of a frame.

use vstd::prelude::*;
use vstd::string::*;
use crate::basic::SimTime;
use crate::card::{group_views, views};
use crate::channels::{CensusBin, NodeRxView, NodeTxView, PhyPrrView, PhyRxView, RxFate, RxOutcome, PRR_MAX_MM};
use crate::invariants::fates::attempt_subject;
use crate::invariants::outcome::{did_not_run, finding, ran, InvariantOutcome, InvariantViolation, Number, OutcomeView, ViolationView};
use crate::invariants::records::appended;
use crate::latency::{durations, instants_view, stages_sum_to_the_total, LatencyTrace, TraceView};
use crate::ledger::{one_more, EventLedger};
use crate::tally::{amount, Tally};
use crate::text::{decimal, join2, join3, numeral};

verus! {

/// A reception census counts exactly the decodes.
pub const M_PRR: &'static str = "every frame's reception census accounts for its decodes: in every 20 m range no more receivers decoded than were in range, and the decodes the census counts are exactly the phy.rx decodes of that frame within the census's reach";

/// The message that a reception decoded within the census's reach, if it did.
pub open spec fn decoded_in_reach(r: PhyRxView) -> Option<u64> {
    match (r.outcome, r.msg, r.dist_mm) {
        (RxOutcome::Received, Some(m), Some(d)) => if d < PRR_MAX_MM {
            Some(m)
        } else {
            None
        },
        _ => None,
    }
}

/// How often each message was decoded within the census's reach.
pub open spec fn decodes(rx: Seq<PhyRxView>) -> Map<u64, u64>
    decreases rx.len(),
{
    if rx.len() == 0 {
        Map::empty()
    } else {
        let m = decodes(rx.drop_last());
        match decoded_in_reach(rx.last()) {
            Some(k) => one_more(m, k),
            None => m,
        }
    }
}

/// How many decodes some ranges of a census count.
pub open spec fn census_decodes(bins: Seq<CensusBin>) -> int
    decreases bins.len(),
{
    if bins.len() == 0 {
        0
    } else {
        census_decodes(bins.drop_last()) + bins.last().decoded
    }
}

/// The ranges in which more receivers decoded than were in range.
pub open spec fn bin_findings(msg: u64, bins: Seq<CensusBin>) -> Seq<ViolationView>
    decreases bins.len(),
{
    if bins.len() == 0 {
        Seq::empty()
    } else {
        let b = bins.last();
        appended(
            bin_findings(msg, bins.drop_last()),
            if b.decoded > b.in_range {
                Some(
                    finding(
                        "M-PRR"@,
                        Some("msg "@ + numeral(msg as nat)),
                        "bin "@ + numeral(b.bin as nat) + ": "@ + numeral(b.decoded as nat)
                            + " decodes among "@ + numeral(b.in_range as nat)
                            + " receivers in range"@,
                    ).count("in_range"@, b.in_range as int).count("decoded"@, b.decoded as int),
                )
            } else {
                None
            },
        )
    }
}

/// Everything wrong with one census.
pub open spec fn census_findings(c: PhyPrrView, decoded: Map<u64, u64>) -> Seq<ViolationView> {
    let counted = census_decodes(c.bins@);
    let on_phy = amount(decoded, c.msg);
    appended(
        bin_findings(c.msg, c.bins@),
        if counted != on_phy {
            Some(
                finding(
                    "M-PRR"@,
                    Some("msg "@ + numeral(c.msg as nat)),
                    "the census's decodes are not phy.rx's decodes of the same frame"@,
                ).count("census_decoded"@, counted).count("phy_rx_decoded"@, on_phy as int),
            )
        } else {
            None
        },
    )
}

/// Everything wrong with some censuses.
pub open spec fn censuses_findings(s: Seq<PhyPrrView>, decoded: Map<u64, u64>) -> Seq<ViolationView>
    decreases s.len(),
{
    if s.len() == 0 {
        Seq::empty()
    } else {
        censuses_findings(s.drop_last(), decoded) + census_findings(s.last(), decoded)
    }
}

/// What the check of reception censuses finds.
pub open spec fn m_prr(l: EventLedger) -> OutcomeView {
    if l.prr@.len() == 0 {
        did_not_run("M-PRR"@, M_PRR@, "no phy.prr records"@)
    } else {
        ran("M-PRR"@, M_PRR@, l.prr@.len() as int, censuses_findings(l.prr@, decodes(l.rx@)))
    }
}

fn count_decodes(rx: &Vec<PhyRxView>) -> (r: Tally<u64>)
    ensures
        r@ == decodes(rx@),
{
    let mut out: Tally<u64> = Tally::new();
    let mut i: usize = 0;
    assert(rx@.subrange(0, 0) =~= Seq::<PhyRxView>::empty());
    while i < rx.len()
        invariant
            i <= rx@.len(),
            out@ == decodes(rx@.subrange(0, i as int)),
            out.sum() <= i,
        decreases rx@.len() - i,
    {
        let r = &rx[i];
        proof {
            let next = rx@.subrange(0, i as int + 1);
            assert(next.drop_last() =~= rx@.subrange(0, i as int));
            assert(next.last() == *r);
        }
        if r.outcome == RxOutcome::Received {
            if let Some(m) = r.msg {
                if let Some(d) = r.dist_mm {
                    if d < PRR_MAX_MM {
                        out.increase(m, 1);
                    }
                }
            }
        }
        i = i + 1;
    }
    assert(rx@.subrange(0, i as int) =~= rx@);
    out
}

fn audit_census(c: &PhyPrrView, on_phy: u64, out: &mut Vec<InvariantViolation>, decoded: &Tally<u64>)
    requires
        on_phy == amount(decoded@, c.msg),
    ensures
        views(final(out)@) == views(old(out)@) + census_findings(*c, decoded@),
{
    broadcast use group_views;

    let ghost start = views(out@);
    let subject = join2("msg ", decimal(c.msg).as_str());
    let mut counted: u128 = 0;
    let mut i: usize = 0;
    assert(c.bins@.subrange(0, 0) =~= Seq::<CensusBin>::empty());
    assert(start + Seq::<ViolationView>::empty() =~= start);
    while i < c.bins.len()
        invariant
            i <= c.bins@.len(),
            counted == census_decodes(c.bins@.subrange(0, i as int)),
            counted <= i * 0xffff_ffff,
            subject@ == "msg "@ + numeral(c.msg as nat),
            views(out@) == start + bin_findings(c.msg, c.bins@.subrange(0, i as int)),
        decreases c.bins@.len() - i,
    {
        broadcast use group_views;

        let b: CensusBin = c.bins[i];
        let ghost before = bin_findings(c.msg, c.bins@.subrange(0, i as int));
        proof {
            let next = c.bins@.subrange(0, i as int + 1);
            assert(next.drop_last() =~= c.bins@.subrange(0, i as int));
            assert(next.last() == b);
        }
        if b.decoded > b.in_range {
            let mut detail = join3("bin ", decimal(b.bin as u64).as_str(), ": ");
            detail.append(decimal(b.decoded as u64).as_str());
            detail.append(" decodes among ");
            detail.append(decimal(b.in_range as u64).as_str());
            detail.append(" receivers in range");
            let v = InvariantViolation::new("M-PRR", Some(subject.clone()), detail).count(
                "in_range",
                b.in_range as u64,
            ).count("decoded", b.decoded as u64);
            out.push(v);
            assert(views(out@) =~= start + before.push(v@));
        }
        counted = counted + b.decoded as u128;
        i = i + 1;
    }
    assert(c.bins@.subrange(0, i as int) =~= c.bins@);
    if counted != on_phy as u128 {
        let v = InvariantViolation::new(
            "M-PRR",
            Some(subject),
            "the census's decodes are not phy.rx's decodes of the same frame".to_owned(),
        ).with("census_decoded", Number::Int(counted as i64)).count("phy_rx_decoded", on_phy);
        out.push(v);
        assert(views(out@) =~= start + bin_findings(c.msg, c.bins@).push(v@));
    }
}

/// Checks that every reception census counts exactly the decodes of its frame, and in no
/// range more of them than there were receivers.
pub fn check_m_prr(ledger: &EventLedger) -> (r: InvariantOutcome)
    ensures
        r@ == m_prr(*ledger),
{
    broadcast use group_views;

    let s = &ledger.prr;
    if s.len() == 0 {
        return InvariantOutcome::not_run("M-PRR", M_PRR, "no phy.prr records");
    }
    let decoded = count_decodes(&ledger.rx);
    let mut out: Vec<InvariantViolation> = Vec::new();
    let mut i: usize = 0;
    assert(s@.subrange(0, 0) =~= Seq::<PhyPrrView>::empty());
    while i < s.len()
        invariant
            i <= s@.len(),
            views(out@) == censuses_findings(s@.subrange(0, i as int), decoded@),
        decreases s@.len() - i,
    {
        proof {
            let next = s@.subrange(0, i as int + 1);
            assert(next.drop_last() =~= s@.subrange(0, i as int));
            assert(next.last() == s@[i as int]);
        }
        let on_phy: u64 = decoded.get(&s[i].msg);
        audit_census(&s[i], on_phy, &mut out, &decoded);
        i = i + 1;
    }
    assert(s@.subrange(0, i as int) =~= s@);
    InvariantOutcome::of("M-PRR", M_PRR, s.len() as u64, out)
}

/// Latency stages tile the journey.
pub const M_LAT1: &'static str = "every delivered message's stamps run forward in time and its latency stages tile the interval from generation to delivery, so they sum to the end-to-end latency exactly";

/// A violation with some named instants.
pub open spec fn with_instants(v: ViolationView, s: Seq<(Seq<char>, SimTime)>) -> ViolationView
    decreases s.len(),
{
    if s.len() == 0 {
        v
    } else {
        with_instants(v, s.drop_last()).count(s.last().0, s.last().1 as int)
    }
}

/// What is wrong with one decomposition.
pub open spec fn trace_finding(subject: Seq<char>, t: Option<TraceView>, e2e: Option<u64>) -> Option<
    ViolationView,
> {
    match t {
        None => Some(
            finding(
                "M-LAT1"@,
                Some(subject),
                "the delivery's stamps are incomplete or do not close on its delivery instant, so its latency cannot be decomposed"@,
            ),
        ),
        Some(trace) => match trace.fault() {
            Some(f) => Some(
                with_instants(
                    finding("M-LAT1"@, Some(subject), trace.defect(f).text()),
                    trace.defect(f).named_instants(),
                ),
            ),
            None => if e2e is Some && e2e != trace.total() {
                Some(
                    finding(
                        "M-LAT1"@,
                        Some(subject),
                        "the stages do not sum to the end-to-end latency"@,
                    ).count("stages_ns"@, durations(trace.spans)).count(
                        "total_ns"@,
                        durations(trace.spans),
                    ),
                )
            } else {
                None
            },
        },
    }
}

/// How many messages were delivered.
pub open spec fn delivered_count(s: Seq<NodeRxView>) -> int
    decreases s.len(),
{
    if s.len() == 0 {
        0
    } else {
        delivered_count(s.drop_last()) + (if s.last().outcome == RxFate::Delivered {
            1int
        } else {
            0int
        })
    }
}

/// What is wrong with the decomposition of some deliveries.
pub open spec fn delivery_findings(s: Seq<NodeRxView>) -> Seq<ViolationView>
    decreases s.len(),
{
    if s.len() == 0 {
        Seq::empty()
    } else {
        let v = s.last();
        appended(
            delivery_findings(s.drop_last()),
            if v.outcome == RxFate::Delivered {
                trace_finding(attempt_subject(v.msg, v.rx), v.trace(), v.latency())
            } else {
                None
            },
        )
    }
}

/// An optional number as it is written for debugging.
pub open spec fn optional_number(n: Option<u64>) -> Seq<char> {
    match n {
        Some(k) => "Some("@ + numeral(k as nat) + ")"@,
        None => "None"@,
    }
}

/// What is wrong with some recorded decompositions.
pub open spec fn latency_findings(s: Seq<LatencyTrace>) -> Seq<ViolationView>
    decreases s.len(),
{
    if s.len() == 0 {
        Seq::empty()
    } else {
        let t = s.last();
        appended(
            latency_findings(s.drop_last()),
            trace_finding(t.flow@ + " msg "@ + optional_number(t.msg), Some(t@), None),
        )
    }
}

/// What the check of latency decompositions finds.
pub open spec fn m_lat1(l: EventLedger) -> OutcomeView {
    if delivered_count(l.node_rx@) == 0 && l.latency@.len() == 0 {
        did_not_run("M-LAT1"@, M_LAT1@, "no delivered node.rx and no msg.latency records"@)
    } else {
        ran(
            "M-LAT1"@,
            M_LAT1@,
            delivered_count(l.node_rx@) + l.latency@.len(),
            delivery_findings(l.node_rx@) + latency_findings(l.latency@),
        )
    }
}

fn debug_number(n: Option<u64>) -> (r: String)
    ensures
        r@ == optional_number(n),
{
    match n {
        Some(k) => join3("Some(", decimal(k).as_str(), ")"),
        None => "None".to_owned(),
    }
}

fn count_instants(v: InvariantViolation, s: &Vec<(&'static str, SimTime)>) -> (r: InvariantViolation)
    ensures
        r@ == with_instants(v@, instants_view(s@)),
{
    let ghost v0 = v@;
    let ghost all = instants_view(s@);
    let mut out = v;
    let mut i: usize = 0;
    assert(all.subrange(0, 0) =~= Seq::<(Seq<char>, SimTime)>::empty());
    while i < s.len()
        invariant
            all == instants_view(s@),
            all.len() == s@.len(),
            i <= s@.len(),
            out@ == with_instants(v0, all.subrange(0, i as int)),
        decreases s@.len() - i,
    {
        proof {
            let next = all.subrange(0, i as int + 1);
            assert(next.drop_last() =~= all.subrange(0, i as int));
            assert(next.last() == (s@[i as int].0@, s@[i as int].1));
        }
        out = out.count(s[i].0, s[i].1);
        i = i + 1;
    }
    assert(all.subrange(0, i as int) =~= all);
    out
}

fn audit_trace(subject: String, trace: &LatencyTrace, e2e: Option<u64>) -> (r: Option<
    InvariantViolation,
>)
    ensures
        match r {
            Some(v) => trace_finding(subject@, Some(trace@), e2e) == Some(v@),
            None => trace_finding(subject@, Some(trace@), e2e) is None,
        },
{
    match trace.validate() {
        Err(defect) => {
            let numbers = defect.instants();
            let v = InvariantViolation::new("M-LAT1", Some(subject), defect.to_text());
            Some(count_instants(v, &numbers))
        },
        Ok(_) => {
            proof {
                stages_sum_to_the_total(trace@);
            }
            let stages: u64 = trace.stage_ns().total();
            let total: u64 = match trace.total_ns() {
                Some(t) => t,
                None => 0,
            };
            let differs: bool = match e2e {
                Some(e) => e != total,
                None => false,
            };
            if stages != total || differs {
                Some(
                    InvariantViolation::new(
                        "M-LAT1",
                        Some(subject),
                        "the stages do not sum to the end-to-end latency".to_owned(),
                    ).count("stages_ns", stages).count("total_ns", total),
                )
            } else {
                None
            }
        },
    }
}

/// Checks that every delivery, and every recorded decomposition, tiles its journey.
pub fn check_m_lat1(ledger: &EventLedger) -> (r: InvariantOutcome)
    requires
        ledger.node_rx@.len() + ledger.latency@.len() <= u64::MAX,
    ensures
        r@ == m_lat1(*ledger),
{
    broadcast use group_views;

    let s = &ledger.node_rx;
    let mut out: Vec<InvariantViolation> = Vec::new();
    let mut delivered: u64 = 0;
    let mut i: usize = 0;
    assert(s@.subrange(0, 0) =~= Seq::<NodeRxView>::empty());
    while i < s.len()
        invariant
            i <= s@.len(),
            0 <= delivered <= i,
            delivered == delivered_count(s@.subrange(0, i as int)),
            views(out@) == delivery_findings(s@.subrange(0, i as int)),
        decreases s@.len() - i,
    {
        broadcast use group_views;

        let v = &s[i];
        proof {
            let next = s@.subrange(0, i as int + 1);
            assert(next.drop_last() =~= s@.subrange(0, i as int));
            assert(next.last() == *v);
        }
        if v.outcome == RxFate::Delivered {
            delivered = delivered + 1;
            let m = match v.msg {
                Some(m) => decimal(m),
                None => "?".to_owned(),
            };
            let mut subject = join3("msg ", m.as_str(), " at node ");
            subject.append(decimal(v.rx as u64).as_str());
            match v.latency_trace() {
                None => {
                    out.push(
                        InvariantViolation::new(
                            "M-LAT1",
                            Some(subject),
                            "the delivery's stamps are incomplete or do not close on its delivery instant, so its latency cannot be decomposed".to_owned(),
                        ),
                    );
                },
                Some(trace) => {
                    if let Some(f) = audit_trace(subject, &trace, v.e2e_ns()) {
                        out.push(f);
                    }
                },
            }
        }
        i = i + 1;
    }
    assert(s@.subrange(0, i as int) =~= s@);
    let ghost first = delivery_findings(s@);
    let l = &ledger.latency;
    let mut j: usize = 0;
    assert(l@.subrange(0, 0) =~= Seq::<LatencyTrace>::empty());
    assert(first + Seq::<ViolationView>::empty() =~= first);
    while j < l.len()
        invariant
            j <= l@.len(),
            views(out@) == first + latency_findings(l@.subrange(0, j as int)),
        decreases l@.len() - j,
    {
        broadcast use group_views;

        let ghost before = latency_findings(l@.subrange(0, j as int));
        proof {
            let next = l@.subrange(0, j as int + 1);
            assert(next.drop_last() =~= l@.subrange(0, j as int));
            assert(next.last() == l@[j as int]);
        }
        let subject = join3(l[j].flow.as_str(), " msg ", debug_number(l[j].msg).as_str());
        if let Some(f) = audit_trace(subject, &l[j], None) {
            out.push(f);
            assert(views(out@) =~= first + before.push(f@));
        }
        j = j + 1;
    }
    assert(l@.subrange(0, j as int) =~= l@);
    if delivered == 0 && l.len() == 0 {
        return InvariantOutcome::not_run(
            "M-LAT1",
            M_LAT1,
            "no delivered node.rx and no msg.latency records",
        );
    }
    InvariantOutcome::of("M-LAT1", M_LAT1, delivered + l.len() as u64, out)
}

/// The layers of a frame add up.
pub const M_BYTE1: &'static str = "every frame's octets on the air are exactly its payload, envelope, fragmentation, network and link octets — each octet in one layer";

/// How many transmissions are split into layers.
pub open spec fn split_count(tx: Seq<NodeTxView>) -> int
    decreases tx.len(),
{
    if tx.len() == 0 {
        0
    } else {
        split_count(tx.drop_last()) + (if tx.last().layers_add_up() is Some {
            1int
        } else {
            0int
        })
    }
}

/// What a layer counts, absent being none.
pub open spec fn octets(n: Option<u64>) -> int {
    match n {
        Some(k) => k as int,
        None => 0,
    }
}

/// The transmissions whose layers do not add up.
pub open spec fn layer_findings(tx: Seq<NodeTxView>) -> Seq<ViolationView>
    decreases tx.len(),
{
    if tx.len() == 0 {
        Seq::empty()
    } else {
        let t = tx.last();
        appended(
            layer_findings(tx.drop_last()),
            if t.layers_add_up() == Some(false) {
                Some(
                    finding(
                        "M-BYTE1"@,
                        Some(
                            "msg "@ + optional_number(t.msg) + " from node "@ + numeral(
                                t.node as nat,
                            ),
                        ),
                        "the layers do not add up to the octets on the air"@,
                    ).count("bytes_on_wire"@, t.bytes_on_wire as int).count(
                        "link"@,
                        octets(t.link_bytes),
                    ).count("net"@, octets(t.net_header_bytes)).count(
                        "spdu"@,
                        octets(t.spdu_bytes),
                    ),
                )
            } else {
                None
            },
        )
    }
}

/// What the check of frame layers finds.
pub open spec fn m_byte1(l: EventLedger) -> OutcomeView {
    if split_count(l.tx@) == 0 {
        did_not_run("M-BYTE1"@, M_BYTE1@, "no node.tx with a layer split"@)
    } else {
        ran("M-BYTE1"@, M_BYTE1@, split_count(l.tx@), layer_findings(l.tx@))
    }
}

fn or_none(n: Option<u64>) -> (r: u64)
    ensures
        r == octets(n),
{
    match n {
        Some(k) => k,
        None => 0,
    }
}

/// Checks that the layers of every split frame add up to its octets on the air.
pub fn check_m_byte1(ledger: &EventLedger) -> (r: InvariantOutcome)
    ensures
        r@ == m_byte1(*ledger),
{
    broadcast use group_views;

    let tx = &ledger.tx;
    let mut out: Vec<InvariantViolation> = Vec::new();
    let mut split: u64 = 0;
    let mut i: usize = 0;
    assert(tx@.subrange(0, 0) =~= Seq::<NodeTxView>::empty());
    while i < tx.len()
        invariant
            i <= tx@.len(),
            0 <= split <= i,
            split == split_count(tx@.subrange(0, i as int)),
            views(out@) == layer_findings(tx@.subrange(0, i as int)),
        decreases tx@.len() - i,
    {
        broadcast use group_views;

        let t = &tx[i];
        proof {
            let next = tx@.subrange(0, i as int + 1);
            assert(next.drop_last() =~= tx@.subrange(0, i as int));
            assert(next.last() == *t);
        }
        match t.layers_consistent() {
            None => {},
            Some(consistent) => {
                split = split + 1;
                if !consistent {
                    let mut subject = join3("msg ", debug_number(t.msg).as_str(), " from node ");
                    subject.append(decimal(t.node as u64).as_str());
                    out.push(
                        InvariantViolation::new(
                            "M-BYTE1",
                            Some(subject),
                            "the layers do not add up to the octets on the air".to_owned(),
                        ).count("bytes_on_wire", t.bytes_on_wire).count(
                            "link",
                            or_none(t.link_bytes),
                        ).count("net", or_none(t.net_header_bytes)).count(
                            "spdu",
                            or_none(t.spdu_bytes),
                        ),
                    );
                }
            },
        }
        i = i + 1;
    }
    assert(tx@.subrange(0, i as int) =~= tx@);
    if split == 0 {
        return InvariantOutcome::not_run("M-BYTE1", M_BYTE1, "no node.tx with a layer split");
    }
    InvariantOutcome::of("M-BYTE1", M_BYTE1, split, out)
}

} // verus!
