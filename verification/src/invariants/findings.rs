//! What the checks find: one more record is one more finding exactly where it breaks the
//! invariant, and the finding says what it is about and with what numbers.

use vstd::prelude::*;
use vstd::string::*;
use crate::channels::{CensusBin, EventRecord, GtAttackActionView, GtKinematicsView, NodeRxView, NodeTxView, NodeVerifyView, PhyPrrView, PhyRxView, ProtoRevocationView, RxFate, RxOutcome};
use crate::def::{DefView, SampleView};
use crate::invariants::all_outcomes;
use crate::invariants::fates::attempt_subject;
use crate::invariants::frames::{bin_findings, census_decodes, censuses_findings, delivered_count, delivery_findings, layer_findings, split_count};
use crate::invariants::leaks::{attack_findings, on_air_count, stage_findings, tag_findings, transmitted};
use crate::invariants::outcome::{Number, ViolationView};
use crate::invariants::records::{busy_findings, cause_findings, order_findings, partial_findings, reception_subject, steps};
use crate::invariants::runs::{record_findings, size_findings, verify_findings};
use crate::invariants::samples::{grid_findings, range_findings};
use crate::basic::Visibility;
use crate::ledger::EventLedger;
use crate::quant::{on_grid, quantised_real, Real};
use crate::tally::amount;
use crate::text::numeral;

verus! {

/// True if one thing more was found: that an invariant is broken by a subject.
pub open spec fn found(
    before: Seq<ViolationView>,
    after: Seq<ViolationView>,
    id: Seq<char>,
    subject: Seq<char>,
) -> bool {
    &&& after.len() == before.len() + 1
    &&& forall|i: int| 0 <= i < before.len() ==> #[trigger] after[i] == before[i]
    &&& after.last().id == id
    &&& after.last().subject == Some(subject)
}

/// True if a finding says a count.
pub open spec fn says(v: ViolationView, name: Seq<char>, n: int) -> bool {
    &&& v.numbers.contains_key(name)
    &&& i64::MIN <= n <= i64::MAX ==> v.numbers[name] == Number::Int(n as i64)
}

/// A record of motion is found out of order exactly where one of a greater actor stands before it
/// in the same instant. The finding names both actors.
pub proof fn a_step_out_of_order_is_found(k: Seq<GtKinematicsView>, r: GtKinematicsView)
    ensures
        ({
            let (before, after) = (order_findings(k), order_findings(k.push(r)));
            let breaks = k.len() > 0 && k.last().t == r.t && k.last().actor > r.actor;
            &&& !breaks ==> after == before
            &&& breaks ==> found(before, after, "I-M1"@, "t="@ + numeral(r.t as nat)) && says(
                after.last(),
                "previous_actor"@,
                k.last().actor as int,
            ) && says(after.last(), "this_actor"@, r.actor as int)
        }),
{
    assert(k.push(r).drop_last() =~= k);
    reveal_strlit("previous_actor");
    reveal_strlit("this_actor");
    assert("previous_actor"@.len() == 14 && "this_actor"@.len() == 10);
}

/// A reception is found wrong exactly where it is lost without one cause, or received with
/// any. The finding says how many causes there are.
pub proof fn a_wrong_cause_is_found(rx: Seq<PhyRxView>, r: PhyRxView)
    ensures
        ({
            let (before, after) = (cause_findings(rx), cause_findings(rx.push(r)));
            let n = r.every_cause().len();
            let breaks = if r.outcome == RxOutcome::Lost {
                n == 0 || n > 1
            } else {
                n > 0
            };
            &&& !breaks ==> after == before
            &&& breaks ==> found(before, after, "I-R3"@, reception_subject(rx.len() as int, r))
                && says(after.last(), "causes"@, n as int)
        }),
{
    assert(rx.push(r).drop_last() =~= rx);
}

/// A channel with transmissions that report an air time is found exactly where there are
/// others that do not. The finding counts both.
pub proof fn a_partial_channel_is_found(
    with: Seq<(Option<u16>, u64)>,
    c: Option<u16>,
    n: u64,
    without: Map<Option<u16>, u64>,
)
    ensures
        ({
            let (before, after) = (partial_findings(with, without), partial_findings(with.push((c, n)), without));
            &&& !without.contains_key(c) ==> after == before
            &&& without.contains_key(c) ==> found(
                before,
                after,
                "I-R3"@,
                crate::invariants::records::channel_subject(c),
            ) && says(after.last(), "with_airtime"@, n as int) && says(
                after.last(),
                "without_airtime"@,
                without[c] as int,
            )
        }),
{
    assert(with.push((c, n)).drop_last() =~= with);
    reveal_strlit("with_airtime");
    reveal_strlit("without_airtime");
    assert("with_airtime"@.len() == 12 && "without_airtime"@.len() == 15);
}

/// A node is found exactly where its reported busy time is less than what it transmitted. The
/// finding says both, and what is missing.
pub proof fn an_uncovered_node_is_found(own: Seq<(u32, u64)>, node: u32, us: u64, busy: Map<u32, u64>)
    ensures
        ({
            let (before, after) = (busy_findings(own, busy), busy_findings(own.push((node, us)), busy));
            let breaks = busy.contains_key(node) && us > busy[node];
            &&& !breaks ==> after == before
            &&& breaks ==> found(before, after, "I-R3"@, "node "@ + numeral(node as nat)) && says(
                after.last(),
                "transmitted_us"@,
                us as int,
            ) && says(after.last(), "busy_us"@, busy[node] as int) && says(
                after.last(),
                "missing_us"@,
                us - busy[node],
            )
        }),
{
    assert(own.push((node, us)).drop_last() =~= own);
    reveal_strlit("transmitted_us");
    reveal_strlit("busy_us");
    reveal_strlit("missing_us");
    assert("transmitted_us"@.len() == 14 && "busy_us"@.len() == 7 && "missing_us"@.len() == 10);
}

/// A split frame is found exactly where its layers do not sum to its octets on the wire. The
/// finding says the octets of each layer.
pub proof fn a_frame_that_does_not_add_up_is_found(tx: Seq<NodeTxView>, t: NodeTxView)
    ensures
        ({
            let (before, after) = (layer_findings(tx), layer_findings(tx.push(t)));
            let breaks = t.spdu_bytes is Some && t.net_header_bytes is Some && t.link_bytes is Some
                && t.spdu_bytes->0 + t.net_header_bytes->0 + t.link_bytes->0 != t.bytes_on_wire;
            let v = after.last();
            &&& !breaks ==> after == before
            &&& breaks ==> after.len() == before.len() + 1 && v.id == "M-BYTE1"@ && says(
                v,
                "bytes_on_wire"@,
                t.bytes_on_wire as int,
            ) && says(v, "link"@, t.link_bytes->0 as int) && says(
                v,
                "net"@,
                t.net_header_bytes->0 as int,
            ) && says(v, "spdu"@, t.spdu_bytes->0 as int)
        }),
        split_count(tx.push(t)) - split_count(tx) == if t.spdu_bytes is Some && t.net_header_bytes is Some
            && t.link_bytes is Some {
            1int
        } else {
            0int
        },
{
    assert(tx.push(t).drop_last() =~= tx);
    reveal_strlit("bytes_on_wire");
    reveal_strlit("link");
    reveal_strlit("net");
    reveal_strlit("spdu");
    assert("bytes_on_wire"@.len() == 13 && "link"@.len() == 4 && "net"@.len() == 3 && "spdu"@.len() == 4);
    assert("link"@[0] != "spdu"@[0]);
}

/// An attack that changed bytes on the air is found exactly where no transmission carries
/// the message that it names, or where it names none.
pub proof fn an_unjoined_attack_is_found(
    s: Seq<GtAttackActionView>,
    a: GtAttackActionView,
    tx: Seq<NodeTxView>,
)
    ensures
        ({
            let (before, after) = (attack_findings(s, tx), attack_findings(s.push(a), tx));
            let joined = a.msg is Some && exists|i: int|
                0 <= i < tx.len() && (#[trigger] tx[i]).msg == a.msg;
            let v = after.last();
            &&& !a.changed_bytes_on_air || joined ==> after == before
            &&& a.changed_bytes_on_air && !joined ==> after.len() == before.len() + 1 && v.id
                == "I-T3"@ && (a.msg is Some ==> says(v, "msg"@, a.msg->0 as int)) && (a.msg is None
                ==> says(v, "t"@, a.t as int))
        }),
        on_air_count(s.push(a)) - on_air_count(s) == if a.changed_bytes_on_air {
            1int
        } else {
            0int
        },
{
    assert(s.push(a).drop_last() =~= s);
    if a.msg is Some && transmitted(tx, a.msg->0) {
        let i = choose|i: int| 0 <= i < tx.len() && (#[trigger] tx[i]).msg == Some(a.msg->0);
        assert(tx[i].msg == a.msg);
    }
}

/// A range of a census is found exactly where more decoded than were in range.
pub proof fn an_overfull_range_is_found(msg: u64, bins: Seq<CensusBin>, b: CensusBin)
    ensures
        ({
            let (before, after) = (bin_findings(msg, bins), bin_findings(msg, bins.push(b)));
            &&& b.decoded <= b.in_range ==> after == before
            &&& b.decoded > b.in_range ==> found(before, after, "M-PRR"@, "msg "@ + numeral(msg as nat))
                && says(after.last(), "in_range"@, b.in_range as int) && says(
                after.last(),
                "decoded"@,
                b.decoded as int,
            )
        }),
        census_decodes(bins.push(b)) == census_decodes(bins) + b.decoded,
{
    assert(bins.push(b).drop_last() =~= bins);
    reveal_strlit("in_range");
    reveal_strlit("decoded");
    assert("in_range"@.len() == 8 && "decoded"@.len() == 7);
}

/// A census is found, after its ranges, exactly where it counts other than as many decodes as
/// the receptions of its message show. The finding says both counts.
pub proof fn a_census_apart_from_the_receptions_is_found(
    s: Seq<PhyPrrView>,
    c: PhyPrrView,
    decoded: Map<u64, u64>,
)
    ensures
        ({
            let before = censuses_findings(s, decoded) + bin_findings(c.msg, c.bins@);
            let after = censuses_findings(s.push(c), decoded);
            let (counted, shown) = (census_decodes(c.bins@), amount(decoded, c.msg) as int);
            &&& counted == shown ==> after == before
            &&& counted != shown ==> found(before, after, "M-PRR"@, "msg "@ + numeral(c.msg as nat))
                && says(after.last(), "census_decoded"@, counted) && says(
                after.last(),
                "phy_rx_decoded"@,
                shown,
            )
        }),
{
    assert(s.push(c).drop_last() =~= s);
    reveal_strlit("census_decoded");
    reveal_strlit("phy_rx_decoded");
    assert("census_decoded"@[0] != "phy_rx_decoded"@[0]);
    let before = censuses_findings(s, decoded) + bin_findings(c.msg, c.bins@);
    let after = censuses_findings(s.push(c), decoded);
    if census_decodes(c.bins@) == amount(decoded, c.msg) {
        assert(after =~= before);
    }
}

/// A delivery is found exactly where its journey is not tiled by its stages.
pub proof fn an_untiled_delivery_is_found(s: Seq<NodeRxView>, v: NodeRxView)
    ensures
        ({
            let (before, after) = (delivery_findings(s), delivery_findings(s.push(v)));
            let tiled = v.trace() is Some && v.trace()->0.tiles();
            &&& v.outcome != RxFate::Delivered || tiled ==> after == before
            &&& v.outcome == RxFate::Delivered && !tiled ==> after.len() == before.len() + 1
                && after.last().id == "M-LAT1"@ && after.last().subject == Some(
                attempt_subject(v.msg, v.rx),
            )
        }),
        delivered_count(s.push(v)) - delivered_count(s) == if v.outcome == RxFate::Delivered {
            1int
        } else {
            0int
        },
{
    assert(s.push(v).drop_last() =~= s);
    if let Some(t) = v.trace() {
        crate::latency::faultless_is_tiling(t);
        if t.tiles() {
            crate::latency::a_decomposed_delivery_sums_to_its_latency(v);
        }
        with_instants_keeps(
            crate::invariants::outcome::finding(
                "M-LAT1"@,
                Some(attempt_subject(v.msg, v.rx)),
                t.defect(t.fault()->0).text(),
            ),
            t.defect(t.fault()->0).named_instants(),
        );
    }
}

proof fn with_instants_keeps(v: ViolationView, s: Seq<(Seq<char>, crate::basic::SimTime)>)
    ensures
        crate::invariants::frames::with_instants(v, s).id == v.id,
        crate::invariants::frames::with_instants(v, s).subject == v.subject,
    decreases s.len(),
{
    if s.len() > 0 {
        with_instants_keeps(v, s.drop_last());
    }
}

/// A verification is found exactly where its outcome differs between the runs, and so is a
/// transmission where its size does. Each finding says where.
pub proof fn a_difference_between_modes_is_found(
    a: Seq<NodeVerifyView>,
    b: Seq<NodeVerifyView>,
    p: Seq<NodeTxView>,
    q: Seq<NodeTxView>,
    n: int,
)
    requires
        0 <= n,
    ensures
        ({
            let (before, after) = (verify_findings(a, b, n), verify_findings(a, b, n + 1));
            &&& a[n].outcome == b[n].outcome ==> after == before
            &&& a[n].outcome != b[n].outcome ==> found(
                before,
                after,
                "I-S1"@,
                "node.verify["@ + numeral(n as nat) + "]"@,
            ) && says(after.last(), "index"@, n)
        }),
        ({
            let (before, after) = (size_findings(p, q, n), size_findings(p, q, n + 1));
            &&& p[n].bytes_on_wire == q[n].bytes_on_wire ==> after == before
            &&& p[n].bytes_on_wire != q[n].bytes_on_wire ==> found(
                before,
                after,
                "I-S1"@,
                "node.tx["@ + numeral(n as nat) + "]"@,
            ) && says(after.last(), "modeled_bytes"@, p[n].bytes_on_wire as int) && says(
                after.last(),
                "real_bytes"@,
                q[n].bytes_on_wire as int,
            )
        }),
{
    reveal_strlit("modeled_bytes");
    reveal_strlit("real_bytes");
    assert("modeled_bytes"@.len() == 13 && "real_bytes"@.len() == 10);
}

/// Two records on one channel are found once for a different tag, and once for different
/// bytes; two on different channels are found once.
pub proof fn a_difference_between_runs_is_found(i: int, x: EventRecord, y: EventRecord)
    ensures
        ({
            let s = record_findings(i, x, y);
            &&& x.channel@ != y.channel@ ==> s.len() == 1
            &&& x.channel@ == y.channel@ ==> s.len() == (if x.visibility == y.visibility {
                0int
            } else {
                1int
            }) + (if x.json@ == y.json@ {
                0int
            } else {
                1int
            })
            &&& forall|j: int|
                0 <= j < s.len() ==> (#[trigger] s[j]).id == "I-C1"@ && says(s[j], "index"@, i)
        }),
{
}

/// A number is found exactly where it is off its grid; the finding says the number and the
/// step of the grid.
pub proof fn a_number_off_its_grid_is_found(key: Seq<char>, s: Seq<(Real, int)>, x: Real, k: int)
    ensures
        ({
            let (before, after) = (grid_findings(key, s), grid_findings(key, s.push((x, k))));
            let v = after.last();
            &&& on_grid(x@, k) ==> after == before
            &&& !on_grid(x@, k) ==> found(before, after, "D9"@, key) && v.numbers.contains_key(
                "value"@,
            ) && v.numbers["value"@] == Number::Real(x) && v.numbers.contains_key("quantum"@)
                && v.numbers["quantum"@] == Number::Real(crate::quant::real_of(1, k))
        }),
{
    assert(s.push((x, k)).drop_last() =~= s);
    reveal_strlit("value");
    reveal_strlit("quantum");
    assert("value"@.len() == 5 && "quantum"@.len() == 7);
}

/// A number is found exactly where its metric cannot have it; the finding says the number.
pub proof fn an_impossible_number_is_found(s: SampleView, d: DefView, values: Seq<Real>, x: Real)
    ensures
        ({
            let (before, after) = (range_findings(s, d, values), range_findings(s, d, values.push(x)));
            &&& d.possible(x) ==> after == before
            &&& !d.possible(x) ==> found(before, after, "M-RANGE"@, s.key())
                && after.last().numbers.contains_key("value"@) && after.last().numbers["value"@]
                == Number::Real(quantised_real(x, s.per_unit))
        }),
{
    assert(values.push(x).drop_last() =~= values);
}

/// A stage that is not declared is found for each record of it.
pub proof fn an_undeclared_stage_is_found(s: Seq<ProtoRevocationView>, r: ProtoRevocationView)
    ensures
        ({
            let (before, after) = (stage_findings(s), stage_findings(s.push(r)));
            let declared = exists|k: int|
                0 <= k < crate::security::STAGES && #[trigger] crate::security::stage_text(k)
                    == r.stage@;
            &&& declared ==> after == before
            &&& !declared ==> found(before, after, "I-P4"@, r.id@) && says(
                after.last(),
                "t"@,
                r.t as int,
            )
        }),
{
    assert(s.push(r).drop_last() =~= s);
    assert(crate::security::stage_text(0) == r.stage@ || crate::security::stage_text(1) == r.stage@
        || crate::security::stage_text(2) == r.stage@ || crate::security::stage_text(3) == r.stage@
        || crate::security::stage_text(4) == r.stage@ || crate::security::stage_text(5) == r.stage@
        || crate::security::stage_text(6) == r.stage@ || crate::security::stage_text(7) == r.stage@
        || crate::security::rank_of_stage(r.stage@) is None);
}

/// A tag that its channel does not allow is found, with the number of its records.
pub proof fn a_wrong_tag_is_found(channel: Seq<char>, v: Visibility, n: u64)
    ensures
        ({
            let s = tag_findings(channel, v, n);
            let rule = crate::channels::visibility_rule(channel);
            &&& s.len() == 0 <==> rule is Some && rule->0.contains(v)
            &&& forall|i: int|
                0 <= i < s.len() ==> (#[trigger] s[i]).id == "I-T2"@ && s[i].subject == Some(channel)
                    && says(s[i], "records"@, n as int)
        }),
{
    if let Some(allowed) = crate::channels::visibility_rule(channel) {
        if allowed.contains(v) {
            let i = choose|i: int| 0 <= i < allowed.len() && allowed[i] == v;
            assert(!(crate::invariants::leaks::for_nodes(allowed) && v.tainted())) by {
                assert(allowed[i] == v);
            }
        }
    }
}

/// A check that has no data says so, has examined nothing and found nothing; one that has
/// says how much it examined: a step, a record, a frame or a delivery each.
pub proof fn every_check_says_what_it_examined(l: EventLedger, s: Seq<SampleView>)
    ensures
        ({
            let r = all_outcomes(l, s);
            &&& r.len() == 13
            &&& forall|i: int|
                0 <= i < r.len() && (#[trigger] r[i]).skipped is Some ==> r[i].checked == 0
                    && r[i].violations.len() == 0
            &&& r[0].id == "I-M1"@ && (r[0].skipped is Some <==> l.kinematics@.len() == 0)
            &&& r[0].skipped is None ==> r[0].checked == steps(l.kinematics@)
            &&& r[1].id == "I-N1"@ && (r[1].skipped is Some <==> l.tx@.len() + l.bytes@.len()
                + l.proto_msg@.len() == 0)
            &&& r[1].checked == l.tx@.len() + l.bytes@.len() + l.proto_msg@.len()
            &&& r[2].id == "I-P4"@ && (r[2].skipped is Some <==> l.revocation@.len() == 0)
            &&& r[3].id == "I-R3"@ && (r[3].skipped is Some <==> l.rx@.len() + l.tx@.len() == 0)
            &&& r[3].checked == l.rx@.len() + l.tx@.len()
            &&& r[4].id == "I-T2"@
            &&& r[5].id == "I-T3"@ && (r[5].skipped is Some <==> on_air_count(l.attacks@) == 0
                || l.tx@.len() == 0)
            &&& r[5].skipped is None ==> r[5].checked == on_air_count(l.attacks@)
            &&& r[6].id == "M-BYTE1"@ && (r[6].skipped is Some <==> split_count(l.tx@) == 0)
            &&& r[6].checked == split_count(l.tx@)
            &&& r[7].id == "M-BYTE2"@
            &&& r[8].id == "M-LAT1"@ && r[8].checked == delivered_count(l.node_rx@) + l.latency@.len()
            &&& r[9].id == "M-PRR"@ && r[9].checked == l.prr@.len()
            &&& r[10].id == "M-RX1"@ && r[10].checked == l.node_rx@.len()
            &&& r[11].id == "M-SHARE"@
            &&& r[12].id == "D9"@ && (r[12].skipped is Some <==> s.len() == 0)
        }),
{
    delivered_is_counted(l.node_rx@);
}

proof fn delivered_is_counted(s: Seq<NodeRxView>)
    ensures
        delivered_count(s) >= 0,
    decreases s.len(),
{
    if s.len() > 0 {
        delivered_is_counted(s.drop_last());
    }
}

} // verus!
