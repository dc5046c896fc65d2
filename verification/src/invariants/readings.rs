//! What the checks read out of the records and the samples: what one more record changes.

use vstd::prelude::*;
use crate::basic::SimTime;
use crate::card::{CardView, Family};
use crate::channels::{ByteBucket, MacCbrView, NodeRxView, NodeTxView, PhyRxView, ProtoRevocationView, RxFate, RxOutcome};
use crate::def::{DefView, SampleView};
use crate::gains::raised;
use crate::invariants::accounting::{attributions, bytes_in, declares_timeout, i_n2, placements, states_amplification, unnamed_bytes, unnamed_count, Attribution, Placement};
use crate::invariants::fates::{fate_count, fates_seen, phy_attempts};
use crate::invariants::frames::decodes;
use crate::invariants::leaks::{stage_times, stamped};
use crate::invariants::records::{airtime_by_node, airtime_reports, busy_by_node, steps};
use crate::invariants::runs::excerpt;
use crate::invariants::samples::{bucket_rates, definition_of, is_bucket_rate, share_key, share_sums, sum_for, total_rates};
use crate::channels::GtKinematicsView;
use crate::ledger::EventLedger;
use crate::outside::{lossy_text, lowercase_text};
use crate::quant::{index_of, rounded, rounded_is_nearest, Real};
use crate::security::rank_of_stage;
use crate::tally::amount;
use crate::text::contains_text;

verus! {

/// A frame whose layers are all known adds up exactly where its security, network and link
/// octets sum to the octets on the wire; of any other frame nothing is said.
pub proof fn a_frame_is_the_sum_of_its_layers(t: NodeTxView)
    ensures
        t.layers_add_up() is None <==> t.spdu_bytes is None || t.net_header_bytes is None
            || t.link_bytes is None,
        t.layers_add_up() is Some ==> (t.layers_add_up()->0 <==> t.bytes_on_wire - t.spdu_bytes->0
            - t.net_header_bytes->0 - t.link_bytes->0 == 0),
{
}

/// A transmission counts on its channel among those that report an air time, or among those
/// that do not.
pub proof fn a_transmission_reports_on_its_channel(tx: Seq<NodeTxView>, t: NodeTxView)
    requires
        forall|b: bool| amount(#[trigger] airtime_reports(tx, b), t.channel) < u64::MAX,
    ensures
        ({
            let told = t.airtime_us is Some;
            &&& raised(airtime_reports(tx, told), airtime_reports(tx.push(t), told), t.channel, 1)
            &&& airtime_reports(tx.push(t), !told) == airtime_reports(tx, !told)
        }),
{
    assert(tx.push(t).drop_last() =~= tx);
    assert(amount(airtime_reports(tx, t.airtime_us is Some), t.channel) < u64::MAX);
}

/// The air time of a transmission is its node's.
pub proof fn an_air_time_is_its_nodes(tx: Seq<NodeTxView>, t: NodeTxView)
    requires
        t.airtime_us is Some ==> amount(airtime_by_node(tx), t.node) + t.airtime_us->0 <= u64::MAX,
    ensures
        t.airtime_us is None ==> airtime_by_node(tx.push(t)) == airtime_by_node(tx),
        t.airtime_us is Some ==> raised(
            airtime_by_node(tx),
            airtime_by_node(tx.push(t)),
            t.node,
            t.airtime_us->0 as int,
        ),
{
    assert(tx.push(t).drop_last() =~= tx);
}

/// The busy time of a measurement is its node's.
pub proof fn a_busy_time_is_its_nodes(s: Seq<MacCbrView>, c: MacCbrView)
    requires
        c.busy_us is Some ==> amount(busy_by_node(s), c.node) + c.busy_us->0 <= u64::MAX,
    ensures
        c.busy_us is None ==> busy_by_node(s.push(c)) == busy_by_node(s),
        c.busy_us is Some ==> raised(
            busy_by_node(s),
            busy_by_node(s.push(c)),
            c.node,
            c.busy_us->0 as int,
        ),
{
    assert(s.push(c).drop_last() =~= s);
}

/// A reception within a kilometre is one more decode of its message; nothing else is.
pub proof fn a_decode_is_a_reception_within_reach(rx: Seq<PhyRxView>, r: PhyRxView)
    requires
        forall|m: u64| #[trigger] amount(decodes(rx), m) < u64::MAX,
    ensures
        ({
            let counts = r.outcome == RxOutcome::Received && r.msg is Some && r.dist_mm is Some
                && r.dist_mm->0 < 1_000_000;
            &&& counts ==> raised(decodes(rx), decodes(rx.push(r)), r.msg->0, 1)
            &&& !counts ==> decodes(rx.push(r)) == decodes(rx)
        }),
{
    assert(rx.push(r).drop_last() =~= rx);
    if r.msg is Some {
        assert(amount(decodes(rx), r.msg->0) < u64::MAX);
    }
}

/// A stage of a revocation keeps the instant at which it was stamped first, and a stamp
/// changes nothing else of any revocation.
pub proof fn the_first_stamp_of_a_stage_counts(s: Seq<ProtoRevocationView>, r: ProtoRevocationView, id: Seq<char>, k: int)
    requires
        0 <= k < crate::security::STAGES,
        forall|i: Seq<char>| #[trigger] stage_times(s).contains_key(i) ==> stage_times(s)[i].len() == crate::security::STAGES,
    ensures
        ({
            let before = stamped(stage_times(s), id)[k];
            let after = stamped(stage_times(s.push(r)), id)[k];
            if id == r.id@ && crate::security::stage_text(k) == r.stage@ && before is None {
                after == Some(r.t)
            } else {
                after == before
            }
        }),
        rank_of_stage(r.stage@) is Some ==> stage_times(s.push(r)).dom() == stage_times(s).dom().insert(
            r.id@,
        ),
        rank_of_stage(r.stage@) is None ==> stage_times(s.push(r)) == stage_times(s),
{
    assert(s.push(r).drop_last() =~= s);
    crate::security::the_stages_follow_one_another();
    reveal_strlit("detect");
    reveal_strlit("report_sent");
    reveal_strlit("report_received");
    reveal_strlit("decision");
    reveal_strlit("issued");
    reveal_strlit("published");
    reveal_strlit("downloaded");
    reveal_strlit("enforced");
    assert("detect"@.len() == 6 && "report_sent"@.len() == 11 && "report_received"@.len() == 15);
    assert("decision"@.len() == 8 && "issued"@.len() == 6 && "published"@.len() == 9);
    assert("downloaded"@.len() == 10 && "enforced"@.len() == 8);
    assert("detect"@[0] != "issued"@[0] && "decision"@[0] != "enforced"@[0]);
    if rank_of_stage(r.stage@) is Some {
        assert(stage_times(s.push(r)).dom() =~= stage_times(s).dom().insert(r.id@));
    }
}

/// True if `g` millionths are the number of millionths nearest to `x`, for an `x` that is not
/// too large.
pub open spec fn in_millionths(g: int, x: Real) -> bool {
    x@.den > 0 && i128::MIN <= rounded(x@.num * 1_000_000, x@.den) <= i128::MAX ==> -x@.den <= 2 * (
    g * x@.den - x@.num * 1_000_000) <= x@.den
}

proof fn an_index_is_in_millionths(x: Real)
    ensures
        in_millionths(index_of(x@, 1_000_000), x),
{
    if x@.den > 0 {
        rounded_is_nearest(x@.num * 1_000_000, x@.den);
    }
}

/// True if one more number was added to what is summed for one key, and to nothing else.
pub open spec fn joins<K>(before: Map<K, (int, int)>, after: Map<K, (int, int)>, k: K, x: Real) -> bool {
    &&& after.dom() == before.dom().insert(k)
    &&& sum_for(after, k).1 == sum_for(before, k).1 + 1
    &&& in_millionths(sum_for(after, k).0 - sum_for(before, k).0, x)
    &&& forall|j: K| j != k ==> #[trigger] sum_for(after, j) == sum_for(before, j)
}

/// A sample of `bytes_total` sets the total of its window. A sample of a bucket's byte rate
/// joins the sum of its window. No other sample does either.
pub proof fn a_byte_rate_joins_its_window(s: Seq<SampleView>, x: SampleView)
    ensures
        ({
            let v = x.value.estimate();
            let total = v is Some && x.metric == "bytes_total"@;
            let part = v is Some && !total && (x.metric == "bytes_air"@ || x.metric
                == "bytes_uu_ul"@ || x.metric == "bytes_uu_dl"@ || x.metric
                == "bytes_backhaul"@ || x.metric == "bytes_backend"@);
            let now = total_rates(s.push(x));
            &&& total ==> now.contains_key(x.t) && in_millionths(now[x.t] as int, v->0)
            &&& forall|t: SimTime| #[trigger]
                now.contains_key(t) && (!total || t != x.t) ==> total_rates(s).contains_key(t)
                    && total_rates(s)[t] == now[t]
            &&& forall|t: SimTime| #[trigger]
                total_rates(s).contains_key(t) ==> now.contains_key(t)
            &&& part ==> joins(bucket_rates(s), bucket_rates(s.push(x)), x.t, v->0)
            &&& !part ==> bucket_rates(s.push(x)) == bucket_rates(s)
        }),
{
    assert(s.push(x).drop_last() =~= s);
    if let Some(v) = x.value.estimate() {
        an_index_is_in_millionths(v);
        if x.metric != "bytes_total"@ && is_bucket_rate(x.metric) {
            assert(bucket_rates(s.push(x)).dom() =~= bucket_rates(s).dom().insert(x.t));
        }
    }
}

/// A sample of a stage's share joins the sum of its window, flow and message type. No other
/// sample does.
pub proof fn a_stage_share_joins_its_flow(s: Seq<SampleView>, x: SampleView)
    ensures
        ({
            let v = x.value.estimate();
            let part = v is Some && x.metric == "latency_stage_share"@;
            &&& part ==> joins(share_sums(s), share_sums(s.push(x)), share_key(x), v->0)
            &&& !part ==> share_sums(s.push(x)) == share_sums(s)
        }),
{
    assert(s.push(x).drop_last() =~= s);
    if let Some(v) = x.value.estimate() {
        an_index_is_in_millionths(v);
        if x.metric == "latency_stage_share"@ {
            assert(share_sums(s.push(x)).dom() =~= share_sums(s).dom().insert(share_key(x)));
        }
    }
}

/// Every transmission is attributed to the air, every transfer to its bucket and every
/// protocol message to its transport, each with its own id and its octets. A message without
/// a transport cannot be named.
pub proof fn every_byte_is_attributed(l: EventLedger)
    ensures
        ({
            let s = attributions(l);
            let p = placements(l);
            let (n, m) = (l.tx@.len() as int, l.bytes@.len() as int);
            &&& s.len() == n + m + l.proto_msg@.len() && p.len() == s.len()
            &&& forall|i: int|
                0 <= i < n ==> (#[trigger] s[i]).0 == l.tx@[i].msg && s[i].1 == ByteBucket::Air
                    && s[i].2 == l.tx@[i].bytes_on_wire && p[i].0 == Some(s[i].1) && p[i].1 == s[i].2
            &&& forall|i: int|
                0 <= i < m ==> (#[trigger] s[n + i]).0 == l.bytes@[i].id && s[n + i].1
                    == l.bytes@[i].bucket && s[n + i].2 == l.bytes@[i].bytes_on_wire && p[n + i].0
                    == Some(s[n + i].1) && p[n + i].1 == s[n + i].2
            &&& forall|i: int|
                0 <= i < l.proto_msg@.len() ==> {
                    let (a, r) = (#[trigger] s[n + m + i], l.proto_msg@[i]);
                    &&& a.2 == r.bytes_on_wire && p[n + m + i].1 == a.2
                    &&& r.transport is Some ==> a.0 == r.msg && Some(a.1) == r.transport
                    &&& r.transport is None ==> a.0 is None
                    &&& p[n + m + i].0 == r.transport
                }
        }),
{
}

/// More bytes in a place are more in its bucket, and in no other.
pub proof fn bytes_are_in_their_place(s: Seq<Placement>, p: Placement, b: ByteBucket)
    ensures
        bytes_in(s.push(p), b) - bytes_in(s, b) == (if p.0 == Some(b) {
            p.1 as int
        } else {
            0
        }),
        bytes_in(Seq::empty(), b) == 0,
{
    assert(s.push(p).drop_last() =~= s);
}

/// A reception attempt says of its message and receiver whether it was received, or the
/// first cause for which it was lost. The latest attempt counts.
pub proof fn the_latest_attempt_counts(rx: Seq<PhyRxView>, r: PhyRxView)
    ensures
        ({
            let before = phy_attempts(rx);
            let after = phy_attempts(rx.push(r));
            &&& r.msg is None ==> after == before
            &&& r.msg matches Some(m) ==> {
                &&& after.dom() == before.dom().insert((m, r.rx))
                &&& r.outcome == RxOutcome::Received ==> after[(m, r.rx)] is None
                &&& r.outcome == RxOutcome::Lost ==> after[(m, r.rx)] is Some
                &&& r.outcome == RxOutcome::Lost && r.every_cause().len() > 0 ==> after[(m, r.rx)]
                    == Some(r.every_cause()[0])
                &&& forall|k: (u64, u32)|
                    k != (m, r.rx) && #[trigger] before.contains_key(k) ==> after[k] == before[k]
            }
        }),
{
    assert(rx.push(r).drop_last() =~= rx);
    if let Some(m) = r.msg {
        assert(phy_attempts(rx.push(r)).dom() =~= phy_attempts(rx).dom().insert((m, r.rx)));
    }
}

/// A fate is one more of its kind, and one more of the attempt that it names.
pub proof fn a_fate_counts_once(s: Seq<NodeRxView>, v: NodeRxView, f: RxFate)
    requires
        v.msg matches Some(m) ==> amount(fates_seen(s), (m, v.rx)) < u64::MAX,
    ensures
        v.outcome == f ==> fate_count(s.push(v), f) == fate_count(s, f) + 1,
        v.outcome != f ==> fate_count(s.push(v), f) == fate_count(s, f),
        v.msg is None ==> fates_seen(s.push(v)) == fates_seen(s),
        v.msg matches Some(m) ==> raised(fates_seen(s), fates_seen(s.push(v)), (m, v.rx), 1),
{
    assert(s.push(v).drop_last() =~= s);
}

/// A record of motion starts a step unless it is of the same instant as the one before it.
pub proof fn a_step_is_one_instant(k: Seq<GtKinematicsView>, r: GtKinematicsView)
    ensures
        k.len() > 0 && k.last().t == r.t ==> steps(k.push(r)) == steps(k),
        k.len() == 0 || k.last().t != r.t ==> steps(k.push(r)) == steps(k) + 1,
{
    assert(k.push(r).drop_last() =~= k);
}

/// A metric has the definition that names it, the last one of that name; it has none exactly
/// where no definition does.
pub proof fn a_definition_is_found_by_its_name(catalog: Seq<DefView>, name: Seq<char>)
    ensures
        match definition_of(catalog, name) {
            Some(d) => d.name == name && exists|i: int|
                0 <= i < catalog.len() && #[trigger] catalog[i] == d && forall|j: int|
                    i < j < catalog.len() ==> (#[trigger] catalog[j]).name != name,
            None => forall|i: int| 0 <= i < catalog.len() ==> (#[trigger] catalog[i]).name != name,
        },
    decreases catalog.len(),
{
    if catalog.len() > 0 {
        let n = catalog.len() - 1;
        let d = catalog.drop_last();
        if catalog.last().name == name {
            assert(catalog[n] == catalog.last());
        } else {
            a_definition_is_found_by_its_name(d, name);
            if let Some(x) = definition_of(d, name) {
                let i = choose|i: int|
                    0 <= i < d.len() && #[trigger] d[i] == x && forall|j: int|
                        i < j < d.len() ==> (#[trigger] d[j]).name != name;
                assert(catalog[i] == x);
                assert forall|j: int| i < j < catalog.len() implies (#[trigger] catalog[j]).name
                    != name by {
                    if j < n {
                        assert(d[j] == catalog[j]);
                    }
                }
            } else {
                assert forall|i: int| 0 <= i < catalog.len() implies (#[trigger] catalog[i]).name
                    != name by {
                    if i < n {
                        assert(d[i] == catalog[i]);
                    }
                }
            }
        }
    }
}

/// A number is impossible exactly where it is below a least value or above a greatest one.
pub proof fn what_is_impossible_is_out_of_bounds(d: DefView, v: Real)
    ensures
        d.possible(v) <==> !((d.min_value is Some && v@.num * d.min_value->0@.den
            < d.min_value->0@.num * v@.den) || (d.max_value is Some && d.max_value->0@.num * v@.den
            < v@.num * d.max_value->0@.den)),
{
}

/// The check of a card is for fragmenters. It finds one thing for a missing timeout, and one
/// for a missing statement of the loss amplification.
pub proof fn a_fragmenter_documents_both(card: CardView)
    ensures
        card.family != Family::Fragmenter <==> i_n2(card).skipped is Some,
        card.family != Family::Fragmenter ==> i_n2(card).violations.len() == 0,
        card.family == Family::Fragmenter ==> (i_n2(card).violations.len() == 0 <==> declares_timeout(
            card,
        ) && states_amplification(card)),
        card.family == Family::Fragmenter ==> (i_n2(card).violations.len() == 2
            <==> !declares_timeout(card) && !states_amplification(card)),
        forall|i: int|
            0 <= i < i_n2(card).violations.len() ==> (#[trigger] i_n2(card).violations[i]).subject
                == Some(card.id),
{
}

/// A card declares a timeout exactly where the name of some parameter mentions one, and
/// states the amplification exactly where the name or the text of some equation, or some
/// limitation, mentions that. To mention a word is to have it somewhere in the text, in
/// whatever case.
pub proof fn a_mention_anywhere_counts(card: CardView)
    ensures
        declares_timeout(card) <==> !forall|i: int|
            0 <= i < card.parameters.len() ==> !contains_text(
                lowercase_text((#[trigger] card.parameters[i]).name),
                "timeout"@,
            ),
        !states_amplification(card) <==> (forall|i: int|
            0 <= i < card.equations.len() ==> !contains_text(
                lowercase_text((#[trigger] card.equations[i]).name),
                "amplification"@,
            ) && !contains_text(
                lowercase_text(card.equations[i].latex_or_text),
                "amplification"@,
            )) && (forall|i: int|
            0 <= i < card.limitations.len() ==> !contains_text(
                lowercase_text(#[trigger] card.limitations[i]),
                "amplification"@,
            )),
{
}

/// An attribution that names nothing is one more of them, with its bytes; one that names
/// something is not.
pub proof fn an_unnamed_attribution_is_counted(s: Seq<Attribution>, a: Attribution)
    ensures
        a.0 is Some ==> unnamed_count(s.push(a)) == unnamed_count(s) && unnamed_bytes(s.push(a))
            == unnamed_bytes(s),
        a.0 is None ==> unnamed_count(s.push(a)) == unnamed_count(s) + 1 && unnamed_bytes(s.push(a))
            == unnamed_bytes(s) + a.2,
        unnamed_count(Seq::empty()) == 0 && unnamed_bytes(Seq::empty()) == 0,
{
    assert(s.push(a).drop_last() =~= s);
}

/// A text of at most two hundred characters is shown whole. Of a longer one its first
/// characters are shown, and an ellipsis for the rest.
pub proof fn an_excerpt_is_the_start_of_the_text(bytes: Seq<u8>)
    ensures
        ({
            let s = lossy_text(bytes);
            let e = excerpt(bytes);
            &&& s.len() <= 200 ==> e == s
            &&& s.len() > 200 ==> e.len() == 200 && e[199] == '…' && forall|i: int|
                0 <= i < 199 ==> #[trigger] e[i] == s[i]
        }),
{
    reveal_strlit("…");
}

} // verus!
