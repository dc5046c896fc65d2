//! What it means for a check to hold.
//!
//! A check lists what it finds. The laws below say, of each, that it finds nothing exactly
//! where the invariant that it is named after is true of the records.

use vstd::prelude::*;
use crate::basic::{SimTime, Visibility};
use crate::channels::{cause_is_known, cause_is_phy, visibility_rule, ByteBucket, CensusBin, EventRecord, GtAttackActionView, GtKinematicsView, NodeRxView, NodeTxView, NodeVerifyView, PhyPrrView, PhyRxView, ProtoRevocationView, RxFate, RxOutcome};
use crate::def::{sample_of, written_numbers_are_on_their_grids, DefView, DimList, SampleValue, SampleView};
use crate::invariants::accounting::{attributions, bucket_names, by_id, double_findings, held_for, i_n1, unnamed_count, uses_bucket, Attribution};
use crate::invariants::fates::{double_fate_findings, fate_cause_finding, fate_count, fate_findings, fate_match_finding, fateless, fates_seen, m_rx1, phy_attempts, phy_loss, repeated_findings, unkeyed_attempts};
use crate::invariants::frames::{bin_findings, census_decodes, censuses_findings, decodes, delivered_count, delivery_findings, latency_findings, layer_findings, m_byte1, m_lat1, m_prr, split_count};
use crate::invariants::leaks::{attack_findings, backward_findings, i_p4, i_t2, i_t3, last_stamped, on_air_count, revocation_findings, revocations_findings, stage_findings, stage_times, stamped, tag_findings, tags_findings, transmitted, StageTimes};
use crate::invariants::records::{airtime_by_node, airtime_reports, busy_by_node, busy_findings, cause_findings, i_m1, i_r3, order_findings, partial_findings};
use crate::invariants::runs::{i_c1, i_s1, record_findings, records_findings, shorter, size_findings, verify_findings};
use crate::invariants::samples::{apart, bucket_rates, d9, definition_of, grid_findings, grids_findings, m_byte2, m_range, m_share, range_findings, ranged_numbers, ranges_findings, rate_findings, share_findings, share_key, share_sums, sum_for, total_rates};
use crate::keyed::{in_order, listed_at, orderly, orderly_empty, orderly_insert, place_in_order};
use crate::latency::{a_decomposed_delivery_sums_to_its_latency, faultless_is_tiling, LatencyTrace};
use crate::ledger::{EventLedger, Tag};
use crate::quant::{on_grid, Real, MAX_PER_UNIT};
use crate::security::{rank_of_stage, STAGES};
use crate::tally::amount;

verus! {

/// One mobility step's output is ordered by actor.
pub open spec fn steps_are_in_order(k: Seq<GtKinematicsView>) -> bool {
    forall|i: int|
        0 < i < k.len() && (#[trigger] k[i - 1]).t == (#[trigger] k[i]).t ==> k[i - 1].actor
            <= k[i].actor
}

/// The check of the order of mobility steps holds exactly where every step is in order.
pub proof fn i_m1_holds_where_steps_are_in_order(l: EventLedger)
    ensures
        (i_m1(l).violations.len() == 0) == steps_are_in_order(l.kinematics@),
{
    ordered_steps(l.kinematics@);
}

proof fn ordered_steps(k: Seq<GtKinematicsView>)
    ensures
        (order_findings(k).len() == 0) == steps_are_in_order(k),
    decreases k.len(),
{
    if k.len() > 0 {
        let d = k.drop_last();
        ordered_steps(d);
        if steps_are_in_order(k) {
            assert forall|i: int|
                0 < i < d.len() && (#[trigger] d[i - 1]).t == (#[trigger] d[i]).t implies d[i
                - 1].actor <= d[i].actor by {
                assert(k[i - 1].t == k[i].t);
            }
            let n = k.len() - 1;
            if n > 0 && k[n - 1].t == k[n].t {
                assert(k[n - 1].actor <= k[n].actor);
            }
        }
        if order_findings(k).len() == 0 {
            assert forall|i: int|
                0 < i < k.len() && (#[trigger] k[i - 1]).t == (#[trigger] k[i]).t implies k[i
                - 1].actor <= k[i].actor by {
                if i < d.len() {
                    assert(d[i - 1].t == d[i].t);
                }
            }
        }
    }
}

/// The layers of a frame whose split is known add up to its octets on the air.
pub open spec fn layers_add_up(tx: Seq<NodeTxView>) -> bool {
    forall|i: int| 0 <= i < tx.len() ==> (#[trigger] tx[i]).layers_add_up() != Some(false)
}

/// The check of frame layers holds exactly where the layers of every split frame add up.
pub proof fn m_byte1_holds_where_layers_add_up(l: EventLedger)
    ensures
        (m_byte1(l).violations.len() == 0) == layers_add_up(l.tx@),
{
    frames_add_up(l.tx@);
    if split_count(l.tx@) == 0 {
        nothing_split(l.tx@);
    }
}

proof fn frames_add_up(tx: Seq<NodeTxView>)
    ensures
        (layer_findings(tx).len() == 0) == layers_add_up(tx),
    decreases tx.len(),
{
    if tx.len() > 0 {
        let d = tx.drop_last();
        frames_add_up(d);
        if layers_add_up(tx) {
            assert forall|i: int| 0 <= i < d.len() implies (#[trigger] d[i]).layers_add_up()
                != Some(false) by {
                assert(d[i] == tx[i]);
            }
            assert(tx[tx.len() - 1].layers_add_up() != Some(false));
        }
        if layer_findings(tx).len() == 0 {
            assert forall|i: int| 0 <= i < tx.len() implies (#[trigger] tx[i]).layers_add_up()
                != Some(false) by {
                if i < d.len() {
                    assert(d[i] == tx[i]);
                }
            }
        }
    }
}

proof fn nothing_split(tx: Seq<NodeTxView>)
    ensures
        split_count(tx) >= 0,
        split_count(tx) == 0 ==> forall|i: int|
            0 <= i < tx.len() ==> (#[trigger] tx[i]).layers_add_up() is None,
    decreases tx.len(),
{
    if tx.len() > 0 {
        let d = tx.drop_last();
        nothing_split(d);
        if split_count(tx) == 0 {
            assert forall|i: int| 0 <= i < tx.len() implies (#[trigger] tx[i]).layers_add_up() is None by {
                if i < d.len() {
                    assert(d[i] == tx[i]);
                }
            }
        }
    }
}

/// An attack that changed bytes on the air names a message that was transmitted.
pub open spec fn attacks_are_joined(s: Seq<GtAttackActionView>, tx: Seq<NodeTxView>) -> bool {
    forall|i: int|
        0 <= i < s.len() && (#[trigger] s[i]).changed_bytes_on_air ==> s[i].msg is Some
            && transmitted(tx, s[i].msg->Some_0)
}

/// The check of attack records, where it runs, holds exactly where every attack on the air
/// is joined to a transmission.
pub proof fn i_t3_holds_where_attacks_are_joined(l: EventLedger)
    requires
        l.tx@.len() > 0,
    ensures
        (i_t3(l).violations.len() == 0) == attacks_are_joined(l.attacks@, l.tx@),
{
    joined_attacks(l.attacks@, l.tx@);
    if on_air_count(l.attacks@) == 0 {
        nothing_on_air(l.attacks@);
    }
}

proof fn joined_attacks(s: Seq<GtAttackActionView>, tx: Seq<NodeTxView>)
    ensures
        (attack_findings(s, tx).len() == 0) == attacks_are_joined(s, tx),
    decreases s.len(),
{
    if s.len() > 0 {
        let d = s.drop_last();
        joined_attacks(d, tx);
        if attacks_are_joined(s, tx) {
            assert forall|i: int| 0 <= i < d.len() && (#[trigger] d[i]).changed_bytes_on_air implies d[i].msg is Some
                && transmitted(tx, d[i].msg->Some_0) by {
                assert(s[i].changed_bytes_on_air);
            }
            if s[s.len() - 1].changed_bytes_on_air {
                assert(transmitted(tx, s[s.len() - 1].msg->Some_0));
            }
        }
        if attack_findings(s, tx).len() == 0 {
            assert forall|i: int| 0 <= i < s.len() && (#[trigger] s[i]).changed_bytes_on_air implies s[i].msg is Some
                && transmitted(tx, s[i].msg->Some_0) by {
                if i < d.len() {
                    assert(d[i].changed_bytes_on_air);
                }
            }
        }
    }
}

proof fn nothing_on_air(s: Seq<GtAttackActionView>)
    ensures
        on_air_count(s) >= 0,
        on_air_count(s) == 0 ==> forall|i: int|
            0 <= i < s.len() ==> !(#[trigger] s[i]).changed_bytes_on_air,
    decreases s.len(),
{
    if s.len() > 0 {
        let d = s.drop_last();
        nothing_on_air(d);
        if on_air_count(s) == 0 {
            assert forall|i: int| 0 <= i < s.len() implies !(#[trigger] s[i]).changed_bytes_on_air by {
                if i < d.len() {
                    assert(d[i] == s[i]);
                }
            }
        }
    }
}

/// Every delivery has a decomposition whose stages tile its journey, and so does every
/// recorded decomposition.
pub open spec fn journeys_are_tiled(s: Seq<NodeRxView>, t: Seq<LatencyTrace>) -> bool {
    &&& forall|i: int|
        0 <= i < s.len() && (#[trigger] s[i]).outcome == RxFate::Delivered ==> s[i].trace() is Some
            && s[i].trace()->Some_0.tiles()
    &&& forall|i: int| 0 <= i < t.len() ==> (#[trigger] t[i])@.tiles()
}

/// The check of latency decompositions holds exactly where every journey is tiled.
pub proof fn m_lat1_holds_where_journeys_are_tiled(l: EventLedger)
    ensures
        (m_lat1(l).violations.len() == 0) == journeys_are_tiled(l.node_rx@, l.latency@),
{
    tiled_deliveries(l.node_rx@);
    tiled_traces(l.latency@);
    if delivered_count(l.node_rx@) == 0 {
        nothing_delivered(l.node_rx@);
    }
}

proof fn tiled_deliveries(s: Seq<NodeRxView>)
    ensures
        (delivery_findings(s).len() == 0) == (forall|i: int|
            0 <= i < s.len() && (#[trigger] s[i]).outcome == RxFate::Delivered
                ==> s[i].trace() is Some && s[i].trace()->Some_0.tiles()),
    decreases s.len(),
{
    if s.len() > 0 {
        let d = s.drop_last();
        let v = s.last();
        tiled_deliveries(d);
        if v.outcome == RxFate::Delivered {
            if let Some(t) = v.trace() {
                faultless_is_tiling(t);
                if t.tiles() {
                    a_decomposed_delivery_sums_to_its_latency(v);
                }
            }
        }
        assert(forall|i: int| 0 <= i < d.len() ==> d[i] == s[i]);
        if forall|i: int|
            0 <= i < s.len() && (#[trigger] s[i]).outcome == RxFate::Delivered
                ==> s[i].trace() is Some && s[i].trace()->Some_0.tiles() {
            assert forall|i: int| 0 <= i < d.len() && (#[trigger] d[i]).outcome == RxFate::Delivered implies d[i].trace() is Some
                && d[i].trace()->Some_0.tiles() by {
                assert(s[i].outcome == RxFate::Delivered);
            }
            if v.outcome == RxFate::Delivered {
                assert(s[s.len() - 1].trace() is Some);
            }
        }
        if delivery_findings(s).len() == 0 {
            assert forall|i: int| 0 <= i < s.len() && (#[trigger] s[i]).outcome == RxFate::Delivered implies s[i].trace() is Some
                && s[i].trace()->Some_0.tiles() by {
                if i < d.len() {
                    assert(d[i].outcome == RxFate::Delivered);
                }
            }
        }
    }
}

proof fn tiled_traces(s: Seq<LatencyTrace>)
    ensures
        (latency_findings(s).len() == 0) == (forall|i: int|
            0 <= i < s.len() ==> (#[trigger] s[i])@.tiles()),
    decreases s.len(),
{
    if s.len() > 0 {
        let d = s.drop_last();
        tiled_traces(d);
        faultless_is_tiling(s.last()@);
        if forall|i: int| 0 <= i < s.len() ==> (#[trigger] s[i])@.tiles() {
            assert forall|i: int| 0 <= i < d.len() implies (#[trigger] d[i])@.tiles() by {
                assert(s[i]@.tiles());
            }
            assert(s[s.len() - 1]@.tiles());
        }
        if latency_findings(s).len() == 0 {
            assert forall|i: int| 0 <= i < s.len() implies (#[trigger] s[i])@.tiles() by {
                if i < d.len() {
                    assert(d[i]@.tiles());
                }
            }
        }
    }
}

proof fn nothing_delivered(s: Seq<NodeRxView>)
    ensures
        delivered_count(s) >= 0,
        delivered_count(s) == 0 ==> forall|i: int|
            0 <= i < s.len() ==> (#[trigger] s[i]).outcome != RxFate::Delivered,
    decreases s.len(),
{
    if s.len() > 0 {
        let d = s.drop_last();
        nothing_delivered(d);
        if delivered_count(s) == 0 {
            assert forall|i: int| 0 <= i < s.len() implies (#[trigger] s[i]).outcome
                != RxFate::Delivered by {
                if i < d.len() {
                    assert(d[i] == s[i]);
                }
            }
        }
    }
}

/// Every census counts exactly the decodes of its frame, and in every range no more than
/// there are receivers.
pub open spec fn censuses_agree(s: Seq<PhyPrrView>, decoded: Map<u64, u64>) -> bool {
    forall|i: int|
        0 <= i < s.len() ==> {
            &&& census_decodes((#[trigger] s[i]).bins@) == amount(decoded, s[i].msg)
            &&& bins_are_bounded(s[i].bins@)
        }
}

/// No more receivers decoded than were in range.
pub open spec fn bins_are_bounded(bins: Seq<CensusBin>) -> bool {
    forall|i: int| 0 <= i < bins.len() ==> (#[trigger] bins[i]).decoded <= bins[i].in_range
}

/// The check of reception censuses holds exactly where every census agrees with the
/// receptions.
pub proof fn m_prr_holds_where_censuses_agree(l: EventLedger)
    ensures
        (m_prr(l).violations.len() == 0) == censuses_agree(l.prr@, decodes(l.rx@)),
{
    agreeing_censuses(l.prr@, decodes(l.rx@));
}

proof fn agreeing_censuses(s: Seq<PhyPrrView>, decoded: Map<u64, u64>)
    ensures
        (censuses_findings(s, decoded).len() == 0) == censuses_agree(s, decoded),
    decreases s.len(),
{
    if s.len() > 0 {
        let d = s.drop_last();
        let c = s.last();
        agreeing_censuses(d, decoded);
        bounded_bins(c.msg, c.bins@);
        if censuses_agree(s, decoded) {
            assert forall|i: int| 0 <= i < d.len() implies census_decodes((#[trigger] d[i]).bins@)
                == amount(decoded, d[i].msg) && bins_are_bounded(d[i].bins@) by {
                assert(bins_are_bounded(s[i].bins@));
            }
            assert(bins_are_bounded(s[s.len() - 1].bins@));
        }
        if censuses_findings(s, decoded).len() == 0 {
            assert forall|i: int| 0 <= i < s.len() implies census_decodes((#[trigger] s[i]).bins@)
                == amount(decoded, s[i].msg) && bins_are_bounded(s[i].bins@) by {
                if i < d.len() {
                    assert(bins_are_bounded(d[i].bins@));
                }
            }
        }
    }
}

proof fn bounded_bins(msg: u64, bins: Seq<CensusBin>)
    ensures
        (bin_findings(msg, bins).len() == 0) == bins_are_bounded(bins),
    decreases bins.len(),
{
    if bins.len() > 0 {
        let d = bins.drop_last();
        bounded_bins(msg, d);
        if bins_are_bounded(bins) {
            assert forall|i: int| 0 <= i < d.len() implies (#[trigger] d[i]).decoded
                <= d[i].in_range by {
                assert(bins[i].decoded <= bins[i].in_range);
            }
            assert(bins[bins.len() - 1].decoded <= bins[bins.len() - 1].in_range);
        }
        if bin_findings(msg, bins).len() == 0 {
            assert forall|i: int| 0 <= i < bins.len() implies (#[trigger] bins[i]).decoded
                <= bins[i].in_range by {
                if i < d.len() {
                    assert(d[i].decoded <= d[i].in_range);
                }
            }
        }
    }
}

/// Two runs emit the same records: the same channels, tags and bytes, in the same order.
pub open spec fn runs_are_equal(a: Seq<EventRecord>, b: Seq<EventRecord>) -> bool {
    &&& a.len() == b.len()
    &&& forall|i: int|
        0 <= i < a.len() ==> (#[trigger] a[i]).channel@ == b[i].channel@ && a[i].visibility
            == b[i].visibility && a[i].json@ == b[i].json@
}

/// The comparison of two runs finds nothing exactly where they emitted the same records.
pub proof fn i_c1_holds_where_runs_are_equal(a: Seq<EventRecord>, b: Seq<EventRecord>)
    ensures
        (i_c1(a, b).violations.len() == 0) == runs_are_equal(a, b),
{
    equal_records(a, b, shorter(a.len() as int, b.len() as int));
}

proof fn equal_records(a: Seq<EventRecord>, b: Seq<EventRecord>, n: int)
    requires
        n <= a.len(),
        n <= b.len(),
    ensures
        (records_findings(a, b, n).len() == 0) == (forall|i: int|
            0 <= i < n ==> (#[trigger] a[i]).channel@ == b[i].channel@ && a[i].visibility
                == b[i].visibility && a[i].json@ == b[i].json@),
    decreases n,
{
    if n > 0 {
        equal_records(a, b, n - 1);
        let (x, y) = (a[n - 1], b[n - 1]);
        assert((record_findings(n - 1, x, y).len() == 0) == (x.channel@ == y.channel@
            && x.visibility == y.visibility && x.json@ == y.json@));
    }
}

/// Two runs agree on every verification and on every size.
pub open spec fn modes_agree(a: EventLedger, b: EventLedger) -> bool {
    &&& a.verify@.len() == b.verify@.len()
    &&& a.tx@.len() == b.tx@.len()
    &&& forall|i: int|
        0 <= i < a.verify@.len() ==> (#[trigger] a.verify@[i]).outcome == b.verify@[i].outcome
    &&& forall|i: int|
        0 <= i < a.tx@.len() ==> (#[trigger] a.tx@[i]).bytes_on_wire == b.tx@[i].bytes_on_wire
}

/// The comparison of two crypto modes finds nothing exactly where they agree.
pub proof fn i_s1_holds_where_modes_agree(a: EventLedger, b: EventLedger)
    ensures
        (i_s1(a, b).violations.len() == 0) == modes_agree(a, b),
{
    let n = shorter(a.verify@.len() as int, b.verify@.len() as int);
    let m = shorter(a.tx@.len() as int, b.tx@.len() as int);
    equal_outcomes(a.verify@, b.verify@, n);
    equal_sizes(a.tx@, b.tx@, m);
}

proof fn equal_outcomes(a: Seq<NodeVerifyView>, b: Seq<NodeVerifyView>, n: int)
    requires
        n <= a.len(),
        n <= b.len(),
    ensures
        (verify_findings(a, b, n).len() == 0) == (forall|i: int|
            0 <= i < n ==> (#[trigger] a[i]).outcome == b[i].outcome),
    decreases n,
{
    if n > 0 {
        equal_outcomes(a, b, n - 1);
        if verify_findings(a, b, n).len() == 0 {
            assert(a[n - 1].outcome == b[n - 1].outcome);
        }
    }
}

proof fn equal_sizes(a: Seq<NodeTxView>, b: Seq<NodeTxView>, n: int)
    requires
        n <= a.len(),
        n <= b.len(),
    ensures
        (size_findings(a, b, n).len() == 0) == (forall|i: int|
            0 <= i < n ==> (#[trigger] a[i]).bytes_on_wire == b[i].bytes_on_wire),
    decreases n,
{
    if n > 0 {
        equal_sizes(a, b, n - 1);
        if size_findings(a, b, n).len() == 0 {
            assert(a[n - 1].bytes_on_wire == b[n - 1].bytes_on_wire);
        }
    }
}

/// Every number of a sample is on the grid that it was put on.
pub open spec fn is_on_grids(s: SampleView) -> bool {
    forall|i: int|
        0 <= i < s.value.graded(s.per_unit).len() ==> on_grid(
            (#[trigger] s.value.graded(s.per_unit)[i]).0@,
            s.value.graded(s.per_unit)[i].1,
        )
}

/// The scan of all numbers finds nothing exactly where each is on its grid.
pub proof fn d9_holds_where_numbers_are_on_their_grids(s: Seq<SampleView>)
    ensures
        (d9(s).violations.len() == 0) == (forall|i: int|
            0 <= i < s.len() ==> is_on_grids(#[trigger] s[i])),
{
    samples_on_grids(s);
}

proof fn samples_on_grids(s: Seq<SampleView>)
    ensures
        (grids_findings(s).len() == 0) == (forall|i: int|
            0 <= i < s.len() ==> is_on_grids(#[trigger] s[i])),
    decreases s.len(),
{
    if s.len() > 0 {
        let d = s.drop_last();
        let x = s.last();
        samples_on_grids(d);
        numbers_on_grids(x.key(), x.value.graded(x.per_unit));
        if forall|i: int| 0 <= i < s.len() ==> is_on_grids(#[trigger] s[i]) {
            assert forall|i: int| 0 <= i < d.len() implies is_on_grids(#[trigger] d[i]) by {
                assert(is_on_grids(s[i]));
            }
            assert(is_on_grids(s[s.len() - 1]));
        }
        if grids_findings(s).len() == 0 {
            assert forall|i: int| 0 <= i < s.len() implies is_on_grids(#[trigger] s[i]) by {
                if i < d.len() {
                    assert(is_on_grids(d[i]));
                }
            }
        }
    }
}

proof fn numbers_on_grids(key: Seq<char>, g: Seq<(Real, int)>)
    ensures
        (grid_findings(key, g).len() == 0) == (forall|i: int|
            0 <= i < g.len() ==> on_grid((#[trigger] g[i]).0@, g[i].1)),
    decreases g.len(),
{
    if g.len() > 0 {
        let d = g.drop_last();
        numbers_on_grids(key, d);
        if forall|i: int| 0 <= i < g.len() ==> on_grid((#[trigger] g[i]).0@, g[i].1) {
            assert forall|i: int| 0 <= i < d.len() implies on_grid((#[trigger] d[i]).0@, d[i].1) by {
                assert(on_grid(g[i].0@, g[i].1));
            }
            assert(on_grid(g[g.len() - 1].0@, g[g.len() - 1].1));
        }
        if grid_findings(key, g).len() == 0 {
            assert forall|i: int| 0 <= i < g.len() implies on_grid((#[trigger] g[i]).0@, g[i].1) by {
                if i < d.len() {
                    assert(on_grid(d[i].0@, d[i].1));
                }
            }
        }
    }
}

/// Every number of a sample with a definition is one that the definition holds possible.
pub open spec fn is_possible(s: SampleView, catalog: Seq<DefView>) -> bool {
    match definition_of(catalog, s.metric) {
        Some(d) => forall|i: int|
            0 <= i < ranged_numbers(s.value).len() ==> d.possible(
                #[trigger] ranged_numbers(s.value)[i],
            ),
        None => true,
    }
}

/// The check of physical ranges finds nothing exactly where every number is possible.
pub proof fn m_range_holds_where_numbers_are_possible(s: Seq<SampleView>, catalog: Seq<DefView>)
    ensures
        (m_range(s, catalog).violations.len() == 0) == (forall|i: int|
            0 <= i < s.len() ==> is_possible(#[trigger] s[i], catalog)),
{
    possible_samples(s, catalog);
}

proof fn possible_samples(s: Seq<SampleView>, catalog: Seq<DefView>)
    ensures
        (ranges_findings(s, catalog).len() == 0) == (forall|i: int|
            0 <= i < s.len() ==> is_possible(#[trigger] s[i], catalog)),
    decreases s.len(),
{
    if s.len() > 0 {
        let d = s.drop_last();
        let x = s.last();
        possible_samples(d, catalog);
        if let Some(def) = definition_of(catalog, x.metric) {
            possible_numbers(x, def, ranged_numbers(x.value));
        }
        if forall|i: int| 0 <= i < s.len() ==> is_possible(#[trigger] s[i], catalog) {
            assert forall|i: int| 0 <= i < d.len() implies is_possible(#[trigger] d[i], catalog) by {
                assert(is_possible(s[i], catalog));
            }
            assert(is_possible(s[s.len() - 1], catalog));
        }
        if ranges_findings(s, catalog).len() == 0 {
            assert forall|i: int| 0 <= i < s.len() implies is_possible(#[trigger] s[i], catalog) by {
                if i < d.len() {
                    assert(is_possible(d[i], catalog));
                }
            }
        }
    }
}

proof fn possible_numbers(s: SampleView, def: DefView, v: Seq<Real>)
    ensures
        (range_findings(s, def, v).len() == 0) == (forall|i: int|
            0 <= i < v.len() ==> def.possible(#[trigger] v[i])),
    decreases v.len(),
{
    if v.len() > 0 {
        let d = v.drop_last();
        possible_numbers(s, def, d);
        if forall|i: int| 0 <= i < v.len() ==> def.possible(#[trigger] v[i]) {
            assert forall|i: int| 0 <= i < d.len() implies def.possible(#[trigger] d[i]) by {
                assert(def.possible(v[i]));
            }
            assert(def.possible(v[v.len() - 1]));
        }
        if range_findings(s, def, v).len() == 0 {
            assert forall|i: int| 0 <= i < v.len() implies def.possible(#[trigger] v[i]) by {
                if i < d.len() {
                    assert(def.possible(d[i]));
                }
            }
        }
    }
}

/// Every tag that was seen is one that its channel may carry.
pub open spec fn tags_are_allowed(seen: Map<(Seq<char>, Visibility), u64>) -> bool {
    forall|k: (Seq<char>, Visibility)| #[trigger]
        seen.contains_key(k) ==> visibility_rule(k.0) is Some && visibility_rule(
            k.0,
        )->Some_0.contains(k.1)
}

/// The check of visibility tags finds nothing exactly where every tag is allowed on its
/// channel. In particular nothing tainted by ground truth is on a channel that nodes read.
pub proof fn i_t2_holds_where_tags_are_allowed(l: EventLedger)
    requires
        orderly::<Tag, u64>(l.visibility_seen@),
    ensures
        (i_t2(l).violations.len() == 0) == tags_are_allowed(l.visibility_seen@),
{
    let m = l.visibility_seen@;
    let s = in_order::<Tag, u64>(m);
    allowed_tags(s);
    if tags_are_allowed(m) {
        assert forall|i: int| 0 <= i < s.len() implies visibility_rule(
            (#[trigger] s[i]).0.0,
        ) is Some && visibility_rule(s[i].0.0)->Some_0.contains(s[i].0.1) by {
            listed_at::<Tag, u64>(s, i);
            assert(m.contains_key(s[i].0));
        }
    }
    if i_t2(l).violations.len() == 0 {
        assert forall|k: (Seq<char>, Visibility)| #[trigger]
            m.contains_key(k) implies visibility_rule(k.0) is Some && visibility_rule(
            k.0,
        )->Some_0.contains(k.1) by {
            let i = place_in_order::<Tag, u64>(m, k);
            assert(visibility_rule(s[i].0.0) is Some);
        }
    }
}

proof fn allowed_tags(s: Seq<((Seq<char>, Visibility), u64)>)
    ensures
        (tags_findings(s).len() == 0) == (forall|i: int|
            0 <= i < s.len() ==> visibility_rule((#[trigger] s[i]).0.0) is Some && visibility_rule(
                s[i].0.0,
            )->Some_0.contains(s[i].0.1)),
    decreases s.len(),
{
    if s.len() > 0 {
        let d = s.drop_last();
        let (channel, v) = s.last().0;
        allowed_tags(d);
        assert((tag_findings(channel, v, s.last().1).len() == 0) == (visibility_rule(
            channel,
        ) is Some && visibility_rule(channel)->Some_0.contains(v)));
        assert(forall|i: int| 0 <= i < d.len() ==> d[i] == s[i]);
        if tags_findings(s).len() == 0 {
            assert forall|i: int| 0 <= i < s.len() implies visibility_rule(
                (#[trigger] s[i]).0.0,
            ) is Some && visibility_rule(s[i].0.0)->Some_0.contains(s[i].0.1) by {
                if i < d.len() {
                    assert(visibility_rule(d[i].0.0) is Some);
                }
            }
        }
        if forall|i: int|
            0 <= i < s.len() ==> visibility_rule((#[trigger] s[i]).0.0) is Some && visibility_rule(
                s[i].0.0,
            )->Some_0.contains(s[i].0.1) {
            assert(visibility_rule(s[s.len() - 1].0.0) is Some);
        }
    }
}

/// A loss carries exactly one cause, and a reception none.
pub open spec fn causes_are_single(rx: Seq<PhyRxView>) -> bool {
    forall|i: int|
        0 <= i < rx.len() ==> {
            &&& (#[trigger] rx[i]).outcome == RxOutcome::Lost ==> rx[i].every_cause().len() == 1
            &&& rx[i].outcome == RxOutcome::Received ==> rx[i].every_cause().len() == 0
        }
}

/// On every channel either all transmissions report an air time, or none.
pub open spec fn airtime_is_whole(tx: Seq<NodeTxView>) -> bool {
    forall|i: int, j: int|
        0 <= i < tx.len() && 0 <= j < tx.len() && (#[trigger] tx[i]).channel == (
        #[trigger] tx[j]).channel ==> (tx[i].airtime_us is Some) == (tx[j].airtime_us is Some)
}

/// A node that reports its busy time has heard at least its own transmissions.
pub open spec fn busy_covers_own(own: Map<u32, u64>, busy: Map<u32, u64>) -> bool {
    forall|n: u32| #[trigger] own.contains_key(n) && busy.contains_key(n) ==> own[n] <= busy[n]
}

/// The check of loss causes and air times finds nothing exactly where every loss has one
/// cause, air times are reported wholly, and busy times cover them.
pub proof fn i_r3_holds_where_losses_and_airtimes_are_accounted_for(l: EventLedger)
    ensures
        (i_r3(l).violations.len() == 0) == (causes_are_single(l.rx@) && airtime_is_whole(l.tx@)
            && busy_covers_own(airtime_by_node(l.tx@), busy_by_node(l.cbr@))),
{
    single_causes(l.rx@);
    whole_airtime(l.tx@);
    covered_airtime(l.tx@, busy_by_node(l.cbr@));
}

proof fn single_causes(rx: Seq<PhyRxView>)
    ensures
        (cause_findings(rx).len() == 0) == causes_are_single(rx),
    decreases rx.len(),
{
    if rx.len() > 0 {
        let d = rx.drop_last();
        single_causes(d);
        assert(forall|i: int| 0 <= i < d.len() ==> d[i] == rx[i]);
        if causes_are_single(rx) {
            let r = rx[rx.len() - 1];
            assert(r.outcome == RxOutcome::Lost ==> r.every_cause().len() == 1);
            assert(causes_are_single(d));
        }
        if cause_findings(rx).len() == 0 {
            assert forall|i: int| 0 <= i < rx.len() implies {
                &&& (#[trigger] rx[i]).outcome == RxOutcome::Lost ==> rx[i].every_cause().len() == 1
                &&& rx[i].outcome == RxOutcome::Received ==> rx[i].every_cause().len() == 0
            } by {
                if i < d.len() {
                    assert(d[i] == rx[i]);
                }
            }
        }
    }
}

proof fn reported_channels(tx: Seq<NodeTxView>, with: bool)
    ensures
        orderly::<Option<u16>, u64>(airtime_reports(tx, with)),
        forall|c: Option<u16>| #[trigger]
            airtime_reports(tx, with).contains_key(c) == exists|i: int|
                0 <= i < tx.len() && (#[trigger] tx[i]).channel == c && (tx[i].airtime_us is Some)
                    == with,
    decreases tx.len(),
{
    if tx.len() == 0 {
        orderly_empty::<Option<u16>, u64>();
    } else {
        let d = tx.drop_last();
        reported_channels(d, with);
        let m = airtime_reports(d, with);
        let t = tx.last();
        orderly_insert::<Option<u16>, u64>(m, t.channel, (amount(m, t.channel) + 1) as u64);
        assert(forall|i: int| 0 <= i < d.len() ==> d[i] == tx[i]);
        assert forall|c: Option<u16>| #[trigger]
            airtime_reports(tx, with).contains_key(c) == exists|i: int|
                0 <= i < tx.len() && (#[trigger] tx[i]).channel == c && (tx[i].airtime_us is Some)
                    == with by {
            assert(m.contains_key(c) == exists|i: int|
                0 <= i < d.len() && (#[trigger] d[i]).channel == c && (d[i].airtime_us is Some)
                    == with);
            if m.contains_key(c) {
                let i = choose|i: int|
                    0 <= i < d.len() && (#[trigger] d[i]).channel == c && (d[i].airtime_us is Some)
                        == with;
                assert(tx[i].channel == c);
            }
            if exists|i: int|
                0 <= i < tx.len() && (#[trigger] tx[i]).channel == c && (tx[i].airtime_us is Some)
                    == with {
                let i = choose|i: int|
                    0 <= i < tx.len() && (#[trigger] tx[i]).channel == c && (
                    tx[i].airtime_us is Some) == with;
                if i < d.len() {
                    assert(d[i].channel == c);
                }
            }
            assert(tx[tx.len() - 1] == t);
        }
    }
}

proof fn whole_channels(with: Seq<(Option<u16>, u64)>, without: Map<Option<u16>, u64>)
    ensures
        (partial_findings(with, without).len() == 0) == (forall|i: int|
            0 <= i < with.len() ==> !without.contains_key((#[trigger] with[i]).0)),
    decreases with.len(),
{
    if with.len() > 0 {
        let d = with.drop_last();
        whole_channels(d, without);
        assert(forall|i: int| 0 <= i < d.len() ==> d[i] == with[i]);
        if partial_findings(with, without).len() == 0 {
            assert forall|i: int| 0 <= i < with.len() implies !without.contains_key(
                (#[trigger] with[i]).0,
            ) by {
                if i < d.len() {
                    assert(!without.contains_key(d[i].0));
                }
            }
        }
        if forall|i: int| 0 <= i < with.len() ==> !without.contains_key((#[trigger] with[i]).0) {
            assert(!without.contains_key(with[with.len() - 1].0));
        }
    }
}

proof fn whole_airtime(tx: Seq<NodeTxView>)
    ensures
        (partial_findings(
            in_order::<Option<u16>, u64>(airtime_reports(tx, true)),
            airtime_reports(tx, false),
        ).len() == 0) == airtime_is_whole(tx),
{
    let with = airtime_reports(tx, true);
    let without = airtime_reports(tx, false);
    let s = in_order::<Option<u16>, u64>(with);
    reported_channels(tx, true);
    reported_channels(tx, false);
    whole_channels(s, without);
    if airtime_is_whole(tx) {
        assert forall|i: int| 0 <= i < s.len() implies !without.contains_key((#[trigger] s[i]).0) by {
            listed_at::<Option<u16>, u64>(s, i);
            assert(with.contains_key(s[i].0));
        }
    } else {
        let (i, j) = choose|i: int, j: int|
            0 <= i < tx.len() && 0 <= j < tx.len() && (#[trigger] tx[i]).channel == (
            #[trigger] tx[j]).channel && (tx[i].airtime_us is Some) != (tx[j].airtime_us is Some);
        let c = tx[i].channel;
        assert(tx[j].channel == c);
        assert(with.contains_key(c));
        assert(without.contains_key(c));
        let k = place_in_order::<Option<u16>, u64>(with, c);
        assert(without.contains_key(s[k].0));
    }
}

proof fn own_airtime(tx: Seq<NodeTxView>)
    ensures
        orderly::<u32, u64>(airtime_by_node(tx)),
    decreases tx.len(),
{
    if tx.len() == 0 {
        orderly_empty::<u32, u64>();
    } else {
        own_airtime(tx.drop_last());
        let m = airtime_by_node(tx.drop_last());
        if let Some(us) = tx.last().airtime_us {
            orderly_insert::<u32, u64>(
                m,
                tx.last().node,
                (amount(m, tx.last().node) + us) as u64,
            );
        }
    }
}

proof fn covered_nodes(own: Seq<(u32, u64)>, busy: Map<u32, u64>)
    ensures
        (busy_findings(own, busy).len() == 0) == (forall|i: int|
            0 <= i < own.len() && busy.contains_key((#[trigger] own[i]).0) ==> own[i].1
                <= busy[own[i].0]),
    decreases own.len(),
{
    if own.len() > 0 {
        let d = own.drop_last();
        covered_nodes(d, busy);
        assert(forall|i: int| 0 <= i < d.len() ==> d[i] == own[i]);
        if busy_findings(own, busy).len() == 0 {
            assert forall|i: int| 0 <= i < own.len() && busy.contains_key((#[trigger] own[i]).0) implies own[i].1
                <= busy[own[i].0] by {
                if i < d.len() {
                    assert(busy.contains_key(d[i].0));
                }
            }
        }
        if forall|i: int|
            0 <= i < own.len() && busy.contains_key((#[trigger] own[i]).0) ==> own[i].1
                <= busy[own[i].0] {
            let n = own.len() - 1;
            if busy.contains_key(own[n].0) {
                assert(own[n].1 <= busy[own[n].0]);
            }
        }
    }
}

proof fn covered_airtime(tx: Seq<NodeTxView>, busy: Map<u32, u64>)
    ensures
        (busy_findings(in_order::<u32, u64>(airtime_by_node(tx)), busy).len() == 0)
            == busy_covers_own(airtime_by_node(tx), busy),
{
    let m = airtime_by_node(tx);
    let s = in_order::<u32, u64>(m);
    own_airtime(tx);
    covered_nodes(s, busy);
    if busy_covers_own(m, busy) {
        assert forall|i: int| 0 <= i < s.len() && busy.contains_key((#[trigger] s[i]).0) implies s[i].1
            <= busy[s[i].0] by {
            listed_at::<u32, u64>(s, i);
            assert(m.contains_key(s[i].0));
        }
    } else {
        let n = choose|n: u32| #[trigger]
            m.contains_key(n) && busy.contains_key(n) && m[n] > busy[n];
        let i = place_in_order::<u32, u64>(m, n);
        assert(busy.contains_key(s[i].0));
    }
}

/// Every attribution names what it is of, and what is attributed twice is attributed to one
/// bucket.
pub open spec fn bytes_have_one_bucket(s: Seq<Attribution>) -> bool {
    &&& forall|i: int| 0 <= i < s.len() ==> (#[trigger] s[i]).0 is Some
    &&& forall|i: int, j: int|
        0 <= i < s.len() && 0 <= j < s.len() && (#[trigger] s[i]).0 is Some && s[i].0 == (
        #[trigger] s[j]).0 ==> s[i].1 == s[j].1
}

/// The check of byte attributions finds nothing exactly where every byte has one bucket.
pub proof fn i_n1_holds_where_bytes_have_one_bucket(l: EventLedger)
    ensures
        (i_n1(l).violations.len() == 0) == bytes_have_one_bucket(attributions(l)),
{
    let s = attributions(l);
    let m = by_id(s);
    let all = in_order::<u64, Seq<(ByteBucket, u64)>>(m);
    attributed_ids(s);
    single_buckets(all);
    nothing_unnamed(s);
    if bytes_have_one_bucket(s) {
        assert forall|i: int| 0 <= i < all.len() implies one_bucket((#[trigger] all[i]).1) by {
            listed_at::<u64, Seq<(ByteBucket, u64)>>(all, i);
            let id = all[i].0;
            assert(m.contains_key(id) && m[id] == all[i].1);
            assert forall|a: int, b: int|
                0 <= a < m[id].len() && 0 <= b < m[id].len() implies (#[trigger] m[id][a]).0 == (
            #[trigger] m[id][b]).0 by {
                assert(held_for(m, id)[a] == m[id][a]);
                assert(held_for(m, id)[b] == m[id][b]);
                let x = choose|x: int| attribution_at(s, id, m[id][a].0, x);
                let y = choose|y: int| attribution_at(s, id, m[id][b].0, y);
                assert(s[x].0 == s[y].0);
            }
        }
    } else if s.len() > 0 && unnamed_count(s) == 0 {
        let (i, j) = choose|i: int, j: int|
            0 <= i < s.len() && 0 <= j < s.len() && (#[trigger] s[i]).0 is Some && s[i].0 == (
            #[trigger] s[j]).0 && s[i].1 != s[j].1;
        let id = s[i].0->Some_0;
        assert(attribution_at(s, id, s[i].1, i));
        assert(attribution_at(s, id, s[j].1, j));
        assert(uses_bucket(held_for(m, id), s[i].1));
        assert(uses_bucket(held_for(m, id), s[j].1));
        assert(m.contains_key(id));
        let k = place_in_order::<u64, Seq<(ByteBucket, u64)>>(m, id);
        let a = choose|a: int| 0 <= a < m[id].len() && (#[trigger] m[id][a]).0 == s[i].1;
        let b = choose|b: int| 0 <= b < m[id].len() && (#[trigger] m[id][b]).0 == s[j].1;
        assert(!one_bucket(all[k].1));
    }
}

/// True if some bytes are attributed to one bucket only.
pub open spec fn one_bucket(attrs: Seq<(ByteBucket, u64)>) -> bool {
    forall|a: int, b: int|
        0 <= a < attrs.len() && 0 <= b < attrs.len() ==> (#[trigger] attrs[a]).0 == (
        #[trigger] attrs[b]).0
}

/// True if the attribution at `x` is of `id` to `b`.
pub open spec fn attribution_at(s: Seq<Attribution>, id: u64, b: ByteBucket, x: int) -> bool {
    0 <= x < s.len() && s[x].0 == Some(id) && s[x].1 == b
}

/// True if some attribution is of `id` to `b`.
pub open spec fn is_attributed(s: Seq<Attribution>, id: u64, b: ByteBucket) -> bool {
    exists|x: int| attribution_at(s, id, b, x)
}

proof fn attributed_ids(s: Seq<Attribution>)
    ensures
        orderly::<u64, Seq<(ByteBucket, u64)>>(by_id(s)),
        forall|id: u64, b: ByteBucket|
            #![trigger uses_bucket(held_for(by_id(s), id), b)]
            uses_bucket(held_for(by_id(s), id), b) == is_attributed(s, id, b),
        forall|id: u64, a: int|
            #![trigger held_for(by_id(s), id)[a]]
            0 <= a < held_for(by_id(s), id).len() ==> is_attributed(
                s,
                id,
                held_for(by_id(s), id)[a].0,
            ),
    decreases s.len(),
{
    if s.len() == 0 {
        orderly_empty::<u64, Seq<(ByteBucket, u64)>>();
        assert forall|id: u64, a: int|
            #![trigger held_for(by_id(s), id)[a]]
            0 <= a < held_for(by_id(s), id).len() implies is_attributed(
            s,
            id,
            held_for(by_id(s), id)[a].0,
        ) by {
            assert(held_for(by_id(s), id).len() == 0);
        }
        assert forall|id: u64, b: ByteBucket|
            #![trigger uses_bucket(held_for(by_id(s), id), b)]
            uses_bucket(held_for(by_id(s), id), b) == is_attributed(s, id, b) by {
        }
    } else {
        let d = s.drop_last();
        let m = by_id(d);
        let e = s.last();
        attributed_ids(d);
        assert(forall|x: int| 0 <= x < d.len() ==> d[x] == s[x]);
        let n = s.len() - 1;
        if let Some(k) = e.0 {
            orderly_insert::<u64, Seq<(ByteBucket, u64)>>(m, k, held_for(m, k).push((e.1, e.2)));
        }
        assert forall|id: u64, a: int|
            #![trigger held_for(by_id(s), id)[a]]
            0 <= a < held_for(by_id(s), id).len() implies is_attributed(
            s,
            id,
            held_for(by_id(s), id)[a].0,
        ) by {
            let h = held_for(by_id(s), id);
            if e.0 == Some(id) && a == h.len() - 1 {
                assert(attribution_at(s, id, h[a].0, n));
            } else {
                assert(held_for(m, id)[a] == h[a]);
                let x = choose|x: int| attribution_at(d, id, h[a].0, x);
                assert(attribution_at(s, id, h[a].0, x));
            }
        }
        assert forall|id: u64, b: ByteBucket|
            #![trigger uses_bucket(held_for(by_id(s), id), b)]
            uses_bucket(held_for(by_id(s), id), b) == is_attributed(s, id, b) by {
            let h = held_for(by_id(s), id);
            let g = held_for(m, id);
            if uses_bucket(h, b) {
                let a = choose|a: int| 0 <= a < h.len() && (#[trigger] h[a]).0 == b;
                assert(held_for(by_id(s), id)[a] == h[a]);
            }
            if exists|x: int| attribution_at(s, id, b, x) {
                let x = choose|x: int| attribution_at(s, id, b, x);
                if x < n {
                    assert(attribution_at(d, id, b, x));
                    assert(uses_bucket(g, b));
                    let a = choose|a: int| 0 <= a < g.len() && (#[trigger] g[a]).0 == b;
                    assert(h[a].0 == b);
                } else {
                    assert(h[h.len() - 1].0 == b);
                }
            }
        }
    }
}

proof fn nothing_unnamed(s: Seq<Attribution>)
    ensures
        unnamed_count(s) >= 0,
        (unnamed_count(s) == 0) == (forall|i: int| 0 <= i < s.len() ==> (#[trigger] s[i]).0 is Some),
    decreases s.len(),
{
    if s.len() > 0 {
        let d = s.drop_last();
        nothing_unnamed(d);
        assert(forall|i: int| 0 <= i < d.len() ==> d[i] == s[i]);
        if unnamed_count(s) == 0 {
            assert forall|i: int| 0 <= i < s.len() implies (#[trigger] s[i]).0 is Some by {
                if i < d.len() {
                    assert(d[i].0 is Some);
                }
            }
        }
        if forall|i: int| 0 <= i < s.len() ==> (#[trigger] s[i]).0 is Some {
            assert(s[s.len() - 1].0 is Some);
        }
    }
}

proof fn single_buckets(s: Seq<(u64, Seq<(ByteBucket, u64)>)>)
    ensures
        (double_findings(s).len() == 0) == (forall|i: int|
            0 <= i < s.len() ==> one_bucket((#[trigger] s[i]).1)),
    decreases s.len(),
{
    if s.len() > 0 {
        let d = s.drop_last();
        single_buckets(d);
        named_buckets(s.last().1);
        assert(forall|i: int| 0 <= i < d.len() ==> d[i] == s[i]);
        if double_findings(s).len() == 0 {
            assert forall|i: int| 0 <= i < s.len() implies one_bucket((#[trigger] s[i]).1) by {
                if i < d.len() {
                    assert(one_bucket(d[i].1));
                }
            }
        }
        if forall|i: int| 0 <= i < s.len() ==> one_bucket((#[trigger] s[i]).1) {
            assert(one_bucket(s[s.len() - 1].1));
        }
    }
}

proof fn named_buckets(attrs: Seq<(ByteBucket, u64)>)
    ensures
        (bucket_names(attrs, 5).len() <= 1) == one_bucket(attrs),
{
    reveal_with_fuel(bucket_names, 6);
    let air = uses_bucket(attrs, ByteBucket::Air);
    let up = uses_bucket(attrs, ByteBucket::CellularUl);
    let down = uses_bucket(attrs, ByteBucket::CellularDl);
    let haul = uses_bucket(attrs, ByteBucket::Backhaul);
    let back = uses_bucket(attrs, ByteBucket::Backend);
    let e = ByteBucket::every();
    assert(e[0] == ByteBucket::Air && e[1] == ByteBucket::CellularUl && e[2]
        == ByteBucket::CellularDl && e[3] == ByteBucket::Backhaul && e[4] == ByteBucket::Backend);
    if one_bucket(attrs) {
        if attrs.len() > 0 {
            let b = attrs[0].0;
            assert forall|c: ByteBucket| #[trigger] uses_bucket(attrs, c) implies c == b by {
                let i = choose|i: int| 0 <= i < attrs.len() && (#[trigger] attrs[i]).0 == c;
                assert(attrs[0].0 == attrs[i].0);
            }
        }
    } else {
        let (i, j) = choose|i: int, j: int|
            0 <= i < attrs.len() && 0 <= j < attrs.len() && (#[trigger] attrs[i]).0 != (
            #[trigger] attrs[j]).0;
        assert(uses_bucket(attrs, attrs[i].0));
        assert(uses_bucket(attrs, attrs[j].0));
    }
}

/// Every stage is a declared one.
pub open spec fn stages_are_declared(s: Seq<ProtoRevocationView>) -> bool {
    forall|i: int| 0 <= i < s.len() ==> rank_of_stage((#[trigger] s[i]).stage@) is Some
}

/// The stages of a revocation are stamped in order, and one that was published or went
/// beyond has the two stages that come before.
pub open spec fn stages_are_complete(at: StageTimes) -> bool {
    &&& forall|i: int, j: int|
        0 <= i < j < STAGES && (#[trigger] at[i]) is Some && (#[trigger] at[j]) is Some
            ==> at[i]->Some_0 <= at[j]->Some_0
    &&& (exists|k: int| 5 <= k < STAGES && #[trigger] at[k] is Some) ==> at[3] is Some
        && at[4] is Some
}

/// The check of revocation stages finds nothing exactly where every stage is declared, and
/// the stages of every revocation are complete and in order.
pub proof fn i_p4_holds_where_stages_are_complete(l: EventLedger)
    ensures
        (i_p4(l).violations.len() == 0) == (stages_are_declared(l.revocation@) && forall|id: Seq<
            char,
        >| #[trigger]
            stage_times(l.revocation@).contains_key(id) ==> stages_are_complete(
                stage_times(l.revocation@)[id],
            )),
{
    let s = l.revocation@;
    let m = stage_times(s);
    let all = in_order::<String, StageTimes>(m);
    declared_stages(s);
    stamped_revocations(s);
    assert forall|i: int| 0 <= i < all.len() implies (#[trigger] all[i]).1.len() == STAGES by {
        listed_at::<String, StageTimes>(all, i);
        assert(m.contains_key(all[i].0));
    }
    complete_revocations(all);
    if forall|id: Seq<char>| #[trigger] m.contains_key(id) ==> stages_are_complete(m[id]) {
        assert forall|i: int| 0 <= i < all.len() implies stages_are_complete(
            (#[trigger] all[i]).1,
        ) by {
            listed_at::<String, StageTimes>(all, i);
            assert(m.contains_key(all[i].0));
        }
    }
    if s.len() > 0 && revocations_findings(all).len() == 0 {
        assert forall|id: Seq<char>| #[trigger] m.contains_key(id) implies stages_are_complete(
            m[id],
        ) by {
            let i = place_in_order::<String, StageTimes>(m, id);
            assert(stages_are_complete(all[i].1));
        }
    }
}

proof fn declared_stages(s: Seq<ProtoRevocationView>)
    ensures
        (stage_findings(s).len() == 0) == stages_are_declared(s),
    decreases s.len(),
{
    if s.len() > 0 {
        let d = s.drop_last();
        declared_stages(d);
        assert(forall|i: int| 0 <= i < d.len() ==> d[i] == s[i]);
        if stage_findings(s).len() == 0 {
            assert forall|i: int| 0 <= i < s.len() implies rank_of_stage(
                (#[trigger] s[i]).stage@,
            ) is Some by {
                if i < d.len() {
                    assert(rank_of_stage(d[i].stage@) is Some);
                }
            }
        }
        if stages_are_declared(s) {
            assert(rank_of_stage(s[s.len() - 1].stage@) is Some);
        }
    }
}

proof fn stamped_revocations(s: Seq<ProtoRevocationView>)
    ensures
        orderly::<String, StageTimes>(stage_times(s)),
        forall|id: Seq<char>| #[trigger]
            stage_times(s).contains_key(id) ==> stage_times(s)[id].len() == STAGES,
    decreases s.len(),
{
    if s.len() == 0 {
        orderly_empty::<String, StageTimes>();
    } else {
        let d = s.drop_last();
        let r = s.last();
        stamped_revocations(d);
        let m = stage_times(d);
        if let Some(k) = rank_of_stage(r.stage@) {
            let at = stamped(m, r.id@);
            let now = if at[k as int] is None {
                at.update(k as int, Some(r.t))
            } else {
                at
            };
            orderly_insert::<String, StageTimes>(m, r.id@, now);
        }
    }
}

proof fn last_stamp(at: StageTimes, k: int)
    requires
        0 <= k <= at.len(),
    ensures
        match last_stamped(at, k) {
            Some(p) => 0 <= p < k && at[p] is Some && forall|i: int| p < i < k ==> at[i] is None,
            None => forall|i: int| 0 <= i < k ==> at[i] is None,
        },
    decreases k,
{
    if k > 0 && at[k - 1] is None {
        last_stamp(at, k - 1);
    }
}

/// True if the first `k` stages are stamped in order.
pub open spec fn forward(at: StageTimes, k: int) -> bool {
    forall|i: int, j: int|
        0 <= i < j < k && (#[trigger] at[i]) is Some && (#[trigger] at[j]) is Some
            ==> at[i]->Some_0 <= at[j]->Some_0
}

proof fn forward_stages(id: Seq<char>, at: StageTimes, k: int)
    requires
        0 <= k <= at.len(),
    ensures
        (backward_findings(id, at, k).len() == 0) == forward(at, k),
    decreases k,
{
    if k > 0 {
        forward_stages(id, at, k - 1);
        last_stamp(at, k - 1);
        if forward(at, k) {
            assert(forward(at, k - 1));
            if let (Some(t), Some(p)) = (at[k - 1], last_stamped(at, k - 1)) {
                assert(at[p]->Some_0 <= at[k - 1]->Some_0);
            }
        }
        if backward_findings(id, at, k).len() == 0 {
            assert forall|i: int, j: int|
                0 <= i < j < k && (#[trigger] at[i]) is Some && (#[trigger] at[j]) is Some implies at[i]->Some_0
                <= at[j]->Some_0 by {
                if j == k - 1 {
                    let p = last_stamped(at, k - 1)->Some_0;
                    if i < p {
                        assert(at[i]->Some_0 <= at[p]->Some_0);
                    }
                }
            }
        }
    }
}

proof fn complete_revocations(s: Seq<(Seq<char>, StageTimes)>)
    requires
        forall|i: int| 0 <= i < s.len() ==> (#[trigger] s[i]).1.len() == STAGES,
    ensures
        (revocations_findings(s).len() == 0) == (forall|i: int|
            0 <= i < s.len() ==> stages_are_complete((#[trigger] s[i]).1)),
    decreases s.len(),
{
    if s.len() > 0 {
        let d = s.drop_last();
        assert(forall|i: int| 0 <= i < d.len() ==> d[i] == s[i]);
        complete_revocations(d);
        let (id, at) = s.last();
        assert(s[s.len() - 1].1.len() == STAGES);
        forward_stages(id, at, STAGES as int);
        last_stamp(at, STAGES as int);
        assert((revocation_findings(id, at).len() == 0) == stages_are_complete(at)) by {
            let late = exists|k: int| 5 <= k < STAGES && #[trigger] at[k] is Some;
            match last_stamped(at, STAGES as int) {
                Some(k) => {
                    if k >= 5 {
                        assert(at[k] is Some);
                        assert(late);
                    }
                    if late {
                        let j = choose|j: int| 5 <= j < STAGES && #[trigger] at[j] is Some;
                        assert(k >= 5);
                    }
                },
                None => {
                    assert(!late);
                },
            }
        }
        if revocations_findings(s).len() == 0 {
            assert forall|i: int| 0 <= i < s.len() implies stages_are_complete(
                (#[trigger] s[i]).1,
            ) by {
                if i < d.len() {
                    assert(stages_are_complete(d[i].1));
                }
            }
        }
        if forall|i: int| 0 <= i < s.len() ==> stages_are_complete((#[trigger] s[i]).1) {
            assert(stages_are_complete(s[s.len() - 1].1));
        }
    }
}

/// A fate carries the cause that it must: a delivery none, a loss a known one.
pub open spec fn cause_is_right(v: NodeRxView) -> bool {
    &&& v.outcome == RxFate::Delivered ==> v.cause is None
    &&& v.outcome == RxFate::Lost ==> v.cause is Some && cause_is_known(v.cause->Some_0@)
}

/// A fate is of an attempt, and says of it what the physical layer says: a frame that this
/// lost is lost to the same cause, and one that it decoded is not lost to one of its causes.
pub open spec fn fate_agrees(v: NodeRxView, phy: Map<(u64, u32), Option<Seq<char>>>) -> bool {
    &&& v.msg is Some
    &&& phy.contains_key((v.msg->Some_0, v.rx))
    &&& match phy[(v.msg->Some_0, v.rx)] {
        Some(cause) => v.outcome == RxFate::Lost && v.cause is Some && v.cause->Some_0@ == cause,
        None => v.cause is Some ==> !cause_is_phy(v.cause->Some_0@),
    }
}

/// Every attempt is recorded once, has exactly one fate, and every fate is right.
pub open spec fn fates_are_settled(rx: Seq<PhyRxView>, s: Seq<NodeRxView>) -> bool {
    let phy = phy_attempts(rx);
    &&& forall|i: int, j: int|
        0 <= i < j < rx.len() && (#[trigger] rx[i]).msg is Some && rx[i].msg == (
        #[trigger] rx[j]).msg ==> rx[i].rx != rx[j].rx
    &&& forall|i: int|
        0 <= i < s.len() ==> cause_is_right(#[trigger] s[i]) && fate_agrees(s[i], phy)
    &&& forall|i: int, j: int|
        0 <= i < j < s.len() && (#[trigger] s[i]).msg is Some && s[i].msg == (
        #[trigger] s[j]).msg ==> s[i].rx != s[j].rx
    &&& forall|k: (u64, u32)| #[trigger] phy.contains_key(k) ==> exists|i: int| fate_of(s, k, i)
    &&& s.len() == in_order::<(u64, u32), Option<Seq<char>>>(phy).len() + unkeyed_attempts(rx)
}

/// True if the fate at `i` is of the attempt `k`.
pub open spec fn fate_of(s: Seq<NodeRxView>, k: (u64, u32), i: int) -> bool {
    0 <= i < s.len() && s[i].msg == Some(k.0) && s[i].rx == k.1
}

/// True if the attempt at `i` is `k`.
pub open spec fn attempt_at(rx: Seq<PhyRxView>, k: (u64, u32), i: int) -> bool {
    0 <= i < rx.len() && rx[i].msg == Some(k.0) && rx[i].rx == k.1
}

/// The check of reception fates, where it runs, finds nothing exactly where every attempt is
/// settled. In particular the deliveries, losses and messages in flight sum to the attempts.
pub proof fn m_rx1_holds_where_fates_are_settled(l: EventLedger)
    requires
        l.node_rx@.len() > 0,
        l.node_rx@.len() <= u64::MAX,
    ensures
        (m_rx1(l).violations.len() == 0) == fates_are_settled(l.rx@, l.node_rx@),
        fates_are_settled(l.rx@, l.node_rx@) ==> fate_count(l.node_rx@, RxFate::Delivered)
            + fate_count(l.node_rx@, RxFate::Lost) + fate_count(l.node_rx@, RxFate::InFlight)
            == in_order::<(u64, u32), Option<Seq<char>>>(phy_attempts(l.rx@)).len()
            + unkeyed_attempts(l.rx@),
{
    let rx = l.rx@;
    let s = l.node_rx@;
    let phy = phy_attempts(rx);
    let attempts = in_order::<(u64, u32), Option<Seq<char>>>(phy);
    let seen = fates_seen(s);
    let fates = in_order::<(u64, u32), u64>(seen);
    recorded_attempts(rx);
    single_attempts(rx);
    right_fates(s, phy);
    counted_fates(s);
    single_fates(fates);
    fates_sum(s);
    settled_attempts(attempts, seen);
    if forall|i: int| 0 <= i < fates.len() ==> (#[trigger] fates[i]).1 <= 1 {
        assert forall|i: int, j: int|
            0 <= i < j < s.len() && (#[trigger] s[i]).msg is Some && s[i].msg == (
            #[trigger] s[j]).msg implies s[i].rx != s[j].rx by {
            if s[i].rx == s[j].rx {
                let k = (s[i].msg->Some_0, s[i].rx);
                assert(fate_of(s, k, i) && fate_of(s, k, j));
                assert(amount(seen, k) >= 2);
                let p = place_in_order::<(u64, u32), u64>(seen, k);
                assert(fates[p].1 <= 1);
            }
        }
    }
    if forall|i: int, j: int|
        0 <= i < j < s.len() && (#[trigger] s[i]).msg is Some && s[i].msg == (
        #[trigger] s[j]).msg ==> s[i].rx != s[j].rx {
        assert forall|i: int| 0 <= i < fates.len() implies (#[trigger] fates[i]).1 <= 1 by {
            listed_at::<(u64, u32), u64>(fates, i);
            let k = fates[i].0;
            assert(amount(seen, k) == fates[i].1);
            if amount(seen, k) >= 2 {
                let (a, b) = choose|a: int, b: int| a < b && fate_of(s, k, a) && fate_of(s, k, b);
                assert(s[a].msg == s[b].msg);
            }
        }
    }
    if forall|i: int| 0 <= i < attempts.len() ==> seen.contains_key((#[trigger] attempts[i]).0) {
        assert forall|k: (u64, u32)| #[trigger] phy.contains_key(k) implies exists|i: int|
            fate_of(s, k, i) by {
            let p = place_in_order::<(u64, u32), Option<Seq<char>>>(phy, k);
            assert(seen.contains_key(attempts[p].0));
            assert(amount(seen, k) >= 1);
        }
    }
    if forall|k: (u64, u32)| #[trigger] phy.contains_key(k) ==> exists|i: int| fate_of(s, k, i) {
        assert forall|i: int| 0 <= i < attempts.len() implies seen.contains_key(
            (#[trigger] attempts[i]).0,
        ) by {
            listed_at::<(u64, u32), Option<Seq<char>>>(attempts, i);
            let k = attempts[i].0;
            assert(phy.contains_key(k));
            assert(amount(seen, k) >= 1);
        }
    }
}

proof fn recorded_attempts(rx: Seq<PhyRxView>)
    ensures
        orderly::<(u64, u32), Option<Seq<char>>>(phy_attempts(rx)),
        forall|k: (u64, u32)| #[trigger]
            phy_attempts(rx).contains_key(k) == exists|i: int| attempt_at(rx, k, i),
    decreases rx.len(),
{
    if rx.len() == 0 {
        orderly_empty::<(u64, u32), Option<Seq<char>>>();
    } else {
        let d = rx.drop_last();
        let r = rx.last();
        recorded_attempts(d);
        assert(forall|i: int| 0 <= i < d.len() ==> d[i] == rx[i]);
        if let Some(m) = r.msg {
            orderly_insert::<(u64, u32), Option<Seq<char>>>(
                phy_attempts(d),
                (m, r.rx),
                phy_loss(r),
            );
        }
        assert forall|k: (u64, u32)| #[trigger] phy_attempts(rx).contains_key(k) == exists|i: int|
            attempt_at(rx, k, i) by {
            assert(phy_attempts(d).contains_key(k) == exists|i: int| attempt_at(d, k, i));
            if exists|i: int| attempt_at(d, k, i) {
                let i = choose|i: int| attempt_at(d, k, i);
                assert(attempt_at(rx, k, i));
            }
            if r.msg == Some(k.0) && r.rx == k.1 {
                assert(attempt_at(rx, k, rx.len() - 1));
            }
            if exists|i: int| attempt_at(rx, k, i) {
                let i = choose|i: int| attempt_at(rx, k, i);
                if i < d.len() {
                    assert(attempt_at(d, k, i));
                }
            }
        }
    }
}

proof fn single_attempts(rx: Seq<PhyRxView>)
    ensures
        (repeated_findings(rx).len() == 0) == (forall|i: int, j: int|
            0 <= i < j < rx.len() && (#[trigger] rx[i]).msg is Some && rx[i].msg == (
            #[trigger] rx[j]).msg ==> rx[i].rx != rx[j].rx),
    decreases rx.len(),
{
    if rx.len() > 0 {
        let d = rx.drop_last();
        let r = rx.last();
        single_attempts(d);
        recorded_attempts(d);
        assert(forall|i: int| 0 <= i < d.len() ==> d[i] == rx[i]);
        if repeated_findings(rx).len() == 0 {
            assert forall|i: int, j: int|
                0 <= i < j < rx.len() && (#[trigger] rx[i]).msg is Some && rx[i].msg == (
                #[trigger] rx[j]).msg implies rx[i].rx != rx[j].rx by {
                if j < d.len() {
                    assert(d[i].msg == d[j].msg);
                } else if rx[i].rx == rx[j].rx {
                    let k = (rx[i].msg->Some_0, rx[i].rx);
                    assert(attempt_at(d, k, i));
                    assert(phy_attempts(d).contains_key(k));
                }
            }
        } else if repeated_findings(d).len() == 0 {
            let k = (r.msg->Some_0, r.rx);
            assert(phy_attempts(d).contains_key(k));
            let i = choose|i: int| attempt_at(d, k, i);
            assert(rx[i].msg == rx[rx.len() - 1].msg);
        } else {
            let (i, j) = choose|i: int, j: int|
                0 <= i < j < d.len() && (#[trigger] d[i]).msg is Some && d[i].msg == (
                #[trigger] d[j]).msg && d[i].rx == d[j].rx;
            assert(rx[i].msg == rx[j].msg);
        }
    }
}

proof fn right_fates(s: Seq<NodeRxView>, phy: Map<(u64, u32), Option<Seq<char>>>)
    ensures
        (fate_findings(s, phy).len() == 0) == (forall|i: int|
            0 <= i < s.len() ==> cause_is_right(#[trigger] s[i]) && fate_agrees(s[i], phy)),
    decreases s.len(),
{
    if s.len() > 0 {
        let d = s.drop_last();
        let v = s.last();
        right_fates(d, phy);
        assert(forall|i: int| 0 <= i < d.len() ==> d[i] == s[i]);
        assert((fate_cause_finding(v) is None) == cause_is_right(v));
        assert((fate_match_finding(v, phy) is None) == fate_agrees(v, phy));
        if fate_findings(s, phy).len() == 0 {
            assert forall|i: int| 0 <= i < s.len() implies cause_is_right(#[trigger] s[i])
                && fate_agrees(s[i], phy) by {
                if i < d.len() {
                    assert(cause_is_right(d[i]));
                }
            }
        }
        if forall|i: int|
            0 <= i < s.len() ==> cause_is_right(#[trigger] s[i]) && fate_agrees(s[i], phy) {
            assert(cause_is_right(s[s.len() - 1]));
        }
    }
}

proof fn counted_fates(s: Seq<NodeRxView>)
    requires
        s.len() <= u64::MAX,
    ensures
        orderly::<(u64, u32), u64>(fates_seen(s)),
        forall|k: (u64, u32)| #[trigger]
            fates_seen(s).contains_key(k) == (amount(fates_seen(s), k) >= 1),
        forall|k: (u64, u32)| #[trigger] amount(fates_seen(s), k) <= s.len(),
        forall|k: (u64, u32)|
            (#[trigger] amount(fates_seen(s), k) >= 1) == exists|i: int| fate_of(s, k, i),
        forall|k: (u64, u32)|
            (#[trigger] amount(fates_seen(s), k) >= 2) == exists|a: int, b: int|
                a < b && fate_of(s, k, a) && fate_of(s, k, b),
    decreases s.len(),
{
    if s.len() == 0 {
        orderly_empty::<(u64, u32), u64>();
    } else {
        let d = s.drop_last();
        let v = s.last();
        let n = s.len() - 1;
        let m = fates_seen(d);
        counted_fates(d);
        assert(forall|i: int| 0 <= i < d.len() ==> d[i] == s[i]);
        if let Some(g) = v.msg {
            orderly_insert::<(u64, u32), u64>(m, (g, v.rx), (amount(m, (g, v.rx)) + 1) as u64);
        }
        assert forall|k: (u64, u32)|
            (#[trigger] amount(fates_seen(s), k) >= 1) == exists|i: int| fate_of(s, k, i) by {
            assert((amount(m, k) >= 1) == exists|i: int| fate_of(d, k, i));
            if exists|i: int| fate_of(d, k, i) {
                let i = choose|i: int| fate_of(d, k, i);
                assert(fate_of(s, k, i));
            }
            if v.msg == Some(k.0) && v.rx == k.1 {
                assert(fate_of(s, k, n));
            }
            if exists|i: int| fate_of(s, k, i) {
                let i = choose|i: int| fate_of(s, k, i);
                if i < n {
                    assert(fate_of(d, k, i));
                }
            }
        }
        assert forall|k: (u64, u32)|
            (#[trigger] amount(fates_seen(s), k) >= 2) == exists|a: int, b: int|
                a < b && fate_of(s, k, a) && fate_of(s, k, b) by {
            assert((amount(m, k) >= 2) == exists|a: int, b: int|
                a < b && fate_of(d, k, a) && fate_of(d, k, b));
            assert((amount(m, k) >= 1) == exists|i: int| fate_of(d, k, i));
            if exists|a: int, b: int| a < b && fate_of(d, k, a) && fate_of(d, k, b) {
                let (a, b) = choose|a: int, b: int| a < b && fate_of(d, k, a) && fate_of(d, k, b);
                assert(fate_of(s, k, a) && fate_of(s, k, b));
            }
            if v.msg == Some(k.0) && v.rx == k.1 && amount(m, k) >= 1 {
                let a = choose|a: int| fate_of(d, k, a);
                assert(fate_of(s, k, a) && fate_of(s, k, n));
            }
            if exists|a: int, b: int| a < b && fate_of(s, k, a) && fate_of(s, k, b) {
                let (a, b) = choose|a: int, b: int| a < b && fate_of(s, k, a) && fate_of(s, k, b);
                assert(fate_of(d, k, a));
                if b < n {
                    assert(fate_of(d, k, b));
                }
            }
        }
    }
}

proof fn single_fates(s: Seq<((u64, u32), u64)>)
    ensures
        (double_fate_findings(s).len() == 0) == (forall|i: int|
            0 <= i < s.len() ==> (#[trigger] s[i]).1 <= 1),
    decreases s.len(),
{
    if s.len() > 0 {
        let d = s.drop_last();
        single_fates(d);
        assert(forall|i: int| 0 <= i < d.len() ==> d[i] == s[i]);
        if double_fate_findings(s).len() == 0 {
            assert forall|i: int| 0 <= i < s.len() implies (#[trigger] s[i]).1 <= 1 by {
                if i < d.len() {
                    assert(d[i].1 <= 1);
                }
            }
        }
        if forall|i: int| 0 <= i < s.len() ==> (#[trigger] s[i]).1 <= 1 {
            assert(s[s.len() - 1].1 <= 1);
        }
    }
}

proof fn fates_sum(s: Seq<NodeRxView>)
    ensures
        fate_count(s, RxFate::Delivered) + fate_count(s, RxFate::Lost) + fate_count(
            s,
            RxFate::InFlight,
        ) == s.len(),
    decreases s.len(),
{
    if s.len() > 0 {
        fates_sum(s.drop_last());
    }
}

proof fn settled_attempts(
    s: Seq<((u64, u32), Option<Seq<char>>)>,
    seen: Map<(u64, u32), u64>,
)
    ensures
        fateless(s, seen) >= 0,
        (fateless(s, seen) == 0) == (forall|i: int|
            0 <= i < s.len() ==> seen.contains_key((#[trigger] s[i]).0)),
    decreases s.len(),
{
    if s.len() > 0 {
        let d = s.drop_last();
        settled_attempts(d, seen);
        assert(forall|i: int| 0 <= i < d.len() ==> d[i] == s[i]);
        if fateless(s, seen) == 0 {
            assert forall|i: int| 0 <= i < s.len() implies seen.contains_key((#[trigger] s[i]).0) by {
                if i < d.len() {
                    assert(seen.contains_key(d[i].0));
                }
            }
        }
        if forall|i: int| 0 <= i < s.len() ==> seen.contains_key((#[trigger] s[i]).0) {
            assert(seen.contains_key(s[s.len() - 1].0));
        }
    }
}

/// In every window that has a total, the rates of the buckets sum to it, up to rounding.
pub open spec fn rates_sum_up(s: Seq<SampleView>) -> bool {
    forall|t: SimTime| #[trigger]
        total_rates(s).contains_key(t) ==> {
            let (sum, n) = sum_for(bucket_rates(s), t);
            !apart(
                sum,
                total_rates(s)[t] as int,
                1_000 * if n > 1 {
                    n
                } else {
                    1
                },
            )
        }
}

/// The check of byte rates finds nothing exactly where the buckets sum to the totals.
pub proof fn m_byte2_holds_where_rates_sum_up(s: Seq<SampleView>)
    ensures
        (m_byte2(s).violations.len() == 0) == rates_sum_up(s),
{
    let m = total_rates(s);
    let parts = bucket_rates(s);
    let all = in_order::<u64, i128>(m);
    listed_totals(s);
    summed_rates(all, parts);
    if rates_sum_up(s) {
        assert forall|i: int| 0 <= i < all.len() implies is_summed(#[trigger] all[i], parts) by {
            listed_at::<u64, i128>(all, i);
            assert(m.contains_key(all[i].0));
        }
    }
    if rate_findings(all, parts).len() == 0 {
        assert forall|t: SimTime| #[trigger] m.contains_key(t) implies is_summed((t, m[t]), parts) by {
            let i = place_in_order::<u64, i128>(m, t);
            assert(is_summed(all[i], parts));
        }
        assert(rates_sum_up(s)) by {
            assert forall|t: SimTime| #[trigger] m.contains_key(t) implies {
                let (sum, n) = sum_for(parts, t);
                !apart(
                    sum,
                    m[t] as int,
                    1_000 * if n > 1 {
                        n
                    } else {
                        1
                    },
                )
            } by {
                assert(is_summed((t, m[t]), parts));
            }
        }
    }
}

/// True if the rates of the buckets sum to one total.
pub open spec fn is_summed(e: (SimTime, i128), parts: Map<SimTime, (int, int)>) -> bool {
    let (sum, n) = sum_for(parts, e.0);
    !apart(
        sum,
        e.1 as int,
        1_000 * if n > 1 {
            n
        } else {
            1
        },
    )
}

proof fn listed_totals(s: Seq<SampleView>)
    ensures
        orderly::<u64, i128>(total_rates(s)),
    decreases s.len(),
{
    if s.len() == 0 {
        orderly_empty::<u64, i128>();
    } else {
        let d = s.drop_last();
        listed_totals(d);
        let m = total_rates(d);
        if total_rates(s) != m {
            let t = s.last().t;
            orderly_insert::<u64, i128>(m, t, total_rates(s)[t]);
            assert(total_rates(s) =~= m.insert(t, total_rates(s)[t]));
        }
    }
}

proof fn summed_rates(s: Seq<(SimTime, i128)>, parts: Map<SimTime, (int, int)>)
    ensures
        (rate_findings(s, parts).len() == 0) == (forall|i: int|
            0 <= i < s.len() ==> is_summed(#[trigger] s[i], parts)),
    decreases s.len(),
{
    if s.len() > 0 {
        let d = s.drop_last();
        summed_rates(d, parts);
        assert(forall|i: int| 0 <= i < d.len() ==> d[i] == s[i]);
        if rate_findings(s, parts).len() == 0 {
            assert forall|i: int| 0 <= i < s.len() implies is_summed(#[trigger] s[i], parts) by {
                if i < d.len() {
                    assert(is_summed(d[i], parts));
                }
            }
        }
        if forall|i: int| 0 <= i < s.len() ==> is_summed(#[trigger] s[i], parts) {
            assert(is_summed(s[s.len() - 1], parts));
        }
    }
}

/// In every window the stage shares of one flow and message type sum to one, up to rounding.
pub open spec fn shares_sum_up(s: Seq<SampleView>) -> bool {
    forall|k: Seq<char>| #[trigger]
        share_sums(s).contains_key(k) ==> !apart(share_sums(s)[k].0, 1_000_000, 100 * share_sums(s)[k].1)
}

/// The check of stage shares finds nothing exactly where they sum to one.
pub proof fn m_share_holds_where_shares_sum_up(s: Seq<SampleView>)
    ensures
        (m_share(s).violations.len() == 0) == shares_sum_up(s),
{
    let m = share_sums(s);
    let all = in_order::<String, (int, int)>(m);
    listed_shares(s);
    summed_shares(all);
    if shares_sum_up(s) {
        assert forall|i: int| 0 <= i < all.len() implies !apart(
            (#[trigger] all[i]).1.0,
            1_000_000,
            100 * all[i].1.1,
        ) by {
            listed_at::<String, (int, int)>(all, i);
            assert(m.contains_key(all[i].0));
        }
    }
    if share_findings(all).len() == 0 {
        assert forall|k: Seq<char>| #[trigger] m.contains_key(k) implies !apart(
            m[k].0,
            1_000_000,
            100 * m[k].1,
        ) by {
            let i = place_in_order::<String, (int, int)>(m, k);
            assert(!apart(all[i].1.0, 1_000_000, 100 * all[i].1.1));
        }
    }
}

proof fn listed_shares(s: Seq<SampleView>)
    ensures
        orderly::<String, (int, int)>(share_sums(s)),
    decreases s.len(),
{
    if s.len() == 0 {
        orderly_empty::<String, (int, int)>();
    } else {
        let d = s.drop_last();
        listed_shares(d);
        let m = share_sums(d);
        if share_sums(s) != m {
            let k = share_key(s.last());
            orderly_insert::<String, (int, int)>(m, k, share_sums(s)[k]);
            assert(share_sums(s) =~= m.insert(k, share_sums(s)[k]));
        }
    }
}

proof fn summed_shares(s: Seq<(Seq<char>, (int, int))>)
    ensures
        (share_findings(s).len() == 0) == (forall|i: int|
            0 <= i < s.len() ==> !apart((#[trigger] s[i]).1.0, 1_000_000, 100 * s[i].1.1)),
    decreases s.len(),
{
    if s.len() > 0 {
        let d = s.drop_last();
        summed_shares(d);
        assert(forall|i: int| 0 <= i < d.len() ==> d[i] == s[i]);
        if share_findings(s).len() == 0 {
            assert forall|i: int| 0 <= i < s.len() implies !apart(
                (#[trigger] s[i]).1.0,
                1_000_000,
                100 * s[i].1.1,
            ) by {
                if i < d.len() {
                    assert(!apart(d[i].1.0, 1_000_000, 100 * d[i].1.1));
                }
            }
        }
        if forall|i: int| 0 <= i < s.len() ==> !apart((#[trigger] s[i]).1.0, 1_000_000, 100 * s[i].1.1) {
            assert(!apart(s[s.len() - 1].1.0, 1_000_000, 100 * s[s.len() - 1].1.1));
        }
    }
}

/// A sample that was built from its definition passes the scan of numbers.
pub proof fn a_built_sample_passes_the_scan(
    def: DefView,
    t: SimTime,
    dims: DimList,
    value: SampleValue,
)
    requires
        0 < def.per_unit <= MAX_PER_UNIT,
    ensures
        is_on_grids(sample_of(def, t, dims, value)),
{
    let s = sample_of(def, t, dims, value);
    written_numbers_are_on_their_grids(value, def.per_unit);
    assert forall|i: int| 0 <= i < s.value.graded(s.per_unit).len() implies on_grid(
        (#[trigger] s.value.graded(s.per_unit)[i]).0@,
        s.value.graded(s.per_unit)[i].1,
    ) by {
        let g = value.on(def.per_unit).graded(def.per_unit)[i];
        assert(on_grid(g.0@, g.1));
    }
}

} // verus!
