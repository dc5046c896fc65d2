//! Checks on revocation stages, visibility tags and attack records.

use vstd::prelude::*;
use vstd::string::*;
use crate::basic::{SimTime, Visibility};
use crate::card::{group_views, views};
use crate::channels::{allowed_visibilities, visibility_rule, GtAttackActionView, NodeTxView, ProtoRevocationView};
use crate::invariants::outcome::{did_not_run, finding, ran, InvariantOutcome, InvariantViolation, OutcomeView, ViolationView};
use crate::invariants::records::appended;
use crate::keyed::{in_order, SortedMap};
use crate::ledger::{EventLedger, Tag};
use crate::security::{rank_of_stage, stage_name, stage_rank, stage_text, STAGES};
use crate::text::{decimal, join2, join3, join_all, joined, numeral, texts};

verus! {

/// Revocation stages are stamped, in order.
pub const I_P4: &'static str = "revocation stage timestamps are emitted";

/// The finding that a stage is not a declared one.
pub open spec fn stage_finding(r: ProtoRevocationView) -> Option<ViolationView> {
    if rank_of_stage(r.stage@) is None {
        Some(
            finding(
                "I-P4"@,
                Some(r.id@),
                "stage `"@ + r.stage@
                    + "` is not one of the stage ids 05-protocols.md §8 fixes, so it cannot be placed in the latency decomposition"@,
            ).count("t"@, r.t as int),
        )
    } else {
        None
    }
}

/// The stages that are not declared ones.
pub open spec fn stage_findings(s: Seq<ProtoRevocationView>) -> Seq<ViolationView>
    decreases s.len(),
{
    if s.len() == 0 {
        Seq::empty()
    } else {
        appended(stage_findings(s.drop_last()), stage_finding(s.last()))
    }
}

/// When each stage of one revocation was stamped first, by rank.
pub type StageTimes = Seq<Option<SimTime>>;

/// No stage stamped.
pub open spec fn no_stages() -> StageTimes {
    Seq::new(STAGES as nat, |i: int| None)
}

/// What is stamped for a revocation.
pub open spec fn stamped(m: Map<Seq<char>, StageTimes>, id: Seq<char>) -> StageTimes {
    if m.contains_key(id) {
        m[id]
    } else {
        no_stages()
    }
}

/// When each stage of each revocation was stamped first.
pub open spec fn stage_times(s: Seq<ProtoRevocationView>) -> Map<Seq<char>, StageTimes>
    decreases s.len(),
{
    if s.len() == 0 {
        Map::empty()
    } else {
        let m = stage_times(s.drop_last());
        let r = s.last();
        match rank_of_stage(r.stage@) {
            Some(k) => {
                let at = stamped(m, r.id@);
                m.insert(
                    r.id@,
                    if at[k as int] is None {
                        at.update(k as int, Some(r.t))
                    } else {
                        at
                    },
                )
            },
            None => m,
        }
    }
}

/// The last stamped stage among the first `k`.
pub open spec fn last_stamped(at: StageTimes, k: int) -> Option<int>
    decreases k,
{
    if k <= 0 {
        None
    } else if at[k - 1] is Some {
        Some(k - 1)
    } else {
        last_stamped(at, k - 1)
    }
}

/// How many of the first `k` stages are stamped.
pub open spec fn stamped_count(at: StageTimes, k: int) -> int
    decreases k,
{
    if k <= 0 {
        0
    } else {
        stamped_count(at, k - 1) + (if at[k - 1] is Some {
            1int
        } else {
            0int
        })
    }
}

/// The stages among the first `k` that are stamped before the stamped stage ahead of them.
pub open spec fn backward_findings(id: Seq<char>, at: StageTimes, k: int) -> Seq<ViolationView>
    decreases k,
{
    if k <= 0 {
        Seq::empty()
    } else {
        let before = backward_findings(id, at, k - 1);
        match (at[k - 1], last_stamped(at, k - 1)) {
            (Some(t), Some(p)) => if t < at[p]->Some_0 {
                before.push(
                    finding(
                        "I-P4"@,
                        Some(id),
                        "stage `"@ + stage_text(k - 1)
                            + "` is timestamped before the earlier stage `"@ + stage_text(p) + "`"@,
                    ).count("t_from"@, at[p]->Some_0 as int).count("t_to"@, t as int),
                )
            } else {
                before
            },
            _ => before,
        }
    }
}

/// The finding that a published revocation never emitted the stage of rank `k`.
pub open spec fn missing_finding(id: Seq<char>, at: StageTimes, k: int) -> Option<ViolationView> {
    if at[k] is None {
        Some(
            finding(
                "I-P4"@,
                Some(id),
                "this revocation reached `published` or beyond but never emitted `"@ + stage_text(k)
                    + "`"@,
            ).count("stages_emitted"@, stamped_count(at, STAGES as int)),
        )
    } else {
        None
    }
}

/// Everything wrong with the stages of one revocation.
pub open spec fn revocation_findings(id: Seq<char>, at: StageTimes) -> Seq<ViolationView> {
    let backward = backward_findings(id, at, STAGES as int);
    match last_stamped(at, STAGES as int) {
        Some(k) => if k >= 5 {
            appended(
                appended(backward, missing_finding(id, at, 3)),
                missing_finding(id, at, 4),
            )
        } else {
            backward
        },
        None => backward,
    }
}

/// Everything wrong with the stages of some revocations.
pub open spec fn revocations_findings(s: Seq<(Seq<char>, StageTimes)>) -> Seq<ViolationView>
    decreases s.len(),
{
    if s.len() == 0 {
        Seq::empty()
    } else {
        revocations_findings(s.drop_last()) + revocation_findings(s.last().0, s.last().1)
    }
}

/// What the check of revocation stages finds.
pub open spec fn i_p4(l: EventLedger) -> OutcomeView {
    let s = l.revocation@;
    if s.len() == 0 {
        did_not_run("I-P4"@, I_P4@, "no proto.revocation records"@)
    } else {
        let all = in_order::<String, StageTimes>(stage_times(s));
        ran("I-P4"@, I_P4@, all.len() as int, stage_findings(s) + revocations_findings(all))
    }
}

fn blank_stages() -> (r: Vec<Option<SimTime>>)
    ensures
        r@ == no_stages(),
{
    let r: Vec<Option<SimTime>> = vec![None, None, None, None, None, None, None, None];
    assert(r@ =~= no_stages());
    r
}

fn audit_revocation(id: &String, at: &Vec<Option<SimTime>>, out: &mut Vec<InvariantViolation>)
    requires
        at@.len() == STAGES,
    ensures
        views(final(out)@) == views(old(out)@) + revocation_findings(id@, at@),
{
    broadcast use group_views;

    let ghost start = views(out@);
    let mut previous: Option<usize> = None;
    let mut count: u64 = 0;
    let mut k: usize = 0;
    assert(start + Seq::<ViolationView>::empty() =~= start);
    while k < STAGES
        invariant
            at@.len() == STAGES,
            k <= STAGES,
            count <= k,
            count == stamped_count(at@, k as int),
            match previous {
                Some(p) => last_stamped(at@, k as int) == Some(p as int) && p < k && at@[p as int] is Some,
                None => last_stamped(at@, k as int) is None,
            },
            views(out@) == start + backward_findings(id@, at@, k as int),
        decreases STAGES - k,
    {
        broadcast use group_views;

        if let Some(t) = at[k] {
            if let Some(p) = previous {
                if let Some(from) = at[p] {
                    if t < from {
                        let mut detail = join3(
                            "stage `",
                            stage_name(k),
                            "` is timestamped before the earlier stage `",
                        );
                        detail.append(stage_name(p));
                        detail.append("`");
                        let v = InvariantViolation::new("I-P4", Some(id.clone()), detail).count(
                            "t_from",
                            from,
                        ).count("t_to", t);
                        let ghost before = backward_findings(id@, at@, k as int);
                        out.push(v);
                        assert(views(out@) =~= start + before.push(v@));
                    }
                }
            }
            previous = Some(k);
            count = count + 1;
        }
        k = k + 1;
    }
    if let Some(p) = previous {
        if p >= 5 {
            if at[3].is_none() {
                let v = InvariantViolation::new(
                    "I-P4",
                    Some(id.clone()),
                    join3(
                        "this revocation reached `published` or beyond but never emitted `",
                        stage_name(3),
                        "`",
                    ),
                ).count("stages_emitted", count);
                let ghost before = views(out@);
                out.push(v);
                assert(views(out@) =~= start + backward_findings(id@, at@, 8).push(v@));
            }
            if at[4].is_none() {
                let v = InvariantViolation::new(
                    "I-P4",
                    Some(id.clone()),
                    join3(
                        "this revocation reached `published` or beyond but never emitted `",
                        stage_name(4),
                        "`",
                    ),
                ).count("stages_emitted", count);
                let ghost before = appended(
                    backward_findings(id@, at@, 8),
                    missing_finding(id@, at@, 3),
                );
                assert(views(out@) =~= start + before);
                out.push(v);
                assert(views(out@) =~= start + before.push(v@));
            }
        }
    }
}

/// Checks that every revocation stage is a declared one, that stages are stamped in order,
/// and that what was published was decided and issued.
pub fn check_i_p4(ledger: &EventLedger) -> (r: InvariantOutcome)
    ensures
        r@ == i_p4(*ledger),
{
    broadcast use group_views;

    let s = &ledger.revocation;
    if s.len() == 0 {
        return InvariantOutcome::not_run("I-P4", I_P4, "no proto.revocation records");
    }
    let mut times: SortedMap<String, Vec<Option<SimTime>>> = SortedMap::new();
    let mut out: Vec<InvariantViolation> = Vec::new();
    let mut i: usize = 0;
    assert(s@.subrange(0, 0) =~= Seq::<ProtoRevocationView>::empty());
    while i < s.len()
        invariant
            i <= s@.len(),
            times@ == stage_times(s@.subrange(0, i as int)),
            forall|id: Seq<char>|
                times@.contains_key(id) ==> (#[trigger] times@[id]).len() == STAGES,
            views(out@) == stage_findings(s@.subrange(0, i as int)),
        decreases s@.len() - i,
    {
        broadcast use group_views;

        let r = &s[i];
        proof {
            let next = s@.subrange(0, i as int + 1);
            assert(next.drop_last() =~= s@.subrange(0, i as int));
            assert(next.last() == *r);
        }
        match stage_rank(r.stage.as_str()) {
            None => {
                let mut detail = join2("stage `", r.stage.as_str());
                detail.append(
                    "` is not one of the stage ids 05-protocols.md §8 fixes, so it cannot be placed in the latency decomposition",
                );
                out.push(
                    InvariantViolation::new("I-P4", Some(r.id.clone()), detail).count("t", r.t),
                );
            },
            Some(k) => {
                let ghost m = times@;
                let mut at: Vec<Option<SimTime>> = match times.remove(&r.id) {
                    Some(v) => v,
                    None => blank_stages(),
                };
                assert(at@ == stamped(m, r.id@));
                if at[k].is_none() {
                    at.set(k, Some(r.t));
                }
                let ghost now = at@;
                let _ = times.insert(r.id.clone(), at);
                assert(times@ =~= m.insert(r.id@, now));
            },
        }
        i = i + 1;
    }
    assert(s@.subrange(0, i as int) =~= s@);
    let ghost stages = stage_findings(s@);
    let n: usize = times.len();
    let ghost listing = times.listing();
    let mut j: usize = 0;
    assert forall|q: int| 0 <= q < n implies (#[trigger] listing[q]).1.len() == STAGES by {
        assert(times@.contains_key(times.listing()[q].0));
        assert(times@[listing[q].0] == listing[q].1);
    }
    assert(listing.subrange(0, 0) =~= Seq::<(Seq<char>, StageTimes)>::empty());
    assert(stages + Seq::<ViolationView>::empty() =~= stages);
    while j < n
        invariant
            n == times.listing().len(),
            listing == times.listing(),
            j <= n,
            forall|q: int| 0 <= q < n ==> (#[trigger] listing[q]).1.len() == STAGES,
            views(out@) == stages + revocations_findings(listing.subrange(0, j as int)),
        decreases n - j,
    {
        proof {
            let next = listing.subrange(0, j as int + 1);
            assert(next.drop_last() =~= listing.subrange(0, j as int));
            assert(next.last() == listing[j as int]);
        }
        let ghost before = revocations_findings(listing.subrange(0, j as int));
        audit_revocation(times.key_at(j), times.value_at(j), &mut out);
        assert(views(out@) =~= stages + (before + revocation_findings(
            listing[j as int].0,
            listing[j as int].1,
        )));
        j = j + 1;
    }
    assert(listing.subrange(0, n as int) =~= listing);
    InvariantOutcome::of("I-P4", I_P4, n as u64, out)
}

/// Nothing that holds ground truth stands on a channel that nodes read.
pub const I_T2: &'static str = "`Detector` and `MaPipeline` run with the node's belief only; exporters tag their outputs `NODE`, and no record whose visibility is GT-tainted reaches a NODE channel";

/// The names of some tags.
pub open spec fn tag_names(s: Seq<Visibility>) -> Seq<Seq<char>> {
    Seq::new(s.len(), |i: int| s[i].text())
}

/// True if every one of some tags may stand on a channel that nodes read.
pub open spec fn for_nodes(s: Seq<Visibility>) -> bool {
    forall|i: int| 0 <= i < s.len() ==> !(#[trigger] s[i]).tainted()
}

/// Everything wrong with one tag on one channel.
pub open spec fn tag_findings(channel: Seq<char>, v: Visibility, n: u64) -> Seq<ViolationView> {
    match visibility_rule(channel) {
        Some(allowed) => {
            let first = if allowed.contains(v) {
                Seq::empty()
            } else {
                seq![
                    finding(
                        "I-T2"@,
                        Some(channel),
                        "records carry visibility `"@ + v.text()
                            + "`, which this channel may not: 03-interfaces.md §14 allows "@
                            + joined(tag_names(allowed), " or "@),
                    ).count("records"@, n as int),
                ]
            };
            if for_nodes(allowed) && v.tainted() {
                first.push(
                    finding(
                        "I-T2"@,
                        Some(channel),
                        "a ground-truth-tainted record (`"@ + v.text()
                            + "`) reached a NODE channel"@,
                    ).count("records"@, n as int),
                )
            } else {
                first
            }
        },
        None => seq![
            finding(
                "I-T2"@,
                Some(channel),
                "this channel is not in 03-interfaces.md §14's table, so what it may carry is undeclared and the leak rule cannot be applied to it"@,
            ).count("records"@, n as int),
        ],
    }
}

/// Everything wrong with some tags.
pub open spec fn tags_findings(s: Seq<((Seq<char>, Visibility), u64)>) -> Seq<ViolationView>
    decreases s.len(),
{
    if s.len() == 0 {
        Seq::empty()
    } else {
        tags_findings(s.drop_last()) + tag_findings(s.last().0.0, s.last().0.1, s.last().1)
    }
}

/// What the check of visibility tags finds.
pub open spec fn i_t2(l: EventLedger) -> OutcomeView {
    let s = in_order::<Tag, u64>(l.visibility_seen@);
    if s.len() == 0 {
        did_not_run("I-T2"@, I_T2@, "no records"@)
    } else {
        ran("I-T2"@, I_T2@, s.len() as int, tags_findings(s))
    }
}

fn audit_tag(tag: &Tag, n: u64, out: &mut Vec<InvariantViolation>)
    ensures
        views(final(out)@) == views(old(out)@) + tag_findings(tag.channel@, tag.visibility, n),
{
    broadcast use group_views;

    let ghost start = views(out@);
    let v: Visibility = tag.visibility;
    match allowed_visibilities(tag.channel.as_str()) {
        Some(allowed) => {
            let mut listed: bool = false;
            let mut node_only: bool = true;
            let mut names: Vec<String> = Vec::new();
            let mut i: usize = 0;
            while i < allowed.len()
                invariant
                    i <= allowed@.len(),
                    listed == allowed@.subrange(0, i as int).contains(v),
                    node_only == for_nodes(allowed@.subrange(0, i as int)),
                    texts(names@) =~= tag_names(allowed@.subrange(0, i as int)),
                decreases allowed@.len() - i,
            {
                broadcast use group_views;

                proof {
                    let now = allowed@.subrange(0, i as int);
                    let next = allowed@.subrange(0, i as int + 1);
                    assert(next =~= now.push(allowed@[i as int]));
                    assert(next.contains(v) == (now.contains(v) || allowed@[i as int] == v)) by {
                        if now.contains(v) {
                            let q = choose|q: int| 0 <= q < now.len() && now[q] == v;
                            assert(next[q] == v);
                        }
                        if allowed@[i as int] == v {
                            assert(next[i as int] == v);
                        }
                    }
                    assert(for_nodes(next) == (for_nodes(now) && !allowed@[i as int].tainted()))
                        by {
                        if for_nodes(next) {
                            assert forall|q: int| 0 <= q < now.len() implies !(
                            #[trigger] now[q]).tainted() by {
                                assert(next[q] == now[q]);
                            }
                            assert(next[i as int] == allowed@[i as int]);
                        }
                        if for_nodes(now) && !allowed@[i as int].tainted() {
                            assert forall|q: int| 0 <= q < next.len() implies !(
                            #[trigger] next[q]).tainted() by {
                                if q < i {
                                    assert(next[q] == now[q]);
                                }
                            }
                        }
                    }
                }
                if allowed[i] == v {
                    listed = true;
                }
                if !allowed[i].allowed_on_node_channel() {
                    node_only = false;
                }
                names.push(allowed[i].as_str().to_owned());
                i = i + 1;
            }
            assert(allowed@.subrange(0, i as int) =~= allowed@);
            assert(start + Seq::<ViolationView>::empty() =~= start);
            if !listed {
                let mut detail = join3(
                    "records carry visibility `",
                    v.as_str(),
                    "`, which this channel may not: 03-interfaces.md §14 allows ",
                );
                detail.append(join_all(&names, " or ").as_str());
                let f = InvariantViolation::new("I-T2", Some(tag.channel.clone()), detail).count(
                    "records",
                    n,
                );
                out.push(f);
                assert(views(out@) =~= start + seq![f@]);
            }
            if node_only && v.is_gt_tainted() {
                let ghost before = views(out@);
                let f = InvariantViolation::new(
                    "I-T2",
                    Some(tag.channel.clone()),
                    join3(
                        "a ground-truth-tainted record (`",
                        v.as_str(),
                        "`) reached a NODE channel",
                    ),
                ).count("records", n);
                out.push(f);
                assert(views(out@) =~= start + tag_findings(tag.channel@, v, n));
            }
        },
        None => {
            let f = InvariantViolation::new(
                "I-T2",
                Some(tag.channel.clone()),
                "this channel is not in 03-interfaces.md §14's table, so what it may carry is undeclared and the leak rule cannot be applied to it".to_owned(),
            ).count("records", n);
            out.push(f);
            assert(views(out@) =~= start + seq![f@]);
        },
    }
}

/// Checks that every record carries a tag that its channel may carry, and that nothing
/// with ground truth in it stands on a channel that nodes read.
pub fn check_i_t2(ledger: &EventLedger) -> (r: InvariantOutcome)
    ensures
        r@ == i_t2(*ledger),
{
    broadcast use group_views;

    let seen = &ledger.visibility_seen;
    let n: usize = seen.len();
    if n == 0 {
        return InvariantOutcome::not_run("I-T2", I_T2, "no records");
    }
    let ghost listing = seen.listing();
    let mut out: Vec<InvariantViolation> = Vec::new();
    let mut i: usize = 0;
    assert(listing.subrange(0, 0) =~= Seq::<((Seq<char>, Visibility), u64)>::empty());
    while i < n
        invariant
            n == seen.listing().len(),
            listing == seen.listing(),
            i <= n,
            views(out@) == tags_findings(listing.subrange(0, i as int)),
        decreases n - i,
    {
        proof {
            let next = listing.subrange(0, i as int + 1);
            assert(next.drop_last() =~= listing.subrange(0, i as int));
            assert(next.last() == listing[i as int]);
        }
        audit_tag(seen.key_at(i), seen.amount_at(i), &mut out);
        i = i + 1;
    }
    assert(listing.subrange(0, n as int) =~= listing);
    InvariantOutcome::of("I-T2", I_T2, n as u64, out)
}

/// Attacks on the air are logged, with the transmission they changed.
pub const I_T3: &'static str = "every attack action that changes bytes on the air is logged as a GT event (`gt.attack.action`) with the true actor id, on a GT channel only";

/// True if message `m` was transmitted.
pub open spec fn transmitted(tx: Seq<NodeTxView>, m: u64) -> bool {
    exists|i: int| 0 <= i < tx.len() && (#[trigger] tx[i]).msg == Some(m)
}

/// How many attacks changed bytes on the air.
pub open spec fn on_air_count(s: Seq<GtAttackActionView>) -> int
    decreases s.len(),
{
    if s.len() == 0 {
        0
    } else {
        on_air_count(s.drop_last()) + (if s.last().changed_bytes_on_air {
            1int
        } else {
            0int
        })
    }
}

/// The finding that an attack cannot be joined to a transmission.
pub open spec fn attack_finding(a: GtAttackActionView, tx: Seq<NodeTxView>) -> Option<
    ViolationView,
> {
    if !a.changed_bytes_on_air {
        None
    } else {
        match a.msg {
            None => Some(
                finding(
                    "I-T3"@,
                    Some("actor "@ + numeral(a.actor as nat) + " t="@ + numeral(a.t as nat)),
                    "the action `"@ + a.action@
                        + "` claims to have changed bytes on the air but names no message, so the claim cannot be joined to a transmission"@,
                ).count("t"@, a.t as int),
            ),
            Some(m) => if !transmitted(tx, m) {
                Some(
                    finding(
                        "I-T3"@,
                        Some("actor "@ + numeral(a.actor as nat) + " msg="@ + numeral(m as nat)),
                        "the action `"@ + a.action@
                            + "` names a message that never appears in node.tx"@,
                    ).count("msg"@, m as int),
                )
            } else {
                None
            },
        }
    }
}

/// The attacks that cannot be joined to a transmission.
pub open spec fn attack_findings(s: Seq<GtAttackActionView>, tx: Seq<NodeTxView>) -> Seq<
    ViolationView,
>
    decreases s.len(),
{
    if s.len() == 0 {
        Seq::empty()
    } else {
        appended(attack_findings(s.drop_last(), tx), attack_finding(s.last(), tx))
    }
}

/// What the check of attack records finds.
pub open spec fn i_t3(l: EventLedger) -> OutcomeView {
    if on_air_count(l.attacks@) == 0 {
        did_not_run(
            "I-T3"@,
            I_T3@,
            "no gt.attack.action records that changed bytes on the air"@,
        )
    } else if l.tx@.len() == 0 {
        did_not_run("I-T3"@, I_T3@, "no node.tx records to join the attack actions to"@)
    } else {
        ran("I-T3"@, I_T3@, on_air_count(l.attacks@), attack_findings(l.attacks@, l.tx@))
    }
}

fn messages(tx: &Vec<NodeTxView>) -> (r: SortedMap<u64, u64>)
    ensures
        forall|m: u64| #[trigger] r@.contains_key(m) == transmitted(tx@, m),
{
    let mut out: SortedMap<u64, u64> = SortedMap::new();
    let mut i: usize = 0;
    while i < tx.len()
        invariant
            i <= tx@.len(),
            forall|m: u64|
                #[trigger] out@.contains_key(m) == (exists|k: int|
                    0 <= k < i && (#[trigger] tx@[k]).msg == Some(m)),
        decreases tx@.len() - i,
    {
        let ghost before = out@;
        if let Some(m) = tx[i].msg {
            let _ = out.insert(m, m);
            assert forall|q: u64| #[trigger] out@.contains_key(q) == (exists|k: int|
                0 <= k < i + 1 && (#[trigger] tx@[k]).msg == Some(q)) by {
                assert(before.contains_key(q) == (exists|k: int|
                    0 <= k < i && (#[trigger] tx@[k]).msg == Some(q)));
                if q == m {
                    assert(tx@[i as int].msg == Some(q));
                }
            }
        } else {
            assert forall|q: u64| #[trigger] out@.contains_key(q) == (exists|k: int|
                0 <= k < i + 1 && (#[trigger] tx@[k]).msg == Some(q)) by {
                assert(before.contains_key(q) == (exists|k: int|
                    0 <= k < i && (#[trigger] tx@[k]).msg == Some(q)));
            }
        }
        i = i + 1;
    }
    assert forall|m: u64| #[trigger] out@.contains_key(m) == transmitted(tx@, m) by {}
    out
}

/// Checks that every attack that changed bytes on the air names a message that was
/// transmitted.
pub fn check_i_t3(ledger: &EventLedger) -> (r: InvariantOutcome)
    ensures
        r@ == i_t3(*ledger),
{
    broadcast use group_views;

    let s = &ledger.attacks;
    let sent = messages(&ledger.tx);
    let ghost tx = ledger.tx@;
    let mut on_air: u64 = 0;
    let mut out: Vec<InvariantViolation> = Vec::new();
    let mut i: usize = 0;
    assert(s@.subrange(0, 0) =~= Seq::<GtAttackActionView>::empty());
    while i < s.len()
        invariant
            i <= s@.len(),
            forall|m: u64| #[trigger] sent@.contains_key(m) == transmitted(tx, m),
            0 <= on_air <= i,
            on_air == on_air_count(s@.subrange(0, i as int)),
            views(out@) == attack_findings(s@.subrange(0, i as int), tx),
        decreases s@.len() - i,
    {
        broadcast use group_views;

        let a = &s[i];
        proof {
            let next = s@.subrange(0, i as int + 1);
            assert(next.drop_last() =~= s@.subrange(0, i as int));
            assert(next.last() == *a);
        }
        if a.changed_bytes_on_air {
            on_air = on_air + 1;
            match a.msg {
                None => {
                    let mut subject = join3("actor ", decimal(a.actor as u64).as_str(), " t=");
                    subject.append(decimal(a.t).as_str());
                    out.push(
                        InvariantViolation::new(
                            "I-T3",
                            Some(subject),
                            join3(
                                "the action `",
                                a.action.as_str(),
                                "` claims to have changed bytes on the air but names no message, so the claim cannot be joined to a transmission",
                            ),
                        ).count("t", a.t),
                    );
                },
                Some(m) => {
                    assert(sent@.contains_key(m) == transmitted(tx, m));
                    if !sent.contains_key(&m) {
                        let mut subject = join3("actor ", decimal(a.actor as u64).as_str(), " msg=");
                        subject.append(decimal(m).as_str());
                        out.push(
                            InvariantViolation::new(
                                "I-T3",
                                Some(subject),
                                join3(
                                    "the action `",
                                    a.action.as_str(),
                                    "` names a message that never appears in node.tx",
                                ),
                            ).count("msg", m),
                        );
                    }
                },
            }
        }
        i = i + 1;
    }
    assert(s@.subrange(0, i as int) =~= s@);
    if on_air == 0 {
        return InvariantOutcome::not_run(
            "I-T3",
            I_T3,
            "no gt.attack.action records that changed bytes on the air",
        );
    }
    if ledger.tx.len() == 0 {
        return InvariantOutcome::not_run(
            "I-T3",
            I_T3,
            "no node.tx records to join the attack actions to",
        );
    }
    InvariantOutcome::of("I-T3", I_T3, on_air, out)
}

} // verus!
