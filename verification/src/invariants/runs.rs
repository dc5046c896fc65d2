//! Checks that compare two runs.

use vstd::prelude::*;
use vstd::string::*;
use crate::card::{group_views, views};
use crate::channels::{EventRecord, NodeTxView, NodeVerifyView};
use crate::invariants::outcome::{did_not_run, finding, ran, InvariantOutcome, InvariantViolation, OutcomeView, ViolationView};
use crate::invariants::records::appended;
use crate::ledger::EventLedger;
use crate::outside::{lossy, lossy_text};
use crate::text::{decimal, head, join2, join3, numeral, same_text};

verus! {

/// The two crypto modes agree.
pub const I_S1: &'static str = "for any run, `Real` and `Modeled` crypto modes produce identical verification outcomes, identical sizes, and identical event logs except the `crypto_mode` manifest field";

/// The finding that two counts differ.
pub open spec fn length_finding(
    id: Seq<char>,
    detail: Seq<char>,
    first: Seq<char>,
    a: int,
    second: Seq<char>,
    b: int,
) -> Option<ViolationView> {
    if a != b {
        Some(finding(id, None, detail).count(first, a).count(second, b))
    } else {
        None
    }
}

/// Where the outcomes of the first `n` verifications differ.
pub open spec fn verify_findings(
    a: Seq<NodeVerifyView>,
    b: Seq<NodeVerifyView>,
    n: int,
) -> Seq<ViolationView>
    decreases n,
{
    if n <= 0 {
        Seq::empty()
    } else {
        let i = n - 1;
        appended(
            verify_findings(a, b, i),
            if a[i].outcome != b[i].outcome {
                Some(
                    finding(
                        "I-S1"@,
                        Some("node.verify["@ + numeral(i as nat) + "]"@),
                        "verification outcome differs between modes: modeled `"@
                            + a[i].outcome.text() + "`, real `"@ + b[i].outcome.text() + "`"@,
                    ).count("index"@, i),
                )
            } else {
                None
            },
        )
    }
}

/// Where the sizes of the first `n` transmissions differ.
pub open spec fn size_findings(a: Seq<NodeTxView>, b: Seq<NodeTxView>, n: int) -> Seq<ViolationView>
    decreases n,
{
    if n <= 0 {
        Seq::empty()
    } else {
        let i = n - 1;
        appended(
            size_findings(a, b, i),
            if a[i].bytes_on_wire != b[i].bytes_on_wire {
                Some(
                    finding(
                        "I-S1"@,
                        Some("node.tx["@ + numeral(i as nat) + "]"@),
                        "transmitted size differs between modes, so the size model and the real encoder disagree"@,
                    ).count("modeled_bytes"@, a[i].bytes_on_wire as int).count(
                        "real_bytes"@,
                        b[i].bytes_on_wire as int,
                    ),
                )
            } else {
                None
            },
        )
    }
}

/// The smaller of two lengths.
pub open spec fn shorter(a: int, b: int) -> int {
    if a <= b {
        a
    } else {
        b
    }
}

/// What the comparison of the two crypto modes finds.
pub open spec fn i_s1(modeled: EventLedger, other: EventLedger) -> OutcomeView {
    let (va, vb, ta, tb) = (modeled.verify@, other.verify@, modeled.tx@, other.tx@);
    if va.len() == 0 && vb.len() == 0 && ta.len() == 0 && tb.len() == 0 {
        did_not_run("I-S1"@, I_S1@, "neither ledger has node.verify or node.tx records"@)
    } else {
        let first = appended(
            Seq::empty(),
            length_finding(
                "I-S1"@,
                "the two modes produced different numbers of verifications"@,
                "modeled"@,
                va.len() as int,
                "real"@,
                vb.len() as int,
            ),
        ) + verify_findings(va, vb, shorter(va.len() as int, vb.len() as int));
        ran(
            "I-S1"@,
            I_S1@,
            (va.len() + ta.len()) as int,
            appended(
                first,
                length_finding(
                    "I-S1"@,
                    "the two modes produced different numbers of transmissions"@,
                    "modeled"@,
                    ta.len() as int,
                    "real"@,
                    tb.len() as int,
                ),
            ) + size_findings(ta, tb, shorter(ta.len() as int, tb.len() as int)),
        )
    }
}

/// Compares two runs that differ only in their crypto mode: the outcomes of the
/// verifications and the sizes of the transmissions, one by one.
pub fn check_i_s1(modeled: &EventLedger, other: &EventLedger) -> (r: InvariantOutcome)
    requires
        modeled.verify@.len() + modeled.tx@.len() <= u64::MAX,
    ensures
        r@ == i_s1(*modeled, *other),
{
    broadcast use group_views;

    let va = &modeled.verify;
    let vb = &other.verify;
    let ta = &modeled.tx;
    let tb = &other.tx;
    if va.len() == 0 && vb.len() == 0 && ta.len() == 0 && tb.len() == 0 {
        return InvariantOutcome::not_run(
            "I-S1",
            I_S1,
            "neither ledger has node.verify or node.tx records",
        );
    }
    let mut out: Vec<InvariantViolation> = Vec::new();
    if va.len() != vb.len() {
        out.push(
            InvariantViolation::new(
                "I-S1",
                None,
                "the two modes produced different numbers of verifications".to_owned(),
            ).count("modeled", va.len() as u64).count("real", vb.len() as u64),
        );
    }
    let ghost start = views(out@);
    let n: usize = if va.len() <= vb.len() {
        va.len()
    } else {
        vb.len()
    };
    let mut i: usize = 0;
    assert(start + Seq::<ViolationView>::empty() =~= start);
    while i < n
        invariant
            n <= va@.len(),
            n <= vb@.len(),
            i <= n,
            views(out@) == start + verify_findings(va@, vb@, i as int),
        decreases n - i,
    {
        broadcast use group_views;

        if va[i].outcome != vb[i].outcome {
            let mut detail = join3(
                "verification outcome differs between modes: modeled `",
                va[i].outcome.as_str(),
                "`, real `",
            );
            detail.append(vb[i].outcome.as_str());
            detail.append("`");
            let v = InvariantViolation::new(
                "I-S1",
                Some(join3("node.verify[", decimal(i as u64).as_str(), "]")),
                detail,
            ).count("index", i as u64);
            let ghost before = verify_findings(va@, vb@, i as int);
            out.push(v);
            assert(views(out@) =~= start + before.push(v@));
        }
        i = i + 1;
    }
    if ta.len() != tb.len() {
        out.push(
            InvariantViolation::new(
                "I-S1",
                None,
                "the two modes produced different numbers of transmissions".to_owned(),
            ).count("modeled", ta.len() as u64).count("real", tb.len() as u64),
        );
    }
    let ghost middle = views(out@);
    let m: usize = if ta.len() <= tb.len() {
        ta.len()
    } else {
        tb.len()
    };
    let mut j: usize = 0;
    assert(middle + Seq::<ViolationView>::empty() =~= middle);
    while j < m
        invariant
            m <= ta@.len(),
            m <= tb@.len(),
            j <= m,
            views(out@) == middle + size_findings(ta@, tb@, j as int),
        decreases m - j,
    {
        broadcast use group_views;

        if ta[j].bytes_on_wire != tb[j].bytes_on_wire {
            let v = InvariantViolation::new(
                "I-S1",
                Some(join3("node.tx[", decimal(j as u64).as_str(), "]")),
                "transmitted size differs between modes, so the size model and the real encoder disagree".to_owned(),
            ).count("modeled_bytes", ta[j].bytes_on_wire).count("real_bytes", tb[j].bytes_on_wire);
            let ghost before = size_findings(ta@, tb@, j as int);
            out.push(v);
            assert(views(out@) =~= middle + before.push(v@));
        }
        j = j + 1;
    }
    let checked: u64 = va.len() as u64 + ta.len() as u64;
    InvariantOutcome::of("I-S1", I_S1, checked, out)
}

/// Two runs emit the same records.
pub const I_C1: &'static str = "a plug-in may not keep wall-clock time, thread ids, or process-global RNG state; two runs emit byte-identical records";

/// Some bytes as text of at most two hundred characters; the last one of a text that is cut
/// is an ellipsis.
pub open spec fn excerpt(bytes: Seq<u8>) -> Seq<char> {
    let s = lossy_text(bytes);
    if s.len() <= 200 {
        s
    } else {
        head(s, 199) + "…"@
    }
}

/// Some bytes as text of at most two hundred characters; the last one of a text that is cut
/// is an ellipsis.
pub fn truncate(bytes: &Vec<u8>) -> (r: String)
    ensures
        r@ == excerpt(bytes@),
        r@.len() <= 200,
{
    proof {
        reveal_strlit("…");
    }
    let s = lossy(bytes);
    if s.as_str().unicode_len() <= 200 {
        return s;
    }
    let start = s.as_str().substring_char(0, 199);
    join2(start, "…")
}

/// What a record is called.
pub open spec fn record_subject(i: int, channel: Seq<char>) -> Seq<char> {
    "record "@ + numeral(i as nat) + " on "@ + channel
}

/// How two records differ.
pub open spec fn record_findings(i: int, x: EventRecord, y: EventRecord) -> Seq<ViolationView> {
    if x.channel@ != y.channel@ {
        seq![
            finding(
                "I-C1"@,
                Some("record "@ + numeral(i as nat)),
                "the two runs emitted different channels here: `"@ + x.channel@ + "` and `"@
                    + y.channel@ + "`"@,
            ).count("index"@, i),
        ]
    } else {
        let first = if x.visibility != y.visibility {
            seq![
                finding(
                    "I-C1"@,
                    Some(record_subject(i, x.channel@)),
                    "the two runs tagged this record differently: `"@ + x.visibility.text()
                        + "` and `"@ + y.visibility.text() + "`"@,
                ).count("index"@, i),
            ]
        } else {
            Seq::empty()
        };
        if x.json@ != y.json@ {
            first.push(
                finding(
                    "I-C1"@,
                    Some(record_subject(i, x.channel@)),
                    "the two runs emitted different bytes here: `"@ + excerpt(x.json@)
                        + "` versus `"@ + excerpt(y.json@) + "`"@,
                ).count("index"@, i),
            )
        } else {
            first
        }
    }
}

/// Where the first `n` records differ.
pub open spec fn records_findings(a: Seq<EventRecord>, b: Seq<EventRecord>, n: int) -> Seq<
    ViolationView,
>
    decreases n,
{
    if n <= 0 {
        Seq::empty()
    } else {
        records_findings(a, b, n - 1) + record_findings(n - 1, a[n - 1], b[n - 1])
    }
}

/// What the comparison of two runs finds.
pub open spec fn i_c1(a: Seq<EventRecord>, b: Seq<EventRecord>) -> OutcomeView {
    if a.len() == 0 && b.len() == 0 {
        did_not_run("I-C1"@, I_C1@, "both runs emitted no records"@)
    } else {
        let n = shorter(a.len() as int, b.len() as int);
        ran(
            "I-C1"@,
            I_C1@,
            n,
            appended(
                Seq::empty(),
                length_finding(
                    "I-C1"@,
                    "the two runs emitted different numbers of records"@,
                    "run_a"@,
                    a.len() as int,
                    "run_b"@,
                    b.len() as int,
                ),
            ) + records_findings(a, b, n),
        )
    }
}

fn same_bytes(a: &Vec<u8>, b: &Vec<u8>) -> (r: bool)
    ensures
        r == (a@ == b@),
{
    if a.len() != b.len() {
        return false;
    }
    let mut i: usize = 0;
    while i < a.len()
        invariant
            a@.len() == b@.len(),
            i <= a@.len(),
            forall|j: int| 0 <= j < i ==> a@[j] == b@[j],
        decreases a@.len() - i,
    {
        if a[i] != b[i] {
            return false;
        }
        i = i + 1;
    }
    assert(a@ =~= b@);
    true
}

fn compare_records(i: usize, x: &EventRecord, y: &EventRecord, out: &mut Vec<InvariantViolation>)
    ensures
        views(final(out)@) == views(old(out)@) + record_findings(i as int, *x, *y),
{
    broadcast use group_views;

    let ghost start = views(out@);
    let at = decimal(i as u64);
    if !same_text(x.channel.as_str(), y.channel.as_str()) {
        let mut detail = join3(
            "the two runs emitted different channels here: `",
            x.channel.as_str(),
            "` and `",
        );
        detail.append(y.channel.as_str());
        detail.append("`");
        let v = InvariantViolation::new("I-C1", Some(join2("record ", at.as_str())), detail).count(
            "index",
            i as u64,
        );
        out.push(v);
        assert(views(out@) =~= start + seq![v@]);
        return ;
    }
    assert(start + Seq::<ViolationView>::empty() =~= start);
    if x.visibility != y.visibility {
        let mut subject = join3("record ", at.as_str(), " on ");
        subject.append(x.channel.as_str());
        let mut detail = join3(
            "the two runs tagged this record differently: `",
            x.visibility.as_str(),
            "` and `",
        );
        detail.append(y.visibility.as_str());
        detail.append("`");
        let v = InvariantViolation::new("I-C1", Some(subject), detail).count("index", i as u64);
        out.push(v);
        assert(views(out@) =~= start + seq![v@]);
    }
    if !same_bytes(&x.json, &y.json) {
        let mut subject = join3("record ", at.as_str(), " on ");
        subject.append(x.channel.as_str());
        let mut detail = join3(
            "the two runs emitted different bytes here: `",
            truncate(&x.json).as_str(),
            "` versus `",
        );
        detail.append(truncate(&y.json).as_str());
        detail.append("`");
        let v = InvariantViolation::new("I-C1", Some(subject), detail).count("index", i as u64);
        out.push(v);
        assert(views(out@) =~= start + record_findings(i as int, *x, *y));
    }
}

/// Compares the records of two runs: channel, tag and bytes, in order.
pub fn check_i_c1(a: &Vec<EventRecord>, b: &Vec<EventRecord>) -> (r: InvariantOutcome)
    ensures
        r@ == i_c1(a@, b@),
{
    broadcast use group_views;

    if a.len() == 0 && b.len() == 0 {
        return InvariantOutcome::not_run("I-C1", I_C1, "both runs emitted no records");
    }
    let mut out: Vec<InvariantViolation> = Vec::new();
    if a.len() != b.len() {
        out.push(
            InvariantViolation::new(
                "I-C1",
                None,
                "the two runs emitted different numbers of records".to_owned(),
            ).count("run_a", a.len() as u64).count("run_b", b.len() as u64),
        );
    }
    let ghost start = views(out@);
    let n: usize = if a.len() <= b.len() {
        a.len()
    } else {
        b.len()
    };
    let mut i: usize = 0;
    assert(start + Seq::<ViolationView>::empty() =~= start);
    while i < n
        invariant
            n <= a@.len(),
            n <= b@.len(),
            i <= n,
            views(out@) == start + records_findings(a@, b@, i as int),
        decreases n - i,
    {
        compare_records(i, &a[i], &b[i], &mut out);
        assert(views(out@) =~= start + records_findings(a@, b@, i as int + 1));
        i = i + 1;
    }
    InvariantOutcome::of("I-C1", I_C1, n as u64, out)
}

/// A run compared with itself has no difference.
pub proof fn a_run_equals_itself(a: Seq<EventRecord>)
    ensures
        i_c1(a, a).violations.len() == 0,
{
    if a.len() > 0 {
        no_difference(a, a.len() as int);
    }
}

proof fn no_difference(a: Seq<EventRecord>, n: int)
    ensures
        records_findings(a, a, n).len() == 0,
    decreases n,
{
    if n > 0 {
        no_difference(a, n - 1);
    }
}

} // verus!
