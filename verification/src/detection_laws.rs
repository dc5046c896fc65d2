//! What the detection metrics measure.

use vstd::prelude::*;
use vstd::string::*;
use crate::basic::SimTime;
use crate::channels::{channel_named, Channel, DetObservationView, EventRecord, GtAttackActionView, MaDecisionView, MaReportView, Payload};
use crate::def::{Dim, DimText, SampleValue};
use crate::detection::{Cell, DetectionLevel};
use crate::detection_metrics::{fresh, DetectionView};
use crate::gains::{a_proportion_says_its_share, a_quotient_is_read, a_small_quotient_fits, an_observation_is_kept, gained, raised, says_number, says_share};
use crate::keyed::in_order;
use crate::tally::amount;

verus! {

impl DetectionView {
    /// After some reports, in order.
    pub open spec fn after_reports(self, s: Seq<MaReportView>) -> DetectionView
        decreases s.len(),
    {
        if s.len() == 0 {
            self
        } else {
            self.after_reports(s.drop_last()).after_report(s.last())
        }
    }
}

/// Over any reports, the instant that is held for a subject is that of the first report about
/// it, and one is held exactly for the subjects that were reported.
pub proof fn the_first_report_is_held(s: Seq<MaReportView>, subject: Seq<char>)
    ensures
        fresh().after_reports(s).first_report.contains_key(subject) <==> exists|i: int|
            0 <= i < s.len() && (#[trigger] s[i]).subject@ == subject,
        forall|i: int|
            0 <= i < s.len() && (#[trigger] s[i]).subject@ == subject && (forall|j: int|
                0 <= j < i ==> (#[trigger] s[j]).subject@ != subject)
                ==> fresh().after_reports(s).first_report[subject] == s[i].t,
    decreases s.len(),
{
    if s.len() > 0 {
        let t = s.drop_last();
        let last = s.len() - 1;
        the_first_report_is_held(t, subject);
        let before = fresh().after_reports(t);
        if before.first_report.contains_key(subject) {
            let i = choose|i: int| 0 <= i < t.len() && (#[trigger] t[i]).subject@ == subject;
            assert(s[i] == t[i]);
        } else if s[last].subject@ != subject {
            assert forall|i: int| 0 <= i < s.len() implies (#[trigger] s[i]).subject@ != subject by {
                if i < last {
                    assert(s[i] == t[i]);
                }
            }
        }
        assert forall|i: int|
            0 <= i < s.len() && (#[trigger] s[i]).subject@ == subject && (forall|j: int|
                0 <= j < i ==> (#[trigger] s[j]).subject@ != subject) implies fresh().after_reports(
            s,
        ).first_report[subject] == s[i].t by {
            if i < last {
                assert(t[i] == s[i]);
                assert forall|j: int| 0 <= j < i implies (#[trigger] t[j]).subject@ != subject by {
                    assert(t[j] == s[j]);
                }
            } else {
                assert forall|j: int| 0 <= j < t.len() implies (#[trigger] t[j]).subject@ != subject by {
                    assert(t[j] == s[j]);
                }
                assert(!before.first_report.contains_key(subject));
            }
        }
    }
}

/// A report counts one more for its subject and for no other. A later one about a subject
/// that was already reported leaves every time to detection as it is.
pub proof fn a_report_counts_for_its_subject(v: DetectionView, ev: EventRecord, r: MaReportView)
    requires
        channel_named(ev.channel@) == Some(Channel::MaReport),
        ev.payload == Payload::MaReport(r),
        amount(v.reports, r.subject@) < u64::MAX,
    ensures
        ({
            let w = v.after(ev);
            &&& raised(v.reports, w.reports, r.subject@, 1)
            &&& w.first_report.contains_key(r.subject@)
            &&& !v.first_report.contains_key(r.subject@) ==> w.first_report[r.subject@] == r.t
            &&& v.first_report.contains_key(r.subject@) ==> {
                &&& w.first_report == v.first_report
                &&& forall|s: Seq<(Seq<char>, u32)>| #[trigger]
                    w.times_to_report(s) == v.times_to_report(s)
            }
            &&& forall|k: Seq<char>| k != r.subject@ ==> #[trigger] w.first_report.contains_key(k)
                == v.first_report.contains_key(k) && w.first_report[k] == v.first_report[k]
            &&& !v.subject_actor.contains_key(r.subject@) ==> w.undeclared.contains(r.subject@)
            &&& v.subject_actor.contains_key(r.subject@) ==> w.undeclared == v.undeclared
            &&& w.attackers == v.attackers && w.onset == v.onset && w.revocation == v.revocation
            &&& w.subject_actor == v.subject_actor && w.detector_firings == v.detector_firings
            &&& w.rejected == v.rejected
        }),
{
    let w = v.after(ev);
    if v.first_report.contains_key(r.subject@) {
        assert forall|s: Seq<(Seq<char>, u32)>| #[trigger]
            w.times_to_report(s) == v.times_to_report(s) by {
            same_times(v, w, s);
        }
    }
}

proof fn same_times(v: DetectionView, w: DetectionView, s: Seq<(Seq<char>, u32)>)
    requires
        w.first_report == v.first_report,
        w.attackers == v.attackers,
        w.onset == v.onset,
    ensures
        w.times_to_report(s) == v.times_to_report(s),
    decreases s.len(),
{
    if s.len() > 0 {
        same_times(v, w, s.drop_last());
    }
}

/// An attack that changed bytes on the air makes its actor an attacker, from its first such
/// action on; one that changed none says nothing.
pub proof fn an_attack_has_an_onset(v: DetectionView, ev: EventRecord, a: GtAttackActionView)
    requires
        channel_named(ev.channel@) == Some(Channel::GtAttackAction),
        ev.payload == Payload::GtAttackAction(a),
    ensures
        ({
            let w = v.after(ev);
            &&& !a.changed_bytes_on_air ==> w == v
            &&& a.changed_bytes_on_air ==> {
                &&& w.attackers == v.attackers.insert(a.actor)
                &&& w.onset.contains_key(a.actor)
                &&& w.onset[a.actor] == if v.onset.contains_key(a.actor) {
                    v.onset[a.actor]
                } else {
                    a.t
                }
                &&& forall|k: u32| k != a.actor ==> #[trigger] w.onset.contains_key(k)
                    == v.onset.contains_key(k) && w.onset[k] == v.onset[k]
            }
            &&& w.first_report == v.first_report && w.reports == v.reports && w.revocation
                == v.revocation && w.undeclared == v.undeclared && w.subject_actor == v.subject_actor
        }),
{
}

/// A decision changes nothing but the revocation of its own subject, and whether it is listed
/// as undeclared.
pub proof fn a_decision_is_about_its_subject(v: DetectionView, ev: EventRecord, d: MaDecisionView)
    requires
        channel_named(ev.channel@) == Some(Channel::MaDecision),
        ev.payload == Payload::MaDecision(d),
    ensures
        ({
            let w = v.after(ev);
            &&& d.decision@ != "revoke"@ ==> w.revocation == v.revocation
            &&& d.decision@ == "revoke"@ ==> w.revocation.contains_key(d.subject@) && w.revocation[d.subject@]
                == if v.revocation.contains_key(d.subject@) {
                v.revocation[d.subject@]
            } else {
                d.t
            }
            &&& forall|k: Seq<char>| k != d.subject@ ==> #[trigger] w.revocation.contains_key(k)
                == v.revocation.contains_key(k) && w.revocation[k] == v.revocation[k]
            &&& !v.subject_actor.contains_key(d.subject@) ==> w.undeclared == v.undeclared.insert(
                d.subject@,
            )
            &&& v.subject_actor.contains_key(d.subject@) ==> w.undeclared == v.undeclared
            &&& w.first_report == v.first_report && w.reports == v.reports && w.attackers
                == v.attackers && w.onset == v.onset && w.subject_actor == v.subject_actor
        }),
{
}

/// An observation of a detector is counted for that detector.
pub proof fn an_observation_is_the_detectors(v: DetectionView, ev: EventRecord, o: DetObservationView)
    requires
        channel_named(ev.channel@) == Some(Channel::DetObservation),
        ev.payload == Payload::DetObservation(o),
        amount(v.detector_firings, o.detector@) < u64::MAX,
    ensures
        raised(v.detector_firings, v.after(ev).detector_firings, o.detector@, 1),
        v.after(ev).reports == v.reports,
        v.after(ev).first_report == v.first_report,
{
}

/// One more subject adds a time to detection exactly where its actor attacked and the first
/// report about it came no earlier than the attack: the time from the onset to that report.
/// The time to decision goes to the revocation in the same way.
pub proof fn times_run_from_the_onset(
    v: DetectionView,
    s: Seq<(Seq<char>, u32)>,
    subject: Seq<char>,
    actor: u32,
)
    ensures
        ({
            let t = s.push((subject, actor));
            let acted = v.attackers.contains(actor) && v.onset.contains_key(actor);
            let detected = acted && v.first_report.contains_key(subject) && v.first_report[subject]
                >= v.onset[actor];
            let decided = acted && v.revocation.contains_key(subject) && v.revocation[subject]
                >= v.onset[actor];
            &&& detected ==> gained(
                v.times_to_report(s),
                v.times_to_report(t),
                v.first_report[subject] - v.onset[actor],
                1_000_000_000,
            )
            &&& !detected ==> v.times_to_report(t) == v.times_to_report(s)
            &&& decided ==> gained(
                v.times_to_revocation(s),
                v.times_to_revocation(t),
                v.revocation[subject] - v.onset[actor],
                1_000_000_000,
            )
            &&& !decided ==> v.times_to_revocation(t) == v.times_to_revocation(s)
        }),
{
    let t = s.push((subject, actor));
    assert(t.drop_last() =~= s);
    if v.onset.contains_key(actor) {
        let o = v.onset[actor];
        if v.first_report.contains_key(subject) && v.first_report[subject] >= o {
            an_observation_is_kept(v.times_to_report(s), v.first_report[subject] - o, 1_000_000_000);
        }
        if v.revocation.contains_key(subject) && v.revocation[subject] >= o {
            an_observation_is_kept(v.times_to_revocation(s), v.revocation[subject] - o, 1_000_000_000);
        }
    }
}

/// One more reported subject counts all its reports where it was declared, and as correct
/// ones exactly where its actor attacked.
pub proof fn reports_are_correct_about_attackers(
    v: DetectionView,
    s: Seq<(Seq<char>, u64)>,
    subject: Seq<char>,
    n: u64,
)
    requires
        v.correct_reports(s).trials + n <= u64::MAX,
        v.correct_reports(s).successes <= v.correct_reports(s).trials,
    ensures
        ({
            let (a, b) = (v.correct_reports(s), v.correct_reports(s.push((subject, n))));
            let declared = v.subject_actor.contains_key(subject);
            &&& b.trials == a.trials + if declared {
                n as int
            } else {
                0
            }
            &&& b.successes == a.successes + if declared && v.attackers.contains(
                v.subject_actor[subject],
            ) {
                n as int
            } else {
                0
            }
            &&& b.successes <= b.trials
        }),
{
    assert(s.push((subject, n)).drop_last() =~= s);
}

/// What is reported at one level: the four cells as they are; recall over the misbehaving,
/// the false-positive rate over the benign, accuracy over all, and twice the true positives
/// over themselves twice and the two errors; the false positives as accusations. Precision is
/// over the predicted subjects, or at the level of reports over the reports.
pub proof fn a_level_reports_its_matrix(v: DetectionView, level: DetectionLevel, at: SimTime)
    requires
        v.confusion(level).sum() <= u64::MAX,
    ensures
        ({
            let m = v.confusion(level);
            let c = v.cell_samples(level, at);
            let s = v.summary_samples(level, at);
            let n = v.min_samples;
            let least = if n == 0 {
                1u64
            } else {
                n
            };
            &&& c.len() == 4 && s.len() == 6
            &&& c[0].metric == "det_tp"@ && c[0].value == (SampleValue::Count { count: m.tp })
            &&& c[1].metric == "det_fp"@ && c[1].value == (SampleValue::Count { count: m.fp })
            &&& c[2].metric == "det_fn"@ && c[2].value == (SampleValue::Count { count: m.fn_ })
            &&& c[3].metric == "det_tn"@ && c[3].value == (SampleValue::Count { count: m.tn })
            &&& forall|i: int|
                0 <= i < 6 ==> (#[trigger] s[i]).t == at && s[i].dims == seq![
                    (Dim::Level, DimText::Label(level.text())),
                ]
            &&& s[0].metric == "det_recall"@ && says_share(
                s[0].value,
                m.tp,
                (m.tp + m.fn_) as u64,
                (m.tp + m.fn_) as u64,
                n,
                10_000,
                v.level,
            )
            &&& s[1].metric == "det_fpr"@ && says_share(
                s[1].value,
                m.fp,
                (m.fp + m.tn) as u64,
                (m.fp + m.tn) as u64,
                n,
                10_000,
                v.level,
            )
            &&& s[2].metric == "det_precision"@
            &&& level == DetectionLevel::Vehicle ==> says_share(
                s[2].value,
                m.tp,
                (m.tp + m.fp) as u64,
                (m.tp + m.fp) as u64,
                n,
                10_000,
                v.level,
            )
            &&& level == DetectionLevel::Report ==> says_share(
                s[2].value,
                v.precision_over_reports().successes,
                v.precision_over_reports().trials,
                v.precision_over_reports().trials,
                n,
                10_000,
                v.level,
            )
            &&& s[3].metric == "det_f1"@
            &&& (m.tp + m.fp + m.fn_ > 0 && m.tp + m.fp + m.fn_ + m.tn >= least) ==> says_number(
                s[3].value,
                2 * m.tp,
                2 * m.tp + m.fp + m.fn_,
                (m.tp + m.fp + m.fn_ + m.tn) as u64,
                10_000,
            )
            &&& (m.tp + m.fp + m.fn_ == 0 || m.tp + m.fp + m.fn_ + m.tn < least)
                ==> s[3].value.refused()
            &&& s[4].metric == "det_accuracy"@ && says_share(
                s[4].value,
                (m.tp + m.tn) as u64,
                (m.tp + m.fp + m.fn_ + m.tn) as u64,
                (m.tp + m.fp + m.fn_ + m.tn) as u64,
                n,
                10_000,
                v.level,
            )
            &&& s[5].metric == "false_accusations"@ && s[5].value == (SampleValue::Count {
                count: m.fp,
            })
        }),
{
    cell_names();
    let m = v.confusion(level);
    let (n, l) = (v.min_samples, v.level);
    let (p, q) = ((m.tp + m.fn_) as u64, (m.fp + m.tn) as u64);
    let r = (m.tp + m.fp) as u64;
    let all = (m.tp + m.fp + m.fn_ + m.tn) as u64;
    let reports = v.precision_over_reports();
    a_proportion_says_its_share(m.tp, p, p, n, l, 10_000);
    a_proportion_says_its_share(m.fp, q, q, n, l, 10_000);
    a_proportion_says_its_share(m.tp, r, r, n, l, 10_000);
    a_proportion_says_its_share((m.tp + m.tn) as u64, all, all, n, l, 10_000);
    a_proportion_says_its_share(reports.successes, reports.trials, reports.trials, n, l, 10_000);
    if 2 * m.tp + m.fp + m.fn_ > 0 {
        a_small_quotient_fits(2 * m.tp, 2 * m.tp + m.fp + m.fn_, 10_000);
        a_quotient_is_read(2 * m.tp, 2 * m.tp + m.fp + m.fn_, 10_000);
    }
}

proof fn cell_names()
    ensures
        "det_"@ + Cell::every()[0].text() == "det_tp"@,
        "det_"@ + Cell::every()[1].text() == "det_fp"@,
        "det_"@ + Cell::every()[2].text() == "det_fn"@,
        "det_"@ + Cell::every()[3].text() == "det_tn"@,
{
    reveal_strlit("det_");
    reveal_strlit("tp");
    reveal_strlit("fp");
    reveal_strlit("fn");
    reveal_strlit("tn");
    reveal_strlit("det_tp");
    reveal_strlit("det_fp");
    reveal_strlit("det_fn");
    reveal_strlit("det_tn");
    assert("det_"@ + "tp"@ =~= "det_tp"@);
    assert("det_"@ + "fp"@ =~= "det_fp"@);
    assert("det_"@ + "fn"@ =~= "det_fn"@);
    assert("det_"@ + "tn"@ =~= "det_tn"@);
}

/// A flush reports both levels, and the times of all declared subjects, each under its name.
pub proof fn a_flush_reports_both_levels_and_the_times(v: DetectionView, at: SimTime)
    ensures
        ({
            let s = v.samples(at);
            let all = in_order::<String, u32>(v.subject_actor);
            &&& s.len() == 22
            &&& s.subrange(0, 4) == v.cell_samples(DetectionLevel::Report, at)
            &&& s.subrange(4, 10) == v.summary_samples(DetectionLevel::Report, at)
            &&& s.subrange(10, 14) == v.cell_samples(DetectionLevel::Vehicle, at)
            &&& s.subrange(14, 20) == v.summary_samples(DetectionLevel::Vehicle, at)
            &&& s[20].metric == "time_to_detect"@ && s[20].value == SampleValue::Distribution(
                v.times_to_report(all).summary(1),
            ).on(1_000)
            &&& s[21].metric == "time_to_decision"@ && s[21].value == SampleValue::Distribution(
                v.times_to_revocation(all).summary(1),
            ).on(1_000)
        }),
{
    let s = v.samples(at);
    assert(s.subrange(0, 4) =~= v.cell_samples(DetectionLevel::Report, at));
    assert(s.subrange(4, 10) =~= v.summary_samples(DetectionLevel::Report, at));
    assert(s.subrange(10, 14) =~= v.cell_samples(DetectionLevel::Vehicle, at));
    assert(s.subrange(14, 20) =~= v.summary_samples(DetectionLevel::Vehicle, at));
}

} // verus!
