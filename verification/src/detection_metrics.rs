//! The detection metrics of a run.
//!
//! Who really misbehaves is ground truth, which no report can tell. The run declares which
//! actor a subject belongs to, and the attackers are those who acted. A subject that was
//! never declared is left out of the matrix, and listed.

use vstd::prelude::*;
use crate::basic::{ActorId, SimTime};
use crate::card::{group_views, views, ModelCard};
use crate::catalog::detection as catalog;
use crate::channels::{channel_named, find_channel, Channel, DetObservationView, EventRecord, GtAttackActionView, MaDecisionView, MaReportView, Payload};
use crate::def::{no_dims, one_dim, sample_of, Dim, DimText, DimValue, MetricDef, MetricSample, SampleValue, SampleView};
use crate::detection::{Cell, ConfusionMatrix, DetectionLevel};
use crate::distribution::{nothing_observed, Distribution, Observed};
use crate::keyed::{in_order, increasing, listed, listed_at, ranked_at, Key, SortedMap, SortedSet};
use crate::ledger::one_more;
use crate::stats::{no_counts, ConfidenceLevel, Counts, Proportion, RatioEstimate, DEFAULT_MIN_SAMPLES};
use crate::tally::{prefix_sums, sum_of, total_of, Tally};
use crate::text::same_text;

verus! {

/// The decision that revokes a subject.
pub const REVOKE: &'static str = "revoke";

/// The detection metrics of a run, from its start on.
pub struct DetectionProvider {
    level: ConfidenceLevel,
    min_samples: u64,
    subject_actor: SortedMap<String, u32>,
    attackers: SortedSet<u32>,
    onset: SortedMap<u32, u64>,
    first_report: SortedMap<String, u64>,
    reports: Tally<String>,
    revocation: SortedMap<String, u64>,
    undeclared: SortedSet<String>,
    detector_firings: Tally<String>,
    rejected: u64,
}

/// What the detection metrics have accumulated.
#[verifier::ext_equal]
pub ghost struct DetectionView {
    pub level: ConfidenceLevel,
    pub min_samples: u64,
    pub subject_actor: Map<Seq<char>, u32>,
    pub attackers: Set<u32>,
    pub onset: Map<u32, u64>,
    pub first_report: Map<Seq<char>, u64>,
    pub reports: Map<Seq<char>, u64>,
    pub revocation: Map<Seq<char>, u64>,
    pub undeclared: Set<Seq<char>>,
    pub detector_firings: Map<Seq<char>, u64>,
    pub rejected: u64,
}

impl View for DetectionProvider {
    type V = DetectionView;

    closed spec fn view(&self) -> DetectionView {
        DetectionView {
            level: self.level,
            min_samples: self.min_samples,
            subject_actor: self.subject_actor@,
            attackers: self.attackers@,
            onset: self.onset@,
            first_report: self.first_report@,
            reports: self.reports@,
            revocation: self.revocation@,
            undeclared: self.undeclared@,
            detector_firings: self.detector_firings@,
            rejected: self.rejected,
        }
    }
}

/// A provider that has seen nothing yet, and has no declared subject.
pub open spec fn fresh() -> DetectionView {
    DetectionView {
        level: ConfidenceLevel::P95,
        min_samples: DEFAULT_MIN_SAMPLES,
        subject_actor: Map::empty(),
        attackers: Set::empty(),
        onset: Map::empty(),
        first_report: Map::empty(),
        reports: Map::empty(),
        revocation: Map::empty(),
        undeclared: Set::empty(),
        detector_firings: Map::empty(),
        rejected: 0,
    }
}

/// A map in which what came first stays.
pub open spec fn kept_first<K, V>(m: Map<K, V>, k: K, v: V) -> Map<K, V> {
    if m.contains_key(k) {
        m
    } else {
        m.insert(k, v)
    }
}

impl DetectionView {
    /// With a subject declared.
    pub open spec fn with_subject(self, subject: Seq<char>, actor: ActorId) -> DetectionView {
        DetectionView {
            subject_actor: self.subject_actor.insert(subject, actor),
            undeclared: self.undeclared.remove(subject),
            ..self
        }
    }

    /// With a subject listed if it was never declared.
    pub open spec fn listing_undeclared(self, subject: Seq<char>) -> Set<Seq<char>> {
        if self.subject_actor.contains_key(subject) {
            self.undeclared
        } else {
            self.undeclared.insert(subject)
        }
    }

    /// After an attack action. One that changed no bytes on the air is none.
    pub open spec fn after_attack(self, v: GtAttackActionView) -> DetectionView {
        if v.changed_bytes_on_air {
            DetectionView {
                attackers: self.attackers.insert(v.actor),
                onset: kept_first(self.onset, v.actor, v.t),
                ..self
            }
        } else {
            self
        }
    }

    /// After a report.
    pub open spec fn after_report(self, v: MaReportView) -> DetectionView {
        DetectionView {
            first_report: kept_first(self.first_report, v.subject@, v.t),
            reports: one_more(self.reports, v.subject@),
            undeclared: self.listing_undeclared(v.subject@),
            ..self
        }
    }

    /// After a decision. The first one that revokes a subject counts, whatever was decided
    /// before it or after it.
    pub open spec fn after_decision(self, v: MaDecisionView) -> DetectionView {
        DetectionView {
            revocation: if v.decision@ == REVOKE@ {
                kept_first(self.revocation, v.subject@, v.t)
            } else {
                self.revocation
            },
            undeclared: self.listing_undeclared(v.subject@),
            ..self
        }
    }

    /// After a detector's observation.
    pub open spec fn after_observation(self, v: DetObservationView) -> DetectionView {
        DetectionView { detector_firings: one_more(self.detector_firings, v.detector@), ..self }
    }

    /// After one record.
    pub open spec fn after(self, ev: EventRecord) -> DetectionView {
        let refused = DetectionView { rejected: (self.rejected + 1) as u64, ..self };
        match (channel_named(ev.channel@), ev.payload) {
            (Some(Channel::GtAttackAction), Payload::GtAttackAction(v)) => self.after_attack(v),
            (Some(Channel::MaReport), Payload::MaReport(v)) => self.after_report(v),
            (Some(Channel::MaDecision), Payload::MaDecision(v)) => self.after_decision(v),
            (Some(Channel::DetObservation), Payload::DetObservation(v)) => self.after_observation(
                v,
            ),
            (Some(Channel::GtAttackAction), _) => refused,
            (Some(Channel::MaReport), _) => refused,
            (Some(Channel::MaDecision), _) => refused,
            (Some(Channel::DetObservation), _) => refused,
            _ => self,
        }
    }

    /// True if no counter overflows on `ev`.
    pub open spec fn room_for(self, ev: EventRecord) -> bool {
        match (channel_named(ev.channel@), ev.payload) {
            (Some(Channel::MaReport), Payload::MaReport(v)) => total_of::<String>(self.reports)
                < u64::MAX,
            (Some(Channel::DetObservation), Payload::DetObservation(v)) => total_of::<String>(
                self.detector_firings,
            ) < u64::MAX,
            _ => self.rejected < u64::MAX,
        }
    }

    /// True if a subject is to be revoked.
    pub open spec fn revoked(self, subject: Seq<char>) -> bool {
        self.revocation.contains_key(subject)
    }

    /// Whether a subject is predicted to misbehave, at a level.
    pub open spec fn predicted(self, level: DetectionLevel, subject: Seq<char>) -> bool {
        match level {
            DetectionLevel::Report => self.first_report.contains_key(subject),
            DetectionLevel::Vehicle => self.revoked(subject),
        }
    }

    /// The matrix of some declared subjects.
    pub open spec fn matrix_of(self, level: DetectionLevel, s: Seq<(Seq<char>, u32)>) -> ConfusionMatrix
        decreases s.len(),
    {
        if s.len() == 0 {
            ConfusionMatrix::empty()
        } else {
            self.matrix_of(level, s.drop_last()).and(
                self.predicted(level, s.last().0),
                self.attackers.contains(s.last().1),
            )
        }
    }

    /// The matrix of all declared subjects.
    pub open spec fn confusion(self, level: DetectionLevel) -> ConfusionMatrix {
        self.matrix_of(level, in_order::<String, u32>(self.subject_actor))
    }

    /// True if a subject was declared, and its actor attacked.
    pub open spec fn misbehaves(self, subject: Seq<char>) -> bool {
        self.attackers.contains(self.subject_actor[subject])
    }

    /// Of the reports about some subjects that were declared, those about misbehaving ones.
    pub open spec fn correct_reports(self, s: Seq<(Seq<char>, u64)>) -> Counts
        decreases s.len(),
    {
        if s.len() == 0 {
            no_counts()
        } else {
            let before = self.correct_reports(s.drop_last());
            let (subject, count) = s.last();
            if !self.subject_actor.contains_key(subject) {
                before
            } else {
                Counts {
                    successes: (before.successes + if self.misbehaves(subject) {
                        count
                    } else {
                        0
                    }) as u64,
                    trials: (before.trials + count) as u64,
                }
            }
        }
    }

    /// The precision over reports: of all reports about declared subjects, those about
    /// misbehaving ones.
    pub open spec fn precision_over_reports(self) -> Counts {
        self.correct_reports(in_order::<String, u64>(self.reports))
    }

    /// How long after the onset of an actor's attack an instant is.
    pub open spec fn since_onset(self, actor: u32, t: SimTime) -> Option<int> {
        if self.attackers.contains(actor) && self.onset.contains_key(actor) && t
            >= self.onset[actor] {
            Some(t - self.onset[actor])
        } else {
            None
        }
    }

    /// The time from onset to the first report, if there is one about a misbehaving subject.
    pub open spec fn time_to_report(self, subject: Seq<char>, actor: u32) -> Option<int> {
        if self.first_report.contains_key(subject) {
            self.since_onset(actor, self.first_report[subject])
        } else {
            None
        }
    }

    /// The time from onset to revocation, if a misbehaving subject is revoked.
    pub open spec fn time_to_revocation(self, subject: Seq<char>, actor: u32) -> Option<int> {
        if self.revoked(subject) {
            self.since_onset(actor, self.revocation[subject])
        } else {
            None
        }
    }

    /// The times to the first report, of some subjects.
    pub open spec fn times_to_report(self, s: Seq<(Seq<char>, u32)>) -> Observed
        decreases s.len(),
    {
        if s.len() == 0 {
            nothing_observed()
        } else {
            let before = self.times_to_report(s.drop_last());
            match self.time_to_report(s.last().0, s.last().1) {
                Some(ns) => before.and_quotient(ns, 1_000_000_000),
                None => before,
            }
        }
    }

    /// The times to revocation, of some subjects.
    pub open spec fn times_to_revocation(self, s: Seq<(Seq<char>, u32)>) -> Observed
        decreases s.len(),
    {
        if s.len() == 0 {
            nothing_observed()
        } else {
            let before = self.times_to_revocation(s.drop_last());
            match self.time_to_revocation(s.last().0, s.last().1) {
                Some(ns) => before.and_quotient(ns, 1_000_000_000),
                None => before,
            }
        }
    }

    /// The samples of the four cells at one level.
    pub open spec fn cell_samples(self, level: DetectionLevel, at: SimTime) -> Seq<SampleView> {
        Seq::new(
            4,
            |i: int|
                sample_of(
                    catalog::cell_def(Cell::every()[i]),
                    at,
                    seq![
                        (Dim::Level, DimText::Label(level.text())),
                        (Dim::Cell, DimText::Label(Cell::every()[i].text())),
                    ],
                    SampleValue::Count { count: self.confusion(level).at(Cell::every()[i]) },
                ),
        )
    }

    /// The precision at one level: over reports, or over vehicles.
    pub open spec fn precision_at(self, level: DetectionLevel) -> RatioEstimate {
        match level {
            DetectionLevel::Report => self.precision_over_reports().ratio(
                self.min_samples,
                self.level,
            ),
            DetectionLevel::Vehicle => self.confusion(level).precision_of(
                self.min_samples,
                self.level,
            ),
        }
    }

    /// The summaries at one level.
    pub open spec fn summary_samples(self, level: DetectionLevel, at: SimTime) -> Seq<SampleView> {
        let dims = seq![(Dim::Level, DimText::Label(level.text()))];
        let m = self.confusion(level);
        let n = self.min_samples;
        seq![
            sample_of(
                catalog::det_recall_def(n),
                at,
                dims,
                SampleValue::Ratio(m.recall_of(n, self.level)),
            ),
            sample_of(
                catalog::det_fpr_def(n),
                at,
                dims,
                SampleValue::Ratio(m.fpr_of(n, self.level)),
            ),
            sample_of(
                catalog::det_precision_def(n),
                at,
                dims,
                SampleValue::Ratio(self.precision_at(level)),
            ),
            sample_of(catalog::det_f1_def(n), at, dims, SampleValue::Scalar(m.f1_of(n))),
            sample_of(
                catalog::det_accuracy_def(n),
                at,
                dims,
                SampleValue::Ratio(m.accuracy_of(n, self.level)),
            ),
            sample_of(
                catalog::false_accusations_def(),
                at,
                dims,
                SampleValue::Count { count: m.fp },
            ),
        ]
    }

    /// The times from onset to report and to revocation.
    pub open spec fn time_samples(self, at: SimTime) -> Seq<SampleView> {
        let s = in_order::<String, u32>(self.subject_actor);
        seq![
            sample_of(
                catalog::time_to_detect_def(),
                at,
                Seq::empty(),
                SampleValue::Distribution(self.times_to_report(s).summary(1)),
            ),
            sample_of(
                catalog::time_to_decision_def(),
                at,
                Seq::empty(),
                SampleValue::Distribution(self.times_to_revocation(s).summary(1)),
            ),
        ]
    }

    /// All samples of the run until `at`.
    pub open spec fn samples(self, at: SimTime) -> Seq<SampleView> {
        self.cell_samples(DetectionLevel::Report, at) + self.summary_samples(
            DetectionLevel::Report,
            at,
        ) + self.cell_samples(DetectionLevel::Vehicle, at) + self.summary_samples(
            DetectionLevel::Vehicle,
            at,
        ) + self.time_samples(at)
    }
}

impl DetectionProvider {
    /// A provider with no declared subject.
    pub fn new() -> (r: DetectionProvider)
        ensures
            r@ == fresh(),
    {
        DetectionProvider {
            level: ConfidenceLevel::P95,
            min_samples: DEFAULT_MIN_SAMPLES,
            subject_actor: SortedMap::new(),
            attackers: SortedSet::new(),
            onset: SortedMap::new(),
            first_report: SortedMap::new(),
            reports: Tally::new(),
            revocation: SortedMap::new(),
            undeclared: SortedSet::new(),
            detector_firings: Tally::new(),
            rejected: 0,
        }
    }

    /// Sets the insufficiency threshold.
    pub fn with_min_samples(self, n: u64) -> (r: DetectionProvider)
        ensures
            r@ == (DetectionView { min_samples: n, ..self@ }),
    {
        let mut p = self;
        p.min_samples = n;
        p
    }

    /// Sets the confidence level.
    pub fn with_level(self, level: ConfidenceLevel) -> (r: DetectionProvider)
        ensures
            r@ == (DetectionView { level, ..self@ }),
    {
        let mut p = self;
        p.level = level;
        p
    }

    /// Declares that a subject belongs to an actor, which puts it in the population; it is
    /// no longer listed as undeclared.
    pub fn declare_subject(&mut self, subject: &str, actor: ActorId)
        ensures
            final(self)@ == old(self)@.with_subject(subject@, actor),
    {
        let name = subject.to_owned();
        self.undeclared.remove(&name);
        let _ = self.subject_actor.insert(name, actor);
    }

    /// The subjects that were named and never declared.
    pub fn undeclared_subjects(&self) -> (r: &SortedSet<String>)
        ensures
            r@ == self@.undeclared,
    {
        &self.undeclared
    }

    /// The actors that attacked.
    pub fn attackers(&self) -> (r: &SortedSet<u32>)
        ensures
            r@ == self@.attackers,
    {
        &self.attackers
    }

    /// How often each detector fired.
    pub fn detector_firings(&self) -> (r: &Tally<String>)
        ensures
            r@ == self@.detector_firings,
    {
        &self.detector_firings
    }

    fn truly_misbehaving(&self, subject: &String) -> (r: Option<bool>)
        ensures
            match r {
                Some(b) => self@.subject_actor.contains_key(subject@) && b == self@.misbehaves(
                    subject@,
                ),
                None => !self@.subject_actor.contains_key(subject@),
            },
    {
        match self.subject_actor.get(subject) {
            Some(a) => Some(self.attackers.contains(a)),
            None => None,
        }
    }

    fn is_revoked(&self, subject: &String) -> (r: Option<SimTime>)
        ensures
            match r {
                Some(t) => self@.revoked(subject@) && t == self@.revocation[subject@],
                None => !self@.revoked(subject@),
            },
    {
        match self.revocation.get(subject) {
            Some(t) => Some(*t),
            None => None,
        }
    }

    fn is_predicted(&self, level: DetectionLevel, subject: &String) -> (r: bool)
        ensures
            r == self@.predicted(level, subject@),
    {
        match level {
            DetectionLevel::Report => self.first_report.contains_key(subject),
            DetectionLevel::Vehicle => self.is_revoked(subject).is_some(),
        }
    }

    /// The matrix at one level, over the declared subjects.
    pub fn matrix(&self, level: DetectionLevel) -> (r: ConfusionMatrix)
        ensures
            r == self@.confusion(level),
            r.sum() <= u64::MAX,
            r.sum() == self@.subject_actor.dom().len(),
            r.tp + r.fn_ == self@.culprits().len(),
            r.tp + r.fp == self@.suspects(level).len(),
    {
        let mut m = ConfusionMatrix::new();
        let n: usize = self.subject_actor.len();
        let ghost s = self.subject_actor.listing();
        let mut i: usize = 0;
        assert(s.subrange(0, 0) =~= Seq::<(Seq<char>, u32)>::empty());
        while i < n
            invariant
                s == self.subject_actor.listing(),
                n == s.len(),
                i <= n,
                m == self@.matrix_of(level, s.subrange(0, i as int)),
                m.sum() == i,
            decreases n - i,
        {
            proof {
                let next = s.subrange(0, i as int + 1);
                assert(next.drop_last() =~= s.subrange(0, i as int));
                assert(next.last() == s[i as int]);
            }
            let truth = self.attackers.contains(self.subject_actor.value_at(i));
            let predicted = self.is_predicted(level, self.subject_actor.key_at(i));
            m.observe(predicted, truth);
            i = i + 1;
        }
        assert(s.subrange(0, n as int) =~= s);
        proof {
            the_cells_are_the_subjects(self@, level);
        }
        m
    }

    /// Of all reports about declared subjects, those about misbehaving ones.
    pub fn report_precision(&self) -> (r: Proportion)
        ensures
            r@ == self@.precision_over_reports(),
    {
        let mut p = Proportion::new();
        let _ = self.reports.total();
        let n: usize = self.reports.len();
        let ghost s = self.reports.listing();
        let mut i: usize = 0;
        assert(s.subrange(0, 0) =~= Seq::<(Seq<char>, u64)>::empty());
        while i < n
            invariant
                s == self.reports.listing(),
                n == s.len(),
                i <= n,
                sum_of(s) <= u64::MAX,
                p@ == self@.correct_reports(s.subrange(0, i as int)),
                p@.trials <= sum_of(s.subrange(0, i as int)),
            decreases n - i,
        {
            proof {
                let next = s.subrange(0, i as int + 1);
                assert(next.drop_last() =~= s.subrange(0, i as int));
                assert(next.last() == s[i as int]);
                prefix_sums(s, i as int + 1);
            }
            let count: u64 = self.reports.amount_at(i);
            match self.truly_misbehaving(self.reports.key_at(i)) {
                Some(truth) => {
                    let correct: u64 = if truth {
                        count
                    } else {
                        0
                    };
                    p.observe_many(correct, count);
                },
                None => {},
            }
            i = i + 1;
        }
        assert(s.subrange(0, n as int) =~= s);
        p
    }

    fn list_undeclared(&mut self, subject: &String)
        ensures
            final(self)@ == (DetectionView {
                undeclared: old(self)@.listing_undeclared(subject@),
                ..old(self)@
            }),
    {
        if !self.subject_actor.contains_key(subject) {
            self.undeclared.insert(subject.clone());
        }
    }

    fn on_attack(&mut self, v: &GtAttackActionView)
        ensures
            final(self)@ == old(self)@.after_attack(*v),
    {
        if !v.changed_bytes_on_air {
            return ;
        }
        self.attackers.insert(v.actor);
        if !self.onset.contains_key(&v.actor) {
            let _ = self.onset.insert(v.actor, v.t);
        }
    }

    fn on_report(&mut self, v: &MaReportView)
        requires
            total_of::<String>(old(self)@.reports) < u64::MAX,
        ensures
            final(self)@ == old(self)@.after_report(*v),
    {
        let ghost before = self@;
        if !self.first_report.contains_key(&v.subject) {
            let _ = self.first_report.insert(v.subject.clone(), v.t);
        }
        let _ = self.reports.total();
        self.reports.increase(v.subject.clone(), 1);
        self.list_undeclared(&v.subject);
        assert(self@ =~= before.after_report(*v));
    }

    fn on_decision(&mut self, v: &MaDecisionView)
        ensures
            final(self)@ == old(self)@.after_decision(*v),
    {
        let ghost before = self@;
        if same_text(v.decision.as_str(), REVOKE) && !self.revocation.contains_key(&v.subject) {
            let _ = self.revocation.insert(v.subject.clone(), v.t);
        }
        self.list_undeclared(&v.subject);
        assert(self@ =~= before.after_decision(*v));
    }

    fn on_observation(&mut self, v: &DetObservationView)
        requires
            total_of::<String>(old(self)@.detector_firings) < u64::MAX,
        ensures
            final(self)@ == old(self)@.after_observation(*v),
    {
        let _ = self.detector_firings.total();
        self.detector_firings.increase(v.detector.clone(), 1);
    }

    fn refuse(&mut self)
        requires
            old(self)@.rejected < u64::MAX,
        ensures
            final(self)@ == (DetectionView {
                rejected: (old(self)@.rejected + 1) as u64,
                ..old(self)@
            }),
    {
        self.rejected = self.rejected + 1;
    }

    /// Consumes one record.
    pub fn on_event(&mut self, ev: &EventRecord)
        requires
            old(self)@.room_for(*ev),
        ensures
            final(self)@ == old(self)@.after(*ev),
    {
        match (find_channel(ev.channel.as_str()), &ev.payload) {
            (Some(Channel::GtAttackAction), Payload::GtAttackAction(v)) => self.on_attack(v),
            (Some(Channel::MaReport), Payload::MaReport(v)) => self.on_report(v),
            (Some(Channel::MaDecision), Payload::MaDecision(v)) => self.on_decision(v),
            (Some(Channel::DetObservation), Payload::DetObservation(v)) => self.on_observation(v),
            (Some(Channel::GtAttackAction), _) => self.refuse(),
            (Some(Channel::MaReport), _) => self.refuse(),
            (Some(Channel::MaDecision), _) => self.refuse(),
            (Some(Channel::DetObservation), _) => self.refuse(),
            _ => {},
        }
    }

    fn emit_cells(
        &self,
        level: DetectionLevel,
        m: &ConfusionMatrix,
        at: SimTime,
        out: &mut Vec<MetricSample>,
    )
        requires
            *m == self@.confusion(level),
        ensures
            views(final(out)@) == views(old(out)@) + self@.cell_samples(level, at),
    {
        let ghost start = views(out@);
        let ghost all = self@.cell_samples(level, at);
        let every = Cell::all();
        let mut i: usize = 0;
        assert(start + all.subrange(0, 0) =~= start);
        while i < 4
            invariant
                *m == self@.confusion(level),
                all == self@.cell_samples(level, at),
                all.len() == 4,
                every@ == Cell::every(),
                i <= 4,
                views(out@) == start + all.subrange(0, i as int),
            decreases 4 - i,
        {
            broadcast use group_views;

            let c = every[i];
            assert(c == Cell::every()[i as int]);
            let mut dims = one_dim(Dim::Level, DimValue::label(level.as_str()));
            dims.append(Dim::Cell, DimValue::label(c.as_str()));
            assert(dims.listing() =~= seq![
                (Dim::Level, DimText::Label(level.text())),
                (Dim::Cell, DimText::Label(c.text())),
            ]);
            let s = MetricSample::new(
                &catalog::cell_count(c),
                at,
                dims,
                SampleValue::count(m.cell(c)),
            );
            assert(s@ == all[i as int]);
            out.push(s);
            assert(views(out@) =~= start + all.subrange(0, i as int + 1));
            i = i + 1;
        }
        assert(all.subrange(0, 4) =~= all);
    }

    fn emit_summaries(
        &self,
        level: DetectionLevel,
        m: &ConfusionMatrix,
        at: SimTime,
        out: &mut Vec<MetricSample>,
    )
        requires
            *m == self@.confusion(level),
            m.sum() <= u64::MAX,
        ensures
            views(final(out)@) == views(old(out)@) + self@.summary_samples(level, at),
    {
        broadcast use group_views;

        let ghost start = views(out@);
        let n: u64 = self.min_samples;
        let name = level.as_str();
        out.push(
            MetricSample::new(
                &catalog::det_recall(n),
                at,
                one_dim(Dim::Level, DimValue::label(name)),
                SampleValue::Ratio(m.recall(n, self.level)),
            ),
        );
        out.push(
            MetricSample::new(
                &catalog::det_fpr(n),
                at,
                one_dim(Dim::Level, DimValue::label(name)),
                SampleValue::Ratio(m.fpr(n, self.level)),
            ),
        );
        let precision = match level {
            DetectionLevel::Report => self.report_precision().estimate(n, self.level),
            DetectionLevel::Vehicle => m.precision(n, self.level),
        };
        out.push(
            MetricSample::new(
                &catalog::det_precision(n),
                at,
                one_dim(Dim::Level, DimValue::label(name)),
                SampleValue::Ratio(precision),
            ),
        );
        out.push(
            MetricSample::new(
                &catalog::det_f1(n),
                at,
                one_dim(Dim::Level, DimValue::label(name)),
                SampleValue::Scalar(m.f1(n)),
            ),
        );
        out.push(
            MetricSample::new(
                &catalog::det_accuracy(n),
                at,
                one_dim(Dim::Level, DimValue::label(name)),
                SampleValue::Ratio(m.accuracy(n, self.level)),
            ),
        );
        out.push(
            MetricSample::new(
                &catalog::false_accusations(),
                at,
                one_dim(Dim::Level, DimValue::label(name)),
                SampleValue::count(m.fp),
            ),
        );
        assert(views(out@) =~= start + self@.summary_samples(level, at));
    }

    fn time_since_onset(&self, actor: u32, t: SimTime) -> (r: Option<u64>)
        ensures
            match r {
                Some(ns) => self@.since_onset(actor, t) == Some(ns as int),
                None => self@.since_onset(actor, t) is None,
            },
    {
        if !self.attackers.contains(&actor) {
            return None;
        }
        match self.onset.get(&actor) {
            Some(onset) => if t >= *onset {
                Some(t - *onset)
            } else {
                None
            },
            None => None,
        }
    }

    fn emit_times(&self, at: SimTime, out: &mut Vec<MetricSample>)
        ensures
            views(final(out)@) == views(old(out)@) + self@.time_samples(at),
    {
        broadcast use group_views;

        let ghost start = views(out@);
        let mut detect = Distribution::new();
        let mut decide = Distribution::new();
        let n: usize = self.subject_actor.len();
        let ghost s = self.subject_actor.listing();
        let mut i: usize = 0;
        assert(s.subrange(0, 0) =~= Seq::<(Seq<char>, u32)>::empty());
        while i < n
            invariant
                s == self.subject_actor.listing(),
                n == s.len(),
                i <= n,
                detect@ == self@.times_to_report(s.subrange(0, i as int)),
                decide@ == self@.times_to_revocation(s.subrange(0, i as int)),
            decreases n - i,
        {
            proof {
                let next = s.subrange(0, i as int + 1);
                assert(next.drop_last() =~= s.subrange(0, i as int));
                assert(next.last() == s[i as int]);
            }
            let subject = self.subject_actor.key_at(i);
            let actor: u32 = *self.subject_actor.value_at(i);
            if let Some(t) = self.first_report.get(subject) {
                if let Some(ns) = self.time_since_onset(actor, *t) {
                    detect.observe_quotient(ns as i128, 1_000_000_000);
                }
            }
            if let Some(t) = self.is_revoked(subject) {
                if let Some(ns) = self.time_since_onset(actor, t) {
                    decide.observe_quotient(ns as i128, 1_000_000_000);
                }
            }
            i = i + 1;
        }
        assert(s.subrange(0, n as int) =~= s);
        out.push(
            MetricSample::new(
                &catalog::time_to_detect(),
                at,
                no_dims(),
                SampleValue::Distribution(detect.summary(1)),
            ),
        );
        out.push(
            MetricSample::new(
                &catalog::time_to_decision(),
                at,
                no_dims(),
                SampleValue::Distribution(decide.summary(1)),
            ),
        );
        assert(views(out@) =~= start + self@.time_samples(at));
    }

    /// The samples of the run until `at`. Everything goes on accumulating: an attacker that
    /// is detected late was not missed earlier.
    pub fn flush(&mut self, at: SimTime) -> (out: Vec<MetricSample>)
        ensures
            views(out@) == old(self)@.samples(at),
            final(self)@ == old(self)@,
    {
        broadcast use group_views;

        let mut out: Vec<MetricSample> = Vec::new();
        let by_report = self.matrix(DetectionLevel::Report);
        self.emit_cells(DetectionLevel::Report, &by_report, at, &mut out);
        self.emit_summaries(DetectionLevel::Report, &by_report, at, &mut out);
        let by_vehicle = self.matrix(DetectionLevel::Vehicle);
        self.emit_cells(DetectionLevel::Vehicle, &by_vehicle, at, &mut out);
        self.emit_summaries(DetectionLevel::Vehicle, &by_vehicle, at, &mut out);
        self.emit_times(at, &mut out);
        assert(views(out@) =~= self@.samples(at));
        out
    }

    /// How many records could not be read.
    pub fn rejected(&self) -> (r: u64)
        ensures
            r == self@.rejected,
    {
        self.rejected
    }

    /// The card of the provider.
    pub fn card(&self) -> (r: ModelCard)
        ensures
            r@ == catalog::detection_card(),
    {
        catalog::build_card()
    }

    /// The definitions of the provider's metrics.
    pub fn definitions(&self) -> (r: Vec<MetricDef>)
        ensures
            views(r@) == catalog::all_defs(self@.min_samples),
    {
        catalog::definitions(self.min_samples)
    }
}

/// How many entries of a listing of subjects and their actors have a property.
pub open spec fn picked(s: Seq<(Seq<char>, u32)>, f: spec_fn(Seq<char>, u32) -> bool) -> int
    decreases s.len(),
{
    if s.len() == 0 {
        0
    } else {
        picked(s.drop_last(), f) + if f(s.last().0, s.last().1) {
            1int
        } else {
            0int
        }
    }
}

proof fn cells_pick(v: DetectionView, level: DetectionLevel, s: Seq<(Seq<char>, u32)>)
    requires
        s.len() <= u64::MAX,
    ensures
        ({
            let m = v.matrix_of(level, s);
            &&& m.sum() == s.len()
            &&& m.tp + m.fn_ == picked(s, |k: Seq<char>, a: u32| v.attackers.contains(a))
            &&& m.tp + m.fp == picked(s, |k: Seq<char>, a: u32| v.predicted(level, k))
            &&& m.tp == picked(
                s,
                |k: Seq<char>, a: u32| v.attackers.contains(a) && v.predicted(level, k),
            )
        }),
    decreases s.len(),
{
    if s.len() > 0 {
        cells_pick(v, level, s.drop_last());
    }
}

/// How many entries of a listing have a property is how many keys of its map have it.
proof fn picked_are_keys(s: Seq<(Seq<char>, u32)>, f: spec_fn(Seq<char>, u32) -> bool)
    requires
        increasing::<String, u32>(s),
    ensures
        ({
            let keys = Set::new(|k: Seq<char>| listed(s).contains_key(k) && f(k, listed(s)[k]));
            keys.finite() && keys.len() == picked(s, f)
        }),
    decreases s.len(),
{
    let m = listed(s);
    let keys = Set::new(|k: Seq<char>| m.contains_key(k) && f(k, m[k]));
    if s.len() == 0 {
        assert(keys =~= Set::empty());
    } else {
        let t = s.drop_last();
        let (last, actor) = s.last();
        assert(increasing::<String, u32>(t)) by {
            assert forall|i: int, j: int| 0 <= i < j < t.len() implies <String as Key>::before(
                #[trigger] t[i].0,
                #[trigger] t[j].0,
            ) by {
                assert(t[i].0 == s[i].0 && t[j].0 == s[j].0);
            }
        }
        picked_are_keys(t, f);
        let n = listed(t);
        let fewer = Set::new(|k: Seq<char>| n.contains_key(k) && f(k, n[k]));
        listed_at::<String, u32>(s, s.len() - 1);
        assert(!n.contains_key(last)) by {
            if n.contains_key(last) {
                let i = choose|i: int| ranked_at(t, last, i);
                assert(<String as Key>::before(s[i].0, s[s.len() - 1].0));
                <String as Key>::order_irreflexive(last);
            }
        }
        assert forall|k: Seq<char>| k != last implies (#[trigger] m.contains_key(k)
            <==> n.contains_key(k)) && (m.contains_key(k) ==> m[k] == n[k]) by {
            if n.contains_key(k) {
                let i = choose|i: int| ranked_at(t, k, i);
                listed_at::<String, u32>(t, i);
                assert(s[i] == t[i]);
                listed_at::<String, u32>(s, i);
            } else if m.contains_key(k) {
                let i = choose|i: int| ranked_at(s, k, i);
                assert(ranked_at(t, k, i));
            }
        }
        if f(last, actor) {
            assert(keys =~= fewer.insert(last));
        } else {
            assert(keys =~= fewer);
        }
    }
}

impl DetectionView {
    /// The declared subjects whose actor attacked.
    pub open spec fn culprits(self) -> Set<Seq<char>> {
        Set::new(|k: Seq<char>| self.subject_actor.contains_key(k) && self.misbehaves(k))
    }

    /// The declared subjects that are predicted to misbehave, at a level.
    pub open spec fn suspects(self, level: DetectionLevel) -> Set<Seq<char>> {
        Set::new(|k: Seq<char>| self.subject_actor.contains_key(k) && self.predicted(level, k))
    }
}

/// The matrix counts every declared subject in one cell, and no other subject: those whose
/// actor attacked are the true positives and the false negatives, and those that are
/// predicted to misbehave are the positives. At the level of reports these are the subjects
/// with a report, at the level of vehicles those that were revoked.
pub proof fn the_cells_are_the_subjects(v: DetectionView, level: DetectionLevel)
    requires
        crate::keyed::orderly::<String, u32>(v.subject_actor),
        in_order::<String, u32>(v.subject_actor).len() <= u64::MAX,
    ensures
        ({
            let m = v.confusion(level);
            &&& m.sum() == v.subject_actor.dom().len()
            &&& m.tp + m.fn_ == v.culprits().len()
            &&& m.tp + m.fp == v.suspects(level).len()
            &&& m.tp == v.culprits().intersect(v.suspects(level)).len()
            &&& forall|k: Seq<char>| #[trigger]
                v.suspects(DetectionLevel::Report).contains(k) <==> v.subject_actor.contains_key(k)
                    && v.first_report.contains_key(k)
            &&& forall|k: Seq<char>| #[trigger]
                v.suspects(DetectionLevel::Vehicle).contains(k) <==> v.subject_actor.contains_key(k)
                    && v.revocation.contains_key(k)
        }),
{
    let s = in_order::<String, u32>(v.subject_actor);
    let attacked = |k: Seq<char>, a: u32| v.attackers.contains(a);
    let predicted = |k: Seq<char>, a: u32| v.predicted(level, k);
    let both = |k: Seq<char>, a: u32| v.attackers.contains(a) && v.predicted(level, k);
    let any = |k: Seq<char>, a: u32| true;
    picked_are_keys(s, attacked);
    picked_are_keys(s, both);
    assert(v.culprits().intersect(v.suspects(level)) =~= Set::new(
        |k: Seq<char>| listed(s).contains_key(k) && both(k, listed(s)[k]),
    ));
    picked_are_keys(s, predicted);
    picked_are_keys(s, any);
    every_entry_is_picked(s);
    let keys = Set::new(|k: Seq<char>| listed(s).contains_key(k) && any(k, listed(s)[k]));
    assert(keys =~= v.subject_actor.dom());
    assert(v.culprits() =~= Set::new(
        |k: Seq<char>| listed(s).contains_key(k) && attacked(k, listed(s)[k]),
    ));
    assert(v.suspects(level) =~= Set::new(
        |k: Seq<char>| listed(s).contains_key(k) && predicted(k, listed(s)[k]),
    ));
    cells_pick(v, level, s);
}

proof fn every_entry_is_picked(s: Seq<(Seq<char>, u32)>)
    ensures
        picked(s, |k: Seq<char>, a: u32| true) == s.len(),
    decreases s.len(),
{
    if s.len() > 0 {
        every_entry_is_picked(s.drop_last());
    }
}

impl DetectionView {
    /// After some decisions, in order.
    pub open spec fn after_decisions(self, s: Seq<MaDecisionView>) -> DetectionView
        decreases s.len(),
    {
        if s.len() == 0 {
            self
        } else {
            self.after_decisions(s.drop_last()).after_decision(s.last())
        }
    }
}

/// True if a decision revokes a subject.
pub open spec fn revokes(d: MaDecisionView, subject: Seq<char>) -> bool {
    d.subject@ == subject && d.decision@ == REVOKE@
}

/// A subject is revoked just when some decision on it was to revoke it, whatever else was
/// decided, and the first such decision says when.
pub proof fn a_subject_is_revoked_by_its_first_revocation(
    s: Seq<MaDecisionView>,
    subject: Seq<char>,
)
    ensures
        fresh().after_decisions(s).revoked(subject) <==> exists|i: int|
            0 <= i < s.len() && revokes(#[trigger] s[i], subject),
        forall|i: int|
            0 <= i < s.len() && revokes(#[trigger] s[i], subject) && (forall|j: int|
                0 <= j < i ==> !revokes(#[trigger] s[j], subject))
                ==> fresh().after_decisions(s).revocation[subject] == s[i].t,
    decreases s.len(),
{
    if s.len() > 0 {
        let t = s.drop_last();
        let last = s.len() - 1;
        a_subject_is_revoked_by_its_first_revocation(t, subject);
        let before = fresh().after_decisions(t);
        if before.revoked(subject) {
            let i = choose|i: int| 0 <= i < t.len() && revokes(#[trigger] t[i], subject);
            assert(s[i] == t[i]);
        } else if revokes(s[last], subject) {
        } else {
            assert forall|i: int| 0 <= i < s.len() implies !revokes(#[trigger] s[i], subject) by {
                if i < last {
                    assert(s[i] == t[i]);
                    assert(!revokes(t[i], subject));
                }
            }
        }
        assert forall|i: int|
            0 <= i < s.len() && revokes(#[trigger] s[i], subject) && (forall|j: int|
                0 <= j < i ==> !revokes(#[trigger] s[j], subject)) implies fresh().after_decisions(
            s,
        ).revocation[subject] == s[i].t by {
            if i < last {
                assert(t[i] == s[i]);
                assert forall|j: int| 0 <= j < i implies !revokes(#[trigger] t[j], subject) by {
                    assert(t[j] == s[j]);
                }
            } else {
                assert forall|j: int| 0 <= j < t.len() implies !revokes(#[trigger] t[j], subject) by {
                    assert(t[j] == s[j]);
                }
                assert(!before.revoked(subject));
            }
        }
    }
}

/// A subject that is declared is no longer listed, whenever it was named.
pub proof fn a_declared_subject_is_not_listed(v: DetectionView, subject: Seq<char>, actor: ActorId)
    ensures
        !v.with_subject(subject, actor).undeclared.contains(subject),
        v.with_subject(subject, actor).subject_actor.contains_key(subject),
{
}

/// The matrix counts every declared subject once.
pub proof fn the_matrix_counts_every_subject(
    v: DetectionView,
    level: DetectionLevel,
    s: Seq<(Seq<char>, u32)>,
)
    requires
        s.len() <= u64::MAX,
    ensures
        v.matrix_of(level, s).sum() == s.len(),
    decreases s.len(),
{
    if s.len() > 0 {
        the_matrix_counts_every_subject(v, level, s.drop_last());
    }
}

/// Decisions about different subjects may come in either order.
pub proof fn decisions_commute(v: DetectionView, a: MaDecisionView, b: MaDecisionView)
    requires
        a.subject@ != b.subject@,
    ensures
        v.after_decision(a).after_decision(b) == v.after_decision(b).after_decision(a),
{
    let x = v.after_decision(a).after_decision(b);
    let y = v.after_decision(b).after_decision(a);
    assert(x.revocation =~= y.revocation);
    assert(x.undeclared =~= y.undeclared);
    assert(x =~= y);
}

/// A later attack action of the same actor does not move the onset of its attack.
pub proof fn a_later_action_does_not_move_the_onset(v: DetectionView, a: GtAttackActionView)
    requires
        v.onset.contains_key(a.actor),
    ensures
        v.after_attack(a).onset == v.onset,
{
}

/// An undeclared subject is listed, and changes no matrix.
pub proof fn an_undeclared_subject_is_outside_the_matrix(
    v: DetectionView,
    r: MaReportView,
    level: DetectionLevel,
)
    requires
        !v.subject_actor.contains_key(r.subject@),
        crate::keyed::orderly::<String, u32>(v.subject_actor),
    ensures
        v.after_report(r).undeclared.contains(r.subject@),
        v.after_report(r).confusion(level) == v.confusion(level),
{
    let s = in_order::<String, u32>(v.subject_actor);
    assert forall|i: int| 0 <= i < s.len() implies (#[trigger] s[i]).0 != r.subject@ by {
        listed_at::<String, u32>(s, i);
    }
    unnamed_subjects_keep_their_cells(v, r, level, s);
}

proof fn unnamed_subjects_keep_their_cells(
    v: DetectionView,
    r: MaReportView,
    level: DetectionLevel,
    s: Seq<(Seq<char>, u32)>,
)
    requires
        forall|i: int| 0 <= i < s.len() ==> (#[trigger] s[i]).0 != r.subject@,
    ensures
        v.after_report(r).matrix_of(level, s) == v.matrix_of(level, s),
    decreases s.len(),
{
    if s.len() > 0 {
        let t = s.drop_last();
        assert forall|i: int| 0 <= i < t.len() implies (#[trigger] t[i]).0 != r.subject@ by {
            assert(t[i] == s[i]);
        }
        unnamed_subjects_keep_their_cells(v, r, level, t);
    }
}

} // verus!
