//! Violations, outcomes and reports.

use vstd::prelude::*;
use vstd::string::*;
use crate::card::{group_views, views};
use crate::error::{ErrorView, MetricError};
use crate::keyed::{in_order, optional_text, SortedMap};
use crate::quant::{number_text, quantised_real, Quantum, Real};
use crate::text::{join3, join_all, joined, signed_decimal, signed_numeral, texts};

verus! {

/// A number in a violation: an exact integer, or a real on a declared grid.
#[derive(Clone, Copy, Debug, PartialEq, Eq, Structural)]
pub enum Number {
    /// An exact count.
    Int(i64),
    /// A real.
    Real(Real),
}

impl View for Number {
    type V = Number;

    open spec fn view(&self) -> Number {
        *self
    }
}

impl Number {
    /// An exact count.
    pub fn whole(i: i64) -> (r: Number)
        ensures
            r == Number::Int(i),
    {
        Number::Int(i)
    }

    /// A real, rounded onto `q`.
    pub fn rounded(x: Real, q: Quantum) -> (r: Number)
        ensures
            r == Number::Real(quantised_real(x, q@)),
    {
        Number::Real(q.quantise(x))
    }

    /// The number as text.
    pub open spec fn text(self) -> Seq<char> {
        match self {
            Number::Int(i) => signed_numeral(i as int),
            Number::Real(x) => number_text(x@),
        }
    }

    /// The number as text.
    pub fn to_text(&self) -> (r: String)
        ensures
            r@ == self.text(),
    {
        match self {
            Number::Int(i) => signed_decimal(*i),
            Number::Real(x) => x.to_text(),
        }
    }
}

/// One way in which one invariant was broken.
pub struct InvariantViolation {
    /// The invariant.
    pub id: String,
    /// What was broken, in one sentence.
    pub detail: String,
    /// What it was about.
    pub subject: Option<String>,
    /// The numbers, by name.
    pub numbers: SortedMap<String, Number>,
}

/// What a violation says.
#[verifier::ext_equal]
pub ghost struct ViolationView {
    pub id: Seq<char>,
    pub detail: Seq<char>,
    pub subject: Option<Seq<char>>,
    pub numbers: Map<Seq<char>, Number>,
}

impl View for InvariantViolation {
    type V = ViolationView;

    open spec fn view(&self) -> ViolationView {
        ViolationView {
            id: self.id@,
            detail: self.detail@,
            subject: optional_text(self.subject),
            numbers: self.numbers@,
        }
    }
}

/// A violation without numbers.
pub open spec fn finding(id: Seq<char>, subject: Option<Seq<char>>, detail: Seq<char>) -> ViolationView {
    ViolationView { id, detail, subject, numbers: Map::empty() }
}

impl ViolationView {
    /// With one more number.
    pub open spec fn with(self, name: Seq<char>, n: Number) -> ViolationView {
        ViolationView { numbers: self.numbers.insert(name, n), ..self }
    }

    /// With one more count.
    pub open spec fn count(self, name: Seq<char>, n: int) -> ViolationView {
        self.with(name, Number::Int(n as i64))
    }

    /// The violation in one line.
    pub open spec fn text(self) -> Seq<char> {
        let head = self.id + (match self.subject {
            Some(s) => " ["@ + s + "]"@,
            None => Seq::empty(),
        }) + ": "@ + self.detail;
        let numbers = in_order::<String, Number>(self.numbers);
        if numbers.len() == 0 {
            head
        } else {
            head + " ("@ + joined(number_texts(numbers), ", "@) + ")"@
        }
    }
}

/// The named numbers as texts.
pub open spec fn number_texts(s: Seq<(Seq<char>, Number)>) -> Seq<Seq<char>> {
    Seq::new(s.len(), |i: int| s[i].0 + "="@ + s[i].1.text())
}

impl InvariantViolation {
    /// A violation without numbers.
    pub(crate) fn new(id: &'static str, subject: Option<String>, detail: String) -> (r: Self)
        ensures
            r@ == finding(id@, optional_text(subject), detail@),
    {
        InvariantViolation {
            id: id.to_owned(),
            detail,
            subject,
            numbers: SortedMap::new(),
        }
    }

    /// With one more number.
    pub(crate) fn with(self, name: &str, n: Number) -> (r: Self)
        ensures
            r@ == self@.with(name@, n),
    {
        let mut v = self;
        let _ = v.numbers.insert(name.to_owned(), n);
        v
    }

    /// With one more count.
    pub(crate) fn count(self, name: &str, n: u64) -> (r: Self)
        ensures
            r@ == self@.count(name@, n as int),
    {
        self.with(name, Number::Int(n as i64))
    }

    /// The violation in one line.
    pub fn to_text(&self) -> (r: String)
        ensures
            r@ == self@.text(),
    {
        let mut s = self.id.clone();
        if let Some(subject) = &self.subject {
            let part = join3(" [", subject.as_str(), "]");
            s.append(part.as_str());
        } else {
            assert(s@ =~= s@ + Seq::<char>::empty());
        }
        s.append(": ");
        s.append(self.detail.as_str());
        let n: usize = self.numbers.len();
        let ghost listing = self.numbers.listing();
        if n > 0 {
            let mut parts: Vec<String> = Vec::new();
            let mut i: usize = 0;
            while i < n
                invariant
                    n == self.numbers.listing().len(),
                    listing == self.numbers.listing(),
                    i <= n,
                    texts(parts@) =~= number_texts(listing.subrange(0, i as int)),
                decreases n - i,
            {
                broadcast use group_views;

                let part = join3(
                    self.numbers.key_at(i).as_str(),
                    "=",
                    self.numbers.value_at(i).to_text().as_str(),
                );
                parts.push(part);
                i = i + 1;
            }
            assert(listing.subrange(0, n as int) =~= listing);
            s.append(" (");
            s.append(join_all(&parts, ", ").as_str());
            s.append(")");
        }
        s
    }
}

/// The result of one check.
pub struct InvariantOutcome {
    /// The invariant.
    pub id: String,
    /// The invariant as it is stated.
    pub statement: String,
    /// How many things were examined.
    pub checked: u64,
    /// The violations.
    pub violations: Vec<InvariantViolation>,
    /// Why the check could not run, where it could not.
    pub skipped: Option<String>,
}

/// The result of one check.
#[verifier::ext_equal]
pub ghost struct OutcomeView {
    pub id: Seq<char>,
    pub statement: Seq<char>,
    pub checked: int,
    pub violations: Seq<ViolationView>,
    pub skipped: Option<Seq<char>>,
}

impl View for InvariantOutcome {
    type V = OutcomeView;

    open spec fn view(&self) -> OutcomeView {
        OutcomeView {
            id: self.id@,
            statement: self.statement@,
            checked: self.checked as int,
            violations: views(self.violations@),
            skipped: optional_text(self.skipped),
        }
    }
}

/// The outcome of a check that ran.
pub open spec fn ran(
    id: Seq<char>,
    statement: Seq<char>,
    checked: int,
    violations: Seq<ViolationView>,
) -> OutcomeView {
    OutcomeView { id, statement, checked, violations, skipped: None }
}

/// The outcome of a check that could not run.
pub open spec fn did_not_run(id: Seq<char>, statement: Seq<char>, why: Seq<char>) -> OutcomeView {
    OutcomeView { id, statement, checked: 0, violations: Seq::empty(), skipped: Some(why) }
}

impl InvariantOutcome {
    /// The outcome of a check that ran.
    pub(crate) fn of(
        id: &'static str,
        statement: &'static str,
        checked: u64,
        violations: Vec<InvariantViolation>,
    ) -> (r: Self)
        ensures
            r@ == ran(id@, statement@, checked as int, views(violations@)),
    {
        InvariantOutcome {
            id: id.to_owned(),
            statement: statement.to_owned(),
            checked,
            violations,
            skipped: None,
        }
    }

    /// The outcome of a check that could not run.
    pub(crate) fn not_run(id: &'static str, statement: &'static str, why: &str) -> (r: Self)
        ensures
            r@ == did_not_run(id@, statement@, why@),
    {
        broadcast use group_views;

        InvariantOutcome {
            id: id.to_owned(),
            statement: statement.to_owned(),
            checked: 0,
            violations: Vec::new(),
            skipped: Some(why.to_owned()),
        }
    }

    /// True if no violation was found. A check that could not run holds.
    pub fn held(&self) -> (r: bool)
        ensures
            r == (self@.violations.len() == 0),
    {
        assert(self@.violations.len() == self.violations@.len());
        self.violations.len() == 0
    }
}

/// A check that could not run holds.
pub proof fn a_skipped_check_holds(id: Seq<char>, statement: Seq<char>, why: Seq<char>)
    ensures
        did_not_run(id, statement, why).violations.len() == 0,
        did_not_run(id, statement, why).skipped is Some,
{
}

/// The outcomes of some checks, in the order in which they were run.
pub struct InvariantReport {
    /// The outcomes.
    pub outcomes: Vec<InvariantOutcome>,
}

/// All violations of some outcomes.
pub open spec fn all_violations(outcomes: Seq<OutcomeView>) -> Seq<ViolationView>
    decreases outcomes.len(),
{
    if outcomes.len() == 0 {
        Seq::empty()
    } else {
        all_violations(outcomes.drop_last()) + outcomes.last().violations
    }
}

/// The invariants that some outcomes found broken.
pub open spec fn broken(outcomes: Seq<OutcomeView>) -> Seq<Seq<char>>
    decreases outcomes.len(),
{
    if outcomes.len() == 0 {
        Seq::empty()
    } else if outcomes.last().violations.len() > 0 {
        broken(outcomes.drop_last()).push(outcomes.last().id)
    } else {
        broken(outcomes.drop_last())
    }
}

/// The checks that could not run, with the reasons.
pub open spec fn not_run(outcomes: Seq<OutcomeView>) -> Seq<(Seq<char>, Seq<char>)>
    decreases outcomes.len(),
{
    if outcomes.len() == 0 {
        Seq::empty()
    } else {
        let before = not_run(outcomes.drop_last());
        match outcomes.last().skipped {
            Some(why) => before.push((outcomes.last().id, why)),
            None => before,
        }
    }
}

/// The texts of some violations.
pub open spec fn violation_texts(s: Seq<ViolationView>) -> Seq<Seq<char>> {
    Seq::new(s.len(), |i: int| s[i].text())
}

/// The views of borrowed violations.
pub open spec fn borrowed_views(s: Seq<&InvariantViolation>) -> Seq<ViolationView> {
    s.map_values(|v: &InvariantViolation| v@)
}

/// Pairs of texts.
pub open spec fn text_pairs(s: Seq<(&str, &str)>) -> Seq<(Seq<char>, Seq<char>)> {
    s.map_values(|e: (&str, &str)| (e.0@, e.1@))
}

impl InvariantReport {
    /// A report of some outcomes.
    pub fn new(outcomes: Vec<InvariantOutcome>) -> (r: InvariantReport)
        ensures
            r.outcomes@ == outcomes@,
    {
        InvariantReport { outcomes }
    }

    /// The outcomes.
    pub open spec fn results(&self) -> Seq<OutcomeView> {
        views(self.outcomes@)
    }

    /// True if every check held.
    pub fn held(&self) -> (r: bool)
        ensures
            r == (forall|i: int|
                0 <= i < self.results().len() ==> (#[trigger] self.results()[i]).violations.len()
                    == 0),
    {
        let mut i: usize = 0;
        while i < self.outcomes.len()
            invariant
                i <= self.outcomes@.len(),
                forall|j: int|
                    0 <= j < i ==> (#[trigger] self.results()[j]).violations.len() == 0,
            decreases self.outcomes@.len() - i,
        {
            assert(self.results()[i as int] == self.outcomes@[i as int]@);
            if !self.outcomes[i].held() {
                return false;
            }
            i = i + 1;
        }
        true
    }

    /// Every violation of every check.
    pub fn violations(&self) -> (r: Vec<&InvariantViolation>)
        ensures
            borrowed_views(r@) == all_violations(self.results()),
    {
        let mut out: Vec<&InvariantViolation> = Vec::new();
        let mut i: usize = 0;
        let ghost all = self.results();
        assert(all.subrange(0, 0) =~= Seq::<OutcomeView>::empty());
        assert(borrowed_views(out@) =~= Seq::<ViolationView>::empty());
        while i < self.outcomes.len()
            invariant
                all == self.results(),
                all.len() == self.outcomes@.len(),
                i <= self.outcomes@.len(),
                borrowed_views(out@) == all_violations(all.subrange(0, i as int)),
            decreases self.outcomes@.len() - i,
        {
            let o = &self.outcomes[i];
            let ghost done = all_violations(all.subrange(0, i as int));
            assert(all[i as int] == o@);
            let mut j: usize = 0;
            assert(done + o@.violations.subrange(0, 0) =~= done);
            while j < o.violations.len()
                invariant
                    o@.violations == views(o.violations@),
                    j <= o.violations@.len(),
                    borrowed_views(out@) == done + o@.violations.subrange(0, j as int),
                decreases o.violations@.len() - j,
            {
                let ghost before = out@;
                out.push(&o.violations[j]);
                proof {
                    assert(o@.violations[j as int] == o.violations@[j as int]@);
                    assert(borrowed_views(out@) =~= borrowed_views(before).push(
                        o.violations@[j as int]@,
                    ));
                    assert(borrowed_views(out@) =~= done + o@.violations.subrange(0, j as int + 1));
                }
                j = j + 1;
            }
            proof {
                assert(o@.violations.subrange(0, j as int) =~= o@.violations);
                let next = all.subrange(0, i as int + 1);
                assert(next.drop_last() =~= all.subrange(0, i as int));
                assert(next.last() == o@);
            }
            i = i + 1;
        }
        assert(all.subrange(0, i as int) =~= all);
        out
    }

    /// The invariants that were found broken.
    pub fn failed(&self) -> (r: Vec<&str>)
        ensures
            crate::text::str_texts(r@) == broken(self.results()),
    {
        let mut out: Vec<&str> = Vec::new();
        let mut i: usize = 0;
        let ghost all = self.results();
        assert(all.subrange(0, 0) =~= Seq::<OutcomeView>::empty());
        assert(crate::text::str_texts(out@) =~= Seq::<Seq<char>>::empty());
        while i < self.outcomes.len()
            invariant
                all == self.results(),
                all.len() == self.outcomes@.len(),
                i <= self.outcomes@.len(),
                crate::text::str_texts(out@) == broken(all.subrange(0, i as int)),
            decreases self.outcomes@.len() - i,
        {
            let ghost before = out@;
            proof {
                assert(all[i as int] == self.outcomes@[i as int]@);
                let next = all.subrange(0, i as int + 1);
                assert(next.drop_last() =~= all.subrange(0, i as int));
                assert(next.last() == self.outcomes@[i as int]@);
            }
            if !self.outcomes[i].held() {
                out.push(self.outcomes[i].id.as_str());
                assert(crate::text::str_texts(out@) =~= crate::text::str_texts(before).push(
                    self.outcomes@[i as int].id@,
                ));
            }
            i = i + 1;
        }
        assert(all.subrange(0, i as int) =~= all);
        out
    }

    /// The checks that could not run, with the reasons.
    pub fn skipped(&self) -> (r: Vec<(&str, &str)>)
        ensures
            text_pairs(r@) == not_run(self.results()),
    {
        let mut out: Vec<(&str, &str)> = Vec::new();
        let mut i: usize = 0;
        let ghost all = self.results();
        assert(all.subrange(0, 0) =~= Seq::<OutcomeView>::empty());
        assert(text_pairs(out@) =~= Seq::<(Seq<char>, Seq<char>)>::empty());
        while i < self.outcomes.len()
            invariant
                all == self.results(),
                all.len() == self.outcomes@.len(),
                i <= self.outcomes@.len(),
                text_pairs(out@) == not_run(all.subrange(0, i as int)),
            decreases self.outcomes@.len() - i,
        {
            let ghost before = out@;
            let o = &self.outcomes[i];
            proof {
                assert(all[i as int] == o@);
                let next = all.subrange(0, i as int + 1);
                assert(next.drop_last() =~= all.subrange(0, i as int));
                assert(next.last() == o@);
            }
            if let Some(why) = &o.skipped {
                out.push((o.id.as_str(), why.as_str()));
                assert(text_pairs(out@) =~= text_pairs(before).push((o.id@, why@)));
            }
            i = i + 1;
        }
        assert(all.subrange(0, i as int) =~= all);
        out
    }

    /// Succeeds if every check held, and otherwise names every violation, one per line.
    pub fn assert_all(&self) -> (r: Result<(), MetricError>)
        ensures
            match r {
                Ok(_) => all_violations(self.results()).len() == 0,
                Err(e) => {
                    let all = all_violations(self.results());
                    &&& all.len() > 0
                    &&& e@ == (ErrorView::InvariantViolated {
                        count: all.len() as usize,
                        detail: joined(violation_texts(all), "\n"@),
                    })
                },
            },
    {
        let all = self.violations();
        let ghost v = all_violations(self.results());
        assert(v.len() == all@.len());
        if all.len() == 0 {
            return Ok(());
        }
        let mut lines: Vec<String> = Vec::new();
        let mut i: usize = 0;
        while i < all.len()
            invariant
                v == borrowed_views(all@),
                v.len() == all@.len(),
                i <= all@.len(),
                texts(lines@) =~= violation_texts(v.subrange(0, i as int)),
            decreases all@.len() - i,
        {
            broadcast use group_views;

            assert(v[i as int] == all@[i as int]@);
            lines.push(all[i].to_text());
            i = i + 1;
        }
        assert(v.subrange(0, i as int) =~= v);
        assert(texts(lines@).len() == lines@.len());
        Err(
            MetricError::InvariantViolated { count: lines.len(), detail: join_all(&lines, "\n") },
        )
    }
}

/// A report holds just when it has no violation at all.
pub proof fn held_is_no_violation(outcomes: Seq<OutcomeView>)
    ensures
        (forall|i: int| 0 <= i < outcomes.len() ==> (#[trigger] outcomes[i]).violations.len() == 0)
            == (all_violations(outcomes).len() == 0),
    decreases outcomes.len(),
{
    if outcomes.len() > 0 {
        let d = outcomes.drop_last();
        held_is_no_violation(d);
        let n = outcomes.len() - 1;
        if all_violations(outcomes).len() == 0 {
            assert forall|i: int| 0 <= i < outcomes.len() implies (#[trigger] outcomes[i]).violations.len()
                == 0 by {
                if i < n {
                    assert(d[i] == outcomes[i]);
                }
            }
        }
        if forall|i: int|
            0 <= i < outcomes.len() ==> (#[trigger] outcomes[i]).violations.len() == 0 {
            assert forall|i: int| 0 <= i < d.len() implies (#[trigger] d[i]).violations.len() == 0 by {
                assert(d[i] == outcomes[i]);
            }
            assert(outcomes[n].violations.len() == 0);
        }
    }
}

} // verus!
