//! What the calibration rule asks of the cards, and what its verdict says of them.

use vstd::prelude::*;
use crate::card::{CardView, ParameterView, SourceKind, Tier};
use crate::gate::{all_patterns, closed_by, failures_of, grouped, group, malformed, model_half, names_parameter, parameter_half, pattern_problem, reaches, rules, touches, tracked_by, uncalibrated, uncalibrated_of, unused, used, verdict, CalibrationIssue, GateFailure, IssueState, ReasonView, Rule, Uncalibrated};
use crate::text::blank;

verus! {

/// A pattern without a star names the parameter of that name, and no other.
pub proof fn a_literal_names_itself(half: Seq<char>, parameter: Seq<char>)
    requires
        half.len() == 0 || half.last() != '*',
    ensures
        names_parameter(half, parameter) <==> parameter == half,
{
}

/// A pattern that ends in a star names every parameter that begins with what stands before
/// the star, and no other.
pub proof fn a_star_names_what_begins_so(start: Seq<char>, parameter: Seq<char>)
    ensures
        names_parameter(start.push('*'), parameter) <==> exists|rest: Seq<char>|
            parameter == #[trigger] (start + rest),
        names_parameter(seq!['*'], parameter),
{
    let half = start.push('*');
    assert(half.drop_last() =~= start);
    if names_parameter(half, parameter) {
        let rest = parameter.subrange(start.len() as int, parameter.len() as int);
        assert(parameter =~= start + rest);
    }
    if exists|rest: Seq<char>| parameter == #[trigger] (start + rest) {
        let rest = choose|rest: Seq<char>| parameter == #[trigger] (start + rest);
        assert((start + rest).subrange(0, start.len() as int) =~= start);
    }
    assert(seq!['*'].drop_last() =~= Seq::<char>::empty());
    assert(parameter.subrange(0, 0) =~= Seq::<char>::empty());
}

/// True if pattern `k` of issue `i` is well-formed and names the parameter of the model.
pub open spec fn names(
    issues: Seq<CalibrationIssue>,
    i: int,
    k: int,
    model: Seq<char>,
    parameter: Seq<char>,
) -> bool {
    &&& 0 <= i < issues.len()
    &&& 0 <= k < issues[i].covers@.len()
    &&& pattern_problem(issues[i].covers@[k]@) is None
    &&& model_half(issues[i].covers@[k]@) == model
    &&& names_parameter(parameter_half(issues[i].covers@[k]@), parameter)
}

proof fn pattern_at(issues: Seq<CalibrationIssue>, j: int) -> (ik: (int, int))
    requires
        0 <= j < all_patterns(issues).len(),
    ensures
        0 <= ik.0 < issues.len(),
        0 <= ik.1 < issues[ik.0].covers@.len(),
        all_patterns(issues)[j] == (ik.0, issues[ik.0].covers@[ik.1]@),
    decreases issues.len(),
{
    let before = all_patterns(issues.drop_last());
    if j < before.len() {
        pattern_at(issues.drop_last(), j)
    } else {
        (issues.len() - 1, j - before.len())
    }
}

proof fn pattern_is_listed(issues: Seq<CalibrationIssue>, i: int, k: int) -> (j: int)
    requires
        0 <= i < issues.len(),
        0 <= k < issues[i].covers@.len(),
    ensures
        0 <= j < all_patterns(issues).len(),
        all_patterns(issues)[j] == (i, issues[i].covers@[k]@),
    decreases issues.len(),
{
    let before = all_patterns(issues.drop_last());
    if i < issues.len() - 1 {
        pattern_is_listed(issues.drop_last(), i, k)
    } else {
        before.len() + k
    }
}

proof fn rule_at(p: Seq<(int, Seq<char>)>, j: int) -> (n: int)
    requires
        0 <= j < rules(p).len(),
    ensures
        0 <= n < p.len(),
        pattern_problem(p[n].1) is None,
        rules(p)[j] == (Rule {
            issue: p[n].0,
            model: model_half(p[n].1),
            parameter: parameter_half(p[n].1),
        }),
    decreases p.len(),
{
    if p.len() == 0 {
        0
    } else if j < rules(p.drop_last()).len() {
        rule_at(p.drop_last(), j)
    } else {
        p.len() - 1
    }
}

proof fn rule_is_listed(p: Seq<(int, Seq<char>)>, n: int) -> (j: int)
    requires
        0 <= n < p.len(),
        pattern_problem(p[n].1) is None,
    ensures
        0 <= j < rules(p).len(),
        rules(p)[j] == (Rule {
            issue: p[n].0,
            model: model_half(p[n].1),
            parameter: parameter_half(p[n].1),
        }),
    decreases p.len(),
{
    if n < p.len() - 1 {
        rule_is_listed(p.drop_last(), n)
    } else {
        rules(p.drop_last()).len() as int
    }
}

proof fn tracked_at(issues: Seq<CalibrationIssue>, rs: Seq<Rule>, model: Seq<char>, parameter: Seq<char>)
    ensures
        tracked_by(issues, rs, model, parameter) <==> exists|j: int|
            0 <= j < rs.len() && reaches(#[trigger] rs[j], model, parameter)
                && issues[rs[j].issue].state.is_live(),
    decreases rs.len(),
{
    if rs.len() > 0 {
        let d = rs.drop_last();
        tracked_at(issues, d, model, parameter);
        if tracked_by(issues, d, model, parameter) {
            let j = choose|j: int|
                0 <= j < d.len() && reaches(#[trigger] d[j], model, parameter)
                    && issues[d[j].issue].state.is_live();
            assert(rs[j] == d[j]);
        } else if tracked_by(issues, rs, model, parameter) {
            assert(rs[rs.len() - 1] == rs.last());
        }
        if exists|j: int|
            0 <= j < rs.len() && reaches(#[trigger] rs[j], model, parameter)
                && issues[rs[j].issue].state.is_live() {
            let j = choose|j: int|
                0 <= j < rs.len() && reaches(#[trigger] rs[j], model, parameter)
                    && issues[rs[j].issue].state.is_live();
            if j < rs.len() - 1 {
                assert(d[j] == rs[j]);
            }
        }
    }
}

/// A default is covered exactly where an issue that is not closed has a well-formed pattern
/// that names it.
pub proof fn a_default_is_covered_by_a_live_issue(
    issues: Seq<CalibrationIssue>,
    model: Seq<char>,
    parameter: Seq<char>,
)
    ensures
        tracked_by(issues, rules(all_patterns(issues)), model, parameter) <==> exists|
            i: int,
            k: int,
        | #[trigger]
            names(issues, i, k, model, parameter) && issues[i].state != IssueState::Closed,
{
    let p = all_patterns(issues);
    let rs = rules(p);
    tracked_at(issues, rs, model, parameter);
    if tracked_by(issues, rs, model, parameter) {
        let j = choose|j: int|
            0 <= j < rs.len() && reaches(#[trigger] rs[j], model, parameter)
                && issues[rs[j].issue].state.is_live();
        let n = rule_at(p, j);
        let ik = pattern_at(issues, n);
        assert(names(issues, ik.0, ik.1, model, parameter));
    }
    if exists|i: int, k: int| #[trigger]
        names(issues, i, k, model, parameter) && issues[i].state != IssueState::Closed {
        let (i, k) = choose|i: int, k: int| #[trigger]
            names(issues, i, k, model, parameter) && issues[i].state != IssueState::Closed;
        let n = pattern_is_listed(issues, i, k);
        let j = rule_is_listed(p, n);
        assert(reaches(rs[j], model, parameter));
    }
}

/// True if parameter `p` of card `c` is a default that is still to be calibrated, on a card
/// that declares the high tier.
pub open spec fn at_stake(cards: Seq<CardView>, c: int, p: int) -> bool {
    &&& 0 <= c < cards.len()
    &&& 0 <= p < cards[c].parameters.len()
    &&& cards[c].parameters[p].source.kind == SourceKind::TodoCalibrate
    &&& exists|t: int| 0 <= t < cards[c].tier.len() && #[trigger] cards[c].tier[t] == Tier::High
}

/// True if a parameter has a plan that is not blank.
pub open spec fn planned(p: ParameterView) -> bool {
    p.calibration is Some && !blank(p.calibration->0)
}

proof fn nothing_is_blank()
    ensures
        blank(Seq::empty()),
{
}

proof fn todo_at(card: CardView, s: Seq<ParameterView>, j: int) -> (p: int)
    requires
        0 <= j < uncalibrated_of(card, s).len(),
    ensures
        0 <= p < s.len(),
        s[p].source.kind == SourceKind::TodoCalibrate,
        uncalibrated_of(card, s)[j] == (Uncalibrated { card, parameter: s[p] }),
    decreases s.len(),
{
    if s.len() == 0 {
        0
    } else if j < uncalibrated_of(card, s.drop_last()).len() {
        todo_at(card, s.drop_last(), j)
    } else {
        s.len() - 1
    }
}

proof fn todo_is_listed(card: CardView, s: Seq<ParameterView>, p: int) -> (j: int)
    requires
        0 <= p < s.len(),
        s[p].source.kind == SourceKind::TodoCalibrate,
    ensures
        0 <= j < uncalibrated_of(card, s).len(),
        uncalibrated_of(card, s)[j] == (Uncalibrated { card, parameter: s[p] }),
    decreases s.len(),
{
    if p < s.len() - 1 {
        todo_is_listed(card, s.drop_last(), p)
    } else {
        uncalibrated_of(card, s.drop_last()).len() as int
    }
}

/// What is still to be calibrated is a parameter of a card whose default is marked so.
pub proof fn what_is_uncalibrated_is_on_a_card(cards: Seq<CardView>, j: int) -> (cp: (int, int))
    requires
        0 <= j < uncalibrated(cards).len(),
    ensures
        0 <= cp.0 < cards.len(),
        0 <= cp.1 < cards[cp.0].parameters.len(),
        cards[cp.0].parameters[cp.1].source.kind == SourceKind::TodoCalibrate,
        uncalibrated(cards)[j] == (Uncalibrated {
            card: cards[cp.0],
            parameter: cards[cp.0].parameters[cp.1],
        }),
    decreases cards.len(),
{
    if cards.len() == 0 {
        (0, 0)
    } else {
        let before = uncalibrated(cards.drop_last());
        if j < before.len() {
            what_is_uncalibrated_is_on_a_card(cards.drop_last(), j)
        } else {
            let p = todo_at(cards.last(), cards.last().parameters, j - before.len());
            (cards.len() - 1, p)
        }
    }
}

/// Every parameter of a card whose default is marked so is still to be calibrated.
pub proof fn every_marked_default_is_uncalibrated(cards: Seq<CardView>, c: int, p: int) -> (j: int)
    requires
        0 <= c < cards.len(),
        0 <= p < cards[c].parameters.len(),
        cards[c].parameters[p].source.kind == SourceKind::TodoCalibrate,
    ensures
        0 <= j < uncalibrated(cards).len(),
        uncalibrated(cards)[j] == (Uncalibrated {
            card: cards[c],
            parameter: cards[c].parameters[p],
        }),
    decreases cards.len(),
{
    let before = uncalibrated(cards.drop_last());
    if c < cards.len() - 1 {
        every_marked_default_is_uncalibrated(cards.drop_last(), c, p)
    } else {
        before.len() + todo_is_listed(cards.last(), cards.last().parameters, p)
    }
}

proof fn nothing_malformed(issues: Seq<CalibrationIssue>, p: Seq<(int, Seq<char>)>)
    ensures
        malformed(issues, p).len() == 0 <==> forall|n: int|
            0 <= n < p.len() ==> pattern_problem((#[trigger] p[n]).1) is None,
    decreases p.len(),
{
    if p.len() > 0 {
        let d = p.drop_last();
        nothing_malformed(issues, d);
        if malformed(issues, p).len() == 0 {
            assert forall|n: int| 0 <= n < p.len() implies pattern_problem((#[trigger] p[n]).1) is None by {
                if n < p.len() - 1 {
                    assert(d[n] == p[n]);
                }
            }
        }
        if forall|n: int| 0 <= n < p.len() ==> pattern_problem((#[trigger] p[n]).1) is None {
            assert forall|n: int| 0 <= n < d.len() implies pattern_problem((#[trigger] d[n]).1) is None by {
                assert(d[n] == p[n]);
            }
            assert(pattern_problem(p[p.len() - 1].1) is None);
        }
    }
}

proof fn no_failures(issues: Seq<CalibrationIssue>, rs: Seq<Rule>, todo: Seq<Uncalibrated>, high: bool)
    ensures
        failures_of(issues, rs, todo, high).len() == 0 <==> forall|j: int|
            0 <= j < todo.len() && (#[trigger] todo[j]).high() == high ==> todo[j].reason(issues, rs)
                is None,
    decreases todo.len(),
{
    if todo.len() > 0 {
        let d = todo.drop_last();
        let u = todo.last();
        let before = failures_of(issues, rs, d, high);
        no_failures(issues, rs, d, high);
        if let Some(reason) = u.reason(issues, rs) {
            crate::gate::slot_in_range(before, u.failure(reason));
        }
        if failures_of(issues, rs, todo, high).len() == 0 {
            assert forall|j: int| 0 <= j < todo.len() && (#[trigger] todo[j]).high() == high implies todo[j].reason(
                issues,
                rs,
            ) is None by {
                if j < todo.len() - 1 {
                    assert(d[j] == todo[j]);
                }
            }
        }
        if forall|j: int|
            0 <= j < todo.len() && (#[trigger] todo[j]).high() == high ==> todo[j].reason(issues, rs)
                is None {
            assert forall|j: int| 0 <= j < d.len() && (#[trigger] d[j]).high() == high implies d[j].reason(
                issues,
                rs,
            ) is None by {
                assert(d[j] == todo[j]);
            }
            assert(todo[todo.len() - 1] == u);
        }
    }
}

/// The rule passes exactly where every pattern of the register is well-formed, and every
/// default that is still to be calibrated, on a card that declares the high tier, has a plan
/// and is named by an issue that is not closed.
pub proof fn the_rule_passes_where_everything_is_covered(
    cards: Seq<CardView>,
    schema: Seq<char>,
    issues: Seq<CalibrationIssue>,
)
    ensures
        verdict(cards, schema, issues).passes() <==> {
            &&& forall|i: int, k: int|
                0 <= i < issues.len() && 0 <= k < issues[i].covers@.len() ==> pattern_problem(
                    (#[trigger] issues[i].covers@[k])@,
                ) is None
            &&& forall|c: int, p: int| #[trigger]
                at_stake(cards, c, p) ==> planned(cards[c].parameters[p]) && exists|i: int, k: int|
                    #[trigger]
                    names(issues, i, k, cards[c].id, cards[c].parameters[p].name)
                        && issues[i].state != IssueState::Closed
        },
{
    let v = verdict(cards, schema, issues);
    let ps = all_patterns(issues);
    let rs = rules(ps);
    let todo = uncalibrated(cards);
    nothing_malformed(issues, ps);
    no_failures(issues, rs, todo, true);
    nothing_is_blank();
    if v.passes() {
        assert forall|i: int, k: int|
            0 <= i < issues.len() && 0 <= k < issues[i].covers@.len() implies pattern_problem(
            (#[trigger] issues[i].covers@[k])@,
        ) is None by {
            let n = pattern_is_listed(issues, i, k);
            assert(pattern_problem(ps[n].1) is None);
        }
        assert forall|c: int, p: int| #[trigger] at_stake(cards, c, p) implies planned(
            cards[c].parameters[p],
        ) && exists|i: int, k: int| #[trigger]
            names(issues, i, k, cards[c].id, cards[c].parameters[p].name) && issues[i].state
                != IssueState::Closed by {
            let j = every_marked_default_is_uncalibrated(cards, c, p);
            assert(todo[j].high());
            assert(todo[j].reason(issues, rs) is None);
            a_default_is_covered_by_a_live_issue(issues, cards[c].id, cards[c].parameters[p].name);
        }
    }
    if (forall|i: int, k: int|
        0 <= i < issues.len() && 0 <= k < issues[i].covers@.len() ==> pattern_problem(
            (#[trigger] issues[i].covers@[k])@,
        ) is None) && (forall|c: int, p: int| #[trigger]
        at_stake(cards, c, p) ==> planned(cards[c].parameters[p]) && exists|i: int, k: int|
            #[trigger]
            names(issues, i, k, cards[c].id, cards[c].parameters[p].name) && issues[i].state
                != IssueState::Closed) {
        assert forall|n: int| 0 <= n < ps.len() implies pattern_problem((#[trigger] ps[n]).1) is None by {
            let ik = pattern_at(issues, n);
            assert(pattern_problem(issues[ik.0].covers@[ik.1]@) is None);
        }
        assert forall|j: int| 0 <= j < todo.len() && (#[trigger] todo[j]).high() implies todo[j].reason(
            issues,
            rs,
        ) is None by {
            let cp = what_is_uncalibrated_is_on_a_card(cards, j);
            let t = choose|t: int| 0 <= t < cards[cp.0].tier.len() && cards[cp.0].tier[t] == Tier::High;
            assert(cards[cp.0].tier[t] == Tier::High);
            assert(at_stake(cards, cp.0, cp.1));
            a_default_is_covered_by_a_live_issue(
                issues,
                cards[cp.0].id,
                cards[cp.0].parameters[cp.1].name,
            );
        }
    }
}

/// A default fails for want of a plan where it has none; else because its issues are closed,
/// which are then listed, where closed issues name it and no live one does; else because no
/// issue names it.
pub proof fn a_failure_has_its_reason(u: Uncalibrated, issues: Seq<CalibrationIssue>, rs: Seq<Rule>)
    ensures
        ({
            let covered = exists|j: int|
                0 <= j < rs.len() && reaches(#[trigger] rs[j], u.card.id, u.parameter.name)
                    && issues[rs[j].issue].state != IssueState::Closed;
            let closed = closed_by(issues, rs, u.card.id, u.parameter.name);
            match u.reason(issues, rs) {
                Some(ReasonView::NoPlan) => !planned(u.parameter),
                Some(ReasonView::IssueClosed(ids)) => planned(u.parameter) && !covered && ids.len() > 0
                    && ids == closed,
                Some(ReasonView::NoIssue) => planned(u.parameter) && !covered && closed.len() == 0,
                None => planned(u.parameter) && covered,
            }
        }),
{
    nothing_is_blank();
    tracked_at(issues, rs, u.card.id, u.parameter.name);
}

/// One more rule lists its issue as closed exactly where it names the default and the issue
/// is closed.
pub proof fn a_closed_issue_is_listed(
    issues: Seq<CalibrationIssue>,
    rs: Seq<Rule>,
    r: Rule,
    model: Seq<char>,
    parameter: Seq<char>,
)
    ensures
        ({
            let before = closed_by(issues, rs, model, parameter);
            let after = closed_by(issues, rs.push(r), model, parameter);
            let lists = r.model == model && names_parameter(r.parameter, parameter)
                && issues[r.issue].state == IssueState::Closed;
            &&& lists ==> after.len() == before.len() + 1 && after.last() == issues[r.issue].id@
                && after.drop_last() =~= before
            &&& !lists ==> after == before
        }),
{
    assert(rs.push(r).drop_last() =~= rs);
}

/// A failure says which parameter of which card it is, what its default stands for, how it is
/// to be calibrated, and why it fails.
pub proof fn a_failure_says_what_it_is_of(u: Uncalibrated, reason: ReasonView)
    ensures
        ({
            let f = u.failure(reason);
            &&& f.model == u.card.id && f.version == u.card.version
            &&& f.parameter == u.parameter.name && f.unit == u.parameter.unit
            &&& f.default == u.parameter.default && f.stands_for == u.parameter.source.reference
            &&& u.parameter.calibration is Some ==> f.plan == u.parameter.calibration->0
            &&& u.parameter.calibration is None ==> f.plan.len() == 0
            &&& f.tiers.len() == u.card.tier.len()
            &&& forall|i: int| 0 <= i < f.tiers.len() ==> #[trigger] f.tiers[i] == u.card.tier[i].text()
            &&& f.reason == reason
        }),
{
}

/// One more card is one more model, and one more of the high tier where it declares that; its
/// parameters are counted, and those still to be calibrated are.
pub proof fn a_card_is_counted_once(
    cards: Seq<CardView>,
    c: CardView,
    schema: Seq<char>,
    issues: Seq<CalibrationIssue>,
)
    ensures
        ({
            let a = verdict(cards, schema, issues);
            let b = verdict(cards.push(c), schema, issues);
            let high = exists|t: int| 0 <= t < c.tier.len() && #[trigger] c.tier[t] == Tier::High;
            let marked = c.parameters.filter(
                |p: ParameterView| p.source.kind == SourceKind::TodoCalibrate,
            ).len();
            &&& b.models == a.models + 1
            &&& high ==> b.high_tier_models == a.high_tier_models + 1
            &&& !high ==> b.high_tier_models == a.high_tier_models
            &&& b.parameters == a.parameters + c.parameters.len()
            &&& b.todo_parameters == a.todo_parameters + marked
            &&& high ==> b.high_tier_todo_parameters == a.high_tier_todo_parameters + marked
            &&& !high ==> b.high_tier_todo_parameters == a.high_tier_todo_parameters
            &&& b.register_issues == issues.len() && b.register_schema == schema
            &&& b.malformed_patterns == a.malformed_patterns
        }),
{
    assert(cards.push(c).drop_last() =~= cards);
    marked_are_uncalibrated(c, c.parameters);
    let more = uncalibrated_of(c, c.parameters);
    assert(uncalibrated(cards.push(c)) == uncalibrated(cards) + more);
    assert forall|j: int| 0 <= j < more.len() implies (#[trigger] more[j]).card == c by {
        let p = todo_at(c, c.parameters, j);
    }
    high_todo_grows(uncalibrated(cards), more, c);
    if exists|t: int| 0 <= t < c.tier.len() && #[trigger] c.tier[t] == Tier::High {
        let t = choose|t: int| 0 <= t < c.tier.len() && #[trigger] c.tier[t] == Tier::High;
        assert(c.tier.contains(Tier::High));
    }
}

proof fn marked_are_uncalibrated(c: CardView, s: Seq<ParameterView>)
    ensures
        uncalibrated_of(c, s).len() == s.filter(
            |p: ParameterView| p.source.kind == SourceKind::TodoCalibrate,
        ).len(),
    decreases s.len(),
{
    reveal(Seq::filter);
    if s.len() > 0 {
        marked_are_uncalibrated(c, s.drop_last());
    }
}

proof fn high_todo_grows(s: Seq<Uncalibrated>, more: Seq<Uncalibrated>, c: CardView)
    requires
        forall|j: int| 0 <= j < more.len() ==> (#[trigger] more[j]).card == c,
    ensures
        crate::gate::high_todo(s + more) == crate::gate::high_todo(s) + if c.tier.contains(Tier::High) {
            more.len() as int
        } else {
            0
        },
    decreases more.len(),
{
    if more.len() == 0 {
        assert(s + more =~= s);
    } else {
        let d = more.drop_last();
        assert((s + more).drop_last() =~= s + d);
        assert forall|j: int| 0 <= j < d.len() implies (#[trigger] d[j]).card == c by {
            assert(d[j] == more[j]);
        }
        high_todo_grows(s, d, c);
        assert(more[more.len() - 1].card == c);
    }
}

proof fn touches_at(rs: Seq<Rule>, model: Seq<char>, parameter: Seq<char>, k: int)
    ensures
        touches(rs, model, parameter, k) <==> exists|j: int|
            0 <= j < rs.len() && reaches(#[trigger] rs[j], model, parameter) && rs[j].issue == k,
    decreases rs.len(),
{
    if rs.len() > 0 {
        let d = rs.drop_last();
        touches_at(d, model, parameter, k);
        if touches(d, model, parameter, k) {
            let j = choose|j: int|
                0 <= j < d.len() && reaches(#[trigger] d[j], model, parameter) && d[j].issue == k;
            assert(rs[j] == d[j]);
        } else if touches(rs, model, parameter, k) {
            assert(rs[rs.len() - 1] == rs.last());
        }
        if exists|j: int|
            0 <= j < rs.len() && reaches(#[trigger] rs[j], model, parameter) && rs[j].issue == k {
            let j = choose|j: int|
                0 <= j < rs.len() && reaches(#[trigger] rs[j], model, parameter) && rs[j].issue == k;
            if j < rs.len() - 1 {
                assert(d[j] == rs[j]);
            }
        }
    }
}

/// An issue is unused exactly where no rule of it names anything that is still to be
/// calibrated, whether the issue is closed or not.
pub proof fn an_unused_issue_names_nothing(
    issues: Seq<CalibrationIssue>,
    rs: Seq<Rule>,
    todo: Seq<Uncalibrated>,
    k: int,
)
    requires
        0 <= k,
    ensures
        ({
            let uses = exists|j: int, u: int|
                0 <= j < rs.len() && 0 <= u < todo.len() && rs[j].issue == k && reaches(
                    #[trigger] rs[j],
                    (#[trigger] todo[u]).card.id,
                    todo[u].parameter.name,
                );
            let before = unused(issues, rs, todo, k);
            let after = unused(issues, rs, todo, k + 1);
            &&& uses ==> after == before
            &&& !uses ==> after == before.push(issues[k].id@)
        }),
{
    used_at(rs, todo, k);
}

proof fn used_at(rs: Seq<Rule>, todo: Seq<Uncalibrated>, k: int)
    ensures
        used(rs, todo, k) <==> exists|j: int, u: int|
            0 <= j < rs.len() && 0 <= u < todo.len() && rs[j].issue == k && reaches(
                #[trigger] rs[j],
                (#[trigger] todo[u]).card.id,
                todo[u].parameter.name,
            ),
    decreases todo.len(),
{
    if todo.len() > 0 {
        let d = todo.drop_last();
        let l = todo.last();
        used_at(rs, d, k);
        touches_at(rs, l.card.id, l.parameter.name, k);
        if used(rs, d, k) {
            let (j, u) = choose|j: int, u: int|
                0 <= j < rs.len() && 0 <= u < d.len() && rs[j].issue == k && reaches(
                    #[trigger] rs[j],
                    (#[trigger] d[u]).card.id,
                    d[u].parameter.name,
                );
            assert(todo[u] == d[u]);
            assert(reaches(rs[j], todo[u].card.id, todo[u].parameter.name));
        } else if used(rs, todo, k) {
            let j = choose|j: int|
                0 <= j < rs.len() && reaches(#[trigger] rs[j], l.card.id, l.parameter.name)
                    && rs[j].issue == k;
            let u = todo.len() - 1;
            assert(reaches(rs[j], todo[u].card.id, todo[u].parameter.name));
        }
        if exists|j: int, u: int|
            0 <= j < rs.len() && 0 <= u < todo.len() && rs[j].issue == k && reaches(
                #[trigger] rs[j],
                (#[trigger] todo[u]).card.id,
                todo[u].parameter.name,
            ) {
            let (j, u) = choose|j: int, u: int|
                0 <= j < rs.len() && 0 <= u < todo.len() && rs[j].issue == k && reaches(
                    #[trigger] rs[j],
                    (#[trigger] todo[u]).card.id,
                    todo[u].parameter.name,
                );
            if u < todo.len() - 1 {
                assert(d[u] == todo[u]);
                assert(reaches(rs[j], d[u].card.id, d[u].parameter.name));
            } else {
                assert(reaches(rs[j], l.card.id, l.parameter.name));
            }
        }
    }
}

/// The failures of a model are those of all that are of it, in their order.
pub proof fn a_group_is_the_failures_of_its_model(s: Seq<&GateFailure>, model: Seq<char>)
    ensures
        group(grouped(s), model) == s.filter(|f: &GateFailure| f.model@ == model),
        grouped(s).contains_key(model) <==> exists|i: int|
            0 <= i < s.len() && (#[trigger] s[i]).model@ == model,
    decreases s.len(),
{
    reveal(Seq::filter);
    if s.len() > 0 {
        let d = s.drop_last();
        a_group_is_the_failures_of_its_model(d, model);
        if grouped(d).contains_key(model) {
            let i = choose|i: int| 0 <= i < d.len() && (#[trigger] d[i]).model@ == model;
            assert(s[i] == d[i]);
        }
        if s.last().model@ == model {
            assert(s[s.len() - 1].model@ == model);
        }
        if exists|i: int| 0 <= i < s.len() && (#[trigger] s[i]).model@ == model {
            let i = choose|i: int| 0 <= i < s.len() && (#[trigger] s[i]).model@ == model;
            if i < s.len() - 1 {
                assert(d[i] == s[i]);
            }
        }
    }
}

} // verus!
