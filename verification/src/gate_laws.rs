//! What the calibration rule does not depend on.
//!
//! A verdict is the same in whatever order the cards come, and a coverage pattern that is put
//! together again from its two halves is the same pattern.

use vstd::prelude::*;
use vstd::string::*;
use crate::card::{CardView, Tier};
use crate::gate::{before_and_not_after, covered_count, failure_asymmetric, failure_before, failure_slot, failures_are_in_order, failures_of, filed, first_separator, high_count, high_todo, in_failure_order, model_half, parameter_count, parameter_half, pattern_problem, separator_at, separators, skip_spaces, drop_spaces, slot_in_range, slot_splits, touches, trimmed, uncalibrated, uncalibrated_of, unused, used, verdict, CalibrationIssue, FailureView, Rule, Uncalibrated};
use crate::text::{is_space, text_before_total};

verus! {

proof fn failure_transitive(a: FailureView, b: FailureView, c: FailureView)
    requires
        failure_before(a, b),
        failure_before(b, c),
    ensures
        failure_before(a, c),
{
    failure_asymmetric(b, c);
    before_and_not_after(a, b, c);
}

/// Where a failure goes in an ordered list.
proof fn slot_is(s: Seq<FailureView>, f: FailureView, p: int)
    requires
        in_failure_order(s),
        0 <= p <= s.len(),
        p > 0 ==> !failure_before(f, s[p - 1]),
        forall|i: int| p <= i < s.len() ==> failure_before(f, #[trigger] s[i]),
    ensures
        failure_slot(s, f) == p,
{
    slot_in_range(s, f);
    slot_splits(s, f);
    let q = failure_slot(s, f);
    if p < q {
        assert(failure_before(f, s[p]));
        if p < q - 1 {
            assert(!failure_before(s[q - 1], s[p]));
            before_and_not_after(f, s[p], s[q - 1]);
        }
    } else if q < p {
        assert(failure_before(f, s[q]));
        if q < p - 1 {
            assert(!failure_before(s[p - 1], s[q]));
            before_and_not_after(f, s[q], s[p - 1]);
        }
    }
}

/// Two failures of which one comes before the other may be filed in either order.
proof fn filing_commutes(s: Seq<FailureView>, f: FailureView, g: FailureView)
    requires
        in_failure_order(s),
        in_failure_order(filed(s, f)),
        in_failure_order(filed(s, g)),
        failure_before(f, g),
    ensures
        filed(filed(s, f), g) == filed(filed(s, g), f),
{
    slot_in_range(s, f);
    slot_in_range(s, g);
    slot_splits(s, f);
    slot_splits(s, g);
    failure_asymmetric(f, g);
    let p = failure_slot(s, f);
    let q = failure_slot(s, g);
    assert(p <= q) by {
        if q < p {
            assert(failure_before(g, s[p - 1]));
            failure_transitive(f, g, s[p - 1]);
        }
    }
    let with_f = filed(s, f);
    let with_g = filed(s, g);
    assert forall|i: int| q + 1 <= i < with_f.len() implies failure_before(g, #[trigger] with_f[i]) by {
        assert(with_f[i] == s[i - 1]);
    }
    assert(!failure_before(g, with_f[q])) by {
        if q > p {
            assert(with_f[q] == s[q - 1]);
        }
    }
    slot_is(with_f, g, q + 1);
    assert forall|i: int| p <= i < with_g.len() implies failure_before(f, #[trigger] with_g[i]) by {
        if i < q {
            assert(with_g[i] == s[i]);
        } else if i > q {
            assert(with_g[i] == s[i - 1]);
        }
    }
    slot_is(with_g, f, p);
    assert(filed(with_f, g) =~= filed(with_g, f));
}

/// True if no two of some uncalibrated parameters have the same model and name.
pub open spec fn told_apart(todo: Seq<Uncalibrated>) -> bool {
    forall|i: int, j: int|
        0 <= i < j < todo.len() ==> (#[trigger] todo[i]).card.id != (#[trigger] todo[j]).card.id
            || todo[i].parameter.name != todo[j].parameter.name
}

proof fn told_apart_without(todo: Seq<Uncalibrated>, j: int)
    requires
        told_apart(todo),
        0 <= j < todo.len(),
    ensures
        told_apart(todo.remove(j)),
{
    let rest = todo.remove(j);
    assert forall|a: int, b: int| 0 <= a < b < rest.len() implies (#[trigger] rest[a]).card.id != (
    #[trigger] rest[b]).card.id || rest[a].parameter.name != rest[b].parameter.name by {
        let x = if a < j {
            a
        } else {
            a + 1
        };
        let y = if b < j {
            b
        } else {
            b + 1
        };
        assert(rest[a] == todo[x] && rest[b] == todo[y]);
    }
}

/// What one more uncalibrated parameter does to the failures.
spec fn failed(
    before: Seq<FailureView>,
    u: Uncalibrated,
    issues: Seq<CalibrationIssue>,
    rs: Seq<Rule>,
    high: bool,
) -> Seq<FailureView> {
    match u.reason(issues, rs) {
        Some(reason) => if u.high() == high {
            filed(before, u.failure(reason))
        } else {
            before
        },
        None => before,
    }
}

/// Two uncalibrated parameters may come in either order.
proof fn failures_commute(
    s: Seq<FailureView>,
    u: Uncalibrated,
    w: Uncalibrated,
    issues: Seq<CalibrationIssue>,
    rs: Seq<Rule>,
    high: bool,
)
    requires
        in_failure_order(s),
        in_failure_order(failed(s, u, issues, rs, high)),
        in_failure_order(failed(s, w, issues, rs, high)),
        u.card.id != w.card.id || u.parameter.name != w.parameter.name,
    ensures
        failed(failed(s, u, issues, rs, high), w, issues, rs, high) == failed(
            failed(s, w, issues, rs, high),
            u,
            issues,
            rs,
            high,
        ),
{
    if let (Some(a), Some(b)) = (u.reason(issues, rs), w.reason(issues, rs)) {
        if u.high() == high && w.high() == high {
            let f = u.failure(a);
            let g = w.failure(b);
            text_before_total(f.model, g.model);
            text_before_total(f.parameter, g.parameter);
            if failure_before(f, g) {
                filing_commutes(s, f, g);
            } else {
                filing_commutes(s, g, f);
            }
        }
    }
}

/// What the verdict says of some uncalibrated parameters.
spec fn said(
    issues: Seq<CalibrationIssue>,
    rs: Seq<Rule>,
    todo: Seq<Uncalibrated>,
) -> (int, int, Seq<FailureView>, Seq<FailureView>) {
    (
        high_todo(todo),
        covered_count(issues, rs, todo),
        failures_of(issues, rs, todo, true),
        failures_of(issues, rs, todo, false),
    )
}

/// What the last of some uncalibrated parameters does to the failures.
proof fn one_more_failure(issues: Seq<CalibrationIssue>, rs: Seq<Rule>, todo: Seq<Uncalibrated>)
    requires
        todo.len() > 0,
    ensures
        forall|high: bool| #[trigger]
            failures_of(issues, rs, todo, high) == failed(
                failures_of(issues, rs, todo.drop_last(), high),
                todo.last(),
                issues,
                rs,
                high,
            ),
{
}

/// A parameter may be moved to the end.
proof fn moved_to_the_end(
    issues: Seq<CalibrationIssue>,
    rs: Seq<Rule>,
    todo: Seq<Uncalibrated>,
    j: int,
)
    requires
        told_apart(todo),
        0 <= j < todo.len(),
    ensures
        said(issues, rs, todo) == said(issues, rs, todo.remove(j).push(todo[j])),
        forall|k: int| #[trigger] used(rs, todo, k) == used(rs, todo.remove(j).push(todo[j]), k),
    decreases todo.len(),
{
    let x = todo[j];
    let rest = todo.remove(j);
    let moved = rest.push(x);
    let n = todo.len() - 1;
    if j == n {
        assert(moved =~= todo);
    } else {
        let init = todo.drop_last();
        let y = todo.last();
        assert(init =~= todo.remove(n));
        told_apart_without(todo, n);
        moved_to_the_end(issues, rs, init, j);
        let r = init.remove(j);
        assert(init[j] == x);
        assert(rest =~= r.push(y));
        assert(moved.drop_last() =~= rest);
        assert(rest.drop_last() =~= r);
        assert(r.push(x).drop_last() =~= r);
        assert(r.push(x).last() == x);
        assert(rest.last() == y);
        assert(moved.last() == x);
        assert(x.card.id != y.card.id || x.parameter.name != y.parameter.name) by {
            assert(todo[j] == x && todo[n] == y);
        }
        failures_are_in_order(issues, rs, r, true);
        failures_are_in_order(issues, rs, r, false);
        failures_are_in_order(issues, rs, r.push(x), true);
        failures_are_in_order(issues, rs, r.push(x), false);
        failures_are_in_order(issues, rs, rest, true);
        failures_are_in_order(issues, rs, rest, false);
        failures_commute(failures_of(issues, rs, r, true), x, y, issues, rs, true);
        failures_commute(failures_of(issues, rs, r, false), x, y, issues, rs, false);
        assert(said(issues, rs, init) == said(issues, rs, r.push(x)));
        one_more_failure(issues, rs, todo);
        one_more_failure(issues, rs, r.push(x));
        one_more_failure(issues, rs, rest);
        one_more_failure(issues, rs, moved);
        assert(covered_count(issues, rs, r.push(x)) - covered_count(issues, rs, r) == covered_count(
            issues,
            rs,
            moved,
        ) - covered_count(issues, rs, rest));
        assert(covered_count(issues, rs, todo) - covered_count(issues, rs, init) == covered_count(
            issues,
            rs,
            rest,
        ) - covered_count(issues, rs, r));
        assert(covered_count(issues, rs, todo) == covered_count(issues, rs, moved));
        assert(high_todo(r.push(x)) - high_todo(r) == high_todo(moved) - high_todo(rest));
        assert(high_todo(todo) - high_todo(init) == high_todo(rest) - high_todo(r));
        assert(failures_of(issues, rs, todo, true) == failures_of(issues, rs, moved, true));
        assert(failures_of(issues, rs, todo, false) == failures_of(issues, rs, moved, false));
        assert forall|k: int| #[trigger] used(rs, todo, k) == used(rs, moved, k) by {
            assert(used(rs, init, k) == used(rs, r.push(x), k));
            assert(used(rs, r.push(x), k) == (used(rs, r, k) || touches(
                rs,
                x.card.id,
                x.parameter.name,
                k,
            )));
            assert(used(rs, rest, k) == (used(rs, r, k) || touches(
                rs,
                y.card.id,
                y.parameter.name,
                k,
            )));
        }
    }
}

/// The verdict on some uncalibrated parameters does not depend on their order.
proof fn said_in_any_order(
    issues: Seq<CalibrationIssue>,
    rs: Seq<Rule>,
    a: Seq<Uncalibrated>,
    b: Seq<Uncalibrated>,
)
    requires
        a.to_multiset() == b.to_multiset(),
        told_apart(a),
        told_apart(b),
    ensures
        said(issues, rs, a) == said(issues, rs, b),
        forall|k: int| #[trigger] used(rs, a, k) == used(rs, b, k),
        a.len() == b.len(),
    decreases a.len(),
{
    broadcast use vstd::seq_lib::group_to_multiset_ensures;

    assert(a.len() == a.to_multiset().len());
    assert(b.len() == b.to_multiset().len());
    if a.len() == 0 {
        assert(b =~= a);
    } else {
        let x = a.last();
        assert(a.to_multiset().count(x) > 0);
        assert(b.contains(x));
        let j = choose|j: int| 0 <= j < b.len() && b[j] == x;
        let rest = a.drop_last();
        let other = b.remove(j);
        assert(a =~= rest.push(x));
        assert(rest =~= a.remove(a.len() - 1));
        assert(rest.to_multiset() =~= other.to_multiset()) by {
            assert(a.to_multiset() =~= rest.to_multiset().insert(x));
            assert(other.to_multiset() =~= b.to_multiset().remove(x));
        }
        told_apart_without(a, a.len() - 1);
        told_apart_without(b, j);
        said_in_any_order(issues, rs, rest, other);
        moved_to_the_end(issues, rs, b, j);
        assert(other.push(x).drop_last() =~= other);
        assert(other.push(x).last() == x);
        assert forall|k: int| #[trigger] used(rs, a, k) == used(rs, b, k) by {
            assert(used(rs, rest, k) == used(rs, other, k));
            assert(used(rs, b, k) == used(rs, other.push(x), k));
        }
    }
}

/// A card may be taken out from among the others.
proof fn without_a_card(cards: Seq<CardView>, j: int)
    requires
        0 <= j < cards.len(),
    ensures
        uncalibrated(cards).to_multiset() == uncalibrated(cards.remove(j)).to_multiset().add(
            uncalibrated_of(cards[j], cards[j].parameters).to_multiset(),
        ),
        parameter_count(cards) == parameter_count(cards.remove(j)) + cards[j].parameters.len(),
        high_count(cards) == high_count(cards.remove(j)) + if cards[j].tier.contains(Tier::High) {
            1int
        } else {
            0int
        },
    decreases cards.len(),
{
    broadcast use vstd::seq_lib::group_to_multiset_ensures;

    let own = uncalibrated_of(cards.last(), cards.last().parameters);
    let init = cards.drop_last();
    let rest = cards.remove(j);
    if j == cards.len() - 1 {
        assert(rest =~= init);
        vstd::seq_lib::lemma_multiset_commutative(uncalibrated(init), own);
    } else {
        assert(rest.drop_last() =~= init.remove(j));
        assert(rest.last() == cards.last());
        without_a_card(init, j);
        vstd::seq_lib::lemma_multiset_commutative(uncalibrated(init), own);
        vstd::seq_lib::lemma_multiset_commutative(uncalibrated(rest.drop_last()), own);
        assert(uncalibrated(cards).to_multiset() =~= uncalibrated(rest).to_multiset().add(
            uncalibrated_of(cards[j], cards[j].parameters).to_multiset(),
        ));
    }
}

/// The cards as a whole do not depend on their order.
proof fn cards_in_any_order(a: Seq<CardView>, b: Seq<CardView>)
    requires
        a.to_multiset() == b.to_multiset(),
    ensures
        uncalibrated(a).to_multiset() == uncalibrated(b).to_multiset(),
        parameter_count(a) == parameter_count(b),
        high_count(a) == high_count(b),
        a.len() == b.len(),
    decreases a.len(),
{
    broadcast use vstd::seq_lib::group_to_multiset_ensures;

    assert(a.len() == a.to_multiset().len());
    assert(b.len() == b.to_multiset().len());
    if a.len() == 0 {
        assert(b =~= a);
    } else {
        let x = a.last();
        assert(a.to_multiset().count(x) > 0);
        assert(b.contains(x));
        let j = choose|j: int| 0 <= j < b.len() && b[j] == x;
        let rest = a.drop_last();
        assert(a =~= rest.push(x));
        assert(rest =~= a.remove(a.len() - 1));
        assert(rest.to_multiset() =~= b.remove(j).to_multiset()) by {
            assert(a.to_multiset() =~= rest.to_multiset().insert(x));
            assert(b.remove(j).to_multiset() =~= b.to_multiset().remove(x));
        }
        cards_in_any_order(rest, b.remove(j));
        without_a_card(a, a.len() - 1);
        without_a_card(b, j);
    }
}

/// True if no two cards have the same id, and no card has two parameters of the same name.
pub open spec fn well_named(cards: Seq<CardView>) -> bool {
    &&& forall|i: int, j: int|
        0 <= i < j < cards.len() ==> (#[trigger] cards[i]).id != (#[trigger] cards[j]).id
    &&& forall|i: int| 0 <= i < cards.len() ==> names_differ(#[trigger] cards[i])
}

/// True if no two parameters of a card have the same name.
pub open spec fn names_differ(card: CardView) -> bool {
    forall|i: int, j: int|
        0 <= i < j < card.parameters.len() ==> (#[trigger] card.parameters[i]).name != (
        #[trigger] card.parameters[j]).name
}

/// Where the uncalibrated parameters of a card come from.
proof fn parameters_are_told_apart(card: CardView, n: int)
    requires
        names_differ(card),
        0 <= n <= card.parameters.len(),
    ensures
        ({
            let todo = uncalibrated_of(card, card.parameters.subrange(0, n));
            &&& told_apart(todo)
            &&& forall|i: int|
                0 <= i < todo.len() ==> (#[trigger] todo[i]).card == card && exists|k: int|
                    0 <= k < n && todo[i].parameter == #[trigger] card.parameters[k]
        }),
    decreases n,
{
    let s = card.parameters.subrange(0, n);
    if n > 0 {
        parameters_are_told_apart(card, n - 1);
        assert(s.drop_last() =~= card.parameters.subrange(0, n - 1));
        assert(s.last() == card.parameters[n - 1]);
        let before = uncalibrated_of(card, card.parameters.subrange(0, n - 1));
        let todo = uncalibrated_of(card, s);
        assert forall|i: int| 0 <= i < todo.len() implies (#[trigger] todo[i]).card == card
            && exists|k: int| 0 <= k < n && todo[i].parameter == #[trigger] card.parameters[k] by {
            if i < before.len() {
                assert(todo[i] == before[i]);
                let k = choose|k: int|
                    0 <= k < n - 1 && before[i].parameter == #[trigger] card.parameters[k];
                assert(todo[i].parameter == card.parameters[k]);
            } else {
                assert(todo[i].parameter == card.parameters[n - 1]);
            }
        }
        assert forall|i: int, j: int| 0 <= i < j < todo.len() implies (#[trigger] todo[i]).card.id
            != (#[trigger] todo[j]).card.id || todo[i].parameter.name != todo[j].parameter.name by {
            assert(todo[i] == before[i]);
            if j < before.len() {
                assert(todo[j] == before[j]);
            } else {
                let k = choose|k: int|
                    0 <= k < n - 1 && before[i].parameter == #[trigger] card.parameters[k];
                assert(card.parameters[k].name != card.parameters[n - 1].name);
            }
        }
    }
}

/// The uncalibrated parameters of cards that are well named are told apart.
proof fn cards_are_told_apart(cards: Seq<CardView>)
    requires
        well_named(cards),
    ensures
        told_apart(uncalibrated(cards)),
        forall|i: int|
            0 <= i < uncalibrated(cards).len() ==> exists|k: int|
                0 <= k < cards.len() && (#[trigger] uncalibrated(cards)[i]).card == #[trigger] cards[k],
    decreases cards.len(),
{
    if cards.len() > 0 {
        let init = cards.drop_last();
        let last = cards.last();
        let n = cards.len() - 1;
        assert(well_named(init)) by {
            assert forall|i: int, j: int| 0 <= i < j < init.len() implies (#[trigger] init[i]).id != (
            #[trigger] init[j]).id by {
                assert(init[i] == cards[i] && init[j] == cards[j]);
            }
            assert forall|i: int| 0 <= i < init.len() implies names_differ(#[trigger] init[i]) by {
                assert(init[i] == cards[i]);
            }
        }
        cards_are_told_apart(init);
        assert(names_differ(cards[n]));
        parameters_are_told_apart(last, last.parameters.len() as int);
        assert(last.parameters.subrange(0, last.parameters.len() as int) =~= last.parameters);
        let before = uncalibrated(init);
        let own = uncalibrated_of(last, last.parameters);
        let todo = uncalibrated(cards);
        assert forall|i: int| 0 <= i < todo.len() implies exists|k: int|
            0 <= k < cards.len() && (#[trigger] todo[i]).card == #[trigger] cards[k] by {
            if i < before.len() {
                assert(todo[i] == before[i]);
                let k = choose|k: int| 0 <= k < init.len() && before[i].card == #[trigger] init[k];
                assert(cards[k] == init[k]);
            } else {
                assert(todo[i] == own[i - before.len()]);
                assert(todo[i].card == cards[n]);
            }
        }
        assert forall|i: int, j: int| 0 <= i < j < todo.len() implies (#[trigger] todo[i]).card.id
            != (#[trigger] todo[j]).card.id || todo[i].parameter.name != todo[j].parameter.name by {
            if j < before.len() {
                assert(todo[i] == before[i] && todo[j] == before[j]);
            } else {
                assert(todo[j] == own[j - before.len()]);
                if i >= before.len() {
                    assert(todo[i] == own[i - before.len()]);
                } else {
                    assert(todo[i] == before[i]);
                    let k = choose|k: int|
                        0 <= k < init.len() && before[i].card == #[trigger] init[k];
                    assert(cards[k] == init[k]);
                    assert(cards[k].id != cards[n].id);
                }
            }
        }
    }
}

/// Cards that are well named are so in any order.
proof fn well_named_in_any_order(a: Seq<CardView>, b: Seq<CardView>)
    requires
        a.to_multiset() == b.to_multiset(),
        well_named(a),
    ensures
        well_named(b),
{
    broadcast use vstd::seq_lib::group_to_multiset_ensures;

    assert forall|i: int| 0 <= i < b.len() implies a.contains(#[trigger] b[i]) by {
        assert(b.contains(b[i]));
        assert(b.to_multiset().count(b[i]) > 0);
    }
    assert forall|i: int| 0 <= i < b.len() implies names_differ(#[trigger] b[i]) by {
        assert(a.contains(b[i]));
        let k = choose|k: int| 0 <= k < a.len() && a[k] == b[i];
        assert(names_differ(a[k]));
    }
    assert forall|i: int, j: int| 0 <= i < j < b.len() implies (#[trigger] b[i]).id != (
    #[trigger] b[j]).id by {
        if b[i].id == b[j].id {
            assert(a.contains(b[i]) && a.contains(b[j]));
            let x = choose|k: int| 0 <= k < a.len() && a[k] == b[i];
            let rest_a = a.remove(x);
            let rest_b = b.remove(i);
            assert(rest_a.to_multiset() =~= a.to_multiset().remove(b[i]));
            assert(rest_b.to_multiset() =~= b.to_multiset().remove(b[i]));
            assert(rest_b[j - 1] == b[j]);
            assert(rest_b.contains(b[j]));
            assert(rest_b.to_multiset().count(b[j]) > 0);
            assert(rest_a.contains(b[j]));
            let y = choose|k: int| 0 <= k < rest_a.len() && rest_a[k] == b[j];
            let z = if y < x {
                y
            } else {
                y + 1
            };
            assert(a[z] == b[j]);
            if z < x {
                assert(a[z].id != a[x].id);
            } else {
                assert(a[x].id != a[z].id);
            }
        }
    }
}

proof fn unused_agree(
    issues: Seq<CalibrationIssue>,
    rs: Seq<Rule>,
    a: Seq<Uncalibrated>,
    b: Seq<Uncalibrated>,
    n: int,
)
    requires
        forall|k: int| #[trigger] used(rs, a, k) == used(rs, b, k),
    ensures
        unused(issues, rs, a, n) == unused(issues, rs, b, n),
    decreases n,
{
    if n > 0 {
        unused_agree(issues, rs, a, b, n - 1);
        assert(used(rs, a, n - 1) == used(rs, b, n - 1));
    }
}

/// The verdict does not depend on the order of the cards: they have distinct ids, and the
/// parameters of each have distinct names.
pub proof fn the_order_of_the_cards_does_not_matter(
    a: Seq<CardView>,
    b: Seq<CardView>,
    schema: Seq<char>,
    issues: Seq<CalibrationIssue>,
)
    requires
        a.to_multiset() == b.to_multiset(),
        well_named(a),
    ensures
        verdict(a, schema, issues) == verdict(b, schema, issues),
{
    let rs = crate::gate::rules(crate::gate::all_patterns(issues));
    well_named_in_any_order(a, b);
    cards_in_any_order(a, b);
    cards_are_told_apart(a);
    cards_are_told_apart(b);
    let x = uncalibrated(a);
    let y = uncalibrated(b);
    said_in_any_order(issues, rs, x, y);
    unused_agree(issues, rs, x, y, issues.len() as int);
    assert(verdict(a, schema, issues) =~= verdict(b, schema, issues));
}

/// True if a failure is of one of some uncalibrated parameters, on cards that declare the
/// high tier or on the others.
pub open spec fn is_of(
    f: FailureView,
    issues: Seq<CalibrationIssue>,
    rs: Seq<Rule>,
    todo: Seq<Uncalibrated>,
    high: bool,
) -> bool {
    exists|k: int|
        0 <= k < todo.len() && (#[trigger] todo[k]).high() == high && todo[k].reason(
            issues,
            rs,
        ) is Some && f == todo[k].failure(todo[k].reason(issues, rs)->Some_0)
}

proof fn failures_are_of_their_tier(
    issues: Seq<CalibrationIssue>,
    rs: Seq<Rule>,
    todo: Seq<Uncalibrated>,
    high: bool,
)
    ensures
        forall|i: int|
            0 <= i < failures_of(issues, rs, todo, high).len() ==> is_of(
                #[trigger] failures_of(issues, rs, todo, high)[i],
                issues,
                rs,
                todo,
                high,
            ),
    decreases todo.len(),
{
    if todo.len() > 0 {
        let init = todo.drop_last();
        let n = todo.len() - 1;
        let u = todo.last();
        failures_are_of_their_tier(issues, rs, init, high);
        let before = failures_of(issues, rs, init, high);
        let all = failures_of(issues, rs, todo, high);
        assert forall|f: FailureView| #[trigger] is_of(f, issues, rs, init, high) implies is_of(
            f,
            issues,
            rs,
            todo,
            high,
        ) by {
            let k = choose|k: int|
                0 <= k < init.len() && (#[trigger] init[k]).high() == high && init[k].reason(
                    issues,
                    rs,
                ) is Some && f == init[k].failure(init[k].reason(issues, rs)->Some_0);
            assert(todo[k] == init[k]);
        }
        assert forall|i: int| 0 <= i < all.len() implies is_of(
            #[trigger] all[i],
            issues,
            rs,
            todo,
            high,
        ) by {
            if all == before {
                assert(is_of(before[i], issues, rs, init, high));
            } else {
                let f = u.failure(u.reason(issues, rs)->Some_0);
                slot_in_range(before, f);
                let p = failure_slot(before, f);
                if i < p {
                    assert(is_of(before[i], issues, rs, init, high));
                } else if i > p {
                    assert(is_of(before[i - 1], issues, rs, init, high));
                } else {
                    assert(todo[n].high() == high);
                }
            }
        }
    }
}

/// A verdict lists its failures, and what is outside the rule, by model and parameter. The
/// failures are of cards that declare the high tier, the others of cards that do not.
pub proof fn a_verdict_is_in_order(
    cards: Seq<CardView>,
    schema: Seq<char>,
    issues: Seq<CalibrationIssue>,
)
    ensures
        ({
            let v = verdict(cards, schema, issues);
            let rs = crate::gate::rules(crate::gate::all_patterns(issues));
            let todo = uncalibrated(cards);
            &&& in_failure_order(v.failures)
            &&& in_failure_order(v.outside_gate)
            &&& forall|i: int|
                0 <= i < v.failures.len() ==> is_of(
                    #[trigger] v.failures[i],
                    issues,
                    rs,
                    todo,
                    true,
                )
            &&& forall|i: int|
                0 <= i < v.outside_gate.len() ==> is_of(
                    #[trigger] v.outside_gate[i],
                    issues,
                    rs,
                    todo,
                    false,
                )
        }),
{
    let rs = crate::gate::rules(crate::gate::all_patterns(issues));
    let todo = uncalibrated(cards);
    failures_are_in_order(issues, rs, todo, true);
    failures_are_in_order(issues, rs, todo, false);
    failures_are_of_their_tier(issues, rs, todo, true);
    failures_are_of_their_tier(issues, rs, todo, false);
}

proof fn spaces_are_skipped(s: Seq<char>, i: int)
    requires
        0 <= i <= s.len(),
    ensures
        i <= skip_spaces(s, i) <= s.len(),
        skip_spaces(s, i) < s.len() ==> !is_space(s[skip_spaces(s, i)]),
    decreases s.len() - i,
{
    if i < s.len() && is_space(s[i]) {
        spaces_are_skipped(s, i + 1);
    }
}

proof fn spaces_are_dropped(s: Seq<char>, j: int)
    requires
        0 <= j <= s.len(),
    ensures
        0 <= drop_spaces(s, j) <= j,
        drop_spaces(s, j) > 0 ==> !is_space(s[drop_spaces(s, j) - 1]),
    decreases j,
{
    if j > 0 && is_space(s[j - 1]) {
        spaces_are_dropped(s, j - 1);
    }
}

/// A trimmed text has no white space around it, and trimming it again changes nothing. It
/// stands somewhere in the text that it was trimmed from.
pub proof fn trimming_is_idempotent(s: Seq<char>) -> (a: int)
    ensures
        trimmed(trimmed(s)) == trimmed(s),
        trimmed(s).len() > 0 ==> !is_space(trimmed(s)[0]) && !is_space(trimmed(s).last()),
        0 <= a <= a + trimmed(s).len() <= s.len(),
        trimmed(s) == s.subrange(a, a + trimmed(s).len()),
{
    spaces_are_skipped(s, 0);
    spaces_are_dropped(s, s.len() as int);
    let a = skip_spaces(s, 0);
    let b = drop_spaces(s, s.len() as int);
    let t = trimmed(s);
    if a < b {
        assert(t[0] == s[a]);
        assert(t.last() == s[b - 1]);
        assert(skip_spaces(t, 0) == 0);
        assert(drop_spaces(t, t.len() as int) == t.len());
        assert(t.subrange(0, t.len() as int) =~= t);
        a
    } else {
        assert(skip_spaces(t, 0) == 0);
        assert(drop_spaces(t, 0) == 0);
        assert(t =~= s.subrange(0, 0));
        0
    }
}

/// Nothing before the first separator is one.
proof fn no_separator_before(s: Seq<char>, i: int)
    requires
        0 <= i <= s.len(),
    ensures
        i <= first_separator(s, i) <= s.len(),
        forall|j: int| i <= j < first_separator(s, i) ==> !#[trigger] separator_at(s, j),
        first_separator(s, i) < s.len() ==> separator_at(s, first_separator(s, i)),
        separators(s, i) == separators(s, first_separator(s, i)),
    decreases s.len() - i,
{
    if i < s.len() && !separator_at(s, i) {
        no_separator_before(s, i + 1);
    }
}

/// The first separator is where no earlier position has one.
proof fn first_separator_is(s: Seq<char>, i: int, k: int)
    requires
        0 <= i <= k < s.len(),
        separator_at(s, k),
        forall|j: int| i <= j < k ==> !#[trigger] separator_at(s, j),
    ensures
        first_separator(s, i) == k,
    decreases k - i,
{
    if i < k {
        assert(!separator_at(s, i));
        first_separator_is(s, i + 1, k);
    }
}

/// There are none from a position on just where none stands there.
proof fn no_separators(s: Seq<char>, i: int)
    requires
        0 <= i,
    ensures
        separators(s, i) == 0 <==> forall|j: int| i <= j < s.len() ==> !#[trigger] separator_at(
            s,
            j,
        ),
    decreases s.len() - i,
{
    if i < s.len() {
        if separator_at(s, i) {
            assert(separators(s, i) > 0);
        } else {
            no_separators(s, i + 1);
        }
    }
}

/// True if no separator stands in a text.
spec fn unseparated(s: Seq<char>) -> bool {
    forall|j: int| 0 <= j < s.len() ==> !#[trigger] separator_at(s, j)
}

/// Two texts with a separator between them have just that one.
proof fn joined_by_a_separator(m: Seq<char>, q: Seq<char>)
    requires
        m.len() > 0,
        m.last() != ':',
        unseparated(m),
        unseparated(q),
    ensures
        ({
            let t = m + "::"@ + q;
            &&& first_separator(t, 0) == m.len()
            &&& separators(t, 0) == 1
            &&& t.subrange(0, m.len() as int) == m
            &&& t.subrange(m.len() as int + 2, t.len() as int) == q
        }),
{
    reveal_strlit("::");
    let t = m + "::"@ + q;
    let n = m.len() as int;
    assert(separator_at(t, n)) by {
        assert(t[n] == "::"@[0]);
        assert(t[n + 1] == "::"@[1]);
    }
    assert forall|j: int| 0 <= j < n implies !#[trigger] separator_at(t, j) by {
        assert(t[j] == m[j]);
        assert(!separator_at(m, j));
        if j + 1 < n {
            assert(t[j + 1] == m[j + 1]);
        }
    }
    first_separator_is(t, 0, n);
    assert forall|j: int| n + 2 <= j < t.len() implies !#[trigger] separator_at(t, j) by {
        let i = j - n - 2;
        assert(t[j] == q[i]);
        assert(!separator_at(q, i));
        if j + 1 < t.len() {
            assert(t[j + 1] == q[i + 1]);
        }
    }
    no_separators(t, n + 2);
    no_separator_before(t, 0);
    assert(separators(t, n) == 1 + separators(t, n + 2));
    assert(t.subrange(0, n) =~= m);
    assert(t.subrange(n + 2, t.len() as int) =~= q);
}

/// What stands in a text without separators has none.
proof fn unseparated_part(s: Seq<char>, from: int, to: int, a: int, b: int)
    requires
        0 <= from <= a <= b <= to <= s.len(),
        forall|j: int| from <= j < to ==> !#[trigger] separator_at(s, j),
    ensures
        unseparated(s.subrange(a, b)),
{
    let t = s.subrange(a, b);
    assert forall|j: int| 0 <= j < t.len() implies !#[trigger] separator_at(t, j) by {
        assert(!separator_at(s, a + j));
        if j + 1 < t.len() {
            assert(t[j] == s[a + j] && t[j + 1] == s[a + j + 1]);
        }
    }
}

/// A pattern that is put together from the two halves of a well-formed one is well-formed,
/// and has the same halves; neither has white space around it. The model does not end in a
/// colon: behind one, the separator would be found one place earlier.
pub proof fn a_pattern_is_its_halves(s: Seq<char>)
    requires
        pattern_problem(s) is None,
        model_half(s).last() != ':',
    ensures
        ({
            let t = model_half(s) + "::"@ + parameter_half(s);
            &&& pattern_problem(t) is None
            &&& model_half(t) == model_half(s)
            &&& parameter_half(t) == parameter_half(s)
            &&& trimmed(model_half(s)) == model_half(s)
            &&& trimmed(parameter_half(s)) == parameter_half(s)
        }),
{
    let m = model_half(s);
    let q = parameter_half(s);
    let k = first_separator(s, 0);
    no_separator_before(s, 0);
    assert(k < s.len()) by {
        if k == s.len() {
            assert(separators(s, k) == 0);
        }
    }
    let left = s.subrange(0, k);
    let right = s.subrange(k + 2, s.len() as int);
    let a = trimming_is_idempotent(left);
    let b = trimming_is_idempotent(right);
    assert(m =~= s.subrange(a, a + m.len()));
    assert(q =~= s.subrange(k + 2 + b, k + 2 + b + q.len()));
    assert(separators(s, k) == 1 + separators(s, k + 2));
    no_separators(s, k + 2);
    unseparated_part(s, 0, k, a, a + m.len());
    unseparated_part(s, k + 2, s.len() as int, k + 2 + b, k + 2 + b + q.len());
    joined_by_a_separator(m, q);
}

} // verus!
