//! What makes a definition, a set of bins, a ratio and a numeral right.

use vstd::prelude::*;
use vstd::string::*;
use crate::basic::Visibility;
use crate::bins::{bin_of, edge_grid, edges_problem, falls_in, first_flat_edge, one_bin_for_every_value, rising};
use crate::channels::visibility_rule;
use crate::def::{definition_problem, repeated_dim, AggView, DefView, Dim};
use crate::quant::{decimal_places, fraction_digits, grid_of, number_text, quotient, ten_to, Real};
use crate::stats::{sums_ratio, RatioEstimate};
use crate::text::{blank, digit, numeral};

verus! {

proof fn no_repetition(dims: Seq<Dim>)
    ensures
        repeated_dim(dims) is None <==> dims.no_duplicates(),
    decreases dims.len(),
{
    if dims.len() > 0 {
        let d = dims.drop_last();
        let n = dims.len() - 1;
        no_repetition(d);
        if repeated_dim(dims) is None {
            assert forall|i: int, j: int| 0 <= i < dims.len() && 0 <= j < dims.len() && i != j implies dims[i]
                != dims[j] by {
                if i < n && j < n {
                    assert(d[i] == dims[i] && d[j] == dims[j]);
                } else if i == n {
                    assert(d[j] == dims[j]);
                } else {
                    assert(d[i] == dims[i]);
                }
            }
        }
        if dims.no_duplicates() {
            assert(d.no_duplicates());
            if d.contains(dims.last()) {
                let i = choose|i: int| 0 <= i < d.len() && d[i] == dims.last();
                assert(dims[i] == dims[n]);
            }
        }
    }
}

/// A definition is accepted exactly where it has a name, a unit and a text; takes a quantile
/// between none and all, or names both terms of a ratio, if that is how it is reduced; lists
/// no dimension twice; and says what it leaves out.
pub proof fn a_definition_is_accepted_where_it_is_whole(d: DefView)
    ensures
        definition_problem(d) is None <==> {
            &&& !blank(d.name) && !blank(d.unit) && !blank(d.definition_md)
            &&& d.agg matches AggView::Quantile { q } ==> 0 <= q@.num <= q@.den
            &&& d.agg matches AggView::Ratio { numerator, denominator } ==> !blank(numerator)
                && !blank(denominator)
            &&& d.dims.no_duplicates()
            &&& d.not_accounted.len() > 0
        },
{
    no_repetition(d.dims);
}

proof fn no_flat_edge(lower: Seq<Real>, k: int, i: int)
    requires
        0 <= i,
    ensures
        first_flat_edge(lower, k, i) is None <==> forall|j: int|
            i <= j < lower.len() && 0 < j ==> #[trigger] edge_grid(lower, k)[j] > edge_grid(lower, k)[j
                - 1],
    decreases lower.len() - i,
{
    if i < lower.len() {
        no_flat_edge(lower, k, i + 1);
        if i > 0 {
            assert(edge_grid(lower, k)[i] == grid_of(lower[i]@, k));
            assert(edge_grid(lower, k)[i - 1] == grid_of(lower[i - 1]@, k));
        }
    }
}

proof fn steps_rise(s: Seq<int>, i: int, j: int)
    requires
        forall|j: int| 0 < j < s.len() ==> #[trigger] s[j] > s[j - 1],
        0 <= i < j < s.len(),
    ensures
        s[i] < s[j],
    decreases j - i,
{
    if i + 1 < j {
        steps_rise(s, i, j - 1);
    }
    assert(s[j] > s[j - 1]);
}

/// Some edges make bins exactly where there is one and each is at a greater grid point than
/// the one before it.
pub proof fn edges_make_bins_where_they_rise(lower: Seq<Real>, k: int)
    ensures
        edges_problem(lower, k) is None <==> lower.len() > 0 && forall|i: int, j: int|
            0 <= i < j < lower.len() ==> grid_of(#[trigger] lower[i]@, k) < grid_of(
                #[trigger] lower[j]@,
                k,
            ),
{
    no_flat_edge(lower, k, 0);
    let s = edge_grid(lower, k);
    if edges_problem(lower, k) is None {
        assert forall|i: int, j: int| 0 <= i < j < lower.len() implies grid_of(
            #[trigger] lower[i]@,
            k,
        ) < grid_of(#[trigger] lower[j]@, k) by {
            steps_rise(s, i, j);
            assert(s[i] < s[j]);
        }
    } else if lower.len() > 0 {
        let j = choose|j: int|
            0 <= j < lower.len() && 0 < j && !(#[trigger] s[j] > s[j - 1]);
        assert(!(grid_of(lower[j - 1]@, k) < grid_of(lower[j]@, k)));
    }
}

/// A grid point is in the bin whose edge is at or below it, with the next one above it; below
/// the first edge it is in none.
pub proof fn a_grid_point_is_in_the_bin_around_it(edges: Seq<int>, g: int, j: int)
    requires
        rising(edges),
        edges.len() > 0,
    ensures
        bin_of(edges, g) == Some(j) <==> 0 <= j < edges.len() && edges[j] <= g && (j + 1 < edges.len()
            ==> g < edges[j + 1]),
        bin_of(edges, g) is None <==> g < edges[0],
{
    if edges[0] <= g {
        one_bin_for_every_value(edges, g);
        assert(falls_in(edges, g, j) <==> 0 <= j < edges.len() && edges[j] <= g && (j + 1
            < edges.len() ==> g < edges[j + 1]));
    } else if 0 < j < edges.len() {
        assert(edges[0] < edges[j]);
    }
}

/// One sum over another is refused exactly where there is nothing to divide by, or fewer
/// observations than asked for, or none; otherwise it is what it was made from.
pub proof fn a_ratio_keeps_its_sums(a: Real, b: Real, point: Real, n: u64, least: u64)
    ensures
        match sums_ratio(a, b, point, n, least) {
            RatioEstimate::RatioOfSums { point: p, numerator, denominator, n: m } => p == point
                && numerator == a && denominator == b && m == n && b@.num != 0 && 0 < n && least <= n,
            RatioEstimate::Insufficient { trials, required } => trials == n && required >= least
                && required > 0 && (least > 0 ==> required == least) && (b@.num == 0 || n < least
                || n == 0),
            _ => false,
        },
{
}

/// What a decimal numeral is worth.
pub open spec fn worth(s: Seq<char>) -> int
    decreases s.len(),
{
    if s.len() == 0 {
        0
    } else {
        10 * worth(s.drop_last()) + (s.last() as int - '0' as int)
    }
}

/// A numeral is worth the number that it was written for. It has digits alone, and no zero
/// ahead of the others.
pub proof fn a_numeral_is_worth_its_number(n: nat)
    ensures
        worth(numeral(n)) == n,
        numeral(n).len() > 0,
        forall|i: int| 0 <= i < numeral(n).len() ==> '0' <= #[trigger] numeral(n)[i] <= '9',
        n > 0 ==> numeral(n)[0] != '0',
    decreases n,
{
    reveal_with_fuel(worth, 2);
    let s = numeral(n);
    if n < 10 {
        assert(s.drop_last() =~= Seq::empty());
    } else {
        a_numeral_is_worth_its_number(n / 10);
        assert(s.drop_last() =~= numeral(n / 10));
        assert(s.last() == digit(n % 10));
    }
}

proof fn worth_of_joined(a: Seq<char>, b: Seq<char>)
    ensures
        worth(a + b) == worth(a) * ten_to(b.len()) + worth(b),
    decreases b.len(),
{
    if b.len() == 0 {
        assert(a + b =~= a);
        assert(worth(a) * 1 == worth(a));
    } else {
        let d = b.drop_last();
        worth_of_joined(a, d);
        assert((a + b).drop_last() =~= a + d);
        assert((a + b).last() == b.last());
        assert(10 * (worth(a) * ten_to(d.len())) == worth(a) * (10 * ten_to(d.len())))
            by (nonlinear_arith);
    }
}

proof fn ten_is_positive(k: nat)
    ensures
        ten_to(k) > 0,
    decreases k,
{
    if k > 0 {
        ten_is_positive((k - 1) as nat);
    }
}

proof fn tens_multiply(a: nat, b: nat)
    ensures
        ten_to(a) * ten_to(b) == ten_to(a + b),
    decreases b,
{
    if b == 0 {
        assert(ten_to(a) * 1 == ten_to(a));
    } else {
        let c = (b - 1) as nat;
        tens_multiply(a, c);
        assert(ten_to(a) * (10 * ten_to(c)) == 10 * (ten_to(a) * ten_to(c))) by (nonlinear_arith);
    }
}

/// The digits behind a decimal point are worth the part that they were written for, to so
/// many places, and the last of them is no zero.
pub proof fn a_fraction_is_worth_its_part(part: int, k: nat)
    requires
        0 <= part < ten_to(k),
    ensures
        fraction_digits(part, k).len() <= k,
        worth(fraction_digits(part, k)) * ten_to((k - fraction_digits(part, k).len()) as nat) == part,
        part > 0 ==> fraction_digits(part, k).len() > 0 && fraction_digits(part, k).last() != '0',
    decreases k,
{
    let s = fraction_digits(part, k);
    if k == 0 || part == 0 {
        assert(0 * ten_to(k) == 0);
    } else {
        let unit = ten_to((k - 1) as nat);
        ten_is_positive((k - 1) as nat);
        let (d, m) = (part / unit, part % unit);
        vstd::arithmetic::div_mod::lemma_fundamental_div_mod(part, unit);
        vstd::arithmetic::div_mod::lemma_mod_bound(part, unit);
        assert(0 <= d < 10) by (nonlinear_arith)
            requires
                part == unit * d + m,
                0 <= m < unit,
                0 <= part < 10 * unit,
        ;
        let rest = fraction_digits(m, (k - 1) as nat);
        a_fraction_is_worth_its_part(m, (k - 1) as nat);
        let first = seq![digit(d as nat)];
        worth_of_joined(first, rest);
        assert(worth(first) == d) by {
            reveal_with_fuel(worth, 2);
            assert(first.drop_last() =~= Seq::empty());
        }
        assert(s == first + rest);
        let left = (k - s.len()) as nat;
        tens_multiply(rest.len(), left);
        assert((d * ten_to(rest.len()) + worth(rest)) * ten_to(left) == d * (ten_to(rest.len())
            * ten_to(left)) + worth(rest) * ten_to(left)) by (nonlinear_arith);
        assert(unit * d == d * unit) by (nonlinear_arith);
        if m == 0 {
            assert(rest =~= Seq::empty());
            assert(s.last() == digit(d as nat));
            assert(d > 0) by (nonlinear_arith)
                requires
                    part == unit * d,
                    part > 0,
                    unit > 0,
                    d >= 0,
            ;
        } else {
            assert(s.last() == rest.last());
        }
    }
}

/// A number is written with a minus sign exactly where it is below zero, then its whole
/// part, then a point and its decimal places where it has any.
pub proof fn a_number_is_written_in_decimal(num: int, k: nat)
    requires
        k <= 6,
    ensures
        exists|whole: Seq<char>, places: Seq<char>| #[trigger]
            is_decimal(number_text(quotient(num, ten_to(k))), num, k, whole, places),
{
    reveal_with_fuel(ten_to, 7);
    let den = ten_to(k);
    let m = if num < 0 {
        -num
    } else {
        num
    };
    let s = number_text(quotient(num, den));
    vstd::arithmetic::div_mod::lemma_fundamental_div_mod(m, den);
    vstd::arithmetic::div_mod::lemma_mod_bound(m, den);
    vstd::arithmetic::div_mod::lemma_div_pos_is_pos(m, den);
    let whole = numeral((m / den) as nat);
    let places = fraction_digits(m % den, k);
    a_numeral_is_worth_its_number((m / den) as nat);
    a_fraction_is_worth_its_part(m % den, k);
    assert(worth(whole) * den == den * (m / den)) by (nonlinear_arith)
        requires
            worth(whole) == m / den,
    ;
    assert(decimal_places(den) == Some(k)) by {
        assert(k == 0 || k == 1 || k == 2 || k == 3 || k == 4 || k == 5 || k == 6);
    }
    if m % den == 0 {
        assert(places =~= Seq::empty());
        assert(s =~= sign_of(num) + whole);
    } else {
        assert(s =~= sign_of(num) + whole + "."@ + places);
    }
    assert(is_decimal(s, num, k, whole, places));
}

/// The sign that a number is written with.
pub open spec fn sign_of(num: int) -> Seq<char> {
    if num < 0 {
        "-"@
    } else {
        Seq::empty()
    }
}

/// True if `s` is the number `num` over ten to the power of `k`, written with the digits of a
/// whole part and with decimal places.
pub open spec fn is_decimal(s: Seq<char>, num: int, k: nat, whole: Seq<char>, places: Seq<char>) -> bool {
    let worth = worth(whole) * ten_to(k) + worth(places) * ten_to((k - places.len()) as nat);
    &&& places.len() <= k
    &&& num >= 0 ==> worth == num
    &&& num < 0 ==> worth == -num
    &&& whole.len() > 0
    &&& places.len() == 0 ==> s == sign_of(num) + whole
    &&& places.len() > 0 ==> s == sign_of(num) + whole + "."@ + places && places.last() != '0'
}

/// A channel that a node writes or reads carries nothing of the ground truth, but for what a
/// reception says beside; a channel of the ground truth carries nothing else.
pub proof fn nodes_see_no_ground_truth(channel: Seq<char>)
    ensures
        (channel == "node.tx"@ || channel == "node.verify"@ || channel == "node.neighbor"@ || channel
            == "node.telemetry"@ || channel == "det.observation"@ || channel == "ma.report"@ || channel
            == "ma.decision"@ || channel == "ma.case"@ || channel == "mac.cbr"@ || channel
            == "net.bytes"@ || channel == "net.frag"@ || channel == "proto.msg"@ || channel
            == "sec.cert"@ || channel == "app.warning"@ || channel == "proto.revocation"@)
            ==> visibility_rule(channel) is Some && forall|i: int|
            0 <= i < visibility_rule(channel)->0.len() ==> !(#[trigger] visibility_rule(
                channel,
            )->0[i]).tainted(),
        (channel == "gt.kinematics"@ || channel == "gt.spawn"@ || channel == "gt.despawn"@ || channel
            == "gt.attack.action"@) ==> visibility_rule(channel) is Some && forall|i: int|
            0 <= i < visibility_rule(channel)->0.len() ==> #[trigger] visibility_rule(channel)->0[i]
                == Visibility::Gt,
{
    reveal_strlit("phy.rx");
    reveal_strlit("manifest");
    reveal_strlit("metric.sample");
    reveal_strlit("proto.revocation");
    reveal_strlit("gt.kinematics");
    reveal_strlit("gt.spawn");
    reveal_strlit("gt.despawn");
    reveal_strlit("gt.attack.action");
    reveal_strlit("node.tx");
    reveal_strlit("node.verify");
    reveal_strlit("node.neighbor");
    reveal_strlit("node.telemetry");
    reveal_strlit("det.observation");
    reveal_strlit("ma.report");
    reveal_strlit("ma.decision");
    reveal_strlit("ma.case");
    reveal_strlit("mac.cbr");
    reveal_strlit("net.bytes");
    reveal_strlit("net.frag");
    reveal_strlit("proto.msg");
    reveal_strlit("sec.cert");
    reveal_strlit("app.warning");
    assert("phy.rx"@.len() == 6 && "phy.rx"@[0] == 'p');
    assert("manifest"@.len() == 8 && "manifest"@[0] == 'm');
    assert("metric.sample"@.len() == 13 && "metric.sample"@[0] == 'm');
    assert("proto.revocation"@.len() == 16 && "proto.revocation"@[0] == 'p');
    assert("gt.kinematics"@.len() == 13 && "gt.kinematics"@[0] == 'g');
    assert("gt.spawn"@.len() == 8 && "gt.spawn"@[0] == 'g');
    assert("gt.despawn"@.len() == 10 && "gt.despawn"@[0] == 'g');
    assert("gt.attack.action"@.len() == 16 && "gt.attack.action"@[0] == 'g');
    assert("node.tx"@.len() == 7 && "node.tx"@[0] == 'n');
    assert("node.verify"@.len() == 11 && "node.verify"@[0] == 'n');
    assert("node.neighbor"@.len() == 13 && "node.neighbor"@[0] == 'n');
    assert("node.telemetry"@.len() == 14 && "node.telemetry"@[0] == 'n');
    assert("det.observation"@.len() == 15 && "det.observation"@[0] == 'd');
    assert("ma.report"@.len() == 9 && "ma.report"@[0] == 'm');
    assert("ma.decision"@.len() == 11 && "ma.decision"@[0] == 'm');
    assert("ma.case"@.len() == 7 && "ma.case"@[0] == 'm');
    assert("mac.cbr"@.len() == 7 && "mac.cbr"@[0] == 'm');
    assert("net.bytes"@.len() == 9 && "net.bytes"@[0] == 'n');
    assert("net.frag"@.len() == 8 && "net.frag"@[0] == 'n');
    assert("proto.msg"@.len() == 9 && "proto.msg"@[0] == 'p');
    assert("sec.cert"@.len() == 8 && "sec.cert"@[0] == 's');
    assert("app.warning"@.len() == 11 && "app.warning"@[0] == 'a');
}

} // verus!
