//! Binning that cannot flip between machines: every comparison is between integers.

use vstd::prelude::*;
use vstd::string::*;
use vstd::arithmetic::div_mod::*;
use crate::basic::{SimTime, NS_PER_S};
use crate::error::{ErrorView, MetricError};
use crate::quant::{grid_is_monotone, grid_of, number_text, quotient, real_of, real_of_is_the_quotient, Quantum, Quotient, Real, MAX_PER_UNIT};
use crate::text::{decimal, join2, join3, numeral};

verus! {

/// The grid points that a list of edges rounds to.
pub open spec fn edge_grid(lower: Seq<Real>, per_unit: int) -> Seq<int> {
    lower.map_values(|e: Real| grid_of(e@, per_unit))
}

/// True if `s` strictly increases.
pub open spec fn rising(s: Seq<int>) -> bool {
    forall|i: int, j: int| 0 <= i < j < s.len() ==> s[i] < s[j]
}

/// The first edge that does not rise above the one before it, counting from `i`.
pub open spec fn first_flat_edge(lower: Seq<Real>, per_unit: int, i: int) -> Option<int>
    decreases lower.len() - i,
{
    if i >= lower.len() {
        None
    } else if i > 0 && grid_of(lower[i]@, per_unit) <= grid_of(lower[i - 1]@, per_unit) {
        Some(i)
    } else {
        first_flat_edge(lower, per_unit, i + 1)
    }
}

/// What is wrong with a list of edges, if anything.
pub open spec fn edges_problem(lower: Seq<Real>, per_unit: int) -> Option<Seq<char>> {
    if lower.len() == 0 {
        Some("a bin set needs at least one lower edge"@)
    } else {
        match first_flat_edge(lower, per_unit, 0) {
            Some(i) => Some(
                "bin edges must strictly increase on the grid of "@ + number_text(
                    quotient(1, per_unit),
                ) + ": "@ + number_text(lower[i]@)
                    + " follows an edge at the same or a higher grid index"@,
            ),
            None => None,
        }
    }
}

/// The bin of an ascending list of edges that a grid value falls in: the last edge that is
/// not above it.
pub open spec fn bin_of(edges: Seq<int>, g: int) -> Option<int> {
    if edges.len() == 0 || g < edges[0] {
        None
    } else {
        Some(last_at_most(edges, g))
    }
}

/// The last position whose edge is not above `g`.
pub open spec fn last_at_most(edges: Seq<int>, g: int) -> int
    decreases edges.len(),
{
    if edges.len() == 0 {
        -1
    } else if edges.last() <= g {
        edges.len() - 1
    } else {
        last_at_most(edges.drop_last(), g)
    }
}

proof fn last_at_most_is(edges: Seq<int>, g: int, i: int)
    requires
        -1 <= i < edges.len(),
        i >= 0 ==> edges[i] <= g,
        forall|j: int| i < j < edges.len() ==> g < edges[j],
    ensures
        last_at_most(edges, g) == i,
    decreases edges.len(),
{
    if edges.len() > 0 && i < edges.len() - 1 {
        assert(g < edges[edges.len() - 1]);
        last_at_most_is(edges.drop_last(), g, i);
    }
}

/// True if `g` is at or above edge `j` and below the next one.
pub open spec fn falls_in(edges: Seq<int>, g: int, j: int) -> bool {
    &&& 0 <= j < edges.len()
    &&& edges[j] <= g
    &&& j + 1 < edges.len() ==> g < edges[j + 1]
}

/// Every value that is not below the first edge falls in exactly one half-open bin.
pub proof fn one_bin_for_every_value(edges: Seq<int>, g: int)
    requires
        rising(edges),
        edges.len() > 0,
        edges[0] <= g,
    ensures
        falls_in(edges, g, last_at_most(edges, g)),
        forall|j: int| #[trigger] falls_in(edges, g, j) ==> j == last_at_most(edges, g),
    decreases edges.len(),
{
    let i = last_at_most(edges, g);
    if edges.last() > g {
        one_bin_for_every_value(edges.drop_last(), g);
    }
    assert forall|j: int| #[trigger] falls_in(edges, g, j) implies j == i by {
        if j < i {
            assert(edges[j + 1] <= edges[i]);
        }
        if i < j {
            assert(edges[i + 1] <= edges[j]);
        }
    }
}

/// A set of half-open bins over a quantity; the last one is open-ended.
#[derive(Debug)]
pub struct Bins {
    dimension: String,
    unit: String,
    quantum: Quantum,
    lower_grid: Vec<i64>,
}

/// The edges as integers.
pub closed spec fn whole(s: Seq<i64>) -> Seq<int> {
    s.map_values(|e: i64| e as int)
}

impl Bins {
    #[verifier::type_invariant]
    spec fn valid(self) -> bool {
        self.lower_grid@.len() > 0 && rising(whole(self.lower_grid@))
    }

    /// The lower edges, as multiples of the grid.
    pub closed spec fn edges(&self) -> Seq<int> {
        whole(self.lower_grid@)
    }

    /// The points of the grid per unit.
    pub closed spec fn per_unit(&self) -> int {
        self.quantum@
    }

    /// What the bins are over.
    pub closed spec fn dimension_text(&self) -> Seq<char> {
        self.dimension@
    }

    /// The unit.
    pub closed spec fn unit_text(&self) -> Seq<char> {
        self.unit@
    }

    /// The bins with the given lower edges, which must strictly increase on the grid.
    pub fn new(dimension: &str, unit: &str, lower: &Vec<Real>, quantum: Quantum) -> (r: Result<
        Bins,
        MetricError,
    >)
        ensures
            match r {
                Ok(b) => {
                    &&& edges_problem(lower@, quantum@) is None
                    &&& b.edges() == edge_grid(lower@, quantum@)
                    &&& b.per_unit() == quantum@
                    &&& b.dimension_text() == dimension@
                    &&& b.unit_text() == unit@
                },
                Err(e) => edges_problem(lower@, quantum@) is Some && e@
                    == (ErrorView::BadDefinition {
                    name: dimension@,
                    problem: edges_problem(lower@, quantum@)->Some_0,
                }),
            },
    {
        if lower.len() == 0 {
            return Err(
                MetricError::BadDefinition {
                    name: dimension.to_owned(),
                    problem: "a bin set needs at least one lower edge".to_owned(),
                },
            );
        }
        let mut lower_grid: Vec<i64> = Vec::new();
        let mut i: usize = 0;
        while i < lower.len()
            invariant
                i <= lower@.len(),
                lower_grid@.len() == i,
                forall|j: int| 0 <= j < i ==> lower_grid@[j] == grid_of(lower@[j]@, quantum@),
                rising(whole(lower_grid@)),
                first_flat_edge(lower@, quantum@, 0) == first_flat_edge(
                    lower@,
                    quantum@,
                    i as int,
                ),
            decreases lower@.len() - i,
        {
            let g: i64 = quantum.grid(lower[i]);
            if i > 0 && g <= lower_grid[i - 1] {
                let mut problem = join2(
                    "bin edges must strictly increase on the grid of ",
                    quantum.get().to_text().as_str(),
                );
                problem.append(": ");
                problem.append(lower[i].to_text().as_str());
                problem.append(" follows an edge at the same or a higher grid index");
                return Err(MetricError::BadDefinition { name: dimension.to_owned(), problem });
            }
            let ghost before = lower_grid@;
            lower_grid.push(g);
            proof {
                assert forall|a: int, b: int| 0 <= a < b < whole(lower_grid@).len() implies whole(
                    lower_grid@,
                )[a] < whole(lower_grid@)[b] by {
                    if b < i {
                        assert(whole(before)[a] < whole(before)[b]);
                    } else if a < i - 1 {
                        assert(whole(before)[a] < whole(before)[i - 1]);
                    }
                }
            }
            i = i + 1;
        }
        proof {
            assert(whole(lower_grid@) =~= edge_grid(lower@, quantum@));
        }
        Ok(Bins { dimension: dimension.to_owned(), unit: unit.to_owned(), quantum, lower_grid })
    }

    /// `count` bins of the given width starting at zero, and the open-ended one above them.
    pub fn uniform(dimension: &str, unit: &str, width: Real, count: usize, quantum: Quantum) -> (r:
        Result<Bins, MetricError>)
        requires
            width@.num * count <= i128::MAX,
        ensures
            match r {
                Ok(b) => {
                    &&& uniform_problem(width, count as int, quantum@) is None
                    &&& b.edges() == edge_grid(uniform_edges(width, count as int), quantum@)
                    &&& b.per_unit() == quantum@
                    &&& b.dimension_text() == dimension@
                    &&& b.unit_text() == unit@
                },
                Err(e) => {
                    &&& uniform_problem(width, count as int, quantum@) is Some
                    &&& e@ == (ErrorView::BadDefinition {
                        name: dimension@,
                        problem: uniform_problem(width, count as int, quantum@)->Some_0,
                    })
                },
            },
    {
        if width.num() <= 0 || count == 0 {
            let mut problem = join2(
                "uniform bins need a positive finite width and count, got ",
                width.to_text().as_str(),
            );
            problem.append(" and ");
            problem.append(decimal(count as u64).as_str());
            return Err(MetricError::BadDefinition { name: dimension.to_owned(), problem });
        }
        let mut lower: Vec<Real> = Vec::new();
        let den: u128 = width.den();
        let num: i128 = width.num();
        let mut i: usize = 0;
        while i < count
            invariant
                0 < den <= crate::quant::MAX_DEN,
                den == width@.den,
                num == width@.num,
                num > 0,
                num * count <= i128::MAX,
                i <= count,
                lower@.len() == i,
                forall|j: int| 0 <= j < i ==> lower@[j] == real_of(j * width@.num, width@.den),
            decreases count - i,
        {
            proof {
                assert(0 <= i * num <= num * count) by (nonlinear_arith)
                    requires
                        0 <= i <= count,
                        num > 0,
                ;
            }
            lower.push(Real::new((i as i128) * num, den));
            i = i + 1;
        }
        assert(0 <= count * num <= i128::MAX) by (nonlinear_arith)
            requires
                num * count <= i128::MAX,
                num > 0,
        ;
        lower.push(Real::new((count as i128) * num, den));
        assert(lower@ =~= uniform_edges(width, count as int));
        Bins::new(dimension, unit, &lower, quantum)
    }

    /// Bins of twenty-five metres: `bins` of them, and the open-ended one above.
    pub fn distance_25m(bins: usize) -> (r: Result<Bins, MetricError>)
        ensures
            match r {
                Ok(b) => {
                    &&& uniform_problem(real_of(25, 1), bins as int, 1_000) is None
                    &&& b.edges() == edge_grid(uniform_edges(real_of(25, 1), bins as int), 1_000)
                    &&& b.per_unit() == 1_000
                    &&& b.dimension_text() == "dist_bin"@
                    &&& b.unit_text() == "m"@
                },
                Err(e) => {
                    &&& uniform_problem(real_of(25, 1), bins as int, 1_000) is Some
                    &&& e@ == (ErrorView::BadDefinition {
                        name: "dist_bin"@,
                        problem: uniform_problem(real_of(25, 1), bins as int, 1_000)->Some_0,
                    })
                },
            },
    {
        Bins::uniform("dist_bin", "m", Real::whole(25), bins, Quantum::length_m())
    }

    /// The number of bins, the open-ended one included.
    pub fn len(&self) -> (n: usize)
        ensures
            n == self.edges().len(),
            n > 0,
            rising(self.edges()),
    {
        proof {
            use_type_invariant(self);
        }
        self.lower_grid.len()
    }

    /// Never: a set of bins has at least one.
    pub fn is_empty(&self) -> (r: bool)
        ensures
            !r,
    {
        false
    }

    /// What the bins are over.
    pub fn dimension(&self) -> (r: &str)
        ensures
            r@ == self.dimension_text(),
    {
        self.dimension.as_str()
    }

    /// The unit.
    pub fn unit(&self) -> (r: &str)
        ensures
            r@ == self.unit_text(),
    {
        self.unit.as_str()
    }

    /// The grid.
    pub fn quantum(&self) -> (r: Quantum)
        ensures
            r@ == self.per_unit(),
    {
        self.quantum
    }

    /// The bin that a value falls in, or nothing below the first edge.
    pub fn index_of(&self, value: Real) -> (r: Option<usize>)
        ensures
            match r {
                Some(i) => bin_of(self.edges(), grid_of(value@, self.per_unit())) == Some(i as int) && i
                    < self.edges().len(),
                None => bin_of(self.edges(), grid_of(value@, self.per_unit())) is None,
            },
    {
        proof {
            use_type_invariant(self);
        }
        let g: i64 = self.quantum.grid(value);
        let ghost edges = self.edges();
        assert(edges[0] == self.lower_grid@[0]);
        if g < self.lower_grid[0] {
            return None;
        }
        let mut lo: usize = 0;
        let mut hi: usize = self.lower_grid.len();
        while hi - lo > 1
            invariant
                lo < hi <= self.lower_grid@.len(),
                rising(edges),
                edges == whole(self.lower_grid@),
                edges[lo as int] <= g,
                forall|j: int| hi <= j < edges.len() ==> g < edges[j],
            decreases hi - lo,
        {
            let mid: usize = lo + (hi - lo) / 2;
            assert(edges[mid as int] == self.lower_grid@[mid as int]);
            if self.lower_grid[mid] <= g {
                lo = mid;
            } else {
                proof {
                    assert forall|j: int| mid <= j < edges.len() implies g < edges[j] by {
                        if mid < j {
                            assert(edges[mid as int] < edges[j]);
                        }
                    }
                }
                hi = mid;
            }
        }
        proof {
            last_at_most_is(edges, g as int, lo as int);
        }
        Some(lo)
    }

    /// The half-open range of bin `i`; the open-ended bin has no upper edge.
    pub fn range(&self, i: usize) -> (r: (Real, Option<Real>))
        requires
            i < self.edges().len(),
        ensures
            r.0 == real_of(self.edges()[i as int], self.per_unit()),
            r.1 == if i + 1 < self.edges().len() {
                Some(real_of(self.edges()[i + 1], self.per_unit()))
            } else {
                None
            },
    {
        let den: u128 = self.quantum.per_unit() as u128;
        let lo = Real::new(self.lower_grid[i] as i128, den);
        let hi = if i < self.lower_grid.len() - 1 {
            Some(Real::new(self.lower_grid[i + 1] as i128, den))
        } else {
            None
        };
        (lo, hi)
    }

    /// The label of bin `i`.
    pub open spec fn label_text(&self, i: int) -> Seq<char> {
        if i + 1 < self.edges().len() {
            number_text(quotient(self.edges()[i], self.per_unit())) + "-"@ + number_text(
                quotient(self.edges()[i + 1], self.per_unit()),
            )
        } else {
            number_text(quotient(self.edges()[i], self.per_unit())) + "+"@
        }
    }

    /// The label of bin `i`, such as `25-50`, or `200+` for the open-ended one.
    pub fn label(&self, i: usize) -> (r: String)
        requires
            i < self.edges().len(),
        ensures
            r@ == self.label_text(i as int),
    {
        let den: u128 = self.quantum.per_unit() as u128;
        let lo = Real::new(self.lower_grid[i] as i128, den).to_text();
        if i < self.lower_grid.len() - 1 {
            let hi = Real::new(self.lower_grid[i + 1] as i128, den).to_text();
            join3(lo.as_str(), "-", hi.as_str())
        } else {
            join2(lo.as_str(), "+")
        }
    }
}

/// What is wrong with uniform bins of that width and count, if anything.
pub open spec fn uniform_problem(width: Real, count: int, per_unit: int) -> Option<Seq<char>> {
    if width@.num <= 0 || count == 0 {
        Some(
            "uniform bins need a positive finite width and count, got "@ + number_text(width@)
                + " and "@ + numeral(count as nat),
        )
    } else {
        edges_problem(uniform_edges(width, count), per_unit)
    }
}

/// The edges of uniform bins: the multiples of the width from none to `count`.
pub open spec fn uniform_edges(width: Real, count: int) -> Seq<Real> {
    Seq::new((count + 1) as nat, |i: int| real_of(i * width@.num, width@.den))
}

/// Uniform bins of a whole width are a valid set, and their edges are the multiples of
/// the width.
pub proof fn whole_bins_are_valid(w: int, count: int, per_unit: int)
    requires
        0 < w,
        0 < count,
        0 < per_unit <= MAX_PER_UNIT,
        w * count * per_unit <= i64::MAX,
    ensures
        uniform_problem(real_of(w, 1), count, per_unit) is None,
        edge_grid(uniform_edges(real_of(w, 1), count), per_unit) =~= Seq::new(
            (count + 1) as nat,
            |i: int| i * w * per_unit,
        ),
{
    assert(w <= i64::MAX && count <= i64::MAX) by (nonlinear_arith)
        requires
            0 < w,
            0 < count,
            0 < per_unit,
            w * count * per_unit <= i64::MAX,
    ;
    real_of_is_the_quotient(w, 1);
    let edges = uniform_edges(real_of(w, 1), count);
    assert forall|i: int| 0 <= i <= count implies #[trigger] edges[i]@ == quotient(i * w, 1) && grid_of(
        edges[i]@,
        per_unit,
    ) == i * w * per_unit by {
        assert(0 <= i * w <= w * count * per_unit) by (nonlinear_arith)
            requires
                0 <= i <= count,
                0 < w,
                0 < per_unit,
        ;
        assert(0 <= i * w * per_unit <= w * count * per_unit) by (nonlinear_arith)
            requires
                0 <= i <= count,
                0 < w,
                0 < per_unit,
        ;
        real_of_is_the_quotient(i * w, 1);
        crate::quant::rounded_multiple(i * w * per_unit, 1);
    }
    no_flat_edge(edges, w, count, per_unit, 0);
}

proof fn no_flat_edge(edges: Seq<Real>, w: int, count: int, per_unit: int, i: int)
    requires
        0 < w,
        0 < per_unit,
        0 <= i,
        edges.len() == count + 1,
        forall|k: int| 0 <= k <= count ==> grid_of(#[trigger] edges[k]@, per_unit) == k * w * per_unit,
    ensures
        first_flat_edge(edges, per_unit, i) is None,
    decreases count + 1 - i,
{
    if i < edges.len() {
        if i > 0 {
            assert((i - 1) * w * per_unit < i * w * per_unit) by (nonlinear_arith)
                requires
                    0 < w,
                    0 < per_unit,
            ;
            assert(grid_of(edges[i]@, per_unit) == i * w * per_unit);
            assert(grid_of(edges[i - 1]@, per_unit) == (i - 1) * w * per_unit);
        }
        no_flat_edge(edges, w, count, per_unit, i + 1);
    }
}

/// Time bins of one period.
#[derive(Clone, Copy, Debug, PartialEq, Eq, Structural)]
pub struct TimeBins {
    t0: SimTime,
    period: u64,
}

impl TimeBins {
    #[verifier::type_invariant]
    spec fn valid(self) -> bool {
        self.period > 0
    }

    /// When the first bin starts.
    pub closed spec fn start(&self) -> int {
        self.t0 as int
    }

    /// The length of a bin, in nanoseconds.
    pub closed spec fn length(&self) -> int {
        self.period as int
    }

    /// Bins of `period` nanoseconds starting at `t0`.
    pub fn new(t0: SimTime, period: u64) -> (r: Result<TimeBins, MetricError>)
        ensures
            match r {
                Ok(b) => period > 0 && b.start() == t0 && b.length() == period,
                Err(e) => period == 0 && e@ == (ErrorView::BadDefinition {
                    name: "t"@,
                    problem: "a time bin period of zero puts every instant in one bin"@,
                }),
            },
    {
        if period == 0 {
            return Err(
                MetricError::BadDefinition {
                    name: "t".to_owned(),
                    problem: "a time bin period of zero puts every instant in one bin".to_owned(),
                },
            );
        }
        Ok(TimeBins { t0, period })
    }

    /// Bins of one second.
    pub fn per_second(t0: SimTime) -> (r: TimeBins)
        ensures
            r.start() == t0,
            r.length() == NS_PER_S,
    {
        TimeBins { t0, period: NS_PER_S }
    }

    /// The bin that `t` falls in, or nothing before the first one.
    pub fn index_of(&self, t: SimTime) -> (r: Option<u64>)
        ensures
            r == if t < self.start() {
                None::<u64>
            } else {
                Some(((t - self.start()) / self.length()) as u64)
            },
            r matches Some(i) ==> self.start() + self.length() * i <= t < self.start() + self.length()
                * (i + 1),
            r is None <==> t < self.start(),
    {
        proof {
            use_type_invariant(self);
        }
        if t < self.t0 {
            None
        } else {
            proof {
                lemma_div_is_ordered_by_denominator((t - self.t0) as int, 1, self.period as int);
                lemma_div_basics((t - self.t0) as int);
                lemma_div_pos_is_pos((t - self.t0) as int, self.period as int);
                time_bins_tile(
                    self.t0 as int,
                    self.period as int,
                    t as int,
                    (t - self.t0) as int / self.period as int,
                );
            }
            Some((t - self.t0) / self.period)
        }
    }

    /// When bin `i` starts, or the last instant there is where that is out of range.
    pub fn start_of(&self, i: u64) -> (r: SimTime)
        ensures
            r == if self.start() + self.length() * i <= u64::MAX {
                self.start() + self.length() * i
            } else {
                u64::MAX as int
            },
    {
        proof {
            use_type_invariant(self);
            assert(0 <= self.period * i <= 0xffff_ffff_ffff_ffff * 0xffff_ffff_ffff_ffff)
                by (nonlinear_arith)
                requires
                    0 <= self.period <= 0xffff_ffff_ffff_ffff,
                    0 <= i <= 0xffff_ffff_ffff_ffff,
            ;
        }
        let offset: u128 = (self.period as u128) * (i as u128);
        if offset <= (u64::MAX - self.t0) as u128 {
            self.t0 + offset as u64
        } else {
            u64::MAX
        }
    }

    /// The length of a bin, in nanoseconds.
    pub fn period(&self) -> (r: u64)
        ensures
            r == self.length(),
            r > 0,
    {
        proof {
            use_type_invariant(self);
        }
        self.period
    }

    /// When the first bin starts.
    pub fn t0(&self) -> (r: SimTime)
        ensures
            r == self.start(),
    {
        self.t0
    }
}

/// A greater value is in no earlier bin, and the two are in the same one where they round to
/// the same grid point.
pub proof fn bins_keep_the_order(edges: Seq<int>, per_unit: int, a: Quotient, b: Quotient)
    requires
        rising(edges),
        per_unit > 0,
        a.den > 0,
        b.den > 0,
        a.at_most(b),
    ensures
        match (bin_of(edges, grid_of(a, per_unit)), bin_of(edges, grid_of(b, per_unit))) {
            (Some(i), Some(j)) => 0 <= i <= j < edges.len(),
            (Some(_), None) => false,
            (None, _) => true,
        },
        grid_of(a, per_unit) == grid_of(b, per_unit) ==> bin_of(edges, grid_of(a, per_unit))
            == bin_of(edges, grid_of(b, per_unit)),
{
    grid_is_monotone(a, b, per_unit);
    let g = grid_of(a, per_unit);
    let h = grid_of(b, per_unit);
    if edges.len() > 0 && edges[0] <= g {
        one_bin_for_every_value(edges, g);
        one_bin_for_every_value(edges, h);
        let i = last_at_most(edges, g);
        let j = last_at_most(edges, h);
        if j < i {
            assert(edges[j + 1] <= edges[i]);
        }
    }
}

/// An instant falls in bin `i` just when it is at or after the start of that bin and
/// before the start of the next.
pub proof fn time_bins_tile(t0: int, period: int, t: int, i: int)
    requires
        period > 0,
        t0 <= t,
    ensures
        ((t - t0) / period == i) == (t0 + period * i <= t < t0 + period * (i + 1)),
{
    lemma_fundamental_div_mod(t - t0, period);
    lemma_mod_bound(t - t0, period);
    let q = (t - t0) / period;
    assert(period * (i + 1) == period * i + period) by (nonlinear_arith);
    if t0 + period * i <= t < t0 + period * (i + 1) {
        assert(i * period == period * i) by (nonlinear_arith);
        lemma_fundamental_div_mod_converse(t - t0, period, i, t - t0 - period * i);
    }
}

} // verus!
