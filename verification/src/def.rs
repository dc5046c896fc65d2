//! What a metric is, and one measurement of it.

use vstd::prelude::*;
use vstd::string::*;
use crate::basic::{SimTime, Visibility};
use crate::card::{group_views, views, Source, SourceView};
use crate::distribution::DistributionSummary;
use crate::error::{ErrorView, MetricError};
use crate::keyed::{Key, SortedMap};
use crate::quant::{number_text, on_grid, quantising_is_idempotent, quantised_real, real_of, real_of_is_the_quotient, Quantum, Real, MAX_PER_UNIT};
use crate::stats::{Estimate, RatioEstimate, DEFAULT_MIN_SAMPLES};
use crate::text::{blank, decimal, is_blank, join2, join3, numeral, signed_decimal, signed_numeral, texts};

verus! {

/// A dimension that a metric is broken down by. A sample's key lists its dimensions in the
/// order in which they are declared here.
#[derive(Clone, Copy, Debug, PartialEq, Eq, Structural)]
pub enum Dim {
    /// Time bin.
    T,
    /// Node.
    Node,
    /// Vehicle class.
    Class,
    /// Distance bin.
    DistBin,
    /// Density bin.
    DensityBin,
    /// Region of the world.
    Region,
    /// Credential-management protocol.
    Protocol,
    /// Radio access technology.
    Rat,
    /// Fidelity tier.
    Tier,
    /// Run.
    Run,
    /// Loss cause.
    Cause,
    /// Channel number.
    Channel,
    /// Cryptographic primitive.
    Primitive,
    /// Flow that a message belongs to.
    Flow,
    /// Message type.
    MsgType,
    /// Byte-accounting bucket.
    Bucket,
    /// Detector.
    Detector,
    /// Stage of a journey or of a revocation.
    Stage,
    /// Neighbourhood radius.
    Radius,
    /// What a detection metric is measured over.
    Level,
    /// Cell of a confusion matrix.
    Cell,
}

impl Dim {
    /// The dimension's position in the order of the dimensions.
    pub open spec fn place(self) -> u64 {
        match self {
            Dim::T => 0,
            Dim::Node => 1,
            Dim::Class => 2,
            Dim::DistBin => 3,
            Dim::DensityBin => 4,
            Dim::Region => 5,
            Dim::Protocol => 6,
            Dim::Rat => 7,
            Dim::Tier => 8,
            Dim::Run => 9,
            Dim::Cause => 10,
            Dim::Channel => 11,
            Dim::Primitive => 12,
            Dim::Flow => 13,
            Dim::MsgType => 14,
            Dim::Bucket => 15,
            Dim::Detector => 16,
            Dim::Stage => 17,
            Dim::Radius => 18,
            Dim::Level => 19,
            Dim::Cell => 20,
        }
    }

    fn position(self) -> (r: u64)
        ensures
            r == self.place(),
    {
        match self {
            Dim::T => 0,
            Dim::Node => 1,
            Dim::Class => 2,
            Dim::DistBin => 3,
            Dim::DensityBin => 4,
            Dim::Region => 5,
            Dim::Protocol => 6,
            Dim::Rat => 7,
            Dim::Tier => 8,
            Dim::Run => 9,
            Dim::Cause => 10,
            Dim::Channel => 11,
            Dim::Primitive => 12,
            Dim::Flow => 13,
            Dim::MsgType => 14,
            Dim::Bucket => 15,
            Dim::Detector => 16,
            Dim::Stage => 17,
            Dim::Radius => 18,
            Dim::Level => 19,
            Dim::Cell => 20,
        }
    }

    /// The dimension's name.
    pub open spec fn text(self) -> Seq<char> {
        match self {
            Dim::T => "t"@,
            Dim::Node => "node"@,
            Dim::Class => "class"@,
            Dim::DistBin => "dist_bin"@,
            Dim::DensityBin => "density_bin"@,
            Dim::Region => "region"@,
            Dim::Protocol => "protocol"@,
            Dim::Rat => "rat"@,
            Dim::Tier => "tier"@,
            Dim::Run => "run"@,
            Dim::Cause => "cause"@,
            Dim::Channel => "channel"@,
            Dim::Primitive => "primitive"@,
            Dim::Flow => "flow"@,
            Dim::MsgType => "msg_type"@,
            Dim::Bucket => "bucket"@,
            Dim::Detector => "detector"@,
            Dim::Stage => "stage"@,
            Dim::Radius => "radius"@,
            Dim::Level => "level"@,
            Dim::Cell => "cell"@,
        }
    }

    /// The dimension's name.
    pub fn as_str(self) -> (r: &'static str)
        ensures
            r@ == self.text(),
    {
        match self {
            Dim::T => "t",
            Dim::Node => "node",
            Dim::Class => "class",
            Dim::DistBin => "dist_bin",
            Dim::DensityBin => "density_bin",
            Dim::Region => "region",
            Dim::Protocol => "protocol",
            Dim::Rat => "rat",
            Dim::Tier => "tier",
            Dim::Run => "run",
            Dim::Cause => "cause",
            Dim::Channel => "channel",
            Dim::Primitive => "primitive",
            Dim::Flow => "flow",
            Dim::MsgType => "msg_type",
            Dim::Bucket => "bucket",
            Dim::Detector => "detector",
            Dim::Stage => "stage",
            Dim::Radius => "radius",
            Dim::Level => "level",
            Dim::Cell => "cell",
        }
    }
}

impl Key for Dim {
    type Rank = Dim;

    open spec fn rank(&self) -> Dim {
        *self
    }

    open spec fn before(a: Dim, b: Dim) -> bool {
        a.place() < b.place()
    }

    proof fn order_irreflexive(a: Dim) {
    }

    proof fn order_transitive(a: Dim, b: Dim, c: Dim) {
    }

    proof fn order_total(a: Dim, b: Dim) {
    }

    fn is_before(&self, other: &Dim) -> (r: bool) {
        self.position() < other.position()
    }
}

/// One dimension's value on one sample.
#[derive(Debug)]
pub enum DimValue {
    /// A label: the name of a bin, a cause, a bucket.
    Label(String),
    /// An integer: a node, a channel number, the number of a bin.
    Index(u64),
}

/// What a dimension's value is.
pub ghost enum DimText {
    Label(Seq<char>),
    Index(u64),
}

impl DimText {
    /// The value as text.
    pub open spec fn text(self) -> Seq<char> {
        match self {
            DimText::Label(s) => s,
            DimText::Index(i) => numeral(i as nat),
        }
    }
}

impl View for DimValue {
    type V = DimText;

    open spec fn view(&self) -> DimText {
        match *self {
            DimValue::Label(s) => DimText::Label(s@),
            DimValue::Index(i) => DimText::Index(i),
        }
    }
}

impl DimValue {
    /// A label.
    pub fn label(s: &str) -> (r: DimValue)
        ensures
            r@ == DimText::Label(s@),
    {
        DimValue::Label(s.to_owned())
    }

    /// An integer.
    pub fn index(i: u64) -> (r: DimValue)
        ensures
            r@ == DimText::Index(i),
    {
        DimValue::Index(i)
    }

    /// The value as text.
    pub fn to_text(&self) -> (r: String)
        ensures
            r@ == self@.text(),
    {
        match self {
            DimValue::Label(s) => s.clone(),
            DimValue::Index(i) => decimal(*i),
        }
    }

    /// The same value.
    pub fn copy(&self) -> (r: DimValue)
        ensures
            r@ == self@,
    {
        match self {
            DimValue::Label(s) => DimValue::Label(s.clone()),
            DimValue::Index(i) => DimValue::Index(*i),
        }
    }
}

/// The dimension values of one sample.
pub type Dims = SortedMap<Dim, DimValue>;

/// What the dimension values of one sample are, in order.
pub type DimList = Seq<(Dim, DimText)>;

/// No dimension.
pub fn no_dims() -> (r: Dims)
    ensures
        r.listing() == Seq::<(Dim, DimText)>::empty(),
{
    SortedMap::new()
}

/// One dimension.
pub fn one_dim(d: Dim, v: DimValue) -> (r: Dims)
    ensures
        r.listing() == seq![(d, v@)],
{
    let mut dims: Dims = SortedMap::new();
    dims.append(d, v);
    assert(dims.listing() =~= seq![(d, v@)]);
    dims
}

/// The same dimension values.
pub fn copy_dims(dims: &Dims) -> (r: Dims)
    ensures
        r.listing() == dims.listing(),
{
    let n: usize = dims.len();
    let mut out: Dims = SortedMap::new();
    let mut i: usize = 0;
    while i < n
        invariant
            n == dims.listing().len(),
            i <= n,
            crate::keyed::increasing::<Dim, DimText>(dims.listing()),
            out.listing() == dims.listing().subrange(0, i as int),
        decreases n - i,
    {
        let d: Dim = *dims.key_at(i);
        let v = dims.value_at(i).copy();
        proof {
            assert forall|j: int| 0 <= j < out.listing().len() implies Dim::before(
                #[trigger] out.listing()[j].0,
                d,
            ) by {
                assert(dims.listing()[j].0 == out.listing()[j].0);
                assert(Dim::before(dims.listing()[j].0, dims.listing()[i as int].0));
            }
        }
        out.append(d, v);
        i = i + 1;
        assert(out.listing() =~= dims.listing().subrange(0, i as int));
    }
    assert(dims.listing().subrange(0, n as int) =~= dims.listing());
    out
}

/// How a metric's observations are reduced.
#[derive(Debug)]
pub enum Agg {
    /// A sum.
    Sum,
    /// An arithmetic mean.
    Mean,
    /// A maximum.
    Max,
    /// A count.
    Count,
    /// A quantile.
    Quantile {
        /// Which, as a fraction.
        q: Real,
    },
    /// A ratio, with both of its terms named.
    Ratio {
        /// What is counted above the line.
        numerator: String,
        /// What is counted below the line.
        denominator: String,
    },
    /// A rate per second.
    Rate,
    /// A whole distribution.
    Distribution,
}

/// How a metric's observations are reduced.
pub ghost enum AggView {
    Sum,
    Mean,
    Max,
    Count,
    Quantile { q: Real },
    Ratio { numerator: Seq<char>, denominator: Seq<char> },
    Rate,
    Distribution,
}

impl View for Agg {
    type V = AggView;

    open spec fn view(&self) -> AggView {
        match *self {
            Agg::Sum => AggView::Sum,
            Agg::Mean => AggView::Mean,
            Agg::Max => AggView::Max,
            Agg::Count => AggView::Count,
            Agg::Quantile { q } => AggView::Quantile { q },
            Agg::Ratio { numerator, denominator } => AggView::Ratio {
                numerator: numerator@,
                denominator: denominator@,
            },
            Agg::Rate => AggView::Rate,
            Agg::Distribution => AggView::Distribution,
        }
    }
}

impl AggView {
    /// The tag in the tables.
    pub open spec fn tag(self) -> Seq<char> {
        match self {
            AggView::Sum => "sum"@,
            AggView::Mean => "mean"@,
            AggView::Max => "max"@,
            AggView::Count => "count"@,
            AggView::Quantile { q } => "p"@ + signed_numeral(
                crate::quant::grid_of(q@, 100),
            ),
            AggView::Ratio { .. } => "ratio"@,
            AggView::Rate => "rate"@,
            AggView::Distribution => "distribution"@,
        }
    }
}

impl Agg {
    /// A ratio.
    pub fn ratio(numerator: &str, denominator: &str) -> (r: Agg)
        ensures
            r@ == (AggView::Ratio { numerator: numerator@, denominator: denominator@ }),
    {
        Agg::Ratio { numerator: numerator.to_owned(), denominator: denominator.to_owned() }
    }

    /// The tag in the tables.
    pub fn tag(&self) -> (r: String)
        ensures
            r@ == self@.tag(),
    {
        match self {
            Agg::Sum => "sum".to_owned(),
            Agg::Mean => "mean".to_owned(),
            Agg::Max => "max".to_owned(),
            Agg::Count => "count".to_owned(),
            Agg::Quantile { q } => join2(
                "p",
                signed_decimal(Quantum::db().grid(*q)).as_str(),
            ),
            Agg::Ratio { .. } => "ratio".to_owned(),
            Agg::Rate => "rate".to_owned(),
            Agg::Distribution => "distribution".to_owned(),
        }
    }
}

/// The values that a metric is reported for along one dimension.
#[derive(Debug)]
pub struct Breakdown {
    /// The dimension.
    pub dim: Dim,
    /// The values.
    pub values: Vec<String>,
}

/// The values that a metric is reported for along one dimension.
pub ghost struct BreakdownView {
    pub dim: Dim,
    pub values: Seq<Seq<char>>,
}

impl View for Breakdown {
    type V = BreakdownView;

    open spec fn view(&self) -> BreakdownView {
        BreakdownView { dim: self.dim, values: texts(self.values@) }
    }
}

/// What a metric is.
#[derive(Debug)]
pub struct MetricDef {
    /// The metric's stable name.
    pub name: String,
    /// Its unit.
    pub unit: String,
    /// The dimensions it is broken down by.
    pub dims: Vec<Dim>,
    /// How its observations are reduced.
    pub agg: Agg,
    /// Who may see it.
    pub visibility: Visibility,
    /// The definition, with the formula.
    pub definition_md: String,
    /// The citation for the definition.
    pub source: Option<Source>,
    /// The grid its values are written on.
    pub quantum: Quantum,
    /// Below this many observations it reports insufficient.
    pub min_samples: u64,
    /// What it does not account for.
    pub not_accounted: Vec<String>,
    /// True for a machine-dependent diagnostic.
    pub diagnostic: bool,
    /// The values it is reported for, by dimension.
    pub breakdown: Vec<Breakdown>,
    /// True if it is reported only along its breakdown, never as one headline value.
    pub only_broken_down: bool,
    /// The least value that is physically possible, where there is one.
    pub min_value: Option<Real>,
    /// The greatest value that is physically possible, where there is one.
    pub max_value: Option<Real>,
}

/// What a metric is, apart from how its texts are stored.
#[verifier::ext_equal]
pub ghost struct DefView {
    pub name: Seq<char>,
    pub unit: Seq<char>,
    pub dims: Seq<Dim>,
    pub agg: AggView,
    pub visibility: Visibility,
    pub definition_md: Seq<char>,
    pub source: Option<SourceView>,
    pub per_unit: int,
    pub min_samples: u64,
    pub not_accounted: Seq<Seq<char>>,
    pub diagnostic: bool,
    pub breakdown: Seq<BreakdownView>,
    pub only_broken_down: bool,
    pub min_value: Option<Real>,
    pub max_value: Option<Real>,
}

/// The view of an optional citation.
pub open spec fn optional_source(s: Option<Source>) -> Option<SourceView> {
    match s {
        Some(x) => Some(x@),
        None => None,
    }
}

impl View for MetricDef {
    type V = DefView;

    open spec fn view(&self) -> DefView {
        DefView {
            name: self.name@,
            unit: self.unit@,
            dims: self.dims@,
            agg: self.agg@,
            visibility: self.visibility,
            definition_md: self.definition_md@,
            source: optional_source(self.source),
            per_unit: self.quantum@,
            min_samples: self.min_samples,
            not_accounted: texts(self.not_accounted@),
            diagnostic: self.diagnostic,
            breakdown: views(self.breakdown@),
            only_broken_down: self.only_broken_down,
            min_value: self.min_value,
            max_value: self.max_value,
        }
    }
}

/// A definition with the required fields and nothing else.
pub open spec fn bare_def(
    name: Seq<char>,
    unit: Seq<char>,
    agg: AggView,
    visibility: Visibility,
    per_unit: int,
    definition_md: Seq<char>,
) -> DefView {
    DefView {
        name,
        unit,
        dims: Seq::empty(),
        agg,
        visibility,
        definition_md,
        source: None,
        per_unit,
        min_samples: DEFAULT_MIN_SAMPLES,
        not_accounted: Seq::empty(),
        diagnostic: false,
        breakdown: Seq::empty(),
        only_broken_down: false,
        min_value: None,
        max_value: None,
    }
}

/// The first dimension that is listed twice.
pub open spec fn repeated_dim(dims: Seq<Dim>) -> Option<Dim>
    decreases dims.len(),
{
    if dims.len() == 0 {
        None
    } else {
        match repeated_dim(dims.drop_last()) {
            Some(d) => Some(d),
            None => if dims.drop_last().contains(dims.last()) {
                Some(dims.last())
            } else {
                None
            },
        }
    }
}

/// What is wrong with how a metric is reduced, if anything.
pub open spec fn agg_problem(agg: AggView) -> Option<Seq<char>> {
    match agg {
        AggView::Quantile { q } => if q@.num < 0 || q@.num > q@.den {
            Some("quantile fraction "@ + number_text(q@) + " is not in [0, 1]"@)
        } else {
            None
        },
        AggView::Ratio { numerator, denominator } => if blank(numerator) || blank(denominator) {
            Some("a ratio aggregation must name both its numerator and its denominator"@)
        } else {
            None
        },
        _ => None,
    }
}

/// What is wrong with a definition, if anything: the first of the constraints it breaks.
pub open spec fn definition_problem(d: DefView) -> Option<Seq<char>> {
    if blank(d.name) {
        Some("the name is empty"@)
    } else if blank(d.unit) {
        Some("the unit is empty"@)
    } else if blank(d.definition_md) {
        Some("the definition text is empty"@)
    } else if agg_problem(d.agg) is Some {
        agg_problem(d.agg)
    } else if repeated_dim(d.dims) is Some {
        Some("dimension "@ + repeated_dim(d.dims)->Some_0.text() + " is listed twice"@)
    } else if d.not_accounted.len() == 0 {
        Some(
            "no metric accounts for everything: declare at least one omission in `not_accounted`"@,
        )
    } else {
        None
    }
}

impl DefView {
    /// True if `v` is a physically possible value of the metric.
    pub open spec fn possible(self, v: Real) -> bool {
        &&& self.min_value matches Some(lo) ==> lo@.at_most(v@)
        &&& self.max_value matches Some(hi) ==> v@.at_most(hi@)
    }
}

impl MetricDef {
    /// A definition with the required fields; the rest is set with the methods below.
    pub fn new(
        name: &str,
        unit: &str,
        agg: Agg,
        visibility: Visibility,
        quantum: Quantum,
        definition_md: &str,
    ) -> (r: MetricDef)
        ensures
            r@ == bare_def(name@, unit@, agg@, visibility, quantum@, definition_md@),
    {
        broadcast use group_views;

        MetricDef {
            name: name.to_owned(),
            unit: unit.to_owned(),
            dims: Vec::new(),
            agg,
            visibility,
            definition_md: definition_md.to_owned(),
            source: None,
            quantum,
            min_samples: DEFAULT_MIN_SAMPLES,
            not_accounted: Vec::new(),
            diagnostic: false,
            breakdown: Vec::new(),
            only_broken_down: false,
            min_value: None,
            max_value: None,
        }
    }

    /// Sets the dimensions.
    pub fn with_dims(self, dims: Vec<Dim>) -> (r: MetricDef)
        ensures
            r@ == (DefView { dims: dims@, ..self@ }),
    {
        let mut d = self;
        d.dims = dims;
        d
    }

    /// Sets the citation.
    pub fn with_source(self, source: Source) -> (r: MetricDef)
        ensures
            r@ == (DefView { source: Some(source@), ..self@ }),
    {
        let mut d = self;
        d.source = Some(source);
        d
    }

    /// Sets the insufficiency threshold.
    pub fn with_min_samples(self, n: u64) -> (r: MetricDef)
        ensures
            r@ == (DefView { min_samples: n, ..self@ }),
    {
        let mut d = self;
        d.min_samples = n;
        d
    }

    /// Declares one thing that the metric does not account for.
    pub fn not_accounting_for(self, what: &str) -> (r: MetricDef)
        ensures
            r@ == (DefView { not_accounted: self@.not_accounted.push(what@), ..self@ }),
    {
        broadcast use group_views;

        let mut d = self;
        d.not_accounted.push(what.to_owned());
        d
    }

    /// Marks the metric as a machine-dependent diagnostic.
    pub fn as_diagnostic(self) -> (r: MetricDef)
        ensures
            r@ == (DefView { diagnostic: true, ..self@ }),
    {
        let mut d = self;
        d.diagnostic = true;
        d
    }

    /// Names the values that the metric is reported for along `dim`.
    pub fn with_breakdown(self, dim: Dim, values: Vec<String>) -> (r: MetricDef)
        ensures
            r@ == (DefView {
                breakdown: self@.breakdown.push(BreakdownView { dim, values: texts(values@) }),
                ..self@
            }),
    {
        broadcast use group_views;

        let mut d = self;
        d.breakdown.push(Breakdown { dim, values });
        d
    }

    /// Marks the metric as reported only along its breakdown.
    pub fn breakdown_only(self) -> (r: MetricDef)
        ensures
            r@ == (DefView { only_broken_down: true, ..self@ }),
    {
        let mut d = self;
        d.only_broken_down = true;
        d
    }

    /// Sets the physically possible range; a missing bound is no bound.
    pub fn with_range(self, min_value: Option<Real>, max_value: Option<Real>) -> (r: MetricDef)
        ensures
            r@ == (DefView { min_value, max_value, ..self@ }),
    {
        let mut d = self;
        d.min_value = min_value;
        d.max_value = max_value;
        d
    }

    /// True if `v` is a physically possible value of the metric.
    pub fn admits(&self, v: Real) -> (r: bool)
        ensures
            r == self@.possible(v),
    {
        let above: bool = match self.min_value {
            Some(lo) => lo.not_above(&v),
            None => true,
        };
        let below: bool = match self.max_value {
            Some(hi) => v.not_above(&hi),
            None => true,
        };
        above && below
    }

    /// Checks the constraints that a definition can violate.
    pub fn validate(&self) -> (r: Result<(), MetricError>)
        ensures
            match r {
                Ok(_) => definition_problem(self@) is None,
                Err(e) => definition_problem(self@) is Some && e@ == (ErrorView::BadDefinition {
                    name: self.name@,
                    problem: definition_problem(self@)->Some_0,
                }),
            },
    {
        if is_blank(self.name.as_str()) {
            return self.bad("the name is empty".to_owned());
        }
        if is_blank(self.unit.as_str()) {
            return self.bad("the unit is empty".to_owned());
        }
        if is_blank(self.definition_md.as_str()) {
            return self.bad("the definition text is empty".to_owned());
        }
        match &self.agg {
            Agg::Quantile { q } => {
                if q.num() < 0 || (q.num() >= 0 && (q.num() as u128) > q.den()) {
                    return self.bad(
                        join3("quantile fraction ", q.to_text().as_str(), " is not in [0, 1]"),
                    );
                }
            },
            Agg::Ratio { numerator, denominator } => {
                if is_blank(numerator.as_str()) || is_blank(denominator.as_str()) {
                    return self.bad(
                        "a ratio aggregation must name both its numerator and its denominator".to_owned(),
                    );
                }
            },
            _ => {},
        }
        match first_repeated(&self.dims) {
            Some(d) => {
                return self.bad(join3("dimension ", d.as_str(), " is listed twice"));
            },
            None => {},
        }
        assert(texts(self.not_accounted@).len() == self.not_accounted@.len());
        if self.not_accounted.len() == 0 {
            return self.bad(
                "no metric accounts for everything: declare at least one omission in `not_accounted`".to_owned(),
            );
        }
        Ok(())
    }

    fn bad(&self, problem: String) -> (r: Result<(), MetricError>)
        ensures
            r is Err,
            r->Err_0@ == (ErrorView::BadDefinition { name: self.name@, problem: problem@ }),
    {
        Err(MetricError::BadDefinition { name: self.name.clone(), problem })
    }
}

fn first_repeated(dims: &Vec<Dim>) -> (r: Option<Dim>)
    ensures
        r == repeated_dim(dims@),
{
    let mut i: usize = 0;
    while i < dims.len()
        invariant
            i <= dims@.len(),
            repeated_dim(dims@.subrange(0, i as int)) is None,
        decreases dims@.len() - i,
    {
        let ghost now = dims@.subrange(0, i as int);
        let ghost next = dims@.subrange(0, i as int + 1);
        assert(next.drop_last() =~= now);
        let mut j: usize = 0;
        while j < i
            invariant
                i < dims@.len(),
                j <= i,
                now == dims@.subrange(0, i as int),
                next == dims@.subrange(0, i as int + 1),
                next.drop_last() == now,
                repeated_dim(now) is None,
                forall|k: int| 0 <= k < j ==> dims@[k] != dims@[i as int],
            decreases i - j,
        {
            if dims[j] == dims[i] {
                proof {
                    assert(now[j as int] == dims@[i as int]);
                    assert(now.contains(dims@[i as int]));
                    repeats_stay(dims@, i as int + 1);
                }
                return Some(dims[i]);
            }
            j = j + 1;
        }
        assert(!now.contains(dims@[i as int]));
        i = i + 1;
    }
    assert(dims@.subrange(0, i as int) =~= dims@);
    None
}

proof fn repeats_stay(dims: Seq<Dim>, n: int)
    requires
        0 <= n <= dims.len(),
        repeated_dim(dims.subrange(0, n)) is Some,
    ensures
        repeated_dim(dims) == repeated_dim(dims.subrange(0, n)),
    decreases dims.len() - n,
{
    if n < dims.len() {
        assert(dims.subrange(0, n + 1).drop_last() =~= dims.subrange(0, n));
        repeats_stay(dims, n + 1);
    } else {
        assert(dims.subrange(0, n) =~= dims);
    }
}

/// The value of one sample.
#[derive(Clone, Copy, Debug, PartialEq, Eq, Structural)]
pub enum SampleValue {
    /// A scalar with its observations, or a refusal.
    Scalar(Estimate),
    /// A ratio, or a refusal.
    Ratio(RatioEstimate),
    /// A distribution, or a refusal.
    Distribution(DistributionSummary),
    /// An exact count.
    Count {
        /// The count.
        count: u64,
    },
}

impl SampleValue {
    /// An exact count.
    pub fn count(count: u64) -> (r: SampleValue)
        ensures
            r == (SampleValue::Count { count }),
    {
        SampleValue::Count { count }
    }

    /// The point estimate, where there is one.
    pub open spec fn estimate(self) -> Option<Real> {
        match self {
            SampleValue::Scalar(Estimate::Value { point, .. }) => Some(point),
            SampleValue::Ratio(RatioEstimate::Proportion { point, .. }) => Some(point),
            SampleValue::Ratio(RatioEstimate::RatioOfSums { point, .. }) => Some(point),
            SampleValue::Distribution(DistributionSummary::Summary { mean, .. }) => Some(mean),
            SampleValue::Count { count } => Some(real_of(count as int, 1)),
            _ => None,
        }
    }

    /// The point estimate, where there is one.
    pub fn point(&self) -> (r: Option<Real>)
        ensures
            r == self.estimate(),
    {
        match *self {
            SampleValue::Scalar(e) => e.point(),
            SampleValue::Ratio(r) => r.point(),
            SampleValue::Distribution(d) => d.mean(),
            SampleValue::Count { count } => Some(Real::new(count as i128, 1)),
        }
    }

    /// The number of observations behind the value.
    pub open spec fn observations(self) -> u64 {
        match self {
            SampleValue::Scalar(e) => e.observations(),
            SampleValue::Ratio(r) => r.observations(),
            SampleValue::Distribution(d) => d.observations(),
            SampleValue::Count { .. } => 1,
        }
    }

    /// The number of observations behind the value.
    pub fn n(&self) -> (r: u64)
        ensures
            r == self.observations(),
    {
        match *self {
            SampleValue::Scalar(e) => e.n(),
            SampleValue::Ratio(r) => r.n(),
            SampleValue::Distribution(d) => d.n(),
            SampleValue::Count { .. } => 1,
        }
    }

    /// True if the value is a refusal.
    pub open spec fn refused(self) -> bool {
        match self {
            SampleValue::Scalar(e) => e is Insufficient,
            SampleValue::Ratio(r) => r is Insufficient,
            SampleValue::Distribution(d) => d is Insufficient,
            SampleValue::Count { .. } => false,
        }
    }

    /// True if the value is a refusal.
    pub fn is_insufficient(&self) -> (r: bool)
        ensures
            r == self.refused(),
    {
        match *self {
            SampleValue::Scalar(e) => e.is_insufficient(),
            SampleValue::Ratio(r) => r.is_insufficient(),
            SampleValue::Distribution(d) => d.is_insufficient(),
            SampleValue::Count { .. } => false,
        }
    }

    /// The value with every number on its grid: the point on the metric's, the bounds of
    /// an interval on that of probabilities, the two sums of a ratio on that of sums.
    pub open spec fn on(self, per_unit: int) -> SampleValue {
        match self {
            SampleValue::Scalar(e) => SampleValue::Scalar(e.on(per_unit)),
            SampleValue::Ratio(r) => SampleValue::Ratio(r.on(per_unit, 1_000)),
            SampleValue::Distribution(d) => SampleValue::Distribution(d.on(per_unit)),
            SampleValue::Count { count } => self,
        }
    }

    /// The value with every number on its grid.
    pub fn quantised(self, q: Quantum) -> (r: SampleValue)
        ensures
            r == self.on(q@),
    {
        match self {
            SampleValue::Scalar(e) => SampleValue::Scalar(e.quantised(q)),
            SampleValue::Ratio(r) => SampleValue::Ratio(r.quantised(q, Quantum::sum())),
            SampleValue::Distribution(d) => SampleValue::Distribution(d.quantised(q)),
            SampleValue::Count { count } => SampleValue::Count { count },
        }
    }

    /// Every number in the value, with the grid that it is put on.
    pub open spec fn graded(self, per_unit: int) -> Seq<(Real, int)> {
        match self {
            SampleValue::Scalar(Estimate::Value { point, .. }) => seq![(point, per_unit)],
            SampleValue::Ratio(RatioEstimate::Proportion { point, interval, .. }) => match interval {
                Some(i) => seq![(point, per_unit), (i.lo, 1_000_000), (i.hi, 1_000_000)],
                None => seq![(point, per_unit)],
            },
            SampleValue::Ratio(RatioEstimate::RatioOfSums { point, numerator, denominator, .. }) =>
                seq![(point, per_unit), (numerator, 1_000), (denominator, 1_000)],
            SampleValue::Distribution(
                DistributionSummary::Summary { min, max, mean, p50, p95, p99, .. },
            ) => seq![
                (min, per_unit),
                (max, per_unit),
                (mean, per_unit),
                (p50, per_unit),
                (p95, per_unit),
                (p99, per_unit),
            ],
            _ => Seq::empty(),
        }
    }

    /// Every number in the value.
    pub open spec fn numbers(self) -> Seq<Real> {
        self.graded(1).map_values(|g: (Real, int)| g.0)
    }

    /// Every number in the value, with the grid that it is put on.
    pub fn graded_floats(&self, q: Quantum) -> (r: Vec<(Real, Quantum)>)
        ensures
            graded_view(r@) == self.graded(q@),
    {
        let p = Quantum::probability();
        let s = Quantum::sum();
        let out: Vec<(Real, Quantum)> = match *self {
            SampleValue::Scalar(Estimate::Value { point, .. }) => vec![(point, q)],
            SampleValue::Ratio(RatioEstimate::Proportion { point, interval, .. }) => match interval {
                Some(i) => vec![(point, q), (i.lo, p), (i.hi, p)],
                None => vec![(point, q)],
            },
            SampleValue::Ratio(RatioEstimate::RatioOfSums { point, numerator, denominator, .. }) =>
                vec![(point, q), (numerator, s), (denominator, s)],
            SampleValue::Distribution(
                DistributionSummary::Summary { min, max, mean, p50, p95, p99, .. },
            ) => vec![(min, q), (max, q), (mean, q), (p50, q), (p95, q), (p99, q)],
            _ => Vec::new(),
        };
        assert(graded_view(out@) =~= self.graded(q@));
        out
    }

    /// Every number in the value.
    pub fn floats(&self) -> (r: Vec<Real>)
        ensures
            r@ == self.numbers(),
    {
        let out: Vec<Real> = match *self {
            SampleValue::Scalar(Estimate::Value { point, .. }) => vec![point],
            SampleValue::Ratio(RatioEstimate::Proportion { point, interval, .. }) => match interval {
                Some(i) => vec![point, i.lo, i.hi],
                None => vec![point],
            },
            SampleValue::Ratio(RatioEstimate::RatioOfSums { point, numerator, denominator, .. }) =>
                vec![point, numerator, denominator],
            SampleValue::Distribution(
                DistributionSummary::Summary { min, max, mean, p50, p95, p99, .. },
            ) => vec![min, max, mean, p50, p95, p99],
            _ => Vec::new(),
        };
        assert(out@ =~= self.numbers());
        out
    }
}

/// The numbers of a graded list and the points per unit of their grids.
pub open spec fn graded_view(s: Seq<(Real, Quantum)>) -> Seq<(Real, int)> {
    s.map_values(|g: (Real, Quantum)| (g.0, g.1@))
}

/// The graded numbers are all the numbers, in the same order, on whatever grid.
pub proof fn graded_numbers_are_the_numbers(v: SampleValue, per_unit: int)
    ensures
        v.graded(per_unit).map_values(|g: (Real, int)| g.0) == v.numbers(),
{
    assert(v.graded(per_unit).map_values(|g: (Real, int)| g.0) =~= v.numbers());
}

/// Every number of a written value stands on the grid that it is paired with.
pub proof fn written_numbers_are_on_their_grids(v: SampleValue, per_unit: int)
    requires
        0 < per_unit <= MAX_PER_UNIT,
    ensures
        forall|i: int|
            0 <= i < v.on(per_unit).graded(per_unit).len() ==> {
                let g = #[trigger] v.on(per_unit).graded(per_unit)[i];
                on_grid(g.0@, g.1)
            },
{
    assert forall|x: Real, k: int| 0 < k <= MAX_PER_UNIT implies on_grid(
        (#[trigger] quantised_real(x, k))@,
        k,
    ) by {
        quantising_is_idempotent(x@, k);
        real_of_is_the_quotient(crate::quant::index_of(x@, k), k);
    }
    let w = v.on(per_unit);
    assert forall|i: int| 0 <= i < w.graded(per_unit).len() implies {
        let g = #[trigger] w.graded(per_unit)[i];
        on_grid(g.0@, g.1)
    } by {}
}

/// One measurement of one metric at one instant.
pub struct MetricSample {
    /// The instant: the end of its window.
    pub t: SimTime,
    /// The metric's name.
    pub metric: String,
    /// Its unit.
    pub unit: String,
    /// The dimension values.
    pub dims: Dims,
    /// The value.
    pub value: SampleValue,
    /// The grid of the value.
    pub quantum: Quantum,
    /// Who may see it.
    pub visibility: Visibility,
    /// True for a machine-dependent diagnostic.
    pub diagnostic: bool,
    /// The tag of the aggregation.
    pub agg: String,
}

/// What a sample says.
#[verifier::ext_equal]
pub ghost struct SampleView {
    pub t: SimTime,
    pub metric: Seq<char>,
    pub unit: Seq<char>,
    pub dims: DimList,
    pub value: SampleValue,
    pub per_unit: int,
    pub visibility: Visibility,
    pub diagnostic: bool,
    pub agg: Seq<char>,
}

impl View for MetricSample {
    type V = SampleView;

    open spec fn view(&self) -> SampleView {
        SampleView {
            t: self.t,
            metric: self.metric@,
            unit: self.unit@,
            dims: self.dims.listing(),
            value: self.value,
            per_unit: self.quantum@,
            visibility: self.visibility,
            diagnostic: self.diagnostic,
            agg: self.agg@,
        }
    }
}

/// The sample of `def` at `t`: its value is put on the metric's grid.
pub open spec fn sample_of(def: DefView, t: SimTime, dims: DimList, value: SampleValue) -> SampleView {
    SampleView {
        t,
        metric: def.name,
        unit: def.unit,
        dims,
        value: value.on(def.per_unit),
        per_unit: def.per_unit,
        visibility: def.visibility,
        diagnostic: def.diagnostic,
        agg: def.agg.tag(),
    }
}

/// The dimension values of a key.
pub open spec fn dims_text(dims: DimList) -> Seq<char>
    decreases dims.len(),
{
    if dims.len() == 0 {
        Seq::empty()
    } else {
        dims_text(dims.drop_last()) + "|"@ + dims.last().0.text() + "="@ + dims.last().1.text()
    }
}

impl SampleView {
    /// The sample's stable key: its metric's name and its dimension values.
    pub open spec fn key(self) -> Seq<char> {
        self.metric + dims_text(self.dims)
    }
}

impl MetricSample {
    /// The sample of `def` at `t`, its value put on the metric's grid.
    pub fn new(def: &MetricDef, t: SimTime, dims: Dims, value: SampleValue) -> (r: MetricSample)
        ensures
            r@ == sample_of(def@, t, dims.listing(), value),
    {
        MetricSample {
            t,
            metric: def.name.clone(),
            unit: def.unit.clone(),
            dims,
            value: value.quantised(def.quantum),
            quantum: def.quantum,
            visibility: def.visibility,
            diagnostic: def.diagnostic,
            agg: def.agg.tag(),
        }
    }

    /// The sample's stable key.
    pub fn key(&self) -> (r: String)
        ensures
            r@ == self@.key(),
    {
        let mut k = self.metric.clone();
        let n: usize = self.dims.len();
        let mut i: usize = 0;
        assert(self.metric@ + dims_text(self.dims.listing().subrange(0, 0)) =~= self.metric@);
        while i < n
            invariant
                n == self.dims.listing().len(),
                i <= n,
                k@ == self.metric@ + dims_text(self.dims.listing().subrange(0, i as int)),
            decreases n - i,
        {
            let ghost before = k@;
            let d: Dim = *self.dims.key_at(i);
            let v = self.dims.value_at(i).to_text();
            k.append("|");
            k.append(d.as_str());
            k.append("=");
            k.append(v.as_str());
            proof {
                let l = self.dims.listing().subrange(0, i as int + 1);
                assert(l.drop_last() =~= self.dims.listing().subrange(0, i as int));
                assert(l.last() == (d, self.dims.listing()[i as int].1));
                assert(k@ =~= self.metric@ + dims_text(l));
            }
            i = i + 1;
        }
        assert(self.dims.listing().subrange(0, n as int) =~= self.dims.listing());
        k
    }

    /// Every number that the sample carries.
    pub fn floats(&self) -> (r: Vec<Real>)
        ensures
            r@ == self.value.numbers(),
    {
        self.value.floats()
    }

    /// Every number that the sample carries, with the grid that it was put on.
    pub fn graded_floats(&self) -> (r: Vec<(Real, Quantum)>)
        ensures
            graded_view(r@) == self.value.graded(self.quantum@),
    {
        self.value.graded_floats(self.quantum)
    }

    /// Who may see the sample.
    pub fn visibility(&self) -> (r: Visibility)
        ensures
            r == self.visibility,
    {
        self.visibility
    }
}

} // verus!
