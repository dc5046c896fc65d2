//! Model cards: what a model is, where its numbers come from and what it leaves out.

use vstd::prelude::*;
use crate::keyed::optional_text;
use crate::text::texts;

verus! {

/// The family that a model belongs to.
#[derive(Clone, Copy, Debug, PartialEq, Eq, Structural)]
pub enum Family {
    /// Mobility.
    Mobility,
    /// The physical layer.
    Phy,
    /// Medium access.
    Mac,
    /// Fragmentation.
    Fragmenter,
    /// Credential management.
    Protocol,
    /// Misbehaviour detection.
    Detector,
    /// Attacks.
    Attacker,
    /// Measurement.
    Metric,
}

impl Family {
    /// The family's name.
    pub open spec fn text(self) -> Seq<char> {
        match self {
            Family::Mobility => "mobility"@,
            Family::Phy => "phy"@,
            Family::Mac => "mac"@,
            Family::Fragmenter => "fragmenter"@,
            Family::Protocol => "protocol"@,
            Family::Detector => "detector"@,
            Family::Attacker => "attacker"@,
            Family::Metric => "metric"@,
        }
    }

    /// The family's name.
    pub fn as_str(self) -> (r: &'static str)
        ensures
            r@ == self.text(),
    {
        match self {
            Family::Mobility => "mobility",
            Family::Phy => "phy",
            Family::Mac => "mac",
            Family::Fragmenter => "fragmenter",
            Family::Protocol => "protocol",
            Family::Detector => "detector",
            Family::Attacker => "attacker",
            Family::Metric => "metric",
        }
    }
}

/// How faithful a model is.
#[derive(Clone, Copy, Debug, PartialEq, Eq, Structural)]
pub enum Tier {
    /// Abstract.
    Abstract,
    /// Medium.
    Medium,
    /// High.
    High,
}

impl Tier {
    /// The tier's name.
    pub open spec fn text(self) -> Seq<char> {
        match self {
            Tier::Abstract => "abstract"@,
            Tier::Medium => "medium"@,
            Tier::High => "high"@,
        }
    }

    /// The tier's name.
    pub fn as_str(self) -> (r: &'static str)
        ensures
            r@ == self.text(),
    {
        match self {
            Tier::Abstract => "abstract",
            Tier::Medium => "medium",
            Tier::High => "high",
        }
    }
}

/// What kind of thing a citation refers to.
#[derive(Clone, Copy, Debug, PartialEq, Eq, Structural)]
pub enum SourceKind {
    /// A standard.
    Standard,
    /// A paper or a report.
    Paper,
    /// A datasheet.
    Datasheet,
    /// A document or code of this project.
    Code,
    /// Nothing yet: the number is still to be calibrated.
    TodoCalibrate,
}

/// A citation.
#[derive(Debug)]
pub struct Source {
    /// What it refers to.
    pub kind: SourceKind,
    /// The reference.
    pub reference: String,
    /// When it was last looked up.
    pub accessed: Option<String>,
    /// A note.
    pub note: Option<String>,
}

/// What a citation says.
#[verifier::ext_equal]
pub ghost struct SourceView {
    pub kind: SourceKind,
    pub reference: Seq<char>,
    pub accessed: Option<Seq<char>>,
    pub note: Option<Seq<char>>,
}

impl View for Source {
    type V = SourceView;

    open spec fn view(&self) -> SourceView {
        SourceView {
            kind: self.kind,
            reference: self.reference@,
            accessed: optional_text(self.accessed),
            note: optional_text(self.note),
        }
    }
}

/// An equation that a model computes.
#[derive(Debug)]
pub struct Equation {
    /// Its name.
    pub name: String,
    /// The equation.
    pub latex_or_text: String,
}

/// What an equation says.
#[verifier::ext_equal]
pub ghost struct EquationView {
    pub name: Seq<char>,
    pub latex_or_text: Seq<char>,
}

impl View for Equation {
    type V = EquationView;

    open spec fn view(&self) -> EquationView {
        EquationView { name: self.name@, latex_or_text: self.latex_or_text@ }
    }
}

impl Equation {
    /// An equation.
    pub fn new(name: &str, latex_or_text: &str) -> (r: Equation)
        ensures
            r@ == (EquationView { name: name@, latex_or_text: latex_or_text@ }),
    {
        Equation { name: name.to_owned(), latex_or_text: latex_or_text.to_owned() }
    }
}

/// A declared numeric parameter.
#[derive(Debug)]
pub struct Parameter {
    /// Its name.
    pub name: String,
    /// Its unit.
    pub unit: String,
    /// Its default, as JSON text.
    pub default: String,
    /// The least and the greatest value, as JSON text.
    pub range: Option<(String, String)>,
    /// Where the default comes from.
    pub source: Source,
    /// The plan for calibrating it.
    pub calibration: Option<String>,
}

/// What a parameter declares.
#[verifier::ext_equal]
pub ghost struct ParameterView {
    pub name: Seq<char>,
    pub unit: Seq<char>,
    pub default: Seq<char>,
    pub range: Option<(Seq<char>, Seq<char>)>,
    pub source: SourceView,
    pub calibration: Option<Seq<char>>,
}

impl View for Parameter {
    type V = ParameterView;

    open spec fn view(&self) -> ParameterView {
        ParameterView {
            name: self.name@,
            unit: self.unit@,
            default: self.default@,
            range: match self.range {
                Some(r) => Some((r.0@, r.1@)),
                None => None,
            },
            source: self.source@,
            calibration: optional_text(self.calibration),
        }
    }
}

/// A model card.
#[derive(Debug)]
pub struct ModelCard {
    /// The model's id.
    pub id: String,
    /// Its family.
    pub family: Family,
    /// Its version.
    pub version: String,
    /// What it is for.
    pub purpose: String,
    /// The tiers it implements.
    pub tier: Vec<Tier>,
    /// What it computes.
    pub equations: Vec<Equation>,
    /// The parameters it reads.
    pub parameters: Vec<Parameter>,
    /// What it assumes.
    pub assumptions: Vec<String>,
    /// Where it stops being right.
    pub limitations: Vec<String>,
    /// What it leaves out.
    pub ignores: Vec<String>,
    /// Its citations.
    pub sources: Vec<Source>,
    /// True if it draws random numbers.
    pub uses_rng: bool,
    /// The tests that hold it to its word.
    pub validation_tests: Vec<String>,
}

/// What a model card says.
#[verifier::ext_equal]
pub ghost struct CardView {
    pub id: Seq<char>,
    pub family: Family,
    pub version: Seq<char>,
    pub purpose: Seq<char>,
    pub tier: Seq<Tier>,
    pub equations: Seq<EquationView>,
    pub parameters: Seq<ParameterView>,
    pub assumptions: Seq<Seq<char>>,
    pub limitations: Seq<Seq<char>>,
    pub ignores: Seq<Seq<char>>,
    pub sources: Seq<SourceView>,
    pub uses_rng: bool,
    pub validation_tests: Seq<Seq<char>>,
}

/// The views of a sequence.
pub open spec fn views<T: View>(s: Seq<T>) -> Seq<T::V> {
    s.map_values(|x: T| x@)
}

/// The views of a longer sequence are the views of the shorter one and of what was added.
pub broadcast proof fn views_push<T: View>(s: Seq<T>, x: T)
    ensures
        #[trigger] views(s.push(x)) == views(s).push(x@),
{
    assert(views(s.push(x)) =~= views(s).push(x@));
}

/// An empty sequence has no views.
pub broadcast proof fn views_empty<T: View>()
    ensures
        #[trigger] views(Seq::<T>::empty()) == Seq::<T::V>::empty(),
{
    assert(views(Seq::<T>::empty()) =~= Seq::<T::V>::empty());
}

/// The texts of a longer sequence are the texts of the shorter one and of what was added.
pub broadcast proof fn texts_push(s: Seq<String>, x: String)
    ensures
        #[trigger] texts(s.push(x)) == texts(s).push(x@),
{
    assert(texts(s.push(x)) =~= texts(s).push(x@));
}

/// An empty sequence has no texts.
pub broadcast proof fn texts_empty()
    ensures
        #[trigger] texts(Seq::<String>::empty()) == Seq::<Seq<char>>::empty(),
{
    assert(texts(Seq::<String>::empty()) =~= Seq::<Seq<char>>::empty());
}

pub broadcast group group_views {
    views_push,
    views_empty,
    texts_push,
    texts_empty,
}

impl View for ModelCard {
    type V = CardView;

    open spec fn view(&self) -> CardView {
        CardView {
            id: self.id@,
            family: self.family,
            version: self.version@,
            purpose: self.purpose@,
            tier: self.tier@,
            equations: views(self.equations@),
            parameters: views(self.parameters@),
            assumptions: texts(self.assumptions@),
            limitations: texts(self.limitations@),
            ignores: texts(self.ignores@),
            sources: views(self.sources@),
            uses_rng: self.uses_rng,
            validation_tests: texts(self.validation_tests@),
        }
    }
}

/// A card with nothing but its identity and its purpose on it.
pub open spec fn bare_card(id: Seq<char>, family: Family, version: Seq<char>, purpose: Seq<char>) -> CardView {
    CardView {
        id,
        family,
        version,
        purpose,
        tier: Seq::empty(),
        equations: Seq::empty(),
        parameters: Seq::empty(),
        assumptions: Seq::empty(),
        limitations: Seq::empty(),
        ignores: Seq::empty(),
        sources: Seq::empty(),
        uses_rng: false,
        validation_tests: Seq::empty(),
    }
}

impl ModelCard {
    /// A card with nothing but its identity and its purpose on it.
    pub fn new(id: &str, family: Family, version: &str, purpose: &str) -> (r: ModelCard)
        ensures
            r@ == bare_card(id@, family, version@, purpose@),
    {
        broadcast use group_views;

        ModelCard {
            id: id.to_owned(),
            family,
            version: version.to_owned(),
            purpose: purpose.to_owned(),
            tier: Vec::new(),
            equations: Vec::new(),
            parameters: Vec::new(),
            assumptions: Vec::new(),
            limitations: Vec::new(),
            ignores: Vec::new(),
            sources: Vec::new(),
            uses_rng: false,
            validation_tests: Vec::new(),
        }
    }

    /// True if the card declares `tier`.
    pub fn implements_tier(&self, tier: Tier) -> (r: bool)
        ensures
            r == self.tier@.contains(tier),
    {
        let mut i: usize = 0;
        while i < self.tier.len()
            invariant
                i <= self.tier@.len(),
                forall|j: int| 0 <= j < i ==> self.tier@[j] != tier,
            decreases self.tier@.len() - i,
        {
            if self.tier[i] == tier {
                return true;
            }
            i = i + 1;
        }
        false
    }

    /// Adds an equation.
    pub fn with_equation(self, name: &str, text: &str) -> (r: ModelCard)
        ensures
            r@ == (CardView {
                equations: self@.equations.push(
                    EquationView { name: name@, latex_or_text: text@ },
                ),
                ..self@
            }),
    {
        broadcast use group_views;

        let mut card = self;
        card.equations.push(Equation::new(name, text));
        card
    }

    /// Adds a parameter.
    pub fn with_parameter(self, parameter: Parameter) -> (r: ModelCard)
        ensures
            r@ == (CardView { parameters: self@.parameters.push(parameter@), ..self@ }),
    {
        broadcast use group_views;

        let mut card = self;
        card.parameters.push(parameter);
        card
    }

    /// Adds a citation.
    pub fn with_source(self, source: Source) -> (r: ModelCard)
        ensures
            r@ == (CardView { sources: self@.sources.push(source@), ..self@ }),
    {
        broadcast use group_views;

        let mut card = self;
        card.sources.push(source);
        card
    }

    /// Adds an assumption.
    pub fn assuming(self, what: &str) -> (r: ModelCard)
        ensures
            r@ == (CardView { assumptions: self@.assumptions.push(what@), ..self@ }),
    {
        broadcast use group_views;

        let mut card = self;
        card.assumptions.push(what.to_owned());
        card
    }

    /// Adds a limitation.
    pub fn limited_by(self, what: &str) -> (r: ModelCard)
        ensures
            r@ == (CardView { limitations: self@.limitations.push(what@), ..self@ }),
    {
        broadcast use group_views;

        let mut card = self;
        card.limitations.push(what.to_owned());
        card
    }

    /// Adds something that the model leaves out.
    pub fn ignoring(self, what: &str) -> (r: ModelCard)
        ensures
            r@ == (CardView { ignores: self@.ignores.push(what@), ..self@ }),
    {
        broadcast use group_views;

        let mut card = self;
        card.ignores.push(what.to_owned());
        card
    }

    /// Adds a test that holds the model to its word.
    pub fn tested_by(self, test: &str) -> (r: ModelCard)
        ensures
            r@ == (CardView { validation_tests: self@.validation_tests.push(test@), ..self@ }),
    {
        broadcast use group_views;

        let mut card = self;
        card.validation_tests.push(test.to_owned());
        card
    }
}

} // verus!
