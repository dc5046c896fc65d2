//! The model-card completeness gate: no uncalibrated default at the high tier without a
//! tracked calibration issue.
//!
//! [`run_over_cards`] walks a list of cards, finds every parameter that is still to be
//! calibrated on a card that declares the high tier, and looks for an issue on the
//! register that covers it. A pattern names one model, so no single line of the register
//! covers everything; a pattern that does not parse fails the calibration rule.

use vstd::prelude::*;
use vstd::string::*;
use crate::card::{group_views, views, CardView, ModelCard, Parameter, ParameterView, SourceKind, Tier};
use crate::error::{ErrorView, MetricError};
use crate::keyed::{SortedMap};
use crate::outside::{quoted, quoted_text};
use crate::text::{blank, characters, decimal, is_blank, is_space, is_space_char, is_text_before, join2, join_all, joined, numeral, same_text, text_before, text_before_irreflexive, text_before_total, text_before_transitive, texts};

verus! {

/// The schema that the calibration-issue register declares.
pub const ISSUE_REGISTER_SCHEMA: &'static str = "v2xw/calibration-issues/1";

/// The schema of a report.
pub const GATE_SCHEMA: &'static str = "v2xw/calibration-gate/1";

/// What stands between the model and the parameter in a coverage pattern.
pub const PATTERN_SEPARATOR: &'static str = "::";

/// How far along a calibration issue is.
#[derive(Clone, Copy, Debug, PartialEq, Eq, Structural)]
pub enum IssueState {
    /// Accepted, and not begun.
    Open,
    /// Being measured.
    InProgress,
    /// Waiting for something that is not to be had; still tracked work.
    Blocked,
    /// Finished. A finished calibration would have replaced the uncalibrated default, so
    /// this covers nothing.
    Closed,
}

impl IssueState {
    /// True if an issue in this state covers what its patterns name.
    pub open spec fn is_live(self) -> bool {
        self != IssueState::Closed
    }

    /// True if an issue in this state covers what its patterns name.
    pub fn covers(self) -> (r: bool)
        ensures
            r == self.is_live(),
    {
        match self {
            IssueState::Closed => false,
            _ => true,
        }
    }

    /// The state as it is written.
    pub open spec fn text(self) -> Seq<char> {
        match self {
            IssueState::Open => "open"@,
            IssueState::InProgress => "in-progress"@,
            IssueState::Blocked => "blocked"@,
            IssueState::Closed => "closed"@,
        }
    }

    /// The state as it is written.
    pub fn as_str(self) -> (r: &'static str)
        ensures
            r@ == self.text(),
    {
        match self {
            IssueState::Open => "open",
            IssueState::InProgress => "in-progress",
            IssueState::Blocked => "blocked",
            IssueState::Closed => "closed",
        }
    }
}

/// One tracked calibration issue.
#[derive(Debug)]
pub struct CalibrationIssue {
    /// Its stable id.
    pub id: String,
    /// What is uncalibrated.
    pub title: String,
    /// Who owns the measurement.
    pub owner: String,
    /// How far along it is.
    pub state: IssueState,
    /// The parameters it covers, as patterns of model and parameter.
    pub covers: Vec<String>,
    /// The measurement that would close it.
    pub measurement: String,
    /// Where the work is tracked.
    pub tracker: Option<String>,
    /// Why it is blocked.
    pub blocked_by: Option<String>,
}

/// The calibration-issue register.
#[derive(Debug)]
pub struct IssueRegister {
    /// The schema it declares.
    pub schema: String,
    /// The issues, in order.
    pub issues: Vec<CalibrationIssue>,
}

impl IssueRegister {
    /// A register without issues.
    pub fn empty() -> (r: IssueRegister)
        ensures
            r.schema@ == ISSUE_REGISTER_SCHEMA@,
            r.issues@.len() == 0,
    {
        IssueRegister { schema: ISSUE_REGISTER_SCHEMA.to_owned(), issues: Vec::new() }
    }

    /// True if the register declares the schema that the calibration rule reads.
    pub fn schema_matches(&self) -> (r: bool)
        ensures
            r == (self.schema@ == ISSUE_REGISTER_SCHEMA@),
    {
        same_text(self.schema.as_str(), ISSUE_REGISTER_SCHEMA)
    }

    /// The first issue with the given id.
    pub fn get(&self, id: &str) -> (r: Option<&CalibrationIssue>)
        ensures
            match r {
                Some(x) => exists|i: int|
                    {
                        &&& 0 <= i < self.issues@.len()
                        &&& #[trigger] self.issues@[i] == *x
                        &&& x.id@ == id@
                        &&& forall|j: int| 0 <= j < i ==> (#[trigger] self.issues@[j]).id@ != id@
                    },
                None => forall|j: int|
                    0 <= j < self.issues@.len() ==> (#[trigger] self.issues@[j]).id@ != id@,
            },
    {
        let mut i: usize = 0;
        while i < self.issues.len()
            invariant
                i <= self.issues@.len(),
                forall|j: int| 0 <= j < i ==> (#[trigger] self.issues@[j]).id@ != id@,
            decreases self.issues@.len() - i,
        {
            if same_text(self.issues[i].id.as_str(), id) {
                return Some(&self.issues[i]);
            }
            i = i + 1;
        }
        None
    }
}

/// True if a separator stands in `s` at `i`.
pub open spec fn separator_at(s: Seq<char>, i: int) -> bool {
    i + 1 < s.len() && s[i] == ':' && s[i + 1] == ':'
}

/// How many separators stand in `s` from position `i` on, none overlapping the one before.
pub open spec fn separators(s: Seq<char>, i: int) -> nat
    decreases s.len() - i,
{
    if i >= s.len() {
        0
    } else if separator_at(s, i) {
        1 + separators(s, i + 2)
    } else {
        separators(s, i + 1)
    }
}

/// The first separator in `s` from position `i` on, or the end.
pub open spec fn first_separator(s: Seq<char>, i: int) -> int
    decreases s.len() - i,
{
    if i >= s.len() || separator_at(s, i) {
        i
    } else {
        first_separator(s, i + 1)
    }
}

/// The first position from `i` on that holds no white space, or the end.
pub open spec fn skip_spaces(s: Seq<char>, i: int) -> int
    decreases s.len() - i,
{
    if i >= s.len() || !is_space(s[i]) {
        i
    } else {
        skip_spaces(s, i + 1)
    }
}

/// The position behind the last character before `j` that is no white space, or the start.
pub open spec fn drop_spaces(s: Seq<char>, j: int) -> int
    decreases j,
{
    if j <= 0 || !is_space(s[j - 1]) {
        j
    } else {
        drop_spaces(s, j - 1)
    }
}

/// `s` without the white space around it.
pub open spec fn trimmed(s: Seq<char>) -> Seq<char> {
    let a = skip_spaces(s, 0);
    let b = drop_spaces(s, s.len() as int);
    if a < b {
        s.subrange(a, b)
    } else {
        Seq::empty()
    }
}

/// How many stars stand in `s`.
pub open spec fn stars(s: Seq<char>) -> nat
    decreases s.len(),
{
    if s.len() == 0 {
        0
    } else {
        stars(s.drop_last()) + (if s.last() == '*' {
            1nat
        } else {
            0nat
        })
    }
}

/// The model half of a pattern with one separator.
pub open spec fn model_half(s: Seq<char>) -> Seq<char> {
    trimmed(s.subrange(0, first_separator(s, 0)))
}

/// The parameter half of a pattern with one separator.
pub open spec fn parameter_half(s: Seq<char>) -> Seq<char> {
    trimmed(s.subrange(first_separator(s, 0) + 2, s.len() as int))
}

/// What is wrong with a coverage pattern, if anything.
pub open spec fn pattern_problem(s: Seq<char>) -> Option<Seq<char>> {
    if separators(s, 0) != 1 {
        Some(
            "a pattern is `model-id::parameter`, and this has "@ + numeral(separators(s, 0))
                + " separator(s)"@,
        )
    } else if model_half(s).len() == 0 {
        Some("the model half is empty"@)
    } else if stars(model_half(s)) > 0 {
        Some(
            "the model half must be a literal registry id: a wildcard there would let one line cover every model in the engine, which is not coverage"@,
        )
    } else if parameter_half(s).len() == 0 {
        Some("the parameter half is empty; write `*` to mean every parameter"@)
    } else if stars(parameter_half(s)) > 1 || (stars(parameter_half(s)) == 1 && parameter_half(
        s,
    ).last() != '*') {
        Some(
            "the parameter half may be `*`, a trailing-`*` prefix, or a literal name; "@
                + quoted_text(parameter_half(s)) + " is none of those"@,
        )
    } else {
        None
    }
}

/// No pattern with a wildcard in its model half is well-formed: no pattern covers more
/// than one model.
pub proof fn no_pattern_covers_two_models(s: Seq<char>)
    requires
        pattern_problem(s) is None,
    ensures
        !model_half(s).contains('*'),
        model_half(s).len() > 0,
{
    no_stars(model_half(s));
}

proof fn no_stars(s: Seq<char>)
    ensures
        stars(s) == 0 <==> !s.contains('*'),
    decreases s.len(),
{
    if s.len() > 0 {
        no_stars(s.drop_last());
        if s.contains('*') {
            let i = choose|i: int| 0 <= i < s.len() && s[i] == '*';
            if i < s.len() - 1 {
                assert(s.drop_last()[i] == '*');
            }
        } else {
            assert(!s.drop_last().contains('*')) by {
                if s.drop_last().contains('*') {
                    let i = choose|i: int| 0 <= i < s.drop_last().len() && s.drop_last()[i] == '*';
                    assert(s[i] == '*');
                }
            }
            assert(s[s.len() - 1] != '*');
        }
    }
}

fn count_stars(s: &str) -> (r: usize)
    ensures
        r == stars(s@),
        r <= s@.len(),
{
    let x = characters(s);
    let mut n: usize = 0;
    let mut i: usize = 0;
    while i < x.len()
        invariant
            x@ == s@,
            i <= x@.len(),
            n <= i,
            n == stars(s@.subrange(0, i as int)),
        decreases x@.len() - i,
    {
        assert(s@.subrange(0, i as int + 1).drop_last() =~= s@.subrange(0, i as int));
        if x[i] == '*' {
            n = n + 1;
        }
        i = i + 1;
    }
    assert(s@.subrange(0, i as int) =~= s@);
    n
}

/// The part of `s` from `from` to `to`, without the white space around it.
fn trim_part(s: &str, from: usize, to: usize) -> (r: &str)
    requires
        from <= to <= s@.len(),
    ensures
        r@ == trimmed(s@.subrange(from as int, to as int)),
{
    let x = characters(s);
    let ghost t = s@.subrange(from as int, to as int);
    let mut a: usize = from;
    while a < to && is_space_char(x[a])
        invariant
            x@ == s@,
            from <= a <= to <= s@.len(),
            t == s@.subrange(from as int, to as int),
            skip_spaces(t, 0) == skip_spaces(t, a - from),
        decreases to - a,
    {
        assert(t[a - from] == x@[a as int]);
        a = a + 1;
    }
    assert(a < to ==> t[a - from] == x@[a as int]);
    let mut b: usize = to;
    while b > from && is_space_char(x[b - 1])
        invariant
            x@ == s@,
            from <= b <= to <= s@.len(),
            t == s@.subrange(from as int, to as int),
            drop_spaces(t, t.len() as int) == drop_spaces(t, b - from),
        decreases b - from,
    {
        assert(t[b - from - 1] == x@[b - 1]);
        b = b - 1;
    }
    assert(b > from ==> t[b - from - 1] == x@[b - 1]);
    if a < b {
        let r = s.substring_char(a, b);
        assert(r@ =~= t.subrange(a - from, b - from));
        r
    } else {
        let r = s.substring_char(from, from);
        assert(r@ =~= Seq::<char>::empty());
        r
    }
}

/// Splits a coverage pattern into its model and its parameter, or says what is wrong with
/// it: there is exactly one separator, the model is literal, and the parameter is a star,
/// a prefix with a star behind it, or literal.
pub fn parse_pattern(pattern: &str) -> (r: Result<(&str, &str), String>)
    ensures
        match r {
            Ok((m, p)) => {
                &&& pattern_problem(pattern@) is None
                &&& m@ == model_half(pattern@)
                &&& p@ == parameter_half(pattern@)
            },
            Err(e) => pattern_problem(pattern@) == Some(e@),
        },
{
    let x = characters(pattern);
    let ghost s = pattern@;
    let n: usize = x.len();
    let mut found: u64 = 0;
    let mut first: usize = n;
    let mut i: usize = 0;
    while i < n
        invariant
            x@ == s,
            s == pattern@,
            n == s.len(),
            i <= n + 1,
            found <= i,
            found + separators(s, i as int) == separators(s, 0),
            found == 0 ==> first == n && first_separator(s, 0) == first_separator(s, i as int) && i
                <= n,
            found > 0 ==> first_separator(s, 0) == first && first + 2 <= n,
        decreases n + 1 - i,
    {
        if i < n - 1 && x[i] == ':' && x[i + 1] == ':' {
            assert(separator_at(s, i as int));
            if found == 0 {
                first = i;
            }
            found = found + 1;
            i = i + 2;
        } else {
            assert(!separator_at(s, i as int));
            i = i + 1;
        }
    }
    if found != 1 {
        let mut e = join2("a pattern is `model-id::parameter`, and this has ", decimal(found).as_str());
        e.append(" separator(s)");
        return Err(e);
    }
    let model = trim_part(pattern, 0, first);
    let param = trim_part(pattern, first + 2, n);
    if model.unicode_len() == 0 {
        return Err("the model half is empty".to_owned());
    }
    if count_stars(model) > 0 {
        return Err(
            "the model half must be a literal registry id: a wildcard there would let one line cover every model in the engine, which is not coverage".to_owned(),
        );
    }
    let len: usize = param.unicode_len();
    if len == 0 {
        return Err("the parameter half is empty; write `*` to mean every parameter".to_owned());
    }
    let k: usize = count_stars(param);
    if k > 1 || (k == 1 && param.get_char(len - 1) != '*') {
        let mut e = join2(
            "the parameter half may be `*`, a trailing-`*` prefix, or a literal name; ",
            quoted(param).as_str(),
        );
        e.append(" is none of those");
        return Err(e);
    }
    Ok((model, param))
}

/// True if the parameter half of a well-formed pattern names `parameter`: by its prefix
/// where the half ends in a star, by its name otherwise.
pub open spec fn names_parameter(half: Seq<char>, parameter: Seq<char>) -> bool {
    if half.len() > 0 && half.last() == '*' {
        half.drop_last().len() <= parameter.len() && parameter.subrange(
            0,
            half.len() - 1,
        ) == half.drop_last()
    } else {
        half == parameter
    }
}

/// True if the parameter half of a well-formed pattern names `parameter`.
pub fn parameter_matches(pattern_param: &str, parameter: &str) -> (r: bool)
    ensures
        r == names_parameter(pattern_param@, parameter@),
{
    let n: usize = pattern_param.unicode_len();
    if n > 0 && pattern_param.get_char(n - 1) == '*' {
        let m: usize = parameter.unicode_len();
        if n - 1 > m {
            return false;
        }
        let prefix = pattern_param.substring_char(0, n - 1);
        let start = parameter.substring_char(0, n - 1);
        assert(prefix@ =~= pattern_param@.drop_last());
        same_text(prefix, start)
    } else {
        same_text(pattern_param, parameter)
    }
}

/// A coverage pattern that does not parse.
#[derive(Debug)]
pub struct MalformedPattern {
    /// The issue it is on.
    pub issue: String,
    /// The pattern.
    pub pattern: String,
    /// What is wrong with it.
    pub problem: String,
}

/// A coverage pattern that does not parse.
#[verifier::ext_equal]
pub ghost struct MalformedView {
    pub issue: Seq<char>,
    pub pattern: Seq<char>,
    pub problem: Seq<char>,
}

impl View for MalformedPattern {
    type V = MalformedView;

    open spec fn view(&self) -> MalformedView {
        MalformedView { issue: self.issue@, pattern: self.pattern@, problem: self.problem@ }
    }
}

/// Why one parameter fails the calibration rule.
#[derive(Debug)]
pub enum FailureReason {
    /// No issue covers it.
    NoIssue,
    /// Every issue that covers it is closed; these are they.
    IssueClosed(Vec<String>),
    /// It has no calibration plan.
    NoPlan,
}

/// Why one parameter fails the calibration rule.
pub ghost enum ReasonView {
    NoIssue,
    IssueClosed(Seq<Seq<char>>),
    NoPlan,
}

impl View for FailureReason {
    type V = ReasonView;

    open spec fn view(&self) -> ReasonView {
        match *self {
            FailureReason::NoIssue => ReasonView::NoIssue,
            FailureReason::IssueClosed(ids) => ReasonView::IssueClosed(texts(ids@)),
            FailureReason::NoPlan => ReasonView::NoPlan,
        }
    }
}

impl ReasonView {
    /// A short label for a table.
    pub open spec fn label(self) -> Seq<char> {
        match self {
            ReasonView::NoIssue => "no issue"@,
            ReasonView::IssueClosed(_) => "issue closed"@,
            ReasonView::NoPlan => "no plan (rule R1)"@,
        }
    }
}

impl FailureReason {
    /// A short label for a table.
    pub fn label(&self) -> (r: &'static str)
        ensures
            r@ == self@.label(),
    {
        match self {
            FailureReason::NoIssue => "no issue",
            FailureReason::IssueClosed(_) => "issue closed",
            FailureReason::NoPlan => "no plan (rule R1)",
        }
    }
}

/// One parameter that fails the calibration rule.
#[derive(Debug)]
pub struct GateFailure {
    /// The model.
    pub model: String,
    /// Its version.
    pub version: String,
    /// The parameter.
    pub parameter: String,
    /// Its unit.
    pub unit: String,
    /// Its default, as JSON text.
    pub default: String,
    /// What the number stands for.
    pub stands_for: String,
    /// The calibration plan, empty where there is none.
    pub plan: String,
    /// The tiers that the card declares.
    pub tiers: Vec<String>,
    /// Why it fails.
    pub reason: FailureReason,
}

/// One parameter that fails the calibration rule.
#[verifier::ext_equal]
pub ghost struct FailureView {
    pub model: Seq<char>,
    pub version: Seq<char>,
    pub parameter: Seq<char>,
    pub unit: Seq<char>,
    pub default: Seq<char>,
    pub stands_for: Seq<char>,
    pub plan: Seq<char>,
    pub tiers: Seq<Seq<char>>,
    pub reason: ReasonView,
}

impl View for GateFailure {
    type V = FailureView;

    open spec fn view(&self) -> FailureView {
        FailureView {
            model: self.model@,
            version: self.version@,
            parameter: self.parameter@,
            unit: self.unit@,
            default: self.default@,
            stands_for: self.stands_for@,
            plan: self.plan@,
            tiers: texts(self.tiers@),
            reason: self.reason@,
        }
    }
}

impl FailureView {
    /// One line for a terminal.
    pub open spec fn line(self) -> Seq<char> {
        self.model + "::"@ + self.parameter + " ("@ + self.unit + ") — "@ + self.reason.label()
            + ": default "@ + self.default + ", stands for "@ + quoted_text(self.stands_for)
    }
}

impl GateFailure {
    /// One line for a terminal.
    pub fn line(&self) -> (r: String)
        ensures
            r@ == self@.line(),
    {
        let mut s = self.model.clone();
        s.append("::");
        s.append(self.parameter.as_str());
        s.append(" (");
        s.append(self.unit.as_str());
        s.append(") — ");
        s.append(self.reason.label());
        s.append(": default ");
        s.append(self.default.as_str());
        s.append(", stands for ");
        s.append(quoted(self.stands_for.as_str()).as_str());
        s
    }
}

/// A well-formed pattern of the register.
pub ghost struct Rule {
    /// The position of its issue.
    pub issue: int,
    pub model: Seq<char>,
    pub parameter: Seq<char>,
}

/// The patterns of one issue.
pub open spec fn patterns_of(issue: int, covers: Seq<String>) -> Seq<(int, Seq<char>)> {
    Seq::new(covers.len(), |k: int| (issue, covers[k]@))
}

/// The patterns of all issues, in order.
pub open spec fn all_patterns(issues: Seq<CalibrationIssue>) -> Seq<(int, Seq<char>)>
    decreases issues.len(),
{
    if issues.len() == 0 {
        Seq::empty()
    } else {
        all_patterns(issues.drop_last()) + patterns_of(issues.len() - 1, issues.last().covers@)
    }
}

/// The well-formed ones among some patterns.
pub open spec fn rules(patterns: Seq<(int, Seq<char>)>) -> Seq<Rule>
    decreases patterns.len(),
{
    if patterns.len() == 0 {
        Seq::empty()
    } else {
        let (i, s) = patterns.last();
        let before = rules(patterns.drop_last());
        if pattern_problem(s) is None {
            before.push(Rule { issue: i, model: model_half(s), parameter: parameter_half(s) })
        } else {
            before
        }
    }
}

/// The malformed ones among some patterns.
pub open spec fn malformed(issues: Seq<CalibrationIssue>, patterns: Seq<(int, Seq<char>)>) -> Seq<
    MalformedView,
>
    decreases patterns.len(),
{
    if patterns.len() == 0 {
        Seq::empty()
    } else {
        let (i, s) = patterns.last();
        let before = malformed(issues, patterns.drop_last());
        match pattern_problem(s) {
            None => before,
            Some(problem) => before.push(
                MalformedView { issue: issues[i].id@, pattern: s, problem },
            ),
        }
    }
}

/// True if a rule reaches a parameter of a model.
pub open spec fn reaches(r: Rule, model: Seq<char>, parameter: Seq<char>) -> bool {
    r.model == model && names_parameter(r.parameter, parameter)
}

/// True if an issue that is not closed has a rule that reaches the parameter.
pub open spec fn tracked_by(
    issues: Seq<CalibrationIssue>,
    rs: Seq<Rule>,
    model: Seq<char>,
    parameter: Seq<char>,
) -> bool
    decreases rs.len(),
{
    rs.len() > 0 && (tracked_by(issues, rs.drop_last(), model, parameter) || (reaches(
        rs.last(),
        model,
        parameter,
    ) && issues[rs.last().issue].state.is_live()))
}

/// The closed issues with a rule that reaches the parameter, in the order of the rules.
pub open spec fn closed_by(
    issues: Seq<CalibrationIssue>,
    rs: Seq<Rule>,
    model: Seq<char>,
    parameter: Seq<char>,
) -> Seq<Seq<char>>
    decreases rs.len(),
{
    if rs.len() == 0 {
        Seq::empty()
    } else {
        let before = closed_by(issues, rs.drop_last(), model, parameter);
        if reaches(rs.last(), model, parameter) && !issues[rs.last().issue].state.is_live() {
            before.push(issues[rs.last().issue].id@)
        } else {
            before
        }
    }
}

/// True if issue `k` has a rule that reaches the parameter.
pub open spec fn touches(rs: Seq<Rule>, model: Seq<char>, parameter: Seq<char>, k: int) -> bool
    decreases rs.len(),
{
    rs.len() > 0 && (touches(rs.drop_last(), model, parameter, k) || (reaches(
        rs.last(),
        model,
        parameter,
    ) && rs.last().issue == k))
}

/// A parameter that is still to be calibrated, with its card.
pub ghost struct Uncalibrated {
    pub card: CardView,
    pub parameter: ParameterView,
}

impl Uncalibrated {
    /// True if the card declares the high tier.
    pub open spec fn high(self) -> bool {
        self.card.tier.contains(Tier::High)
    }

    /// The calibration plan, empty where there is none.
    pub open spec fn plan(self) -> Seq<char> {
        match self.parameter.calibration {
            Some(p) => p,
            None => Seq::empty(),
        }
    }

    /// Why the parameter is not covered, if it is not: it has no plan, every issue that
    /// reaches it is closed, or none reaches it.
    pub open spec fn reason(self, issues: Seq<CalibrationIssue>, rs: Seq<Rule>) -> Option<
        ReasonView,
    > {
        if blank(self.plan()) {
            Some(ReasonView::NoPlan)
        } else if tracked_by(issues, rs, self.card.id, self.parameter.name) {
            None
        } else if closed_by(issues, rs, self.card.id, self.parameter.name).len() > 0 {
            Some(
                ReasonView::IssueClosed(closed_by(issues, rs, self.card.id, self.parameter.name)),
            )
        } else {
            Some(ReasonView::NoIssue)
        }
    }

    /// The failure that the parameter is, for the given reason.
    pub open spec fn failure(self, reason: ReasonView) -> FailureView {
        FailureView {
            model: self.card.id,
            version: self.card.version,
            parameter: self.parameter.name,
            unit: self.parameter.unit,
            default: self.parameter.default,
            stands_for: self.parameter.source.reference,
            plan: self.plan(),
            tiers: tier_names(self.card.tier),
            reason,
        }
    }
}

/// The names of some tiers.
pub open spec fn tier_names(tiers: Seq<Tier>) -> Seq<Seq<char>> {
    Seq::new(tiers.len(), |i: int| tiers[i].text())
}

/// The uncalibrated parameters among the given ones of a card.
pub open spec fn uncalibrated_of(card: CardView, parameters: Seq<ParameterView>) -> Seq<
    Uncalibrated,
>
    decreases parameters.len(),
{
    if parameters.len() == 0 {
        Seq::empty()
    } else {
        let before = uncalibrated_of(card, parameters.drop_last());
        if parameters.last().source.kind == SourceKind::TodoCalibrate {
            before.push(Uncalibrated { card, parameter: parameters.last() })
        } else {
            before
        }
    }
}

/// The uncalibrated parameters of some cards, in order.
pub open spec fn uncalibrated(cards: Seq<CardView>) -> Seq<Uncalibrated>
    decreases cards.len(),
{
    if cards.len() == 0 {
        Seq::empty()
    } else {
        uncalibrated(cards.drop_last()) + uncalibrated_of(cards.last(), cards.last().parameters)
    }
}

/// How many parameters some cards have.
pub open spec fn parameter_count(cards: Seq<CardView>) -> int
    decreases cards.len(),
{
    if cards.len() == 0 {
        0
    } else {
        parameter_count(cards.drop_last()) + cards.last().parameters.len()
    }
}

/// How many of some cards declare the high tier.
pub open spec fn high_count(cards: Seq<CardView>) -> int
    decreases cards.len(),
{
    if cards.len() == 0 {
        0
    } else {
        high_count(cards.drop_last()) + (if cards.last().tier.contains(Tier::High) {
            1int
        } else {
            0int
        })
    }
}

/// How many of some uncalibrated parameters stand on a card of the high tier.
pub open spec fn high_todo(todo: Seq<Uncalibrated>) -> int
    decreases todo.len(),
{
    if todo.len() == 0 {
        0
    } else {
        high_todo(todo.drop_last()) + (if todo.last().high() {
            1int
        } else {
            0int
        })
    }
}

/// How many of some uncalibrated parameters at the high tier are covered.
pub open spec fn covered_count(
    issues: Seq<CalibrationIssue>,
    rs: Seq<Rule>,
    todo: Seq<Uncalibrated>,
) -> int
    decreases todo.len(),
{
    if todo.len() == 0 {
        0
    } else {
        covered_count(issues, rs, todo.drop_last()) + (if todo.last().high() && todo.last().reason(
            issues,
            rs,
        ) is None {
            1int
        } else {
            0int
        })
    }
}

/// True if `a` is listed before `b`: by model, then by parameter.
pub open spec fn failure_before(a: FailureView, b: FailureView) -> bool {
    text_before(a.model, b.model) || (a.model == b.model && text_before(a.parameter, b.parameter))
}

/// Where `f` goes in an ordered list: behind everything that does not come after it.
pub open spec fn failure_slot(s: Seq<FailureView>, f: FailureView) -> int
    decreases s.len(),
{
    if s.len() == 0 || !failure_before(f, s.last()) {
        s.len() as int
    } else {
        failure_slot(s.drop_last(), f)
    }
}

/// An ordered list with `f` put in its place.
pub open spec fn filed(s: Seq<FailureView>, f: FailureView) -> Seq<FailureView> {
    s.insert(failure_slot(s, f), f)
}

/// The failures among some uncalibrated parameters, at the high tier or outside it, in
/// order of model and parameter.
pub open spec fn failures_of(
    issues: Seq<CalibrationIssue>,
    rs: Seq<Rule>,
    todo: Seq<Uncalibrated>,
    high: bool,
) -> Seq<FailureView>
    decreases todo.len(),
{
    if todo.len() == 0 {
        Seq::empty()
    } else {
        let before = failures_of(issues, rs, todo.drop_last(), high);
        match todo.last().reason(issues, rs) {
            Some(reason) => if todo.last().high() == high {
                filed(before, todo.last().failure(reason))
            } else {
                before
            },
            None => before,
        }
    }
}

/// True if issue `k` reaches one of some uncalibrated parameters.
pub open spec fn used(rs: Seq<Rule>, todo: Seq<Uncalibrated>, k: int) -> bool
    decreases todo.len(),
{
    todo.len() > 0 && (used(rs, todo.drop_last(), k) || touches(
        rs,
        todo.last().card.id,
        todo.last().parameter.name,
        k,
    ))
}

/// The issues that reach none of some uncalibrated parameters.
pub open spec fn unused(issues: Seq<CalibrationIssue>, rs: Seq<Rule>, todo: Seq<Uncalibrated>, n: int) -> Seq<
    Seq<char>,
>
    decreases n,
{
    if n <= 0 {
        Seq::empty()
    } else {
        let before = unused(issues, rs, todo, n - 1);
        if used(rs, todo, n - 1) {
            before
        } else {
            before.push(issues[n - 1].id@)
        }
    }
}

/// The calibration rule's verdict.
#[derive(Debug)]
pub struct GateReport {
    /// The schema of the report.
    pub schema: String,
    /// The schema that the register declares.
    pub register_schema: String,
    /// How many issues the register holds.
    pub register_issues: usize,
    /// How many cards were examined.
    pub models: usize,
    /// How many of them declare the high tier.
    pub high_tier_models: usize,
    /// How many parameters were examined.
    pub parameters: usize,
    /// How many of them are still to be calibrated.
    pub todo_parameters: usize,
    /// How many of those stand on a card of the high tier.
    pub high_tier_todo_parameters: usize,
    /// How many of those an issue covers.
    pub covered: usize,
    /// The failures, by model and parameter.
    pub failures: Vec<GateFailure>,
    /// Uncovered parameters on cards that do not declare the high tier.
    pub outside_gate: Vec<GateFailure>,
    /// The issues that reach no uncalibrated parameter.
    pub unused_issues: Vec<String>,
    /// The patterns that do not parse.
    pub malformed_patterns: Vec<MalformedPattern>,
}

/// The calibration rule's verdict.
#[verifier::ext_equal]
pub ghost struct ReportView {
    pub schema: Seq<char>,
    pub register_schema: Seq<char>,
    pub register_issues: int,
    pub models: int,
    pub high_tier_models: int,
    pub parameters: int,
    pub todo_parameters: int,
    pub high_tier_todo_parameters: int,
    pub covered: int,
    pub failures: Seq<FailureView>,
    pub outside_gate: Seq<FailureView>,
    pub unused_issues: Seq<Seq<char>>,
    pub malformed_patterns: Seq<MalformedView>,
}

impl View for GateReport {
    type V = ReportView;

    open spec fn view(&self) -> ReportView {
        ReportView {
            schema: self.schema@,
            register_schema: self.register_schema@,
            register_issues: self.register_issues as int,
            models: self.models as int,
            high_tier_models: self.high_tier_models as int,
            parameters: self.parameters as int,
            todo_parameters: self.todo_parameters as int,
            high_tier_todo_parameters: self.high_tier_todo_parameters as int,
            covered: self.covered as int,
            failures: views(self.failures@),
            outside_gate: views(self.outside_gate@),
            unused_issues: texts(self.unused_issues@),
            malformed_patterns: views(self.malformed_patterns@),
        }
    }
}

/// The verdict on some cards under a register.
pub open spec fn verdict(cards: Seq<CardView>, schema: Seq<char>, issues: Seq<CalibrationIssue>) -> ReportView {
    let patterns = all_patterns(issues);
    let rs = rules(patterns);
    let todo = uncalibrated(cards);
    ReportView {
        schema: GATE_SCHEMA@,
        register_schema: schema,
        register_issues: issues.len() as int,
        models: cards.len() as int,
        high_tier_models: high_count(cards),
        parameters: parameter_count(cards),
        todo_parameters: todo.len() as int,
        high_tier_todo_parameters: high_todo(todo),
        covered: covered_count(issues, rs, todo),
        failures: failures_of(issues, rs, todo, true),
        outside_gate: failures_of(issues, rs, todo, false),
        unused_issues: unused(issues, rs, todo, issues.len() as int),
        malformed_patterns: malformed(issues, patterns),
    }
}

impl ReportView {
    /// True if nothing failed.
    pub open spec fn passes(self) -> bool {
        self.failures.len() == 0 && self.malformed_patterns.len() == 0
    }

    /// Every failure as one line, malformed patterns first.
    pub open spec fn lines(self) -> Seq<Seq<char>> {
        Seq::new(
            self.malformed_patterns.len(),
            |i: int| malformed_line(self.malformed_patterns[i]),
        ) + Seq::new(self.failures.len(), |i: int| self.failures[i].line())
    }

    /// The verdict in one line.
    pub open spec fn summary(self) -> Seq<char> {
        if self.passes() {
            "PASS — "@ + numeral(self.covered as nat) + " of "@ + numeral(
                self.high_tier_todo_parameters as nat,
            ) + " uncalibrated high-tier defaults covered by "@ + numeral(
                self.register_issues as nat,
            ) + " tracked issue(s)"@
        } else {
            "FAIL — "@ + numeral(self.failures.len()) + " of "@ + numeral(
                self.high_tier_todo_parameters as nat,
            ) + " uncalibrated high-tier defaults have no tracked calibration issue ("@ + numeral(
                self.malformed_patterns.len(),
            ) + " malformed pattern(s), "@ + numeral(self.outside_gate.len())
                + " further uncalibrated default(s) on cards that do not declare the high tier)"@
        }
    }
}

/// One malformed pattern as one line.
pub open spec fn malformed_line(m: MalformedView) -> Seq<char> {
    "register issue "@ + m.issue + ": pattern "@ + quoted_text(m.pattern) + " is malformed: "@
        + m.problem
}

/// A well-formed pattern of the register, borrowed from it.
struct ParsedRule<'a> {
    issue: usize,
    model: &'a str,
    parameter: &'a str,
}

impl<'a> View for ParsedRule<'a> {
    type V = Rule;

    closed spec fn view(&self) -> Rule {
        Rule { issue: self.issue as int, model: self.model@, parameter: self.parameter@ }
    }
}

/// Splits every pattern of the register, and keeps the ones that do not parse.
fn parse_register<'a>(register: &'a IssueRegister) -> (r: (Vec<ParsedRule<'a>>, Vec<MalformedPattern>))
    ensures
        views(r.0@) == rules(all_patterns(register.issues@)),
        views(r.1@) == malformed(register.issues@, all_patterns(register.issues@)),
        forall|i: int| 0 <= i < r.0@.len() ==> (#[trigger] r.0@[i]).issue < register.issues@.len(),
{
    broadcast use group_views;

    let ghost issues = register.issues@;
    let mut parsed: Vec<ParsedRule<'a>> = Vec::new();
    let mut bad: Vec<MalformedPattern> = Vec::new();
    let mut i: usize = 0;
    while i < register.issues.len()
        invariant
            issues == register.issues@,
            i <= issues.len(),
            views(parsed@) == rules(all_patterns(issues.subrange(0, i as int))),
            views(bad@) == malformed(issues, all_patterns(issues.subrange(0, i as int))),
            forall|k: int| 0 <= k < parsed@.len() ==> (#[trigger] parsed@[k]).issue < issues.len(),
        decreases issues.len() - i,
    {
        let issue = &register.issues[i];
        let ghost covers = issue.covers@;
        let ghost done = all_patterns(issues.subrange(0, i as int));
        let mut j: usize = 0;
        assert(done + patterns_of(i as int, covers.subrange(0, 0)) =~= done);
        while j < issue.covers.len()
            invariant
                issues == register.issues@,
                i < issues.len(),
                *issue == issues[i as int],
                covers == issue.covers@,
                j <= covers.len(),
                views(parsed@) == rules(done + patterns_of(i as int, covers.subrange(0, j as int))),
                views(bad@) == malformed(
                    issues,
                    done + patterns_of(i as int, covers.subrange(0, j as int)),
                ),
                forall|k: int|
                    0 <= k < parsed@.len() ==> (#[trigger] parsed@[k]).issue < issues.len(),
            decreases covers.len() - j,
        {
            broadcast use group_views;

            let ghost now = done + patterns_of(i as int, covers.subrange(0, j as int));
            let ghost next = done + patterns_of(i as int, covers.subrange(0, j as int + 1));
            proof {
                assert(next.drop_last() =~= now);
                assert(next.last() == (i as int, covers[j as int]@));
            }
            match parse_pattern(issue.covers[j].as_str()) {
                Ok((model, parameter)) => {
                    parsed.push(ParsedRule { issue: i, model, parameter });
                },
                Err(problem) => {
                    bad.push(
                        MalformedPattern {
                            issue: issue.id.clone(),
                            pattern: issue.covers[j].clone(),
                            problem,
                        },
                    );
                },
            }
            j = j + 1;
        }
        proof {
            assert(covers.subrange(0, j as int) =~= covers);
            let longer = issues.subrange(0, i as int + 1);
            assert(longer.drop_last() =~= issues.subrange(0, i as int));
            assert(all_patterns(longer) == done + patterns_of(i as int, covers));
        }
        i = i + 1;
    }
    assert(issues.subrange(0, i as int) =~= issues);
    (parsed, bad)
}

/// Decides one parameter, and marks the issues that reach it.
fn judge(
    register: &IssueRegister,
    parsed: &Vec<ParsedRule>,
    card: &ModelCard,
    parameter: &Parameter,
    marks: &mut Vec<bool>,
) -> (r: Option<FailureReason>)
    requires
        old(marks)@.len() == register.issues@.len(),
        forall|i: int|
            0 <= i < parsed@.len() ==> (#[trigger] parsed@[i]).issue < register.issues@.len(),
    ensures
        final(marks)@.len() == old(marks)@.len(),
        forall|k: int|
            0 <= k < final(marks)@.len() ==> #[trigger] final(marks)@[k] == (old(marks)@[k]
                || touches(views(parsed@), card.id@, parameter.name@, k)),
        match r {
            Some(reason) => Uncalibrated { card: card@, parameter: parameter@ }.reason(
                register.issues@,
                views(parsed@),
            ) == Some(reason@),
            None => Uncalibrated { card: card@, parameter: parameter@ }.reason(
                register.issues@,
                views(parsed@),
            ) is None,
        },
{
    broadcast use group_views;

    let ghost issues = register.issues@;
    let ghost rs = views(parsed@);
    let ghost model = card.id@;
    let ghost name = parameter.name@;
    let ghost marks0 = marks@;
    let mut live: bool = false;
    let mut closed: Vec<String> = Vec::new();
    let mut i: usize = 0;
    assert(views(parsed@.subrange(0, 0)) =~= Seq::<Rule>::empty());
    while i < parsed.len()
        invariant
            issues == register.issues@,
            rs == views(parsed@),
            model == card.id@,
            name == parameter.name@,
            i <= parsed@.len(),
            marks@.len() == issues.len(),
            marks0.len() == issues.len(),
            forall|k: int|
                0 <= k < parsed@.len() ==> (#[trigger] parsed@[k]).issue < issues.len(),
            live == tracked_by(issues, rs.subrange(0, i as int), model, name),
            texts(closed@) == closed_by(issues, rs.subrange(0, i as int), model, name),
            forall|k: int|
                0 <= k < marks@.len() ==> #[trigger] marks@[k] == (marks0[k] || touches(
                    rs.subrange(0, i as int),
                    model,
                    name,
                    k,
                )),
        decreases parsed@.len() - i,
    {
        broadcast use group_views;

        let rule = &parsed[i];
        proof {
            assert(rs.subrange(0, i as int + 1).drop_last() =~= rs.subrange(0, i as int));
            assert(rs.subrange(0, i as int + 1).last() == rule@);
        }
        if same_text(rule.model, card.id.as_str()) && parameter_matches(
            rule.parameter,
            parameter.name.as_str(),
        ) {
            assert(reaches(rule@, model, name));
            marks.set(rule.issue, true);
            if register.issues[rule.issue].state.covers() {
                live = true;
            } else {
                closed.push(register.issues[rule.issue].id.clone());
            }
        } else {
            assert(!reaches(rule@, model, name));
        }
        i = i + 1;
    }
    assert(rs.subrange(0, i as int) =~= rs);
    let no_plan: bool = match &parameter.calibration {
        Some(p) => is_blank(p.as_str()),
        None => true,
    };
    let ghost u = Uncalibrated { card: card@, parameter: parameter@ };
    assert(no_plan == blank(u.plan()));
    assert(texts(closed@).len() == closed@.len());
    if no_plan {
        Some(FailureReason::NoPlan)
    } else if live {
        None
    } else if closed.len() > 0 {
        Some(FailureReason::IssueClosed(closed))
    } else {
        Some(FailureReason::NoIssue)
    }
}

/// The failure that an uncalibrated parameter is.
fn describe(card: &ModelCard, parameter: &Parameter, reason: FailureReason) -> (r: GateFailure)
    ensures
        r@ == (Uncalibrated { card: card@, parameter: parameter@ }).failure(reason@),
{
    let mut tiers: Vec<String> = Vec::new();
    let mut i: usize = 0;
    while i < card.tier.len()
        invariant
            i <= card.tier@.len(),
            texts(tiers@) =~= tier_names(card.tier@.subrange(0, i as int)),
        decreases card.tier@.len() - i,
    {
        broadcast use group_views;

        tiers.push(card.tier[i].as_str().to_owned());
        i = i + 1;
    }
    assert(card.tier@.subrange(0, i as int) =~= card.tier@);
    let plan = match &parameter.calibration {
        Some(p) => p.clone(),
        None => String::new(),
    };
    GateFailure {
        model: card.id.clone(),
        version: card.version.clone(),
        parameter: parameter.name.clone(),
        unit: parameter.unit.clone(),
        default: parameter.default.clone(),
        stands_for: parameter.source.reference.clone(),
        plan,
        tiers,
        reason,
    }
}

/// Puts a failure in its place.
fn file(list: &mut Vec<GateFailure>, f: GateFailure)
    ensures
        views(final(list)@) == filed(views(old(list)@), f@),
{
    let ghost s = views(list@);
    let mut p: usize = list.len();
    assert(s.subrange(0, p as int) =~= s);
    while p > 0 && comes_before(&f, &list[p - 1])
        invariant
            p <= list@.len(),
            s == views(list@),
            failure_slot(s, f@) == failure_slot(s.subrange(0, p as int), f@),
        decreases p,
    {
        assert(s.subrange(0, p as int).last() == list@[p - 1]@);
        assert(s.subrange(0, p as int).drop_last() =~= s.subrange(0, p - 1));
        p = p - 1;
    }
    assert(p > 0 ==> s.subrange(0, p as int).last() == list@[p - 1]@);
    assert(failure_slot(s, f@) == p);
    let ghost before = list@;
    list.insert(p, f);
    assert(views(list@) =~= s.insert(p as int, f@));
}

fn comes_before(a: &GateFailure, b: &GateFailure) -> (r: bool)
    ensures
        r == failure_before(a@, b@),
{
    is_text_before(a.model.as_str(), b.model.as_str()) || (same_text(
        a.model.as_str(),
        b.model.as_str(),
    ) && is_text_before(a.parameter.as_str(), b.parameter.as_str()))
}

proof fn parameter_count_grows(cards: Seq<CardView>)
    ensures
        0 <= parameter_count(cards),
        0 <= high_count(cards) <= cards.len(),
        uncalibrated(cards).len() <= parameter_count(cards),
        forall|i: int|
            0 <= i <= cards.len() ==> parameter_count(#[trigger] cards.subrange(0, i))
                <= parameter_count(cards),
    decreases cards.len(),
{
    if cards.len() > 0 {
        let d = cards.drop_last();
        parameter_count_grows(d);
        todo_count(cards.last(), cards.last().parameters);
        assert forall|i: int| 0 <= i <= cards.len() implies parameter_count(
            #[trigger] cards.subrange(0, i),
        ) <= parameter_count(cards) by {
            if i == cards.len() {
                assert(cards.subrange(0, i) =~= cards);
            } else {
                assert(cards.subrange(0, i) =~= d.subrange(0, i));
            }
        }
    } else {
        assert forall|i: int| 0 <= i <= cards.len() implies parameter_count(
            #[trigger] cards.subrange(0, i),
        ) <= parameter_count(cards) by {
            assert(cards.subrange(0, i) =~= cards);
        }
    }
}

proof fn todo_count(card: CardView, parameters: Seq<ParameterView>)
    ensures
        uncalibrated_of(card, parameters).len() <= parameters.len(),
    decreases parameters.len(),
{
    if parameters.len() > 0 {
        todo_count(card, parameters.drop_last());
    }
}

proof fn counts_are_bounded(issues: Seq<CalibrationIssue>, rs: Seq<Rule>, todo: Seq<Uncalibrated>)
    ensures
        0 <= high_todo(todo) <= todo.len(),
        0 <= covered_count(issues, rs, todo) <= high_todo(todo),
    decreases todo.len(),
{
    if todo.len() > 0 {
        counts_are_bounded(issues, rs, todo.drop_last());
    }
}

/// Runs the calibration rule over a list of cards.
///
/// Everything in the report is in the order of model and parameter, or in that of the
/// register; two runs over the same cards and register give the same report.
pub fn run_over_cards(cards: &Vec<ModelCard>, register: &IssueRegister) -> (r: GateReport)
    requires
        parameter_count(views(cards@)) <= usize::MAX,
    ensures
        r@ == verdict(views(cards@), register.schema@, register.issues@),
{
    broadcast use group_views;

    let ghost issues = register.issues@;
    let ghost all = views(cards@);
    let (parsed, malformed_patterns) = parse_register(register);
    let ghost rs = views(parsed@);
    let mut marks: Vec<bool> = Vec::new();
    let mut k: usize = 0;
    while k < register.issues.len()
        invariant
            k <= register.issues@.len(),
            marks@.len() == k,
            forall|j: int| 0 <= j < k ==> !#[trigger] marks@[j],
        decreases register.issues@.len() - k,
    {
        marks.push(false);
        k = k + 1;
    }
    let mut high_tier_models: usize = 0;
    let mut parameters: usize = 0;
    let mut todo_parameters: usize = 0;
    let mut high_tier_todo_parameters: usize = 0;
    let mut covered: usize = 0;
    let mut failures: Vec<GateFailure> = Vec::new();
    let mut outside_gate: Vec<GateFailure> = Vec::new();
    let mut i: usize = 0;
    proof {
        assert(all.subrange(0, 0) =~= Seq::<CardView>::empty());
        parameter_count_grows(all);
    }
    while i < cards.len()
        invariant
            issues == register.issues@,
            all == views(cards@),
            all.len() == cards@.len(),
            rs == views(parsed@),
            i <= cards@.len(),
            parameter_count(all) <= usize::MAX,
            forall|j: int|
                0 <= j <= all.len() ==> parameter_count(#[trigger] all.subrange(0, j))
                    <= parameter_count(all),
            marks@.len() == issues.len(),
            forall|j: int|
                0 <= j < parsed@.len() ==> (#[trigger] parsed@[j]).issue < issues.len(),
            high_tier_models == high_count(all.subrange(0, i as int)),
            high_tier_models <= i,
            parameters == parameter_count(all.subrange(0, i as int)),
            todo_parameters == uncalibrated(all.subrange(0, i as int)).len(),
            todo_parameters <= parameters,
            high_tier_todo_parameters == high_todo(uncalibrated(all.subrange(0, i as int))),
            covered == covered_count(issues, rs, uncalibrated(all.subrange(0, i as int))),
            views(failures@) == failures_of(
                issues,
                rs,
                uncalibrated(all.subrange(0, i as int)),
                true,
            ),
            views(outside_gate@) == failures_of(
                issues,
                rs,
                uncalibrated(all.subrange(0, i as int)),
                false,
            ),
            forall|j: int|
                0 <= j < marks@.len() ==> #[trigger] marks@[j] == used(
                    rs,
                    uncalibrated(all.subrange(0, i as int)),
                    j,
                ),
        decreases cards@.len() - i,
    {
        let card = &cards[i];
        let ghost cv = card@;
        let ghost params = cv.parameters;
        let ghost done = uncalibrated(all.subrange(0, i as int));
        proof {
            assert(all[i as int] == cv);
            let longer = all.subrange(0, i as int + 1);
            assert(longer.drop_last() =~= all.subrange(0, i as int));
            assert(longer.last() == cv);
            assert(parameter_count(longer) <= parameter_count(all));
            assert(params.len() == card.parameters@.len());
            assert(params.subrange(0, 0) =~= Seq::<ParameterView>::empty());
            assert(done + Seq::<Uncalibrated>::empty() =~= done);
        }
        let high: bool = card.implements_tier(Tier::High);
        if high {
            high_tier_models = high_tier_models + 1;
        }
        let before_todo: usize = todo_parameters;
        let mut j: usize = 0;
        while j < card.parameters.len()
            invariant
                issues == register.issues@,
                rs == views(parsed@),
                cv == card@,
                params == cv.parameters,
                params == views(card.parameters@),
                params.len() == card.parameters@.len(),
                high == cv.tier.contains(Tier::High),
                j <= params.len(),
                marks@.len() == issues.len(),
                forall|q: int|
                    0 <= q < parsed@.len() ==> (#[trigger] parsed@[q]).issue < issues.len(),
                parameters + params.len() <= usize::MAX,
                before_todo <= parameters,
                before_todo <= todo_parameters <= before_todo + j,
                todo_parameters == (done + uncalibrated_of(cv, params.subrange(0, j as int))).len(),
                high_tier_todo_parameters == high_todo(
                    done + uncalibrated_of(cv, params.subrange(0, j as int)),
                ),
                covered == covered_count(
                    issues,
                    rs,
                    done + uncalibrated_of(cv, params.subrange(0, j as int)),
                ),
                views(failures@) == failures_of(
                    issues,
                    rs,
                    done + uncalibrated_of(cv, params.subrange(0, j as int)),
                    true,
                ),
                views(outside_gate@) == failures_of(
                    issues,
                    rs,
                    done + uncalibrated_of(cv, params.subrange(0, j as int)),
                    false,
                ),
                forall|q: int|
                    0 <= q < marks@.len() ==> #[trigger] marks@[q] == used(
                        rs,
                        done + uncalibrated_of(cv, params.subrange(0, j as int)),
                        q,
                    ),
            decreases params.len() - j,
        {
            let parameter = &card.parameters[j];
            let ghost now = done + uncalibrated_of(cv, params.subrange(0, j as int));
            let ghost u = Uncalibrated { card: cv, parameter: parameter@ };
            proof {
                assert(params[j as int] == parameter@);
                let longer = params.subrange(0, j as int + 1);
                assert(longer.drop_last() =~= params.subrange(0, j as int));
                assert(longer.last() == parameter@);
                counts_are_bounded(issues, rs, now);
            }
            if parameter.source.kind == SourceKind::TodoCalibrate {
                proof {
                    let longer = params.subrange(0, j as int + 1);
                    let next = done + uncalibrated_of(cv, longer);
                    assert(next =~= now.push(u));
                    assert(now.push(u).drop_last() =~= now);
                    counts_are_bounded(issues, rs, next);
                }
                todo_parameters = todo_parameters + 1;
                if high {
                    high_tier_todo_parameters = high_tier_todo_parameters + 1;
                }
                match judge(register, &parsed, card, parameter, &mut marks) {
                    None => {
                        if high {
                            covered = covered + 1;
                        }
                    },
                    Some(reason) => {
                        let failure = describe(card, parameter, reason);
                        if high {
                            file(&mut failures, failure);
                        } else {
                            file(&mut outside_gate, failure);
                        }
                    },
                }
            }
            j = j + 1;
        }
        proof {
            assert(params.subrange(0, j as int) =~= params);
        }
        parameters = parameters + card.parameters.len();
        i = i + 1;
    }
    assert(all.subrange(0, i as int) =~= all);
    let ghost todo = uncalibrated(all);
    let mut unused_issues: Vec<String> = Vec::new();
    let mut n: usize = 0;
    while n < register.issues.len()
        invariant
            issues == register.issues@,
            n <= issues.len(),
            marks@.len() == issues.len(),
            forall|j: int| 0 <= j < marks@.len() ==> #[trigger] marks@[j] == used(rs, todo, j),
            texts(unused_issues@) == unused(issues, rs, todo, n as int),
        decreases issues.len() - n,
    {
        broadcast use group_views;

        assert(marks@[n as int] == used(rs, todo, n as int));
        if !marks[n] {
            unused_issues.push(register.issues[n].id.clone());
        }
        n = n + 1;
    }
    GateReport {
        schema: GATE_SCHEMA.to_owned(),
        register_schema: register.schema.clone(),
        register_issues: register.issues.len(),
        models: cards.len(),
        high_tier_models,
        parameters,
        todo_parameters,
        high_tier_todo_parameters,
        covered,
        failures,
        outside_gate,
        unused_issues,
        malformed_patterns,
    }
}

/// Runs the calibration rule over the cards of a registry, in the order of their ids.
pub fn run(cards: &Vec<ModelCard>, register: &IssueRegister) -> (r: GateReport)
    requires
        parameter_count(views(cards@)) <= usize::MAX,
    ensures
        r@ == verdict(views(cards@), register.schema@, register.issues@),
{
    run_over_cards(cards, register)
}

impl GateReport {
    /// True if every uncalibrated default at the high tier is covered and every pattern of
    /// the register parses.
    pub fn passed(&self) -> (r: bool)
        ensures
            r == self@.passes(),
    {
        assert(self@.failures.len() == self.failures@.len());
        assert(self@.malformed_patterns.len() == self.malformed_patterns@.len());
        self.failures.len() == 0 && self.malformed_patterns.len() == 0
    }

    /// True if the register declares the schema that the calibration rule reads.
    pub fn register_schema_matches(&self) -> (r: bool)
        ensures
            r == (self.register_schema@ == ISSUE_REGISTER_SCHEMA@),
    {
        same_text(self.register_schema.as_str(), ISSUE_REGISTER_SCHEMA)
    }

    /// Every failure as one line, malformed patterns first.
    pub fn lines(&self) -> (r: Vec<String>)
        ensures
            texts(r@) == self@.lines(),
    {
        let ghost v = self@;
        let mut out: Vec<String> = Vec::new();
        let mut i: usize = 0;
        while i < self.malformed_patterns.len()
            invariant
                v == self@,
                v.malformed_patterns.len() == self.malformed_patterns@.len(),
                i <= self.malformed_patterns@.len(),
                texts(out@) =~= Seq::new(
                    i as nat,
                    |k: int| malformed_line(v.malformed_patterns[k]),
                ),
            decreases self.malformed_patterns@.len() - i,
        {
            broadcast use group_views;

            let m = &self.malformed_patterns[i];
            let mut s = join2("register issue ", m.issue.as_str());
            s.append(": pattern ");
            s.append(quoted(m.pattern.as_str()).as_str());
            s.append(" is malformed: ");
            s.append(m.problem.as_str());
            assert(v.malformed_patterns[i as int] == m@);
            out.push(s);
            i = i + 1;
        }
        let mut j: usize = 0;
        while j < self.failures.len()
            invariant
                v == self@,
                v.failures.len() == self.failures@.len(),
                v.malformed_patterns.len() == self.malformed_patterns@.len(),
                j <= self.failures@.len(),
                texts(out@) =~= Seq::new(
                    v.malformed_patterns.len(),
                    |k: int| malformed_line(v.malformed_patterns[k]),
                ) + Seq::new(j as nat, |k: int| v.failures[k].line()),
            decreases self.failures@.len() - j,
        {
            broadcast use group_views;

            assert(v.failures[j as int] == self.failures@[j as int]@);
            out.push(self.failures[j].line());
            j = j + 1;
        }
        out
    }

    /// The verdict in one line.
    pub fn summary(&self) -> (r: String)
        ensures
            r@ == self@.summary(),
    {
        assert(self@.failures.len() == self.failures@.len());
        assert(self@.outside_gate.len() == self.outside_gate@.len());
        assert(self@.malformed_patterns.len() == self.malformed_patterns@.len());
        if self.passed() {
            let mut s = join2("PASS — ", decimal(self.covered as u64).as_str());
            s.append(" of ");
            s.append(decimal(self.high_tier_todo_parameters as u64).as_str());
            s.append(" uncalibrated high-tier defaults covered by ");
            s.append(decimal(self.register_issues as u64).as_str());
            s.append(" tracked issue(s)");
            s
        } else {
            let mut s = join2("FAIL — ", decimal(self.failures.len() as u64).as_str());
            s.append(" of ");
            s.append(decimal(self.high_tier_todo_parameters as u64).as_str());
            s.append(" uncalibrated high-tier defaults have no tracked calibration issue (");
            s.append(decimal(self.malformed_patterns.len() as u64).as_str());
            s.append(" malformed pattern(s), ");
            s.append(decimal(self.outside_gate.len() as u64).as_str());
            s.append(
                " further uncalibrated default(s) on cards that do not declare the high tier)",
            );
            s
        }
    }

    /// A failing report as an error that names every failure.
    pub fn assert_pass(&self) -> (r: Result<(), MetricError>)
        ensures
            match r {
                Ok(_) => self@.passes(),
                Err(e) => !self@.passes() && e@ == (ErrorView::GateFailed {
                    count: self@.lines().len() as usize,
                    detail: joined(self@.lines(), "\n"@),
                }),
            },
    {
        if self.passed() {
            return Ok(());
        }
        let lines = self.lines();
        assert(texts(lines@).len() == lines@.len());
        Err(MetricError::GateFailed { count: lines.len(), detail: join_all(&lines, "\n") })
    }
}

/// The failures of one model.
pub open spec fn group<'a>(m: Map<Seq<char>, Seq<&'a GateFailure>>, model: Seq<char>) -> Seq<
    &'a GateFailure,
> {
    if m.contains_key(model) {
        m[model]
    } else {
        Seq::empty()
    }
}

/// The failures grouped by model, each group in order.
pub open spec fn grouped<'a>(failures: Seq<&'a GateFailure>) -> Map<Seq<char>, Seq<&'a GateFailure>>
    decreases failures.len(),
{
    if failures.len() == 0 {
        Map::empty()
    } else {
        let m = grouped(failures.drop_last());
        let f = failures.last();
        m.insert(f.model@, group(m, f.model@).push(f))
    }
}

/// References to the elements of a sequence.
pub open spec fn borrowed<'a>(s: Seq<GateFailure>) -> Seq<&'a GateFailure> {
    Seq::new(s.len(), |i: int| &s[i])
}

/// The failures grouped by model, in the order of the models.
pub fn by_model<'a>(failures: &'a Vec<GateFailure>) -> (r: SortedMap<String, Vec<&'a GateFailure>>)
    ensures
        r@ == grouped(borrowed(failures@)),
{
    let ghost all = borrowed(failures@);
    let mut out: SortedMap<String, Vec<&'a GateFailure>> = SortedMap::new();
    let mut i: usize = 0;
    assert(all.subrange(0, 0) =~= Seq::empty());
    while i < failures.len()
        invariant
            all == borrowed(failures@),
            i <= failures@.len(),
            out@ == grouped(all.subrange(0, i as int)),
        decreases failures@.len() - i,
    {
        let f = &failures[i];
        let ghost m = out@;
        let mut members: Vec<&'a GateFailure> = match out.remove(&f.model) {
            Some(v) => v,
            None => Vec::new(),
        };
        assert(members@ == group(m, f.model@));
        members.push(f);
        let ghost now = members@;
        let _ = out.insert(f.model.clone(), members);
        proof {
            let longer = all.subrange(0, i as int + 1);
            assert(longer.drop_last() =~= all.subrange(0, i as int));
            assert(longer.last() == f);
            assert(out@ =~= m.insert(f.model@, now));
        }
        i = i + 1;
    }
    assert(all.subrange(0, i as int) =~= all);
    out
}

/// Every uncalibrated default at the high tier is either covered or listed as a failure,
/// and every one outside it is at most listed.
pub proof fn every_high_default_is_covered_or_listed(
    cards: Seq<CardView>,
    schema: Seq<char>,
    issues: Seq<CalibrationIssue>,
)
    ensures
        ({
            let v = verdict(cards, schema, issues);
            &&& v.covered + v.failures.len() == v.high_tier_todo_parameters
            &&& v.outside_gate.len() <= v.todo_parameters - v.high_tier_todo_parameters
        }),
{
    covered_or_listed(issues, rules(all_patterns(issues)), uncalibrated(cards));
}

proof fn covered_or_listed(issues: Seq<CalibrationIssue>, rs: Seq<Rule>, todo: Seq<Uncalibrated>)
    ensures
        covered_count(issues, rs, todo) + failures_of(issues, rs, todo, true).len() == high_todo(
            todo,
        ),
        failures_of(issues, rs, todo, false).len() <= todo.len() - high_todo(todo),
    decreases todo.len(),
{
    if todo.len() > 0 {
        covered_or_listed(issues, rs, todo.drop_last());
        let u = todo.last();
        if let Some(reason) = u.reason(issues, rs) {
            let before = failures_of(issues, rs, todo.drop_last(), u.high());
            slot_in_range(before, u.failure(reason));
        }
    }
}

pub(crate) proof fn slot_in_range(s: Seq<FailureView>, f: FailureView)
    ensures
        0 <= failure_slot(s, f) <= s.len(),
    decreases s.len(),
{
    if s.len() > 0 {
        slot_in_range(s.drop_last(), f);
    }
}

/// The calibration rule passes only where every uncalibrated default at the high tier has a plan and
/// an issue that is not closed.
pub proof fn a_pass_covers_everything(
    cards: Seq<CardView>,
    schema: Seq<char>,
    issues: Seq<CalibrationIssue>,
    i: int,
)
    requires
        verdict(cards, schema, issues).passes(),
        0 <= i < uncalibrated(cards).len(),
        uncalibrated(cards)[i].high(),
    ensures
        ({
            let u = uncalibrated(cards)[i];
            &&& !blank(u.plan())
            &&& tracked_by(
                issues,
                rules(all_patterns(issues)),
                u.card.id,
                u.parameter.name,
            )
        }),
{
    no_failure_at(issues, rules(all_patterns(issues)), uncalibrated(cards), i);
}

proof fn no_failure_at(
    issues: Seq<CalibrationIssue>,
    rs: Seq<Rule>,
    todo: Seq<Uncalibrated>,
    i: int,
)
    requires
        failures_of(issues, rs, todo, true).len() == 0,
        0 <= i < todo.len(),
        todo[i].high(),
    ensures
        todo[i].reason(issues, rs) is None,
    decreases todo.len(),
{
    let u = todo.last();
    let before = failures_of(issues, rs, todo.drop_last(), true);
    if let Some(reason) = u.reason(issues, rs) {
        slot_in_range(before, u.failure(reason));
    }
    if i < todo.len() - 1 {
        no_failure_at(issues, rs, todo.drop_last(), i);
    }
}

/// True if a list of failures is in order.
pub open spec fn in_failure_order(s: Seq<FailureView>) -> bool {
    forall|i: int, j: int| 0 <= i < j < s.len() ==> !failure_before(s[j], s[i])
}

/// The failures of a verdict are listed in the order of model and parameter.
pub proof fn failures_are_in_order(
    issues: Seq<CalibrationIssue>,
    rs: Seq<Rule>,
    todo: Seq<Uncalibrated>,
    high: bool,
)
    ensures
        in_failure_order(failures_of(issues, rs, todo, high)),
    decreases todo.len(),
{
    if todo.len() > 0 {
        failures_are_in_order(issues, rs, todo.drop_last(), high);
        let before = failures_of(issues, rs, todo.drop_last(), high);
        if let Some(reason) = todo.last().reason(issues, rs) {
            filing_keeps_order(before, todo.last().failure(reason));
        }
    }
}

proof fn filing_keeps_order(s: Seq<FailureView>, f: FailureView)
    requires
        in_failure_order(s),
    ensures
        in_failure_order(filed(s, f)),
{
    slot_in_range(s, f);
    slot_splits(s, f);
    let p = failure_slot(s, f);
    let t = filed(s, f);
    assert forall|i: int, j: int| 0 <= i < j < t.len() implies !failure_before(t[j], t[i]) by {
        if j == p {
            if failure_before(f, t[i]) {
                assert(p > 0);
                if i < p - 1 {
                    before_and_not_after(f, s[i], s[p - 1]);
                }
            }
        } else if i == p {
            failure_asymmetric(f, s[j - 1]);
        }
    }
}

pub(crate) proof fn slot_splits(s: Seq<FailureView>, f: FailureView)
    requires
        in_failure_order(s),
    ensures
        failure_slot(s, f) > 0 ==> !failure_before(f, s[failure_slot(s, f) - 1]),
        forall|i: int| failure_slot(s, f) <= i < s.len() ==> failure_before(f, #[trigger] s[i]),
    decreases s.len(),
{
    slot_in_range(s, f);
    if s.len() > 0 && failure_before(f, s.last()) {
        slot_splits(s.drop_last(), f);
        slot_in_range(s.drop_last(), f);
        assert forall|i: int| failure_slot(s, f) <= i < s.len() implies failure_before(
            f,
            #[trigger] s[i],
        ) by {
            if i < s.len() - 1 {
                assert(s.drop_last()[i] == s[i]);
            }
        }
    }
}

/// If `f` is before `a`, and `b` is not before `a`, then `f` is before `b`.
pub(crate) proof fn before_and_not_after(f: FailureView, a: FailureView, b: FailureView)
    requires
        failure_before(f, a),
        !failure_before(b, a),
    ensures
        failure_before(f, b),
{
    text_before_total(b.model, a.model);
    text_before_total(b.parameter, a.parameter);
    if text_before(a.model, b.model) {
        if text_before(f.model, a.model) {
            text_before_transitive(f.model, a.model, b.model);
        }
    } else if text_before(a.parameter, b.parameter) {
        if text_before(f.parameter, a.parameter) {
            text_before_transitive(f.parameter, a.parameter, b.parameter);
        }
    }
}

pub(crate) proof fn failure_asymmetric(a: FailureView, b: FailureView)
    requires
        failure_before(a, b),
    ensures
        !failure_before(b, a),
{
    text_before_irreflexive(a.model);
    text_before_irreflexive(a.parameter);
    if failure_before(b, a) {
        if text_before(a.model, b.model) && text_before(b.model, a.model) {
            text_before_transitive(a.model, b.model, a.model);
        }
        if text_before(a.parameter, b.parameter) && text_before(b.parameter, a.parameter) {
            text_before_transitive(a.parameter, b.parameter, a.parameter);
        }
    }
}

} // verus!
