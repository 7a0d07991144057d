//! Name matching: exact equality, or a regular expression that must cover the whole name.

use crate::text::same_text;
use regex::Regex;
use vstd::prelude::*;
use vstd::string::StringExecFns;

verus! {

/// The compiled expression of the `regex` crate, carried through as an opaque value.
#[verifier::external_type_specification]
#[verifier::external_body]
pub struct ExRegex(regex::Regex);

/// The error that the `regex` crate gives for an expression it cannot compile.
#[verifier::external_type_specification]
#[verifier::external_body]
pub struct ExRegexError(regex::Error);

/// Whether `regex::Regex::new` compiles an expression with these characters.
pub uninterp spec fn regex_compiles(expression: Seq<char>) -> bool;

/// What `regex::Regex::is_match` answers on `text` for the expression that
/// `regex::Regex::new` compiled from `expression`.
pub uninterp spec fn regex_is_match(expression: Seq<char>, text: Seq<char>) -> bool;

/// An expression together with what the `regex` crate compiled from it. Values are
/// made by `compile` alone, so the two always belong together.
pub struct Compiled {
    expression: String,
    automaton: Regex,
}

impl View for Compiled {
    type V = Seq<char>;

    /// The characters of the expression that was compiled.
    closed spec fn view(&self) -> Seq<char> {
        self.expression@
    }
}

/// Calls `regex::Regex::new` on the expression, with the crate's default size limit.
/// Trusted: compilation succeeds or fails as a function of the expression's
/// characters alone, and a successful result is kept beside the expression it came from.
#[verifier::external_body]
fn compile(expression: String) -> (r: Result<Compiled, regex::Error>)
    ensures
        r is Ok <==> regex_compiles(expression@),
        r matches Ok(c) ==> c@ == expression@,
{
    match Regex::new(expression.as_str()) {
        Ok(automaton) => Ok(Compiled { expression, automaton }),
        Err(e) => Err(e),
    }
}

/// Calls `regex::Regex::is_match`. Trusted: whether the compiled expression matches
/// somewhere in `text` is a function of the expression's and the text's characters.
#[verifier::external_body]
fn is_match(compiled: &Compiled, text: &str) -> (found: bool)
    ensures
        found == regex_is_match(compiled@, text@),
{
    compiled.automaton.is_match(text)
}

/// Why a matcher could not be built.
#[derive(Clone, Copy, Debug, PartialEq, Eq, Structural)]
pub enum PatternError {
    /// The pattern is not a regular expression that compiles.
    InvalidRegex,
}

/// The expression that a regex pattern is compiled from: the pattern as a group
/// of its own, `(?:` to `)`, between a start and an end anchor. The group keeps an
/// alternation in the pattern together, so that the anchors hold for each of its
/// branches and a match has to cover the whole name.
pub open spec fn anchored(pattern: Seq<char>) -> Seq<char> {
    seq!['^', '(', '?', ':'] + pattern + seq![')', '$']
}

/// Whether a pattern can be searched for: it compiles as an expression by itself,
/// so that nothing in it closes the group that anchors it, and it compiles
/// anchored, which the empty pattern does not where the engine takes no empty
/// group.
pub open spec fn usable(pattern: Seq<char>) -> bool {
    regex_compiles(pattern) && regex_compiles(anchored(pattern))
}

/// How base names are tested. One mode is active per search.
pub enum Matcher {
    /// The name equals the pattern, character by character.
    Exact(String),
    /// The name is matched by the anchored regular expression.
    Regex(Compiled),
}

/// The mathematical content of a matcher.
pub enum MatcherView {
    /// Equality with these characters.
    Exact(Seq<char>),
    /// A match of the expression with these characters, anchors included.
    Regex(Seq<char>),
}

impl MatcherView {
    /// Whether a base name satisfies the matcher.
    pub open spec fn accepts(self, name: Seq<char>) -> bool {
        match self {
            MatcherView::Exact(pattern) => name == pattern,
            MatcherView::Regex(expression) => regex_is_match(expression, name),
        }
    }
}

impl View for Matcher {
    type V = MatcherView;

    open spec fn view(&self) -> MatcherView {
        match self {
            Matcher::Exact(pattern) => MatcherView::Exact(pattern@),
            Matcher::Regex(compiled) => MatcherView::Regex(compiled@),
        }
    }
}

impl Matcher {
    /// A matcher for names equal to `pattern`: case-sensitive, no wildcards.
    pub fn exact(pattern: &str) -> (m: Matcher)
        ensures
            m@ == MatcherView::Exact(pattern@),
    {
        Matcher::Exact(pattern.to_owned())
    }

    /// A matcher for names that `pattern`, read as a regular expression, matches
    /// from the first character to the last. The pattern is first compiled by
    /// itself, to see that it is an expression, and then anchored, which gives the
    /// expression that the matcher keeps. Fails exactly when one of the two does
    /// not compile.
    pub fn regex(pattern: &str) -> (r: Result<Matcher, PatternError>)
        ensures
            usable(pattern@) ==> r is Ok && r.unwrap()@ == MatcherView::Regex(anchored(pattern@)),
            !usable(pattern@) ==> r == Err::<Matcher, PatternError>(PatternError::InvalidRegex),
    {
        if compile(pattern.to_owned()).is_err() {
            return Err(PatternError::InvalidRegex);
        }
        let mut expression = String::from_str("^(?:");
        expression.append(pattern);
        expression.append(")$");
        proof {
            reveal_strlit("^(?:");
            reveal_strlit(")$");
            assert(expression@ =~= anchored(pattern@));
        }
        match compile(expression) {
            Ok(compiled) => Ok(Matcher::Regex(compiled)),
            Err(_) => Err(PatternError::InvalidRegex),
        }
    }

    /// Tests a base name against the matcher.
    pub fn matches(&self, name: &str) -> (hit: bool)
        ensures
            hit == self@.accepts(name@),
    {
        match self {
            Matcher::Exact(pattern) => same_text(name, pattern.as_str()),
            Matcher::Regex(compiled) => is_match(compiled, name),
        }
    }

    /// The text that the matcher was built from: the pattern itself in exact mode,
    /// the anchored expression in regex mode.
    pub fn source(&self) -> (text: &str)
        ensures
            self@ matches MatcherView::Exact(p) ==> text@ == p,
            self@ matches MatcherView::Regex(e) ==> text@ == e,
    {
        match self {
            Matcher::Exact(pattern) => pattern.as_str(),
            Matcher::Regex(compiled) => compiled.expression.as_str(),
        }
    }
}

} // verus!
