//! The match predicate: does a file name satisfy the search target?
//!
//! Two modes. Exact mode is case-sensitive string equality against the
//! target name, decided here. Pattern mode compiles the target once with the
//! `regex` crate before the walk starts; a pattern that does not compile is a
//! fatal startup error, not a per-entry one. The compiled pattern and its
//! match test are outside code; their results are named by uninterpreted
//! functions, and every contract above them speaks through those names.

use vstd::prelude::*;

verus! {

#[verifier::external_type_specification]
#[verifier::external_body]
pub struct ExRegex(regex::Regex);

#[verifier::external_type_specification]
#[verifier::external_body]
pub struct ExRegexError(regex::Error);

/// Whether `regex::Regex::new` accepts a pattern: a function of the pattern
/// string alone.
pub uninterp spec fn pattern_compiles(p: Seq<char>) -> bool;

/// The pattern a compiled `regex::Regex` holds: fixed at compilation and
/// never changed afterwards.
pub uninterp spec fn pattern_of(re: regex::Regex) -> Seq<char>;

/// What `regex::Regex::is_match` returns: a function of the compiled
/// pattern and the haystack alone.
pub uninterp spec fn regex_match(p: Seq<char>, text: Seq<char>) -> bool;

/// Relies on regex::Regex::new: it returns `Ok` exactly when the pattern is
/// a valid regex within the default size limit, and the compiled value
/// matches according to that pattern and nothing else.
#[verifier::external_body]
fn compile_pattern(p: &str) -> (r: Result<regex::Regex, regex::Error>)
    ensures
        r is Ok <==> pattern_compiles(p@),
        r is Ok ==> pattern_of(r.unwrap()) == p@,
{
    regex::Regex::new(p)
}

/// Relies on regex::Regex::is_match: true if and only if the regex matches
/// somewhere in the haystack, a function of pattern and haystack alone.
#[verifier::external_body]
fn regex_is_match(re: &regex::Regex, text: &str) -> (r: bool)
    ensures
        r == regex_match(pattern_of(*re), text@),
{
    re.is_match(text)
}

/// Relies on the `Display` impl of regex::Error for a human-readable
/// description of why a pattern was rejected.
#[verifier::external_body]
fn describe_pattern_error(e: &regex::Error) -> String {
    format!("{}", e)
}

/// Why a search could not start: the pattern did not compile.
#[derive(Debug)]
pub struct PatternError {
    pub description: String,
}

/// The search target, fixed once before the walk starts and shared by every
/// task. Immutable afterwards.
pub enum Matcher {
    /// Case-sensitive equality against a file name.
    Exact { target: String },
    /// A pattern compiled once; `compiled` holds exactly `pattern`.
    Pattern { pattern: String, compiled: regex::Regex },
}

impl Matcher {
    /// A `Pattern` matcher is well formed when its compiled regex holds
    /// exactly its pattern string.
    pub open spec fn wf(self) -> bool {
        match self {
            Matcher::Exact { .. } => true,
            Matcher::Pattern { pattern, compiled } => pattern_of(compiled) == pattern@,
        }
    }

    pub open spec fn is_pattern(self) -> bool {
        self is Pattern
    }

    /// The target string: the name to equal, or the pattern to match.
    pub open spec fn target_view(self) -> Seq<char> {
        match self {
            Matcher::Exact { target } => target@,
            Matcher::Pattern { pattern, .. } => pattern@,
        }
    }

    /// Whether a candidate file name satisfies the search target.
    pub open spec fn spec_matches(self, name: Seq<char>) -> bool {
        if self.is_pattern() {
            regex_match(self.target_view(), name)
        } else {
            name == self.target_view()
        }
    }

    /// Builds the matcher for a search. In exact mode this always succeeds;
    /// in pattern mode it fails exactly when the pattern does not compile,
    /// and the walk never begins.
    pub fn new(target: String, use_pattern: bool) -> (r: Result<Matcher, PatternError>)
        ensures
            r is Ok <==> (!use_pattern || pattern_compiles(target@)),
            r is Ok ==> r.unwrap().wf(),
            r is Ok ==> r.unwrap().is_pattern() == use_pattern,
            r is Ok ==> r.unwrap().target_view() == target@,
    {
        if use_pattern {
            match compile_pattern(target.as_str()) {
                Ok(compiled) => Ok(Matcher::Pattern { pattern: target, compiled }),
                Err(e) => Err(PatternError { description: describe_pattern_error(&e) }),
            }
        } else {
            Ok(Matcher::Exact { target })
        }
    }

    /// Decides whether `name` satisfies the target. Pure: it reads only the
    /// immutable matcher, so it is safe to consult from any number of tasks.
    pub fn matches(&self, name: &str) -> (r: bool)
        requires
            self.wf(),
        ensures
            r == self.spec_matches(name@),
    {
        match self {
            Matcher::Exact { target } => {
                let candidate: String = name.to_owned();
                candidate == *target
            }
            Matcher::Pattern { pattern: _, compiled } => regex_is_match(compiled, name),
        }
    }
}

} // verus!
