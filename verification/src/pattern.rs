//! Regular expressions, as the `regex` crate compiles and runs them.

use vstd::prelude::*;

verus! {

/// `regex::Regex`, a compiled regular expression. Verus sees nothing inside it.
#[verifier::external_type_specification]
#[verifier::external_body]
pub struct ExRegex(regex::Regex);

/// `regex::Error`, the reason a pattern did not compile.
#[verifier::external_type_specification]
#[verifier::external_body]
pub struct ExRegexError(regex::Error);

/// Whether `regex::Regex::new` accepts `pattern`.
pub uninterp spec fn regex_compiles(pattern: Seq<char>) -> bool;

/// The pattern that a compiled expression was built from, which is what
/// `regex::Regex::as_str` hands back.
pub uninterp spec fn regex_source(re: regex::Regex) -> Seq<char>;

/// Whether the expression compiled from `pattern` finds a match anywhere in
/// `text`, which is what `regex::Regex::is_match` answers.
pub uninterp spec fn regex_accepts(pattern: Seq<char>, text: Seq<char>) -> bool;

/// Calls `regex::Regex::new`. Trusted: compilation depends on the pattern
/// alone, and the compiled expression remembers the pattern it came from.
#[verifier::external_body]
fn compile(pattern: &str) -> (compiled: Result<regex::Regex, regex::Error>)
    ensures
        compiled is Ok <==> regex_compiles(pattern@),
        compiled matches Ok(re) ==> regex_source(re) == pattern@,
{
    regex::Regex::new(pattern)
}

/// Calls `regex::Regex::is_match`. Trusted: the answer depends on the
/// expression's pattern and on the text alone.
#[verifier::external_body]
fn is_match(re: &regex::Regex, text: &str) -> (found: bool)
    ensures
        found == regex_accepts(regex_source(*re), text@),
{
    re.is_match(text)
}

/// What a declared pattern says of a value that may be missing.
#[derive(Clone, Copy, Debug, PartialEq, Eq, Structural)]
pub enum PatternOutcome {
    /// No pattern is declared.
    Undeclared,
    /// The pattern does not compile.
    Invalid,
    /// The pattern compiles and there is no value to hold against it.
    Untested,
    /// The pattern compiles, and the value matches it or does not.
    Tested(bool),
}

/// What `pattern` says of `value`. A pattern is compiled whether or not
/// there is a value.
pub open spec fn pattern_outcome(pattern: Option<Seq<char>>, value: Option<Seq<char>>) -> PatternOutcome {
    match pattern {
        None => PatternOutcome::Undeclared,
        Some(p) => if !regex_compiles(p) {
            PatternOutcome::Invalid
        } else {
            match value {
                None => PatternOutcome::Untested,
                Some(v) => PatternOutcome::Tested(regex_accepts(p, v)),
            }
        },
    }
}

/// Compiles a declared pattern and holds the value against it, where
/// there is one.
pub fn apply_pattern(pattern: Option<&str>, value: Option<&str>) -> (outcome: PatternOutcome)
    ensures
        outcome == pattern_outcome(pattern.deep_view(), value.deep_view()),
{
    match pattern {
        None => PatternOutcome::Undeclared,
        Some(p) => match compile(p) {
            Err(_) => PatternOutcome::Invalid,
            Ok(re) => match value {
                None => PatternOutcome::Untested,
                Some(v) => PatternOutcome::Tested(is_match(&re, v)),
            },
        },
    }
}

/// What testing `text` against `pattern` yields: `None` where the pattern
/// does not compile, else whether it matches.
pub open spec fn match_outcome(pattern: Seq<char>, text: Seq<char>) -> Option<bool> {
    if regex_compiles(pattern) {
        Some(regex_accepts(pattern, text))
    } else {
        None
    }
}

/// Compiles `pattern` and tests `text` against it.
pub fn test_pattern(pattern: &str, text: &str) -> (outcome: Option<bool>)
    ensures
        outcome == match_outcome(pattern@, text@),
{
    match compile(pattern) {
        Ok(re) => Some(is_match(&re, text)),
        Err(_) => None,
    }
}

} // verus!
