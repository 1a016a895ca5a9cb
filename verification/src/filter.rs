//! The exclusion filter: regular expressions that a path is held against.

use regex::Regex;
use vstd::prelude::*;

verus! {

/// `regex::Regex`, a compiled regular expression. Nothing is known of what
/// it holds but what [`compiled`] and [`regex_matches`] name.
#[verifier::external_type_specification]
#[verifier::external_body]
pub struct ExRegex(regex::Regex);

/// `regex::Error`, the reason for which a pattern was refused. It is carried
/// through to the caller and never looked into.
#[verifier::external_type_specification]
#[verifier::external_body]
pub struct ExRegexError(regex::Error);

/// What `Regex::new` makes of a pattern: the compiled expression, or `None`
/// where the pattern is refused.
pub uninterp spec fn compiled(pattern: Seq<char>) -> Option<Regex>;

/// Whether `Regex::is_match` finds a match of `re` anywhere in `haystack`.
pub uninterp spec fn regex_matches(re: Regex, haystack: Seq<char>) -> bool;

/// Calls `Regex::new`. Trusted: the outcome depends on the pattern alone, so
/// it is the value that [`compiled`] names; an error stands for `None`.
#[verifier::external_body]
fn compile(pattern: &str) -> (made: Result<Regex, regex::Error>)
    ensures
        match made {
            Ok(re) => compiled(pattern@) == Some(re),
            Err(_) => compiled(pattern@) is None,
        },
{
    Regex::new(pattern)
}

/// Calls `Regex::is_match`. Trusted: the answer depends on the expression and
/// the haystack alone, so it is the value that [`regex_matches`] names.
#[verifier::external_body]
fn is_match(re: &Regex, haystack: &str) -> (found: bool)
    ensures
        found == regex_matches(*re, haystack@),
{
    re.is_match(haystack)
}

/// A pattern of the configuration that is no regular expression.
pub struct InvalidPattern {
    /// Position of the pattern in the list that was given.
    pub index: usize,
    /// What the compiler of expressions said of it.
    pub cause: regex::Error,
}

/// Whether any of `patterns` matches `path`.
pub open spec fn excludes(patterns: Seq<Regex>, path: Seq<char>) -> bool {
    exists|i: int| 0 <= i < patterns.len() && regex_matches(#[trigger] patterns[i], path)
}

/// Whether every one of the first `n` sources compiles.
pub open spec fn all_compile(sources: Seq<String>, n: int) -> bool {
    forall|i: int| 0 <= i < n ==> (#[trigger] compiled(sources[i]@)) is Some
}

/// Compiles the patterns in order. The first one that is refused ends the
/// work and is reported by its position.
pub fn compile_patterns(sources: &Vec<String>) -> (made: Result<Vec<Regex>, InvalidPattern>)
    ensures
        made is Ok <==> all_compile(sources@, sources@.len() as int),
        match made {
            Ok(patterns) => {
                &&& patterns@.len() == sources@.len()
                &&& forall|i: int|
                    0 <= i < sources@.len() ==> compiled(#[trigger] sources@[i]@) == Some(
                        patterns@[i],
                    )
            },
            Err(e) => {
                &&& e.index < sources@.len()
                &&& all_compile(sources@, e.index as int)
                &&& compiled(sources@[e.index as int]@) is None
            },
        },
{
    let mut patterns: Vec<Regex> = Vec::new();
    let mut i: usize = 0;
    while i < sources.len()
        invariant
            i <= sources@.len(),
            patterns@.len() == i,
            forall|j: int| 0 <= j < i ==> compiled(#[trigger] sources@[j]@) == Some(patterns@[j]),
        decreases sources@.len() - i,
    {
        match compile(sources[i].as_str()) {
            Ok(re) => {
                patterns.push(re);
            },
            Err(cause) => {
                return Err(InvalidPattern { index: i, cause });
            },
        }
        i += 1;
    }
    Ok(patterns)
}

/// Whether any pattern matches the full text of `path`.
pub fn is_excluded(patterns: &Vec<Regex>, path: &str) -> (hit: bool)
    ensures
        hit == excludes(patterns@, path@),
{
    let mut i: usize = 0;
    while i < patterns.len()
        invariant
            i <= patterns@.len(),
            forall|j: int| 0 <= j < i ==> !regex_matches(#[trigger] patterns@[j], path@),
        decreases patterns@.len() - i,
    {
        if is_match(&patterns[i], path) {
            return true;
        }
        i += 1;
    }
    false
}

} // verus!
