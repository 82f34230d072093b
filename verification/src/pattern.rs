//! Regular expressions, compiled and run by the `regex` crate.

use vstd::prelude::*;

verus! {

#[verifier::external_type_specification]
#[verifier::external_body]
pub struct ExRegex(regex::Regex);

/// A regular expression compiled by the `regex` crate, together with the
/// pattern text it was compiled from. Its view is that pattern text; values
/// of this type are only made by `compile_pattern`.
pub struct CompiledPattern {
    source: String,
    re: regex::Regex,
}

impl View for CompiledPattern {
    type V = Seq<char>;

    closed spec fn view(&self) -> Seq<char> {
        self.source@
    }
}

/// Whether `regex::Regex::new` accepts `pattern` (it refuses patterns that
/// do not parse and those whose compiled form exceeds its size limit).
pub uninterp spec fn regex_compiles(pattern: Seq<char>) -> bool;

/// What `regex::Regex::captures` reports for the regex compiled from
/// `pattern` on `haystack`: `None` when the regex matches nowhere in the
/// haystack, otherwise, for the leftmost-first match, the text of each
/// capture group in the order of its opening parenthesis (group 0 being
/// the whole match), `None` for a group that took no part in the match.
pub uninterp spec fn regex_captures(pattern: Seq<char>, haystack: Seq<char>) -> Option<
    Seq<Option<Seq<char>>>,
>;

/// Compiles `pattern` with `regex::Regex::new`. Trusted: the result is
/// present exactly when the crate accepts the pattern, and then carries that
/// pattern text.
#[verifier::external_body]
pub fn compile_pattern(pattern: &str) -> (res: Option<CompiledPattern>)
    ensures
        res.is_some() == regex_compiles(pattern@),
        res matches Some(c) ==> c@ == pattern@,
{
    match regex::Regex::new(pattern) {
        Ok(re) => Some(CompiledPattern { source: pattern.to_string(), re }),
        Err(_) => None,
    }
}

/// Runs `regex::Regex::captures` and hands back the text of every capture
/// group (`Captures::iter`). Trusted: the result is `regex_captures` of the
/// pattern and the haystack, and, as the crate documents, a match always
/// reports group 0.
#[verifier::external_body]
pub fn captures(pattern: &CompiledPattern, haystack: &str) -> (res: Option<Vec<Option<String>>>)
    ensures
        res.deep_view() == regex_captures(pattern@, haystack@),
        res matches Some(groups) ==> groups.len() >= 1 && groups[0] is Some,
{
    pattern.re.captures(haystack).map(
        |c| c.iter().map(|m| m.map(|m| m.as_str().to_string())).collect(),
    )
}

} // verus!
