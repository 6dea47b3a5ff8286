//! Regular expressions.

use vstd::prelude::*;

verus! {

/// `regex::Regex::new` accepts the pattern.
pub uninterp spec fn regex_compiles(pattern: Seq<char>) -> bool;

/// `regex::Regex::is_match`: the pattern, once compiled, matches somewhere in
/// the text. A pattern that does not compile matches nowhere.
pub uninterp spec fn regex_matches(pattern: Seq<char>, text: Seq<char>) -> bool;

/// Calls `regex::Regex::new` and says whether it accepts the pattern, which
/// depends on the pattern alone.
#[verifier::external_body]
pub(crate) fn compiles(pattern: &str) -> (r: bool)
    ensures
        r == regex_compiles(pattern@),
{
    regex::Regex::new(pattern).is_ok()
}

/// Compiles the pattern and calls `regex::Regex::is_match` on the text, which
/// depends on pattern and text alone. Without a valid pattern there is no
/// match.
#[verifier::external_body]
pub(crate) fn finds(pattern: &str, text: &str) -> (r: bool)
    ensures
        r == regex_matches(pattern@, text@),
        r ==> regex_compiles(pattern@),
{
    match regex::Regex::new(pattern) {
        Ok(regex) => regex.is_match(text),
        Err(_) => false,
    }
}

} // verus!
