//! Regular-expression matching, delegated to the `regex` crate.
use vstd::prelude::*;

verus! {

/// Whether `regex::Regex::new` accepts `pattern` (it is valid and within the
/// default size limit).
pub uninterp spec fn regex_compiles(pattern: Seq<char>) -> bool;

/// Whether the regex compiled from `pattern` matches somewhere in `haystack`
/// (`regex::Regex::is_match`).
pub uninterp spec fn regex_matches(pattern: Seq<char>, haystack: Seq<char>) -> bool;

/// The byte range of the leftmost-first match of `pattern` in `haystack`
/// (`regex::Regex::find`), if any.
pub uninterp spec fn regex_first_match(pattern: Seq<char>, haystack: Seq<char>) -> Option<(int, int)>;

/// Compiles `pattern` with `regex::Regex::new` and, if that succeeds, runs
/// `Regex::is_match` on `haystack`. The contract claims only that the outcome
/// is `None` exactly when compilation fails and otherwise is the (named) match
/// result for these two strings; what a regex matches is not stated.
#[verifier::external_body]
pub(crate) fn regex_is_match(pattern: &str, haystack: &str) -> (r: Option<bool>)
    ensures
        r is Some <==> regex_compiles(pattern@),
        r matches Some(b) ==> b == regex_matches(pattern@, haystack@),
{
    match regex::Regex::new(pattern) {
        Ok(re) => Some(re.is_match(haystack)),
        Err(_) => None,
    }
}

/// Compiles `pattern` with `regex::Regex::new` and, if that succeeds, returns the
/// byte offsets of `Regex::find` on `haystack`. The contract claims that the
/// outer `None` comes exactly when compilation fails, that otherwise the
/// offsets are the (named) leftmost-first match, and, as the crate documents,
/// that a match exists exactly when `is_match` holds; the bounds of the
/// offsets are not stated.
#[verifier::external_body]
pub(crate) fn regex_find(pattern: &str, haystack: &str) -> (r: Option<Option<(usize, usize)>>)
    ensures
        r is Some <==> regex_compiles(pattern@),
        r matches Some(m) ==> (match m {
            Some((s, e)) => regex_first_match(pattern@, haystack@) == Some((s as int, e as int)),
            None => regex_first_match(pattern@, haystack@) is None,
        }),
        r matches Some(m) ==> (m is Some <==> regex_matches(pattern@, haystack@)),
{
    match regex::Regex::new(pattern) {
        Ok(re) => Some(re.find(haystack).map(|m| (m.start(), m.end()))),
        Err(_) => None,
    }
}

/// Whether `text` matches `pattern`, an invalid pattern matching nothing.
pub open spec fn matches_or_false(pattern: Seq<char>, text: Seq<char>) -> bool {
    regex_compiles(pattern) && regex_matches(pattern, text)
}

/// Whether `text` matches `pattern`, an invalid pattern matching only the text
/// equal to it.
pub open spec fn matches_or_equal(pattern: Seq<char>, text: Seq<char>) -> bool {
    if regex_compiles(pattern) {
        regex_matches(pattern, text)
    } else {
        text == pattern
    }
}

/// Whether `text` matches `pattern`; an invalid pattern matches nothing.
pub fn pattern_matches(pattern: &str, text: &str) -> (r: bool)
    ensures
        r == matches_or_false(pattern@, text@),
{
    match regex_is_match(pattern, text) {
        Some(b) => b,
        None => false,
    }
}

/// Whether `text` matches `pattern`; an invalid pattern matches only itself.
pub fn pattern_matches_or_equal(pattern: &str, text: &str) -> (r: bool)
    ensures
        r == matches_or_equal(pattern@, text@),
{
    match regex_is_match(pattern, text) {
        Some(b) => b,
        None => crate::text::str_eq(text, pattern),
    }
}

} // verus!
