//! Regular expressions, which the `regex` crate compiles and runs.

use vstd::prelude::*;

verus! {

/// Whether `regex::Regex::new` accepts `pattern`.
pub uninterp spec fn regex_accepts(pattern: Seq<char>) -> bool;

/// Whether the regular expression `pattern` matches anywhere in `haystack`, as
/// `regex::Regex::is_match` tells it.
pub uninterp spec fn regex_is_match(pattern: Seq<char>, haystack: Seq<char>) -> bool;

/// What a search for `pattern` in `haystack` finds: whether it matches
/// anywhere, unless the pattern is not accepted.
pub open spec fn search_of(pattern: Seq<char>, haystack: Seq<char>) -> Option<bool> {
    if regex_accepts(pattern) {
        Some(regex_is_match(pattern, haystack))
    } else {
        None
    }
}

/// `regex::Regex::new` on `pattern`, then `regex::Regex::is_match` on
/// `haystack`: nothing where the first does not accept the pattern, and else
/// what the second tells. Both depend on the two texts alone.
#[verifier::external_body]
pub(crate) fn search(pattern: &str, haystack: &str) -> (r: Option<bool>)
    ensures
        r is Some <==> regex_accepts(pattern@),
        r is Some ==> r->0 == regex_is_match(pattern@, haystack@),
{
    match regex::Regex::new(pattern) {
        Ok(re) => Some(re.is_match(haystack)),
        Err(_) => None,
    }
}

} // verus!
