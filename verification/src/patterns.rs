//! Searching a text for a regular expression, by the `regex` crate.

use vstd::prelude::*;
use crate::text::{text_of, texts};

verus! {

/// The leftmost match of the regular expression `pattern` in `haystack`, as
/// `regex::Regex::find` reports it: the part of `haystack` that matched.
/// It is `None` where nothing matches, and where `pattern` is no expression
/// that `regex::Regex::new` accepts.
pub uninterp spec fn regex_find(pattern: Seq<char>, haystack: Seq<char>) -> Option<Seq<char>>;

/// The matches of the regular expression `pattern` in `haystack` that do not
/// overlap, from left to right, as `regex::Regex::find_iter` yields them: of
/// each the part of `haystack` that matched. It is empty where nothing
/// matches, and where `pattern` is no expression that `regex::Regex::new`
/// accepts.
pub uninterp spec fn regex_find_iter(pattern: Seq<char>, haystack: Seq<char>) -> Seq<Seq<char>>;

/// Compiles `pattern` with `regex::Regex::new` and searches `msg` with
/// `regex::Regex::find`; the match is copied out with `regex::Match::as_str`.
/// Nothing is proved of the search: the result is `regex_find` of the two
/// texts by definition of that name.
#[verifier::external_body]
pub(crate) fn msg_contains(msg: &str, pattern: &str) -> (found: Option<String>)
    ensures
        text_of(found) == regex_find(pattern@, msg@),
{
    match regex::Regex::new(pattern) {
        Ok(re) => match re.find(msg) {
            Some(m) => Some(m.as_str().to_string()),
            None => None,
        },
        Err(_) => None,
    }
}

/// Compiles `pattern` with `regex::Regex::new` and walks `haystack` with
/// `regex::Regex::find_iter`; each match is copied out with
/// `regex::Match::as_str`. Nothing is proved of the search: the result is
/// `regex_find_iter` of the two texts by definition of that name.
#[verifier::external_body]
pub(crate) fn all_matches(pattern: &str, haystack: &str) -> (found: Vec<String>)
    ensures
        texts(found@) == regex_find_iter(pattern@, haystack@),
{
    let mut found: Vec<String> = Vec::new();
    if let Ok(re) = regex::Regex::new(pattern) {
        for m in re.find_iter(haystack) {
            found.push(m.as_str().to_string());
        }
    }
    found
}

} // verus!
