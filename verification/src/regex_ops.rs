//! Regular-expression matching through the `regex` crate. A pattern is
//! compiled for each call; a pattern that does not compile yields `None`.
use vstd::prelude::*;

verus! {

/// Whether `regex::Regex::new(pattern)` compiles and its `is_match` finds a
/// match in `text`; `None` when the pattern does not compile.
pub uninterp spec fn regex_matches(pattern: Seq<char>, text: Seq<char>) -> Option<bool>;

/// The number of non-overlapping matches that `find_iter` reports; `None`
/// when the pattern does not compile.
pub uninterp spec fn regex_match_count(pattern: Seq<char>, text: Seq<char>) -> Option<nat>;

/// For each match of `captures_iter`, in order, the text of capture group 1
/// when it took part; `None` when the pattern does not compile.
pub uninterp spec fn regex_group1_texts(pattern: Seq<char>, text: Seq<char>) -> Option<Seq<Option<Seq<char>>>>;

/// For the first match of `find`, its text: `Some(None)` when nothing
/// matches, `None` when the pattern does not compile.
pub uninterp spec fn regex_first_match(pattern: Seq<char>, text: Seq<char>) -> Option<Option<Seq<char>>>;

/// Compiles `pattern` and returns the text of its first match in `text`.
#[verifier::external_body]
pub(crate) fn regex_find(pattern: &str, text: &str) -> (r: Option<Option<String>>)
    ensures
        match r {
            Some(Some(m)) => regex_first_match(pattern@, text@) == Some(Some(m@)),
            Some(None) => regex_first_match(pattern@, text@) == Some(None::<Seq<char>>),
            None => regex_first_match(pattern@, text@) is None,
        },
{
    match regex::Regex::new(pattern) {
        Ok(re) => Some(re.find(text).map(|m| m.as_str().to_string())),
        Err(_) => None,
    }
}

/// Compiles `pattern` with `Regex::new` and tests `text` with `is_match`.
#[verifier::external_body]
pub(crate) fn regex_is_match(pattern: &str, text: &str) -> (r: Option<bool>)
    ensures
        r == regex_matches(pattern@, text@),
{
    match regex::Regex::new(pattern) {
        Ok(re) => Some(re.is_match(text)),
        Err(_) => None,
    }
}

/// Compiles `pattern` and counts the matches of `find_iter` in `text`.
#[verifier::external_body]
pub(crate) fn regex_count(pattern: &str, text: &str) -> (r: Option<usize>)
    ensures
        match r {
            Some(n) => regex_match_count(pattern@, text@) == Some(n as nat),
            None => regex_match_count(pattern@, text@) is None,
        },
{
    match regex::Regex::new(pattern) {
        Ok(re) => Some(re.find_iter(text).count()),
        Err(_) => None,
    }
}

/// Compiles `pattern` and collects capture group 1 of each match in `text`.
#[verifier::external_body]
pub(crate) fn regex_group1(pattern: &str, text: &str) -> (r: Option<Vec<Option<String>>>)
    ensures
        match r {
            Some(v) => regex_group1_texts(pattern@, text@) == Some(v@.map_values(|o: Option<String>| match o {
                Some(s) => Some(s@),
                None => None,
            })),
            None => regex_group1_texts(pattern@, text@) is None,
        },
{
    match regex::Regex::new(pattern) {
        Ok(re) => Some(re.captures_iter(text).map(|c| c.get(1).map(|m| m.as_str().to_string())).collect()),
        Err(_) => None,
    }
}

} // verus!
