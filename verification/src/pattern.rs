//! Regular expressions. The patterns are this library's own; matching them is
//! the `regex` crate's work, reached through the two functions below.

use vstd::prelude::*;

verus! {

/// What `regex::Regex::captures` finds for `pattern` in `text`: the groups of
/// the leftmost match, group 0 (the whole match) first, each group that took
/// part in the match with the text it matched. `None` where the pattern does
/// not compile or matches nowhere.
pub uninterp spec fn first_match(pattern: Seq<char>, text: Seq<char>) -> Option<
    Seq<Option<Seq<char>>>,
>;

/// What `regex::Regex::captures_iter` yields for `pattern` in `text`: the
/// groups of each successive match that does not overlap the one before, in
/// order. `None` where the pattern does not compile.
pub uninterp spec fn all_matches(pattern: Seq<char>, text: Seq<char>) -> Option<
    Seq<Seq<Option<Seq<char>>>>,
>;

/// Compiles `pattern` with `regex::Regex::new` and calls `Regex::captures` on
/// `text`. The contract gives the result its name and claims nothing more.
#[verifier::external_body]
pub(crate) fn first_captures(pattern: &str, text: &str) -> (r: Option<Vec<Option<String>>>)
    ensures
        r.deep_view() == first_match(pattern@, text@),
{
    let compiled = regex::Regex::new(pattern).ok()?;
    let found = compiled.captures(text)?;
    Some(found.iter().map(|g| g.map(|m| m.as_str().to_string())).collect())
}

/// Compiles `pattern` with `regex::Regex::new` and collects what
/// `Regex::captures_iter` yields on `text`. The contract gives the result its
/// name and claims nothing more.
#[verifier::external_body]
pub(crate) fn all_captures(pattern: &str, text: &str) -> (r: Option<Vec<Vec<Option<String>>>>)
    ensures
        r.deep_view() == all_matches(pattern@, text@),
{
    let compiled = regex::Regex::new(pattern).ok()?;
    Some(
        compiled.captures_iter(text).map(
            |found| found.iter().map(|g| g.map(|m| m.as_str().to_string())).collect(),
        ).collect(),
    )
}

/// Group `index` of a match, where the match has that group and it took part.
pub open spec fn group_of(groups: Seq<Option<Seq<char>>>, index: int) -> Option<Seq<char>> {
    if 0 <= index < groups.len() {
        groups[index]
    } else {
        None
    }
}

/// Group `index` of a match, where the match has that group and it took part.
pub fn group(groups: &Vec<Option<String>>, index: usize) -> (r: Option<&String>)
    ensures
        r.deep_view() == group_of(groups.deep_view(), index as int),
{
    if index < groups.len() {
        match &groups[index] {
            Some(s) => Some(s),
            None => None,
        }
    } else {
        None
    }
}

/// Group `index` of the leftmost match of `pattern` in `text`.
pub open spec fn captured(pattern: Seq<char>, text: Seq<char>, index: int) -> Option<Seq<char>> {
    match first_match(pattern, text) {
        Some(groups) => group_of(groups, index),
        None => None,
    }
}

/// Group `index` of the leftmost match of `pattern` in `text`.
pub fn capture(pattern: &str, text: &str, index: usize) -> (r: Option<String>)
    ensures
        r.deep_view() == captured(pattern@, text@, index as int),
{
    match first_captures(pattern, text) {
        Some(mut groups) => {
            if index < groups.len() {
                groups.swap_remove(index)
            } else {
                None
            }
        },
        None => None,
    }
}

} // verus!
