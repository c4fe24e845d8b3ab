//! Pattern search. The six markup patterns of the reader pages and the one of
//! the catalog listing are regular expressions; matching them is the work of
//! the `regex` crate, reached through one function whose contract names its
//! result. Every search compiles its pattern anew.

use vstd::prelude::*;
use crate::errors::{ParseError, ParseErrorView};

verus! {

/// One match of a pattern: the text of each capture group, the whole match at
/// index 0, `None` for a group that took no part in the match.
pub type Groups = Vec<Option<String>>;

/// Whether `regex::Regex::new` accepts `pattern`.
pub uninterp spec fn regex_compiles(pattern: Seq<char>) -> bool;

/// What `regex::Regex::captures_iter` yields on `haystack` for the expression
/// compiled from `pattern`: the successive non-overlapping matches, leftmost
/// first, each with the text of its capture groups.
pub uninterp spec fn regex_captures(pattern: Seq<char>, haystack: Seq<char>) -> Seq<
    Seq<Option<Seq<char>>>,
>;

/// The failure of `regex::Regex::new`.
#[verifier::external_type_specification]
#[verifier::external_body]
pub struct ExRegexError(regex::Error);

/// Compiles `pattern` with `regex::Regex::new` and collects what
/// `Regex::captures_iter` yields on `haystack`: for each match what
/// `Captures::iter` yields, each group as the text of `Match::as_str`; the
/// failure of `Regex::new` where the pattern is refused. Taken on trust: that
/// the result is what the two names stand for, which says no more than that
/// the same pattern and haystack always give the same.
#[verifier::external_body]
fn capture_all(pattern: &str, haystack: &str) -> (found: Result<Vec<Groups>, regex::Error>)
    ensures
        found is Ok <==> regex_compiles(pattern@),
        found matches Ok(all) ==> all.deep_view() == regex_captures(pattern@, haystack@),
{
    let re = regex::Regex::new(pattern)?;
    Ok(
        re.captures_iter(haystack).map(
            |c| c.iter().map(|g| g.map(|m| m.as_str().to_string())).collect(),
        ).collect(),
    )
}

/// What a search for `pattern` in `haystack` gives: the matches in their
/// order, or `BadPattern` where the matcher refuses the pattern.
pub open spec fn search_of(pattern: Seq<char>, haystack: Seq<char>) -> Result<
    Seq<Seq<Option<Seq<char>>>>,
    ParseErrorView,
> {
    if regex_compiles(pattern) {
        Ok(regex_captures(pattern, haystack))
    } else {
        Err(ParseErrorView::BadPattern)
    }
}

/// The view of what a search found, or of the failure in its place.
pub open spec fn found_view(r: Result<Vec<Groups>, ParseError>) -> Result<
    Seq<Seq<Option<Seq<char>>>>,
    ParseErrorView,
> {
    match r {
        Ok(found) => Ok(found.deep_view()),
        Err(e) => Err(e@),
    }
}

/// Searches `haystack` for `pattern`, a regular expression: the successive
/// matches that do not overlap, leftmost first, each with its groups.
pub fn search(pattern: &str, haystack: &str) -> (r: Result<Vec<Groups>, ParseError>)
    ensures
        found_view(r) == search_of(pattern@, haystack@),
{
    match capture_all(pattern, haystack) {
        Ok(found) => Ok(found),
        Err(_) => Err(ParseError::BadPattern),
    }
}

/// The text of group `i` of a match; the empty text for a group that is not
/// there or took no part.
pub open spec fn group_text(groups: Seq<Option<Seq<char>>>, i: int) -> Seq<char> {
    if 0 <= i < groups.len() && groups[i] is Some {
        groups[i]->0
    } else {
        Seq::empty()
    }
}

/// Groups 1 and 2 of each match, as a pair: the pattern's name and value.
pub open spec fn pairs_of(matches: Seq<Seq<Option<Seq<char>>>>) -> Seq<(Seq<char>, Seq<char>)> {
    Seq::new(matches.len(), |i: int| (group_text(matches[i], 1), group_text(matches[i], 2)))
}

/// The content of the last pair named `key`: a later pair overrides an earlier one.
pub open spec fn last_value(pairs: Seq<(Seq<char>, Seq<char>)>, key: Seq<char>) -> Option<
    Seq<char>,
>
    decreases pairs.len(),
{
    if pairs.len() == 0 {
        None
    } else if pairs.last().0 == key {
        Some(pairs.last().1)
    } else {
        last_value(pairs.drop_last(), key)
    }
}

/// The text of group `i` of a match, borrowed.
pub fn group_str<'a>(groups: &'a Groups, i: usize) -> (text: &'a str)
    ensures
        text@ == group_text(groups.deep_view(), i as int),
{
    proof {
        reveal_strlit("");
    }
    if i < groups.len() {
        match &groups[i] {
            Some(t) => t.as_str(),
            None => "",
        }
    } else {
        ""
    }
}

/// The text of group `i` of a match, as a string of its own.
pub fn group(groups: &Groups, i: usize) -> (text: String)
    ensures
        text@ == group_text(groups.deep_view(), i as int),
{
    group_str(groups, i).to_owned()
}

} // verus!
