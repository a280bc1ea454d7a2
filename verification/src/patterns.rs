//! The regular expressions of the library, run by the regex crate. What a
//! pattern matches in a text is left to that crate: each result below is a
//! function of the pattern and the text alone.
use crate::text::{opt_view, strs};
use vstd::prelude::*;

verus! {

/// The text of group `group` of the leftmost match of `pattern` in `text`.
pub uninterp spec fn regex_group(pattern: Seq<char>, text: Seq<char>, group: nat) -> Option<Seq<char>>;

/// The text of the leftmost match of `pattern` in `text`.
pub uninterp spec fn regex_first(pattern: Seq<char>, text: Seq<char>) -> Option<Seq<char>>;

/// The texts of the successive non-overlapping matches of `pattern`.
pub uninterp spec fn regex_all(pattern: Seq<char>, text: Seq<char>) -> Seq<Seq<char>>;

/// `text` with every match of `pattern` replaced by `replacement`
/// (`$1`-style group references expanded).
pub uninterp spec fn regex_replaced(pattern: Seq<char>, text: Seq<char>, replacement: Seq<char>) -> Seq<char>;

/// `regex::Regex::captures`, then the group `group` of the match: its text.
/// Which text the crate matches is not restated here.
#[verifier::external_body]
pub(crate) fn regex_capture_group(pattern: &str, text: &str, group: usize) -> (r: Option<String>)
    ensures
        opt_view(r) == regex_group(pattern@, text@, group as nat),
{
    match regex::Regex::new(pattern) {
        Ok(re) => match re.captures(text) {
            Some(c) => match c.get(group) {
                Some(m) => Some(m.as_str().to_string()),
                None => None,
            },
            None => None,
        },
        Err(_) => None,
    }
}

/// `regex::Regex::find`: the text of the leftmost match.
#[verifier::external_body]
pub(crate) fn regex_find_first(pattern: &str, text: &str) -> (r: Option<String>)
    ensures
        opt_view(r) == regex_first(pattern@, text@),
{
    match regex::Regex::new(pattern) {
        Ok(re) => match re.find(text) {
            Some(m) => Some(m.as_str().to_string()),
            None => None,
        },
        Err(_) => None,
    }
}

/// `regex::Regex::find_iter`: the texts of all the matches, in order.
#[verifier::external_body]
pub(crate) fn regex_find_all(pattern: &str, text: &str) -> (r: Vec<String>)
    ensures
        strs(r@) == regex_all(pattern@, text@),
{
    match regex::Regex::new(pattern) {
        Ok(re) => re.find_iter(text).map(|m| m.as_str().to_string()).collect(),
        Err(_) => Vec::new(),
    }
}

/// `regex::Regex::replace_all`.
#[verifier::external_body]
pub(crate) fn regex_replace_all(pattern: &str, text: &str, replacement: &str) -> (r: String)
    ensures
        r@ == regex_replaced(pattern@, text@, replacement@),
{
    match regex::Regex::new(pattern) {
        Ok(re) => re.replace_all(text, replacement).into_owned(),
        Err(_) => text.to_string(),
    }
}

} // verus!
