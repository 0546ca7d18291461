//! Regular-expression matching, taken from the regex crate.
//!
//! Whether a pattern compiles, whether it matches a text, and what its
//! capture groups are all depend on the pattern and the text alone, so the
//! three outcomes are named and every contract speaks over the names. The
//! pattern travels as plain text and is compiled inside the call.

use vstd::prelude::*;

verus! {

/// Whether `regex::Regex::new` accepts the pattern.
pub uninterp spec fn regex_compiles(pat: Seq<char>) -> bool;

/// Whether the compiled pattern matches anywhere in the text.
pub uninterp spec fn regex_accepts(pat: Seq<char>, text: Seq<char>) -> bool;

/// The capture groups of the leftmost match: group 0 is the whole match;
/// `None` outside when nothing matches, `None` inside for a group that took
/// no part in the match.
pub uninterp spec fn regex_groups(pat: Seq<char>, text: Seq<char>) -> Option<
    Seq<Option<Seq<char>>>,
>;

/// Relies on `regex::Regex::new` and `Regex::is_match`: compilation and
/// matching depend on the pattern and text alone. `None` exactly when the
/// pattern does not compile.
#[verifier::external_body]
pub fn regex_is_match(pat: &str, text: &str) -> (r: Option<bool>)
    ensures
        (r is Some) == regex_compiles(pat@),
        r matches Some(b) ==> b == regex_accepts(pat@, text@),
{
    regex::Regex::new(pat).ok().map(|re| re.is_match(text))
}

/// Relies on `regex::Regex::new` and `Regex::captures`: the groups of the
/// leftmost match depend on the pattern and text alone, and captures exist
/// exactly when the pattern matches. `None` exactly when the pattern does
/// not compile.
#[verifier::external_body]
pub fn regex_captures(pat: &str, text: &str) -> (r: Option<Option<Vec<Option<String>>>>)
    ensures
        (r is Some) == regex_compiles(pat@),
        r matches Some(c) ==> c.deep_view() == regex_groups(pat@, text@),
        r matches Some(c) ==> ((c is Some) == regex_accepts(pat@, text@)),
{
    let re = match regex::Regex::new(pat) {
        Ok(re) => re,
        Err(_) => return None,
    };
    Some(re.captures(text).map(
        |caps| (0..caps.len()).map(|g| caps.get(g).map(|m| m.as_str().to_string())).collect(),
    ))
}

} // verus!
