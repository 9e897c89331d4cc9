//! Trusted bindings to the `regex` crate.
use crate::text::opt_text;
use vstd::prelude::*;

verus! {

/// Whether `regex::Regex::new(pattern)` compiles and its `is_match` holds on `text`.
pub uninterp spec fn regex_matches(pattern: Seq<char>, text: Seq<char>) -> bool;

/// Compiles `pattern` with `regex::Regex::new` and calls `is_match` on `text`; a
/// pattern that does not compile gives `false`. Claimed: the result is the name
/// [`regex_matches`] of the two texts.
#[verifier::external_body]
pub(crate) fn regex_is_match(pattern: &str, text: &str) -> (r: bool)
    ensures
        r == regex_matches(pattern@, text@),
{
    match regex::Regex::new(pattern) {
        Ok(re) => re.is_match(text),
        Err(_) => false,
    }
}

/// What `regex::Regex::replace_all` yields for a pattern, a text and a replacement
/// template (with `$` group references expanded).
pub uninterp spec fn regex_replaced_all(pattern: Seq<char>, text: Seq<char>, replacement: Seq<char>) -> Seq<char>;

/// Compiles `pattern` and calls `replace_all(text, replacement)`; a pattern that does
/// not compile leaves the text as it is. Claimed: the result is the name
/// [`regex_replaced_all`] of the three texts, and the text itself where the pattern
/// does not match (the crate returns the haystack unchanged when nothing matches).
#[verifier::external_body]
pub(crate) fn regex_replace_all(pattern: &str, text: &str, replacement: &str) -> (r: String)
    ensures
        r@ == regex_replaced_all(pattern@, text@, replacement@),
        !regex_matches(pattern@, text@) ==> r@ == text@,
{
    match regex::Regex::new(pattern) {
        Ok(re) => re.replace_all(text, replacement).into_owned(),
        Err(_) => text.to_string(),
    }
}

/// What `regex::Regex::captures(text)` holds in group `group` for a pattern.
pub uninterp spec fn regex_captured(pattern: Seq<char>, text: Seq<char>, group: nat) -> Option<Seq<char>>;

/// Compiles `pattern` and returns the text of group `group` of the first match
/// (`captures`, then `Captures::get`); a pattern that does not compile gives `None`.
/// Claimed: the result is the name [`regex_captured`]; there is a capture only where
/// the pattern matches (`captures` is `None` exactly where there is no match).
#[verifier::external_body]
pub(crate) fn regex_capture(pattern: &str, text: &str, group: usize) -> (r: Option<String>)
    ensures
        opt_text(r) == regex_captured(pattern@, text@, group as nat),
        r is Some ==> regex_matches(pattern@, text@),
{
    let re = regex::Regex::new(pattern).ok()?;
    re.captures(text).and_then(|c| c.get(group)).map(|m| m.as_str().to_string())
}

/// What `regex::Regex::replace` yields: the first match replaced by a replacement
/// template (with `$` group references expanded).
pub uninterp spec fn regex_replaced_first(pattern: Seq<char>, text: Seq<char>, replacement: Seq<char>) -> Seq<char>;

/// Compiles `pattern` and calls `replace(text, replacement)`; a pattern that does not
/// compile leaves the text as it is. Claimed: the result is the name
/// [`regex_replaced_first`], and the text itself where the pattern does not match.
#[verifier::external_body]
pub(crate) fn regex_replace_first(pattern: &str, text: &str, replacement: &str) -> (r: String)
    ensures
        r@ == regex_replaced_first(pattern@, text@, replacement@),
        !regex_matches(pattern@, text@) ==> r@ == text@,
{
    match regex::Regex::new(pattern) {
        Ok(re) => re.replace(text, replacement).into_owned(),
        Err(_) => text.to_string(),
    }
}

} // verus!
