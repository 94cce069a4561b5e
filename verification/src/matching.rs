//! What the rules have from the `regex` crate: compiling a pattern, testing
//! a text against it, the names of its capture groups, and what the groups
//! matched. Nothing here is proved; each contract says what is taken on
//! trust.

use vstd::prelude::*;
use regex::Regex;

verus! {

/// `regex::Regex`, a compiled regular expression: carried as it is, and
/// known by what the functions below say of it.
#[verifier::external_type_specification]
#[verifier::external_body]
pub struct ExRegex(regex::Regex);

/// `regex::Error`, the refusal of a pattern: nothing is read from it.
#[verifier::external_type_specification]
#[verifier::external_body]
pub struct ExRegexError(regex::Error);

/// What `Regex::new` makes of a pattern's text: the compiled expression, or
/// nothing where it refuses the text.
pub uninterp spec fn compiled(src: Seq<char>) -> Option<Regex>;

/// Whether `Regex::is_match` finds a match of the expression somewhere in
/// the text.
pub uninterp spec fn found_in(re: Regex, text: Seq<char>) -> bool;

/// What `Regex::capture_names` yields: for each capture group of the
/// expression, in the order of the opening parentheses and with the whole
/// match as the first group, the group's name if it has one.
pub uninterp spec fn group_names(re: Regex) -> Seq<Option<Seq<char>>>;

/// What `Regex::captures` yields: nothing where the expression matches
/// nowhere in the text; else, for the leftmost match and for each capture
/// group in the order of `group_names`, the part of the text that the group
/// matched, if it took part in the match.
pub uninterp spec fn group_texts(re: Regex, text: Seq<char>) -> Option<Seq<Option<Seq<char>>>>;

/// The texts in a list of optional strings.
pub open spec fn texts(v: Seq<Option<String>>) -> Seq<Option<Seq<char>>> {
    Seq::new(
        v.len(),
        |i: int|
            match v[i] {
                Some(s) => Some(s@),
                None => None,
            },
    )
}

/// `Regex::new`: compiles a pattern's text. The contract only names the
/// result: the same text gives the same expression or the same refusal.
#[verifier::external_body]
pub(crate) fn compile(src: &str) -> (r: Result<Regex, regex::Error>)
    ensures
        match r {
            Ok(re) => compiled(src@) == Some(re),
            Err(_) => compiled(src@).is_none(),
        },
{
    Regex::new(src)
}

/// `Regex::is_match`: whether the expression matches somewhere in the text.
/// The contract only names the result.
#[verifier::external_body]
pub(crate) fn is_match(re: &Regex, text: &str) -> (b: bool)
    ensures
        b == found_in(*re, text@),
{
    re.is_match(text)
}

/// `Regex::capture_names`, with each name copied into a string of its own.
/// The contract only names the result.
#[verifier::external_body]
pub(crate) fn capture_names(re: &Regex) -> (names: Vec<Option<String>>)
    ensures
        texts(names@) == group_names(*re),
{
    re.capture_names().map(|name| name.map(|n| n.to_string())).collect()
}

/// `Regex::captures`, with the groups of the match handed out in order by
/// `Captures::iter` and the text of each copied by `Match::as_str`. The
/// contract names the result, and says that there are captures exactly
/// where `Regex::is_match` finds a match.
#[verifier::external_body]
pub(crate) fn captures(re: &Regex, text: &str) -> (groups: Option<Vec<Option<String>>>)
    ensures
        match groups {
            Some(g) => group_texts(*re, text@) == Some(texts(g@)),
            None => group_texts(*re, text@).is_none(),
        },
        groups.is_some() == found_in(*re, text@),
{
    re.captures(text).map(|caps| caps.iter().map(|m| m.map(|m| m.as_str().to_string())).collect())
}

} // verus!
