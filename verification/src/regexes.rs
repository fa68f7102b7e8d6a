//! Regular-expression matching, done by the `regex` crate.
use vstd::prelude::*;
use regex::Regex;

verus! {

/// What capture group `group` of the regular expression `pattern` (in the syntax
/// of the `regex` crate) matches at the first match in `text`; `None` when the
/// expression does not compile, does not match, or the group takes no part.
pub uninterp spec fn regex_capture(pattern: Seq<char>, text: Seq<char>, group: nat) -> Option<
    Seq<char>,
>;

/// Whether the regular expression `pattern` matches somewhere in `text`; false
/// when it does not compile.
pub uninterp spec fn regex_matches(pattern: Seq<char>, text: Seq<char>) -> bool;

/// `text` with every match of `pattern` replaced by `replacement` (with `$`
/// references expanded as `Regex::replace_all` does); `text` itself when the
/// expression does not compile.
pub uninterp spec fn regex_replace_all(
    pattern: Seq<char>,
    text: Seq<char>,
    replacement: Seq<char>,
) -> Seq<char>;

/// `regex::Regex::new(pattern)`, then `Regex::captures(text)` and
/// `Captures::get(group)`: the text of the group, named by [`regex_capture`].
#[verifier::external_body]
pub(crate) fn capture_group(pattern: &str, text: &str, group: usize) -> (r: Option<String>)
    ensures
        match r {
            Some(v) => regex_capture(pattern@, text@, group as nat) == Some(v@),
            None => regex_capture(pattern@, text@, group as nat) is None,
        },
{
    let re = Regex::new(pattern).ok()?;
    re.captures(text)?.get(group).map(|m| m.as_str().to_string())
}

/// `regex::Regex::new(pattern)`, then `Regex::is_match(text)`, named by
/// [`regex_matches`].
#[verifier::external_body]
pub(crate) fn is_match(pattern: &str, text: &str) -> (r: bool)
    ensures
        r == regex_matches(pattern@, text@),
{
    match Regex::new(pattern) {
        Ok(re) => re.is_match(text),
        Err(_) => false,
    }
}

/// `regex::Regex::new(pattern)`, then `Regex::replace_all(text, replacement)`,
/// named by [`regex_replace_all`].
#[verifier::external_body]
pub(crate) fn replace_all(pattern: &str, text: &str, replacement: &str) -> (r: String)
    ensures
        r@ == regex_replace_all(pattern@, text@, replacement@),
{
    match Regex::new(pattern) {
        Ok(re) => re.replace_all(text, replacement).into_owned(),
        Err(_) => text.to_string(),
    }
}

} // verus!
