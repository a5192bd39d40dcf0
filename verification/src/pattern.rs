//! Regular-expression matching, through the `regex` crate.
//!
//! The matching itself is not restated here: each function's result is
//! named, as a function of its pattern and haystack, by a specification
//! function without a body. A pattern that does not compile matches nothing.
use vstd::prelude::*;

verus! {

/// The text of capture group `group` of the leftmost match of `pattern` in
/// `haystack` (`Regex::captures`, then `Captures::get`).
pub uninterp spec fn regex_capture(pattern: Seq<char>, haystack: Seq<char>, group: nat) -> Option<
    Seq<char>,
>;

/// The capture groups of every successive non-overlapping match of
/// `pattern` in `haystack` (`Regex::captures_iter`); a group that did not
/// take part in a match is the empty text.
pub uninterp spec fn regex_all_captures(pattern: Seq<char>, haystack: Seq<char>) -> Seq<
    Seq<Seq<char>>,
>;

/// `haystack` with every non-overlapping match of `pattern` replaced by
/// `replacement` (`Regex::replace_all`).
pub uninterp spec fn regex_replaced(
    pattern: Seq<char>,
    haystack: Seq<char>,
    replacement: Seq<char>,
) -> Seq<char>;

/// The characters that `regex::escape` escapes.
pub open spec fn is_regex_meta(c: char) -> bool {
    c == '\\' || c == '.' || c == '+' || c == '*' || c == '?' || c == '(' || c == ')' || c == '|'
        || c == '[' || c == ']' || c == '{' || c == '}' || c == '^' || c == '$' || c == '#' || c
        == '&' || c == '-' || c == '~'
}

/// `s` with a backslash before each regex meta character.
pub open spec fn regex_escaped(s: Seq<char>) -> Seq<char>
    decreases s.len(),
{
    if s.len() == 0 {
        s
    } else if is_regex_meta(s.last()) {
        regex_escaped(s.drop_last()).push('\\').push(s.last())
    } else {
        regex_escaped(s.drop_last()).push(s.last())
    }
}

/// The nested views of a list of lists of strings.
pub open spec fn nested_views(v: Seq<Vec<String>>) -> Seq<Seq<Seq<char>>> {
    v.map_values(|w: Vec<String>| w@.map_values(|s: String| s@))
}

/// `Regex::new(pattern)` then `captures(haystack)` and the group's text.
#[verifier::external_body]
pub(crate) fn capture(pattern: &str, haystack: &str, group: usize) -> (r: Option<String>)
    ensures
        r matches Some(s) ==> regex_capture(pattern@, haystack@, group as nat) == Some(s@),
        r is None ==> regex_capture(pattern@, haystack@, group as nat) is None,
{
    match regex::Regex::new(pattern) {
        Ok(re) => re.captures(haystack).and_then(|c| c.get(group)).map(|m| m.as_str().to_string()),
        Err(_) => None,
    }
}

/// `Regex::new(pattern)` then `captures_iter(haystack)`, every group's text.
#[verifier::external_body]
pub(crate) fn captures_all(pattern: &str, haystack: &str) -> (r: Vec<Vec<String>>)
    ensures
        nested_views(r@) == regex_all_captures(pattern@, haystack@),
{
    match regex::Regex::new(pattern) {
        Ok(re) => re.captures_iter(haystack).map(
            |c| c.iter().map(|m| m.map_or(String::new(), |m| m.as_str().to_string())).collect(),
        ).collect(),
        Err(_) => Vec::new(),
    }
}

/// `Regex::new(pattern)` then `replace_all(haystack, replacement)`.
#[verifier::external_body]
pub(crate) fn replace_all(pattern: &str, haystack: &str, replacement: &str) -> (r: String)
    ensures
        r@ == regex_replaced(pattern@, haystack@, replacement@),
{
    match regex::Regex::new(pattern) {
        Ok(re) => re.replace_all(haystack, replacement).into_owned(),
        Err(_) => haystack.to_string(),
    }
}

/// `regex::escape`: a backslash is put before each meta character.
#[verifier::external_body]
pub(crate) fn escape(s: &str) -> (r: String)
    ensures
        r@ == regex_escaped(s@),
{
    regex::escape(s)
}

} // verus!
