//! Turning clipboard text into a lookup query.
use vstd::prelude::*;

use crate::lang::{detected, is_alpha, Script};
use crate::strip::{strip_query, stripped_query};
use crate::text::{
    before_char, chars_of, has_char, index_of_char, starts_with, starts_with_text, string_of_range,
    trim_text, trim_ws,
};

verus! {

/// The query that the clipboard text `raw` yields, if any: its first line,
/// trimmed and cleaned; refused when empty, longer than `max_len`
/// characters, without a letter of a known script, starting with a URL
/// scheme or `www.`, or holding a `/`.
pub open spec fn prepared(raw: Seq<char>, max_len: nat) -> Option<Seq<char>> {
    let line = stripped_query(trim_ws(before_char(raw, '\n')));
    if line.len() == 0 || line.len() > max_len || detected(line) == Script::Other || starts_with(
        line,
        "http://"@,
    ) || starts_with(line, "https://"@) || starts_with(line, "www."@) || starts_with(
        line,
        "ftp://"@,
    ) || line.contains('/') {
        None
    } else {
        Some(line)
    }
}

/// The lookup query in the clipboard text `raw`, or `None` when the text
/// is not something to look up.
pub fn prepare_query(raw: &str, max_len: usize) -> (r: Option<String>)
    ensures
        r matches Some(q) ==> prepared(raw@, max_len as nat) == Some(q@),
        r is None ==> prepared(raw@, max_len as nat) is None,
{
    let chars = chars_of(raw);
    let end = index_of_char(chars.as_slice(), '\n');
    let first = string_of_range(chars.as_slice(), 0, end);
    let trimmed = trim_text(first.as_str());
    let line = strip_query(trimmed.as_str());
    let lv = chars_of(line.as_str());
    if lv.len() == 0 {
        return None;
    }
    if lv.len() > max_len {
        return None;
    }
    if !is_alpha(line.as_str()) {
        return None;
    }
    if starts_with_text(lv.as_slice(), "http://") || starts_with_text(lv.as_slice(), "https://")
        || starts_with_text(lv.as_slice(), "www.") || starts_with_text(lv.as_slice(), "ftp://") {
        return None;
    }
    if has_char(lv.as_slice(), '/') {
        return None;
    }
    Some(line)
}

} // verus!

verus! {

pub proof fn lemma_without_markdown_from(s: Seq<char>)
    ensures
        forall|i: int|
            0 <= i < crate::strip::without_markdown(s).len() ==> s.contains(
                #[trigger] crate::strip::without_markdown(s)[i],
            ),
    decreases s.len(),
{
    if s.len() > 0 {
        let p = s.drop_last();
        lemma_without_markdown_from(p);
        let w = crate::strip::without_markdown(s);
        let wp = crate::strip::without_markdown(p);
        assert forall|i: int| 0 <= i < w.len() implies s.contains(#[trigger] w[i]) by {
            if i < wp.len() {
                assert(w[i] == wp[i]);
                let j = choose|j: int| 0 <= j < p.len() && p[j] == wp[i];
                assert(s[j] == p[j]);
            } else {
                assert(w[i] == s.last());
                assert(s[s.len() - 1] == s.last());
            }
        }
    }
}

/// Every character of a cleaned query comes from the text it was made of.
pub proof fn lemma_stripped_from(s: Seq<char>)
    ensures
        forall|i: int| 0 <= i < stripped_query(s).len() ==> s.contains(#[trigger] stripped_query(s)[i]),
{
    let k = crate::text::CharClass::EdgeJunk;
    let w = crate::strip::without_markdown(s);
    lemma_without_markdown_from(s);
    crate::strip::lemma_skip_leading_suffix(w, k);
    let l = crate::text::skip_leading(w, k);
    let a = choose|a: int| 0 <= a <= w.len() && #[trigger] crate::text::skip_leading(w, k) == w.subrange(a, w.len() as int);
    crate::strip::lemma_skip_trailing_prefix(l, k);
    let r = stripped_query(s);
    assert forall|i: int| 0 <= i < r.len() implies s.contains(#[trigger] r[i]) by {
        let b = choose|b: int| 0 <= b <= l.len() && #[trigger] crate::text::skip_trailing(l, k) == l.subrange(0, b);
        assert(r[i] == l[i]);
        assert(l[i] == w[a + i]);
    }
}

/// A prepared query, prepared again, is given back unchanged.
pub proof fn prepared_query_is_stable(raw: Seq<char>, max_len: nat)
    ensures
        prepared(raw, max_len) matches Some(q) ==> prepared(q, max_len) == Some(q),
{
    if let Some(q) = prepared(raw, max_len) {
        let line = before_char(raw, '\n');
        let t = trim_ws(line);
        crate::text::lemma_before_char_len(raw, '\n');
        crate::strip::lemma_skip_leading_suffix(line, crate::text::CharClass::Whitespace);
        let lead = crate::text::skip_leading(line, crate::text::CharClass::Whitespace);
        let a = choose|a: int| 0 <= a <= line.len() && #[trigger] crate::text::skip_leading(line, crate::text::CharClass::Whitespace) == line.subrange(a, line.len() as int);
        crate::strip::lemma_skip_trailing_prefix(lead, crate::text::CharClass::Whitespace);
        let b = choose|b: int| 0 <= b <= lead.len() && #[trigger] crate::text::skip_trailing(lead, crate::text::CharClass::Whitespace) == lead.subrange(0, b);
        assert forall|j: int| 0 <= j < t.len() implies t[j] != '\n' by {
            assert(t[j] == lead[j]);
            assert(lead[j] == line[a + j]);
            assert(line[a + j] == raw[a + j]);
        }
        lemma_stripped_from(t);
        assert forall|j: int| 0 <= j < q.len() implies q[j] != '\n' by {
            let m = choose|m: int| 0 <= m < t.len() && t[m] == q[j];
        }
        crate::text::lemma_before_char(q, '\n', q.len() as int);
        assert(q.subrange(0, q.len() as int) == q);
        crate::strip::stripped_query_is_clean(t);
        crate::text::lemma_skip_leading(q, crate::text::CharClass::Whitespace, 0);
        crate::text::lemma_skip_trailing(q, crate::text::CharClass::Whitespace, q.len() as int);
        assert(trim_ws(q) == q);
        crate::strip::strip_query_idempotent(t);
    }
}

} // verus!
