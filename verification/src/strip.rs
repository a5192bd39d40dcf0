//! Cleaning of clipboard text into a lookup query.
use vstd::prelude::*;

use crate::text::{
    chars_of, class_contains, in_class, is_punct_or_symbol, is_white, string_of_range, trim_bounds,
    trim_class, CharClass,
};

verus! {

/// Markdown formatting characters: `*`, `_`, `~`, backtick, `#` and `=`.
pub open spec fn is_markdown(c: char) -> bool {
    c == '*' || c == '_' || c == '~' || c == '`' || c == '#' || c == '='
}

pub fn markdown_char(c: char) -> (r: bool)
    ensures
        r == is_markdown(c),
{
    c == '*' || c == '_' || c == '~' || c == '`' || c == '#' || c == '='
}

/// `s` with every markdown formatting character removed.
pub open spec fn without_markdown(s: Seq<char>) -> Seq<char>
    decreases s.len(),
{
    if s.len() == 0 {
        s
    } else if is_markdown(s.last()) {
        without_markdown(s.drop_last())
    } else {
        without_markdown(s.drop_last()).push(s.last())
    }
}

/// The cleaned query: markdown characters removed, then punctuation, symbols
/// and whitespace trimmed from both ends.
pub open spec fn stripped_query(s: Seq<char>) -> Seq<char> {
    trim_class(without_markdown(s), CharClass::EdgeJunk)
}

/// Removes markdown formatting characters from the text and trims
/// punctuation, symbols and whitespace from both of its ends.
pub fn strip_query(text: &str) -> (r: String)
    ensures
        r@ == stripped_query(text@),
{
    let chars = chars_of(text);
    let mut kept: Vec<char> = Vec::new();
    let mut i: usize = 0;
    while i < chars.len()
        invariant
            i <= chars@.len(),
            kept@ == without_markdown(chars@.take(i as int)),
        decreases chars@.len() - i,
    {
        assert(chars@.take(i + 1).drop_last() == chars@.take(i as int));
        if !markdown_char(chars[i]) {
            kept.push(chars[i]);
        }
        i += 1;
    }
    assert(chars@.take(i as int) == chars@);
    let (a, b) = trim_bounds(kept.as_slice(), CharClass::EdgeJunk);
    string_of_range(kept.as_slice(), a, b)
}

// ---------------------------------------------------------------------------
// Properties of the cleaned query
// ---------------------------------------------------------------------------

pub proof fn lemma_without_markdown_clean(s: Seq<char>)
    ensures
        forall|i: int|
            0 <= i < without_markdown(s).len() ==> !is_markdown(#[trigger] without_markdown(s)[i]),
    decreases s.len(),
{
    if s.len() > 0 {
        lemma_without_markdown_clean(s.drop_last());
        let p = without_markdown(s.drop_last());
        assert forall|i: int|
            0 <= i < without_markdown(s).len() implies !is_markdown(
            #[trigger] without_markdown(s)[i],
        ) by {
            if i < p.len() {
                assert(without_markdown(s)[i] == p[i]);
            }
        }
    }
}

pub proof fn lemma_without_markdown_of_clean(s: Seq<char>)
    requires
        forall|i: int| 0 <= i < s.len() ==> !is_markdown(#[trigger] s[i]),
    ensures
        without_markdown(s) == s,
    decreases s.len(),
{
    if s.len() > 0 {
        lemma_without_markdown_of_clean(s.drop_last());
        assert(s.drop_last().push(s.last()) == s);
    }
}

pub proof fn lemma_skip_leading_suffix(s: Seq<char>, k: CharClass)
    ensures
        exists|a: int| 0 <= a <= s.len() && #[trigger] crate::text::skip_leading(s, k) == s.subrange(a, s.len() as int),
        crate::text::skip_leading(s, k).len() > 0 ==> !in_class(k, crate::text::skip_leading(s, k)[0]),
    decreases s.len(),
{
    if s.len() > 0 && in_class(k, s[0]) {
        lemma_skip_leading_suffix(s.drop_first(), k);
        let a = choose|a: int| 0 <= a <= s.drop_first().len() && #[trigger] crate::text::skip_leading(s.drop_first(), k) == s.drop_first().subrange(a, s.drop_first().len() as int);
        assert(s.drop_first().subrange(a, s.drop_first().len() as int) == s.subrange(a + 1, s.len() as int));
    } else {
        assert(s.subrange(0, s.len() as int) == s);
    }
}

pub proof fn lemma_skip_trailing_prefix(s: Seq<char>, k: CharClass)
    ensures
        exists|b: int| 0 <= b <= s.len() && #[trigger] crate::text::skip_trailing(s, k) == s.subrange(0, b),
        crate::text::skip_trailing(s, k).len() > 0 ==> !in_class(k, crate::text::skip_trailing(s, k).last()),
    decreases s.len(),
{
    if s.len() > 0 && in_class(k, s.last()) {
        lemma_skip_trailing_prefix(s.drop_last(), k);
        let b = choose|b: int| 0 <= b <= s.drop_last().len() && #[trigger] crate::text::skip_trailing(s.drop_last(), k) == s.drop_last().subrange(0, b);
        assert(s.drop_last().subrange(0, b) == s.subrange(0, b));
    } else {
        assert(s.subrange(0, s.len() as int) == s);
    }
}

/// The cleaned query holds no markdown formatting character, and neither
/// starts nor ends with punctuation, a symbol or whitespace.
pub proof fn stripped_query_is_clean(s: Seq<char>)
    ensures
        forall|i: int|
            0 <= i < stripped_query(s).len() ==> !is_markdown(#[trigger] stripped_query(s)[i]),
        stripped_query(s).len() > 0 ==> !in_class(CharClass::EdgeJunk, stripped_query(s)[0]),
        stripped_query(s).len() > 0 ==> !in_class(
            CharClass::EdgeJunk,
            stripped_query(s).last(),
        ),
{
    let w = without_markdown(s);
    let k = CharClass::EdgeJunk;
    lemma_without_markdown_clean(s);
    lemma_skip_leading_suffix(w, k);
    let l = crate::text::skip_leading(w, k);
    let a = choose|a: int| 0 <= a <= w.len() && #[trigger] crate::text::skip_leading(w, k) == w.subrange(a, w.len() as int);
    lemma_skip_trailing_prefix(l, k);
    let b = choose|b: int| 0 <= b <= l.len() && #[trigger] crate::text::skip_trailing(l, k) == l.subrange(0, b);
    let r = stripped_query(s);
    assert forall|i: int| 0 <= i < r.len() implies !is_markdown(#[trigger] r[i]) by {
        assert(r[i] == w[a + i]);
    }
    if r.len() > 0 {
        assert(r[0] == l[0]);
    }
}

/// Cleaning a query twice gives the same query as cleaning it once.
pub proof fn strip_query_idempotent(s: Seq<char>)
    ensures
        stripped_query(stripped_query(s)) == stripped_query(s),
{
    let r = stripped_query(s);
    let k = CharClass::EdgeJunk;
    stripped_query_is_clean(s);
    lemma_without_markdown_of_clean(r);
    crate::text::lemma_skip_leading(r, k, 0);
    assert(r.subrange(0, r.len() as int) == r);
    crate::text::lemma_skip_trailing(r, k, r.len() as int);
}


/// `idx` lists, in increasing order, a position in `b` for each character of
/// `a` that holds that character: `a` is `b` with some characters left out.
pub open spec fn picks(a: Seq<char>, b: Seq<char>, idx: Seq<int>) -> bool {
    &&& idx.len() == a.len()
    &&& forall|i: int| 0 <= i < idx.len() ==> 0 <= #[trigger] idx[i] < b.len() && b[idx[i]] == a[i]
    &&& forall|i: int, j: int| 0 <= i < j < idx.len() ==> #[trigger] idx[i] < #[trigger] idx[j]
}

/// `a` is a subsequence of `b`.
pub open spec fn is_subsequence(a: Seq<char>, b: Seq<char>) -> bool {
    exists|idx: Seq<int>| picks(a, b, idx)
}

/// The positions in `s` of the characters that [`without_markdown`] keeps.
pub open spec fn kept_positions(s: Seq<char>) -> Seq<int>
    decreases s.len(),
{
    if s.len() == 0 {
        Seq::empty()
    } else if is_markdown(s.last()) {
        kept_positions(s.drop_last())
    } else {
        kept_positions(s.drop_last()).push(s.len() - 1)
    }
}

/// Removing markdown characters keeps the others in order, at the positions
/// that [`kept_positions`] lists.
pub proof fn lemma_kept_positions(s: Seq<char>)
    ensures
        picks(without_markdown(s), s, kept_positions(s)),
    decreases s.len(),
{
    if s.len() > 0 {
        let t = s.drop_last();
        lemma_kept_positions(t);
        let p = kept_positions(t);
        let w = without_markdown(t);
        assert forall|i: int| 0 <= i < p.len() implies 0 <= #[trigger] p[i] < t.len() && s[p[i]]
            == w[i] by {
            assert(t[p[i]] == s[p[i]]);
        }
        if !is_markdown(s.last()) {
            let q = p.push(s.len() - 1);
            let v = w.push(s.last());
            assert forall|i: int| 0 <= i < q.len() implies 0 <= #[trigger] q[i] < s.len() && s[q[i]]
                == v[i] by {
                if i < p.len() {
                    assert(q[i] == p[i]);
                }
            }
            assert forall|i: int, j: int| 0 <= i < j < q.len() implies #[trigger] q[i]
                < #[trigger] q[j] by {
                if j < p.len() {
                    assert(q[i] == p[i] && q[j] == p[j]);
                } else {
                    assert(q[i] == p[i]);
                }
            }
        }
    }
}

/// The cleaned query is the input with some characters left out: every
/// character it keeps comes from the input, in the input's order.
pub proof fn stripped_query_is_subsequence(s: Seq<char>)
    ensures
        is_subsequence(stripped_query(s), s),
{
    let w = without_markdown(s);
    let k = CharClass::EdgeJunk;
    lemma_kept_positions(s);
    let p = kept_positions(s);
    lemma_skip_leading_suffix(w, k);
    let l = crate::text::skip_leading(w, k);
    let a = choose|a: int| 0 <= a <= w.len() && #[trigger] crate::text::skip_leading(w, k) == w.subrange(a, w.len() as int);
    lemma_skip_trailing_prefix(l, k);
    let b = choose|b: int| 0 <= b <= l.len() && #[trigger] crate::text::skip_trailing(l, k) == l.subrange(0, b);
    let r = stripped_query(s);
    assert(r == w.subrange(a, a + b));
    let idx = p.subrange(a, a + b);
    assert forall|i: int| 0 <= i < idx.len() implies 0 <= #[trigger] idx[i] < s.len() && s[idx[i]]
        == r[i] by {
        assert(idx[i] == p[a + i]);
        assert(r[i] == w[a + i]);
    }
    assert forall|i: int, j: int| 0 <= i < j < idx.len() implies #[trigger] idx[i]
        < #[trigger] idx[j] by {
        assert(idx[i] == p[a + i] && idx[j] == p[a + j]);
    }
    assert(picks(r, s, idx));
}


proof fn lemma_skip_leading_drops(s: Seq<char>, k: CharClass)
    ensures
        exists|a: int|
            0 <= a <= s.len() && crate::text::skip_leading(s, k) == s.subrange(a, s.len() as int)
                && forall|j: int| 0 <= j < a ==> in_class(k, #[trigger] s[j]),
    decreases s.len(),
{
    if s.len() > 0 && in_class(k, s[0]) {
        let t = s.drop_first();
        lemma_skip_leading_drops(t, k);
        let a = choose|a: int|
            0 <= a <= t.len() && crate::text::skip_leading(t, k) == t.subrange(a, t.len() as int)
                && forall|j: int| 0 <= j < a ==> in_class(k, #[trigger] t[j]);
        assert(t.subrange(a, t.len() as int) == s.subrange(a + 1, s.len() as int));
        assert forall|j: int| 0 <= j < a + 1 implies in_class(k, #[trigger] s[j]) by {
            if j > 0 {
                assert(s[j] == t[j - 1]);
            }
        }
    } else {
        assert(s.subrange(0, s.len() as int) == s);
    }
}

proof fn lemma_skip_trailing_drops(s: Seq<char>, k: CharClass)
    ensures
        exists|b: int|
            0 <= b <= s.len() && crate::text::skip_trailing(s, k) == s.subrange(0, b) && forall|j: int|
                b <= j < s.len() ==> in_class(k, #[trigger] s[j]),
    decreases s.len(),
{
    if s.len() > 0 && in_class(k, s.last()) {
        let t = s.drop_last();
        lemma_skip_trailing_drops(t, k);
        let b = choose|b: int|
            0 <= b <= t.len() && crate::text::skip_trailing(t, k) == t.subrange(0, b) && forall|j: int|
                b <= j < t.len() ==> in_class(k, #[trigger] t[j]);
        assert(t.subrange(0, b) == s.subrange(0, b));
        assert forall|j: int| b <= j < s.len() implies in_class(k, #[trigger] s[j]) by {
            if j < t.len() {
                assert(s[j] == t[j]);
            }
        }
    } else {
        assert(s.subrange(0, s.len() as int) == s);
    }
}

/// Cleaning trims only punctuation, symbols and whitespace: the query is a
/// run of the text without markdown characters, every character dropped
/// before or after it is punctuation, a symbol or whitespace, and (when the
/// query is not empty) its first and last characters are none of these.
pub proof fn strip_trims_only_punctuation_and_space(s: Seq<char>)
    ensures
        exists|a: int, b: int|
            #![trigger without_markdown(s).subrange(a, b)]
            {
                let w = without_markdown(s);
                &&& 0 <= a <= b <= w.len()
                &&& stripped_query(s) == w.subrange(a, b)
                &&& forall|j: int|
                    0 <= j < a ==> is_punct_or_symbol(#[trigger] w[j]) || is_white(w[j])
                &&& forall|j: int|
                    b <= j < w.len() ==> is_punct_or_symbol(#[trigger] w[j]) || is_white(w[j])
                &&& a < b ==> !is_punct_or_symbol(w[a]) && !is_white(w[a])
                    && !is_punct_or_symbol(w[b - 1]) && !is_white(w[b - 1])
            },
{
    let w = without_markdown(s);
    let k = CharClass::EdgeJunk;
    lemma_skip_leading_drops(w, k);
    lemma_skip_leading_suffix(w, k);
    let l = crate::text::skip_leading(w, k);
    let a = choose|a: int|
        0 <= a <= w.len() && crate::text::skip_leading(w, k) == w.subrange(a, w.len() as int)
            && forall|j: int| 0 <= j < a ==> in_class(k, #[trigger] w[j]);
    lemma_skip_trailing_drops(l, k);
    lemma_skip_trailing_prefix(l, k);
    let c = choose|c: int|
        0 <= c <= l.len() && crate::text::skip_trailing(l, k) == l.subrange(0, c) && forall|j: int|
            c <= j < l.len() ==> in_class(k, #[trigger] l[j]);
    let b = a + c;
    let r = stripped_query(s);
    assert(r == w.subrange(a, b));
    assert forall|j: int| 0 <= j < a implies is_punct_or_symbol(#[trigger] w[j]) || is_white(w[j]) by {
        assert(in_class(k, w[j]));
    }
    assert forall|j: int| b <= j < w.len() implies is_punct_or_symbol(#[trigger] w[j]) || is_white(
        w[j],
    ) by {
        assert(w[j] == l[j - a]);
        assert(in_class(k, l[j - a]));
    }
    if a < b {
        assert(r[0] == w[a]);
        assert(r[r.len() - 1] == w[b - 1]);
        assert(r.last() == w[b - 1]);
        assert(!in_class(k, r[0]));
    }
}

/// A text whose first and last characters, once markdown characters are
/// removed, are ASCII letters or digits comes out of cleaning as that text.
pub proof fn strip_keeps_alphanumeric_ends(s: Seq<char>)
    requires
        without_markdown(s).len() > 0,
        is_ascii_alphanumeric(without_markdown(s)[0]),
        is_ascii_alphanumeric(without_markdown(s).last()),
    ensures
        stripped_query(s) == without_markdown(s),
{
    let w = without_markdown(s);
    strip_trims_only_punctuation_and_space(s);
    let (a, b) = choose|a: int, b: int|
        #![trigger w.subrange(a, b)]
        {
            &&& 0 <= a <= b <= w.len()
            &&& stripped_query(s) == w.subrange(a, b)
            &&& forall|j: int|
                0 <= j < a ==> is_punct_or_symbol(#[trigger] w[j]) || is_white(w[j])
            &&& forall|j: int|
                b <= j < w.len() ==> is_punct_or_symbol(#[trigger] w[j]) || is_white(w[j])
            &&& a < b ==> !is_punct_or_symbol(w[a]) && !is_white(w[a])
                && !is_punct_or_symbol(w[b - 1]) && !is_white(w[b - 1])
        };
    lemma_alphanumeric_plain(w[0]);
    lemma_alphanumeric_plain(w.last());
    if a > 0 {
        assert(is_punct_or_symbol(w[0]) || is_white(w[0]));
    }
    if b < w.len() {
        assert(is_punct_or_symbol(w[w.len() - 1]) || is_white(w[w.len() - 1]));
    }
    assert(w.subrange(0, w.len() as int) == w);
}

/// An ASCII letter or digit.
pub open spec fn is_ascii_alphanumeric(c: char) -> bool {
    ('A' <= c <= 'Z') || ('a' <= c <= 'z') || ('0' <= c <= '9')
}

proof fn lemma_alphanumeric_plain(c: char)
    requires
        is_ascii_alphanumeric(c),
    ensures
        !is_punct_or_symbol(c),
        !is_white(c),
{
}

} // verus!
