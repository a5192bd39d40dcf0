//! Script detection by Unicode code point ranges, and routing of a text to
//! the fallback chain of dictionary groups configured for its script.
use vstd::prelude::*;

use crate::table::{lookup, Table};
use crate::text::{chars_of, views};

verus! {

/// The writing system of a text.
#[derive(Debug, Clone, Copy, PartialEq, Eq, Hash, Structural)]
pub enum Script {
    Japanese,
    Chinese,
    Semitic,
    Brahmic,
    Cyrillic,
    Greek,
    Hangul,
    Latin,
    Other,
}

/// The script that a single character belongs to, tried in this order:
/// kana, CJK ideographs, Arabic, Hebrew, Brahmic, Cyrillic, Greek, Hangul,
/// ASCII letters.
pub open spec fn script_of_char(c: char) -> Option<Script> {
    if ('\u{3040}' <= c <= '\u{309F}') || ('\u{30A0}' <= c <= '\u{30FF}') {
        Some(Script::Japanese)
    } else if ('\u{4E00}' <= c <= '\u{9FFF}') || ('\u{3400}' <= c <= '\u{4DBF}') {
        Some(Script::Chinese)
    } else if ('\u{0600}' <= c <= '\u{06FF}') || ('\u{0590}' <= c <= '\u{05FF}') {
        Some(Script::Semitic)
    } else if ('\u{0900}' <= c <= '\u{097F}') || ('\u{0980}' <= c <= '\u{09FF}') {
        Some(Script::Brahmic)
    } else if ('\u{0400}' <= c <= '\u{04FF}') || ('\u{0500}' <= c <= '\u{052F}') {
        Some(Script::Cyrillic)
    } else if ('\u{0370}' <= c <= '\u{03FF}') || ('\u{1F00}' <= c <= '\u{1FFF}') {
        Some(Script::Greek)
    } else if '\u{AC00}' <= c <= '\u{D7AF}' {
        Some(Script::Hangul)
    } else if ('A' <= c <= 'Z') || ('a' <= c <= 'z') {
        Some(Script::Latin)
    } else {
        None
    }
}

pub fn char_script(c: char) -> (r: Option<Script>)
    ensures
        r == script_of_char(c),
{
    if ('\u{3040}' <= c && c <= '\u{309F}') || ('\u{30A0}' <= c && c <= '\u{30FF}') {
        Some(Script::Japanese)
    } else if ('\u{4E00}' <= c && c <= '\u{9FFF}') || ('\u{3400}' <= c && c <= '\u{4DBF}') {
        Some(Script::Chinese)
    } else if ('\u{0600}' <= c && c <= '\u{06FF}') || ('\u{0590}' <= c && c <= '\u{05FF}') {
        Some(Script::Semitic)
    } else if ('\u{0900}' <= c && c <= '\u{097F}') || ('\u{0980}' <= c && c <= '\u{09FF}') {
        Some(Script::Brahmic)
    } else if ('\u{0400}' <= c && c <= '\u{04FF}') || ('\u{0500}' <= c && c <= '\u{052F}') {
        Some(Script::Cyrillic)
    } else if ('\u{0370}' <= c && c <= '\u{03FF}') || ('\u{1F00}' <= c && c <= '\u{1FFF}') {
        Some(Script::Greek)
    } else if '\u{AC00}' <= c && c <= '\u{D7AF}' {
        Some(Script::Hangul)
    } else if ('A' <= c && c <= 'Z') || ('a' <= c && c <= 'z') {
        Some(Script::Latin)
    } else {
        None
    }
}

/// The script of the first character of `s` that belongs to one, or `Other`.
pub open spec fn detected(s: Seq<char>) -> Script
    decreases s.len(),
{
    if s.len() == 0 {
        Script::Other
    } else {
        match script_of_char(s[0]) {
            Some(k) => k,
            None => detected(s.drop_first()),
        }
    }
}

pub proof fn lemma_detected_skip(s: Seq<char>, n: int)
    requires
        0 <= n <= s.len(),
        forall|j: int| 0 <= j < n ==> script_of_char(#[trigger] s[j]) is None,
    ensures
        detected(s) == detected(s.subrange(n, s.len() as int)),
    decreases n,
{
    if n > 0 {
        let t = s.drop_first();
        assert forall|j: int| 0 <= j < n - 1 implies script_of_char(#[trigger] t[j]) is None by {
            assert(t[j] == s[j + 1]);
        }
        lemma_detected_skip(t, n - 1);
        assert(t.subrange(n - 1, t.len() as int) == s.subrange(n, s.len() as int));
    } else {
        assert(s.subrange(0, s.len() as int) == s);
    }
}

impl Script {
    /// The script of the first character of `text` that belongs to one of
    /// the known scripts; `Other` when none does.
    pub fn detect(text: &str) -> (r: Script)
        ensures
            r == detected(text@),
    {
        let chars = chars_of(text);
        let mut i: usize = 0;
        while i < chars.len()
            invariant
                i <= chars@.len(),
                chars@ == text@,
                forall|j: int| 0 <= j < i ==> script_of_char(#[trigger] chars@[j]) is None,
            decreases chars@.len() - i,
        {
            if let Some(k) = char_script(chars[i]) {
                proof {
                    lemma_detected_skip(chars@, i as int);
                }
                return k;
            }
            i += 1;
        }
        proof {
            lemma_detected_skip(chars@, i as int);
        }
        Script::Other
    }
}

/// The configuration key of the fallback chain of each script.
pub open spec fn script_key(k: Script) -> Seq<char> {
    match k {
        Script::Japanese => "japanese"@,
        Script::Chinese => "chinese"@,
        Script::Semitic => "semitic"@,
        Script::Brahmic => "brahmic"@,
        Script::Cyrillic => "cyrillic"@,
        Script::Greek => "greek"@,
        Script::Hangul => "hangul"@,
        Script::Latin => "english"@,
        Script::Other => "other"@,
    }
}

pub fn key_of_script(k: Script) -> (r: &'static str)
    ensures
        r@ == script_key(k),
{
    match k {
        Script::Japanese => "japanese",
        Script::Chinese => "chinese",
        Script::Semitic => "semitic",
        Script::Brahmic => "brahmic",
        Script::Cyrillic => "cyrillic",
        Script::Greek => "greek",
        Script::Hangul => "hangul",
        Script::Latin => "english",
        Script::Other => "other",
    }
}

/// The chain configured under `key`, empty when there is none.
pub open spec fn chain_for(fallbacks: Seq<(Seq<char>, Vec<String>)>, key: Seq<char>) -> Seq<
    Seq<char>,
> {
    match lookup(fallbacks, key) {
        Some(c) => views(c@),
        None => Seq::empty(),
    }
}

/// A copy of a list of strings.
pub fn copy_strings(v: &Vec<String>) -> (r: Vec<String>)
    ensures
        views(r@) == views(v@),
{
    let mut r: Vec<String> = Vec::new();
    let mut i: usize = 0;
    while i < v.len()
        invariant
            i <= v@.len(),
            r@.len() == i,
            forall|j: int| 0 <= j < i ==> r@[j]@ == v@[j]@,
        decreases v@.len() - i,
    {
        r.push(v[i].clone());
        i += 1;
    }
    assert(views(r@) =~= views(v@));
    r
}

/// The script of `text` and the chain of dictionary groups configured for it.
pub fn triage(text: &str, fallbacks: &Table<Vec<String>>) -> (r: (Script, Vec<String>))
    ensures
        r.0 == detected(text@),
        views(r.1@) == chain_for(fallbacks@, script_key(r.0)),
{
    let script = Script::detect(text);
    let key = key_of_script(script);
    let chain = match fallbacks.get(key) {
        Some(c) => copy_strings(c),
        None => {
            let v: Vec<String> = Vec::new();
            assert(views(v@) =~= Seq::<Seq<char>>::empty());
            v
        },
    };
    (script, chain)
}

/// Whether `text` holds a character of one of the known scripts.
pub fn is_alpha(text: &str) -> (r: bool)
    ensures
        r == (detected(text@) != Script::Other),
{
    Script::detect(text) != Script::Other
}


/// The script table: each range of code points belongs to its script, and
/// a character outside all of them belongs to none.
pub proof fn script_ranges(c: char)
    ensures
        '\u{3040}' <= c <= '\u{30FF}' ==> script_of_char(c) == Some(Script::Japanese),
        ('\u{4E00}' <= c <= '\u{9FFF}') || ('\u{3400}' <= c <= '\u{4DBF}') ==> script_of_char(c)
            == Some(Script::Chinese),
        '\u{0590}' <= c <= '\u{06FF}' ==> script_of_char(c) == Some(Script::Semitic),
        '\u{0900}' <= c <= '\u{09FF}' ==> script_of_char(c) == Some(Script::Brahmic),
        '\u{0400}' <= c <= '\u{052F}' ==> script_of_char(c) == Some(Script::Cyrillic),
        ('\u{0370}' <= c <= '\u{03FF}') || ('\u{1F00}' <= c <= '\u{1FFF}') ==> script_of_char(c)
            == Some(Script::Greek),
        '\u{AC00}' <= c <= '\u{D7AF}' ==> script_of_char(c) == Some(Script::Hangul),
        ('A' <= c <= 'Z') || ('a' <= c <= 'z') ==> script_of_char(c) == Some(Script::Latin),
        script_of_char(c) is Some <==> ('\u{3040}' <= c <= '\u{30FF}') || ('\u{4E00}' <= c
            <= '\u{9FFF}') || ('\u{3400}' <= c <= '\u{4DBF}') || ('\u{0590}' <= c <= '\u{06FF}')
            || ('\u{0900}' <= c <= '\u{09FF}') || ('\u{0400}' <= c <= '\u{052F}') || ('\u{0370}'
            <= c <= '\u{03FF}') || ('\u{1F00}' <= c <= '\u{1FFF}') || ('\u{AC00}' <= c
            <= '\u{D7AF}') || ('A' <= c <= 'Z') || ('a' <= c <= 'z'),
{
}

/// Detection answers with the script of the first character that has one:
/// when the characters before position `n` have none and the character at
/// `n` has script `k`, the text's script is `k`.
pub proof fn detect_takes_first_scripted_char(s: Seq<char>, n: int, k: Script)
    requires
        0 <= n < s.len(),
        forall|j: int| 0 <= j < n ==> script_of_char(#[trigger] s[j]) is None,
        script_of_char(s[n]) == Some(k),
    ensures
        detected(s) == k,
{
    lemma_detected_skip(s, n);
    assert(s.subrange(n, s.len() as int)[0] == s[n]);
}

/// A text none of whose characters has a script is `Other`.
pub proof fn detect_without_scripted_char(s: Seq<char>)
    requires
        forall|j: int| 0 <= j < s.len() ==> script_of_char(#[trigger] s[j]) is None,
    ensures
        detected(s) == Script::Other,
{
    lemma_detected_skip(s, s.len() as int);
}

} // verus!
