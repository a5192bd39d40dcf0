//! Dictionary and encyclopedia backends: the requests they make and how
//! their replies become output.
pub mod aard2;
pub mod gd;
pub mod kiwix;
pub mod mediawiki;

use vstd::prelude::*;
use vstd::utf8::encode_utf8;

use crate::table::Table;
use crate::text::{push_char, views};

verus! {

/// How a backend is asked to answer.
#[derive(Debug, Clone)]
pub struct QueryOptions {
    /// Answer with HTML rather than plain text.
    pub as_html: bool,
    /// Dictionary group to look up in.
    pub group: Option<String>,
    /// Dictionaries whose articles are wanted (or, for MediaWiki, `search`).
    pub select_dicts: Option<Vec<String>>,
    /// Every dictionary's full article.
    pub extract_all: bool,
    /// One output per dictionary.
    pub multi_file: bool,
    /// Head each article with the dictionary's name.
    pub anchors: bool,
}

impl Default for QueryOptions {
    fn default() -> (r: Self)
        ensures
            !r.as_html && r.group is None && r.select_dicts is None && !r.extract_all
                && !r.multi_file && !r.anchors,
    {
        QueryOptions {
            as_html: false,
            group: None,
            select_dicts: None,
            extract_all: false,
            multi_file: false,
            anchors: false,
        }
    }
}

/// A backend's answer.
#[derive(Debug)]
pub enum BackendOutput {
    Text(String),
    Html(String),
    /// One text per dictionary, by dictionary name.
    Multi(Table<String>),
}

/// Whether the byte is left as it is in a URL query value.
pub open spec fn is_unreserved(b: u8) -> bool {
    (65 <= b <= 90) || (97 <= b <= 122) || (48 <= b <= 57) || b == 45 || b == 95 || b == 46 || b
        == 126
}

/// The upper-case hexadecimal digit for `d < 16`.
pub open spec fn hex_char(d: nat) -> char {
    if d < 10 {
        crate::text::digit_char(d)
    } else if d == 10 {
        'A'
    } else if d == 11 {
        'B'
    } else if d == 12 {
        'C'
    } else if d == 13 {
        'D'
    } else if d == 14 {
        'E'
    } else {
        'F'
    }
}

/// How one byte is written in a URL query value: unreserved ASCII bytes as
/// they are, the space as `space`, any other byte as `%XX`.
pub open spec fn encoded_byte(b: u8, space: char) -> Seq<char> {
    if is_unreserved(b) {
        seq![b as char]
    } else if b == 32 {
        seq![space]
    } else {
        seq!['%', hex_char((b / 16) as nat), hex_char((b % 16) as nat)]
    }
}

/// The bytes written as a URL query value.
pub open spec fn url_encoded_bytes(bytes: Seq<u8>, space: char) -> Seq<char>
    decreases bytes.len(),
{
    if bytes.len() == 0 {
        Seq::empty()
    } else {
        url_encoded_bytes(bytes.drop_last(), space) + encoded_byte(bytes.last(), space)
    }
}

/// A text written as a URL query value, byte by byte of its UTF-8 encoding.
pub open spec fn url_encoded(text: Seq<char>, space: char) -> Seq<char> {
    url_encoded_bytes(encode_utf8(text), space)
}

fn hex_digit(d: u8) -> (c: char)
    requires
        d < 16,
    ensures
        c == hex_char(d as nat),
{
    match d {
        0 => '0',
        1 => '1',
        2 => '2',
        3 => '3',
        4 => '4',
        5 => '5',
        6 => '6',
        7 => '7',
        8 => '8',
        9 => '9',
        10 => 'A',
        11 => 'B',
        12 => 'C',
        13 => 'D',
        14 => 'E',
        _ => 'F',
    }
}

/// Writes a text as a URL query value: ASCII letters, digits and `-_.~`
/// stay, a space becomes `space`, every other byte of the UTF-8 encoding
/// becomes `%XX` in upper-case hexadecimal.
pub fn url_encode(text: &str, space: char) -> (r: String)
    ensures
        r@ == url_encoded(text@, space),
{
    let bytes = text.as_bytes();
    let mut r = String::new();
    let mut i: usize = 0;
    while i < bytes.len()
        invariant
            i <= bytes@.len(),
            bytes@ == encode_utf8(text@),
            r@ == url_encoded_bytes(bytes@.take(i as int), space),
        decreases bytes@.len() - i,
    {
        let b = bytes[i];
        assert(bytes@.take(i + 1).drop_last() == bytes@.take(i as int));
        if (65 <= b && b <= 90) || (97 <= b && b <= 122) || (48 <= b && b <= 57) || b == 45 || b
            == 95 || b == 46 || b == 126 {
            push_char(&mut r, b as char);
        } else if b == 32 {
            push_char(&mut r, space);
        } else {
            push_char(&mut r, '%');
            push_char(&mut r, hex_digit(b / 16));
            push_char(&mut r, hex_digit(b % 16));
        }
        assert(r@ =~= url_encoded_bytes(bytes@.take(i + 1), space));
        i += 1;
    }
    assert(bytes@.take(i as int) == bytes@);
    r
}

/// The text of a text or HTML answer; empty for per-dictionary answers.
pub open spec fn output_text(output: BackendOutput) -> Seq<char> {
    match output {
        BackendOutput::Text(t) => t@,
        BackendOutput::Html(t) => t@,
        BackendOutput::Multi(_) => Seq::empty(),
    }
}

/// The text of a text or HTML answer; empty for per-dictionary answers.
pub fn text_of(output: &BackendOutput) -> (r: String)
    ensures
        r@ == output_text(*output),
{
    match output {
        BackendOutput::Text(t) => t.clone(),
        BackendOutput::Html(t) => t.clone(),
        BackendOutput::Multi(_) => String::new(),
    }
}

/// The views of an optional list of strings.
pub open spec fn opt_views(v: Option<Vec<String>>) -> Option<Seq<Seq<char>>> {
    match v {
        Some(d) => Some(views(d@)),
        None => None,
    }
}

} // verus!

verus! {

/// An encoded byte is plain ASCII and holds no space unless the space
/// stands for itself.
pub proof fn lemma_encoded_byte_ascii(b: u8, space: char)
    ensures
        forall|i: int|
            0 <= i < encoded_byte(b, space).len() ==> (#[trigger] encoded_byte(b, space)[i] == space
                || ('!' <= encoded_byte(b, space)[i] <= '~')),
{
    let e = encoded_byte(b, space);
    if is_unreserved(b) {
        assert(e[0] == b as char);
    } else if b != 32 {
        assert(e[1] == hex_char((b / 16) as nat));
        assert(e[2] == hex_char((b % 16) as nat));
    }
}

/// URL encoding yields printable ASCII characters only, besides the
/// character that stands for a space.
pub proof fn url_encoding_is_printable_ascii(text: Seq<char>, space: char)
    ensures
        forall|i: int|
            0 <= i < url_encoded(text, space).len() ==> (#[trigger] url_encoded(text, space)[i]
                == space || ('!' <= url_encoded(text, space)[i] <= '~')),
{
    lemma_bytes_printable(encode_utf8(text), space);
}

pub proof fn lemma_bytes_printable(bytes: Seq<u8>, space: char)
    ensures
        forall|i: int|
            0 <= i < url_encoded_bytes(bytes, space).len() ==> (
            #[trigger] url_encoded_bytes(bytes, space)[i] == space || ('!'
                <= url_encoded_bytes(bytes, space)[i] <= '~')),
    decreases bytes.len(),
{
    if bytes.len() > 0 {
        lemma_bytes_printable(bytes.drop_last(), space);
        lemma_encoded_byte_ascii(bytes.last(), space);
        let p = url_encoded_bytes(bytes.drop_last(), space);
        let e = encoded_byte(bytes.last(), space);
        let r = url_encoded_bytes(bytes, space);
        assert forall|i: int| 0 <= i < r.len() implies (#[trigger] r[i] == space || ('!' <= r[i]
            <= '~')) by {
            if i < p.len() {
                assert(r[i] == p[i]);
            } else {
                assert(r[i] == e[i - p.len()]);
            }
        }
    }
}


/// The number of characters that URL encoding writes for `bytes`: one for
/// an unreserved byte or a space, three for any other byte.
pub open spec fn encoded_len(bytes: Seq<u8>) -> nat
    decreases bytes.len(),
{
    if bytes.len() == 0 {
        0
    } else {
        encoded_len(bytes.drop_last()) + if is_unreserved(bytes.last()) || bytes.last() == 32 {
            1nat
        } else {
            3nat
        }
    }
}

/// A character that URL encoding leaves as it is: an ASCII letter or digit,
/// or one of `-_.~`.
pub open spec fn is_url_safe(c: char) -> bool {
    ('A' <= c <= 'Z') || ('a' <= c <= 'z') || ('0' <= c <= '9') || c == '-' || c == '_' || c == '.'
        || c == '~'
}

/// An upper-case hexadecimal digit.
pub open spec fn is_hex_upper(c: char) -> bool {
    ('0' <= c <= '9') || ('A' <= c <= 'F')
}

/// The value of an upper-case hexadecimal digit.
pub open spec fn hex_value(c: char) -> int {
    if '0' <= c <= '9' {
        c as int - 48
    } else {
        c as int - 55
    }
}

/// Reads a URL query value back into bytes: `%XX` is the byte with the
/// hexadecimal digits `XX`, `space` is the space byte, and any other
/// character is the byte of its code.
pub open spec fn url_decoded(e: Seq<char>, space: char) -> Seq<u8>
    decreases e.len(),
{
    if e.len() == 0 {
        Seq::empty()
    } else if e.len() >= 3 && e[e.len() - 3] == '%' {
        url_decoded(e.subrange(0, e.len() - 3), space).push(
            (hex_value(e[e.len() - 2]) * 16 + hex_value(e.last())) as u8,
        )
    } else if e.last() == space {
        url_decoded(e.drop_last(), space).push(32u8)
    } else {
        url_decoded(e.drop_last(), space).push(e.last() as int as u8)
    }
}

/// The form of a URL query value written with `+` for a space: only safe
/// characters, `+` and `%`, each `%` followed by two upper-case hexadecimal
/// digits.
pub open spec fn well_formed_query_value(e: Seq<char>) -> bool {
    &&& forall|i: int| 0 <= i < e.len() ==> #[trigger] is_url_safe(e[i]) || e[i] == '+' || e[i] == '%'
    &&& forall|i: int|
        0 <= i < e.len() && #[trigger] e[i] == '%' ==> i + 2 < e.len() && is_hex_upper(e[i + 1])
            && is_hex_upper(e[i + 2])
}

proof fn lemma_hex_digit(d: nat)
    requires
        d < 16,
    ensures
        is_hex_upper(hex_char(d)),
        hex_value(hex_char(d)) == d,
        hex_char(d) != '%',
{
}

proof fn lemma_url_bytes(bytes: Seq<u8>)
    ensures
        url_encoded_bytes(bytes, '+').len() == encoded_len(bytes),
        url_decoded(url_encoded_bytes(bytes, '+'), '+') == bytes,
        well_formed_query_value(url_encoded_bytes(bytes, '+')),
        url_encoded_bytes(bytes, '+').len() >= 1 ==> url_encoded_bytes(bytes, '+').last() != '%',
        url_encoded_bytes(bytes, '+').len() >= 2 ==> url_encoded_bytes(bytes, '+')[url_encoded_bytes(
            bytes,
            '+',
        ).len() - 2] != '%',
    decreases bytes.len(),
{
    if bytes.len() > 0 {
        let q = bytes.drop_last();
        let b = bytes.last();
        lemma_url_bytes(q);
        let p = url_encoded_bytes(q, '+');
        let u = encoded_byte(b, '+');
        let e = url_encoded_bytes(bytes, '+');
        assert(e == p + u);
        assert(q.push(b) == bytes);
        if is_unreserved(b) || b == 32 {
            let c = u[0];
            assert(u.len() == 1);
            assert(c != '%' && c != '+' ==> is_url_safe(c));
            assert(e == p.push(c));
            assert(e.drop_last() == p);
            if e.len() >= 3 {
                assert(e[e.len() - 3] == p[p.len() - 2]);
            }
            if b == 32 {
                assert(url_decoded(e, '+') == url_decoded(p, '+').push(32u8));
            } else {
                assert(c as int as u8 == b);
                assert(url_decoded(e, '+') == url_decoded(p, '+').push(b));
            }
            assert forall|i: int| 0 <= i < e.len() && #[trigger] e[i] == '%' implies i + 2 < e.len()
                && is_hex_upper(e[i + 1]) && is_hex_upper(e[i + 2]) by {
                assert(e[i] == p[i]);
                assert(e[i + 1] == p[i + 1]);
                assert(e[i + 2] == p[i + 2]);
            }
            assert forall|i: int| 0 <= i < e.len() implies #[trigger] is_url_safe(e[i]) || e[i] == '+'
                || e[i] == '%' by {
                if i < p.len() {
                    assert(e[i] == p[i]);
                }
            }
            if e.len() >= 2 {
                assert(e[e.len() - 2] == p.last());
            }
        } else {
            let h = hex_char((b / 16) as nat);
            let l = hex_char((b % 16) as nat);
            lemma_hex_digit((b / 16) as nat);
            lemma_hex_digit((b % 16) as nat);
            assert(u == seq!['%', h, l]);
            assert(e.subrange(0, e.len() - 3) == p);
            assert(e[e.len() - 3] == '%');
            assert(e[e.len() - 2] == h);
            assert(e.last() == l);
            assert(((b / 16) as nat) * 16 + (b % 16) as nat == b);
            assert(url_decoded(e, '+') == url_decoded(p, '+').push(b));
            assert forall|i: int| 0 <= i < e.len() && #[trigger] e[i] == '%' implies i + 2 < e.len()
                && is_hex_upper(e[i + 1]) && is_hex_upper(e[i + 2]) by {
                if i < p.len() {
                    assert(e[i] == p[i]);
                    if i + 2 < p.len() {
                        assert(e[i + 1] == p[i + 1]);
                        assert(e[i + 2] == p[i + 2]);
                    }
                } else {
                    assert(i == p.len());
                }
            }
            assert forall|i: int| 0 <= i < e.len() implies #[trigger] is_url_safe(e[i]) || e[i] == '+'
                || e[i] == '%' by {
                if i < p.len() {
                    assert(e[i] == p[i]);
                } else {
                    assert(e[i] == u[i - p.len()]);
                }
            }
        }
    }
}

/// How a text is written as a URL query value with `+` for a space, as the
/// kiwix and aard2 lookups write it: one character for each unreserved byte
/// or space of its UTF-8 encoding and three for any other byte; only safe
/// characters, `+` and `%XX` escapes occur; and reading the value back gives
/// exactly the text's bytes.
pub proof fn url_encoding_round_trip(text: Seq<char>)
    ensures
        url_encoded(text, '+').len() == encoded_len(encode_utf8(text)),
        well_formed_query_value(url_encoded(text, '+')),
        url_decoded(url_encoded(text, '+'), '+') == encode_utf8(text),
{
    lemma_url_bytes(encode_utf8(text));
}

} // verus!
