//! Converting HTML to plain text.
use vstd::prelude::*;

use crate::html::dom::{decode_entities, html_entities_decoded};
use crate::pattern::{regex_replaced, replace_all};
use crate::text::{
    char_views, chars_of, chars_range, join, join_chars, lines, lines_of, string_of_range,
    trim_bounds, trim_text, trim_ws, CharClass,
};

verus! {

/// `<style>` elements with their contents.
pub const STYLE_PATTERN: &'static str = r"(?i)<style[^>]*>.*?</style>";

/// `<script>` elements with their contents.
pub const SCRIPT_PATTERN: &'static str = r"(?i)<script[^>]*>.*?</script>";

/// Opening and closing tags of block elements.
pub const BLOCK_PATTERN: &'static str =
    r"(?i)</?(?:div|p|br|hr|li|tr|h[1-6]|blockquote|section|header|footer|nav)[^>]*>";

/// Any tag.
pub const TAG_PATTERN: &'static str = r"<[^>]+>";

/// Three or more newlines in a row.
pub const NEWLINES_PATTERN: &'static str = r"\n{3,}";

/// A run of whitespace.
pub const SPACES_PATTERN: &'static str = r"\s+";

/// Each line of `s`, trimmed.
pub open spec fn trimmed_lines(s: Seq<char>) -> Seq<Seq<char>> {
    lines_of(s).map_values(|l: Seq<char>| trim_ws(l))
}

/// The plain text of an HTML text.
///
/// Style and script elements are dropped. With `block_tags`, block
/// elements' tags become line breaks, other tags vanish, entities are
/// decoded, runs of three or more newlines shrink to two, and each line is
/// trimmed; without it, every tag becomes a space, entities are decoded and
/// whitespace runs shrink to one space. The result is trimmed.
pub open spec fn html_stripped(text: Seq<char>, block_tags: bool) -> Seq<char> {
    let t = regex_replaced(
        SCRIPT_PATTERN@,
        regex_replaced(STYLE_PATTERN@, text, ""@),
        ""@,
    );
    if block_tags {
        let t = regex_replaced(
            NEWLINES_PATTERN@,
            html_entities_decoded(
                regex_replaced(TAG_PATTERN@, regex_replaced(BLOCK_PATTERN@, t, "\n"@), ""@),
            ),
            "\n\n"@,
        );
        trim_ws(join(trimmed_lines(t), "\n"@))
    } else {
        trim_ws(
            regex_replaced(
                SPACES_PATTERN@,
                html_entities_decoded(regex_replaced(TAG_PATTERN@, t, " "@)),
                " "@,
            ),
        )
    }
}

/// Each line of `v` (as `str::lines` splits it), trimmed, joined by
/// newlines: the last step of block-mode stripping, on the text that the
/// pattern replacements and entity decoding gave.
pub fn trim_each_line(v: &[char]) -> (r: Vec<char>)
    ensures
        r@ == join(trimmed_lines(v@), "\n"@),
{
    let ls = lines(v);
    let mut trimmed: Vec<Vec<char>> = Vec::new();
    let mut i: usize = 0;
    while i < ls.len()
        invariant
            i <= ls@.len(),
            char_views(ls@) == lines_of(v@),
            trimmed@.len() == i,
            forall|j: int| 0 <= j < i ==> #[trigger] trimmed@[j]@ == trim_ws(ls@[j]@),
        decreases ls@.len() - i,
    {
        let (a, b) = trim_bounds(ls[i].as_slice(), CharClass::Whitespace);
        trimmed.push(chars_range(ls[i].as_slice(), a, b));
        i += 1;
    }
    let nl = chars_of("\n");
    assert(char_views(trimmed@) =~= trimmed_lines(v@)) by {
        assert forall|j: int| 0 <= j < trimmed@.len() implies char_views(trimmed@)[j]
            == trimmed_lines(v@)[j] by {
            assert(lines_of(v@)[j] == ls@[j]@);
        }
    }
    join_chars(trimmed.as_slice(), nl.as_slice())
}

/// The plain text of an HTML text (see [`html_stripped`]).
pub fn strip_html(text: &str, block_tags: bool) -> (r: String)
    ensures
        r@ == html_stripped(text@, block_tags),
{
    let t = replace_all(STYLE_PATTERN, text, "");
    let t = replace_all(SCRIPT_PATTERN, t.as_str(), "");
    if block_tags {
        let t = replace_all(BLOCK_PATTERN, t.as_str(), "\n");
        let t = replace_all(TAG_PATTERN, t.as_str(), "");
        let t = decode_entities(t.as_str());
        let t = replace_all(NEWLINES_PATTERN, t.as_str(), "\n\n");
        let v = chars_of(t.as_str());
        let joined = trim_each_line(v.as_slice());
        let (a, b) = trim_bounds(joined.as_slice(), CharClass::Whitespace);
        return string_of_range(joined.as_slice(), a, b);
    }
    let t = replace_all(TAG_PATTERN, t.as_str(), " ");
    let t = decode_entities(t.as_str());
    let t = replace_all(SPACES_PATTERN, t.as_str(), " ");
    trim_text(t.as_str())
}


/// Style and script elements never reach the plain text: two texts that
/// agree once their style and then script elements are removed give the
/// same plain text, in either mode.
pub proof fn styles_and_scripts_are_dropped(t1: Seq<char>, t2: Seq<char>, block_tags: bool)
    requires
        regex_replaced(SCRIPT_PATTERN@, regex_replaced(STYLE_PATTERN@, t1, ""@), ""@)
            == regex_replaced(SCRIPT_PATTERN@, regex_replaced(STYLE_PATTERN@, t2, ""@), ""@),
    ensures
        html_stripped(t1, block_tags) == html_stripped(t2, block_tags),
{
}

} // verus!
