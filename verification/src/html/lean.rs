//! Lean reading: tables of contents, sections, titles and plain text of an
//! article's HTML.
use vstd::prelude::*;

use crate::html::dom::{decode_entities, entry_view, html_entities_decoded, list_entries, html_list_entries, ListEntry};
use crate::html::strip::{html_stripped, strip_html, TAG_PATTERN};
use crate::pattern::{
    capture, captures_all, escape, regex_all_captures, regex_capture, regex_escaped,
    regex_replaced, replace_all,
};
use crate::text::{
    chars_of, collapse_whitespace, in_class, join, join_strings, push_chars, skip_leading,
    string_of, string_of_range, trim_bounds, trim_ws, views, words, CharClass, class_contains,
    lemma_skip_leading,
};

verus! {

/// An entry of a table of contents.
#[derive(Debug)]
pub struct TocItem {
    pub id: String,
    pub title: String,
    pub children: Vec<TocItem>,
}

/// The mathematical value of a [`TocItem`].
pub struct TocView {
    pub id: Seq<char>,
    pub title: Seq<char>,
    pub children: Seq<TocView>,
}

impl View for TocItem {
    type V = TocView;

    open spec fn view(&self) -> TocView
        decreases self,
    {
        TocView { id: self.id@, title: self.title@, children: toc_views(self.children@) }
    }
}

/// The values of a list of entries.
pub open spec fn toc_views(s: Seq<TocItem>) -> Seq<TocView>
    decreases s,
{
    if s.len() == 0 {
        Seq::empty()
    } else {
        toc_views(s.drop_last()).push(s.last().view())
    }
}

pub proof fn lemma_toc_views(s: Seq<TocItem>)
    ensures
        toc_views(s).len() == s.len(),
        forall|i: int| 0 <= i < s.len() ==> #[trigger] toc_views(s)[i] == s[i].view(),
    decreases s.len(),
{
    if s.len() > 0 {
        lemma_toc_views(s.drop_last());
        assert(toc_views(s) == toc_views(s.drop_last()).push(s.last().view()));
        assert forall|i: int| 0 <= i < s.len() implies #[trigger] toc_views(s)[i] == s[i].view() by {
            if i < s.len() - 1 {
                assert(s.drop_last()[i] == s[i]);
            }
        }
    }
}

/// How deeply the entries nest: 0 for no entries, one more than the
/// deepest children otherwise.
pub open spec fn toc_depth(items: Seq<TocView>) -> nat
    decreases items,
{
    if items.len() == 0 {
        0
    } else {
        let rest = toc_depth(items.drop_last());
        let last = 1 + toc_depth(items.last().children);
        if rest >= last {
            rest
        } else {
            last as nat
        }
    }
}

// ---------------------------------------------------------------------------
// Text of a fragment
// ---------------------------------------------------------------------------

/// The words of an HTML fragment's text, single-spaced: tags become
/// spaces, entities are decoded, whitespace runs collapse.
pub open spec fn lean_stripped(text: Seq<char>) -> Seq<char> {
    join(words(html_entities_decoded(regex_replaced(TAG_PATTERN@, text, " "@))), " "@)
}

fn strip_html_lean(text: &str) -> (r: String)
    ensures
        r@ == lean_stripped(text@),
{
    let t = replace_all(TAG_PATTERN, text, " ");
    let t = decode_entities(t.as_str());
    let v = chars_of(t.as_str());
    let w = collapse_whitespace(v.as_slice());
    assert(" "@ == seq![' ']) by {
        reveal_strlit(" ");
    }
    string_of(w.as_slice())
}

// ---------------------------------------------------------------------------
// Tables of contents
// ---------------------------------------------------------------------------

/// A table of contents in a dedicated block.
pub const TOC_BLOCK_PATTERN: &'static str =
    r#"<div id="a2-toc">\s*<ol class="toc">(.*?)</ol>\s*</div>"#;

/// A table of contents list.
pub const TOC_LIST_PATTERN: &'static str = r#"<ol class="toc">(.*?)</ol>"#;

/// A second- or third-level heading with an `id`.
pub const HEADING_PATTERN: &'static str =
    r#"<(?:h[2-3])[^>]*id="([^"]+)"[^>]*>(.*?)</(?:h[2-3])>"#;

/// How deeply nested lists are followed; no document nests anywhere near
/// this deep.
pub const TOC_DEPTH_LIMIT: usize = usize::MAX / 4;

/// The entry that a list element yields, if it holds a link: the link's
/// target without leading `#`s, the link's text, and the entries of the
/// lists nested in the element (none once `budget` is spent).
pub open spec fn entries_to_toc(
    es: Seq<(Option<(Option<Seq<char>>, Seq<Seq<char>>)>, Seq<char>)>,
    budget: nat,
) -> Seq<TocView>
    decreases budget, 0nat, es.len(),
{
    if es.len() == 0 {
        Seq::empty()
    } else {
        let rest = entries_to_toc(es.drop_last(), budget);
        match es.last().0 {
            None => rest,
            Some((href, texts)) => rest.push(
                TocView {
                    id: skip_leading(
                        match href {
                            Some(h) => h,
                            None => Seq::empty(),
                        },
                        CharClass::Hash,
                    ),
                    title: lean_stripped(join(texts, " "@)),
                    children: if budget == 0 {
                        Seq::empty()
                    } else {
                        toc_items(es.last().1, "ol li"@, (budget - 1) as nat)
                    },
                },
            ),
        }
    }
}

/// The entries of the elements of `fragment` that `selector` picks.
pub open spec fn toc_items(fragment: Seq<char>, selector: Seq<char>, budget: nat) -> Seq<TocView>
    decreases budget, 1nat, 0nat,
{
    match html_list_entries(fragment, selector, "a"@) {
        Some(es) => entries_to_toc(es, budget),
        None => Seq::empty(),
    }
}


/// The table of contents is read from the whole aard2 block when the page
/// has one; the plain table-of-contents list is only a fallback. When the
/// block yields entries, they are the table of contents.
pub proof fn toc_block_comes_first(html: Seq<char>)
    ensures
        regex_capture(TOC_BLOCK_PATTERN@, html, 1) matches Some(inner) ==> toc_region(html) == Some(
            inner,
        ),
        regex_capture(TOC_BLOCK_PATTERN@, html, 1) is None ==> toc_region(html) == regex_capture(
            TOC_LIST_PATTERN@,
            html,
            1,
        ),
        ({
            let block = regex_capture(TOC_BLOCK_PATTERN@, html, 1);
            let listed = toc_items(block->0, "li"@, TOC_DEPTH_LIMIT as nat);
            block is Some && listed.len() > 0 ==> extracted_toc(html) == Some(listed)
        }),
{
}

/// The part of the page that holds its table of contents list.
pub open spec fn toc_region(html: Seq<char>) -> Option<Seq<char>> {
    match regex_capture(TOC_BLOCK_PATTERN@, html, 1) {
        Some(inner) => Some(inner),
        None => regex_capture(TOC_LIST_PATTERN@, html, 1),
    }
}

/// Group `k` of a match, or the empty text.
pub open spec fn group_or_empty(c: Seq<Seq<char>>, k: int) -> Seq<char> {
    if 0 <= k < c.len() {
        c[k]
    } else {
        Seq::empty()
    }
}

/// The entries made of the page's headings.
pub open spec fn heading_entries(caps: Seq<Seq<Seq<char>>>) -> Seq<TocView>
    decreases caps.len(),
{
    if caps.len() == 0 {
        Seq::empty()
    } else {
        heading_entries(caps.drop_last()).push(
            TocView {
                id: group_or_empty(caps.last(), 1),
                title: lean_stripped(group_or_empty(caps.last(), 2)),
                children: Seq::empty(),
            },
        )
    }
}

/// The table of contents of a page: the entries of its table of contents
/// list when it has a non-empty one, otherwise its headings, otherwise none.
pub open spec fn extracted_toc(html: Seq<char>) -> Option<Seq<TocView>> {
    let listed = match toc_region(html) {
        Some(inner) => toc_items(inner, "li"@, TOC_DEPTH_LIMIT as nat),
        None => Seq::empty(),
    };
    if listed.len() > 0 {
        Some(listed)
    } else {
        let hs = heading_entries(regex_all_captures(HEADING_PATTERN@, html));
        if hs.len() > 0 {
            Some(hs)
        } else {
            None
        }
    }
}

pub proof fn lemma_depth_push(items: Seq<TocView>, x: TocView)
    ensures
        toc_depth(items.push(x)) == if toc_depth(items) >= 1 + toc_depth(x.children) {
            toc_depth(items)
        } else {
            (1 + toc_depth(x.children)) as nat
        },
{
    assert(items.push(x).drop_last() == items);
}

pub proof fn lemma_entries_depth(
    es: Seq<(Option<(Option<Seq<char>>, Seq<Seq<char>>)>, Seq<char>)>,
    budget: nat,
)
    ensures
        toc_depth(entries_to_toc(es, budget)) <= budget + 1,
    decreases budget, 0nat, es.len(),
{
    if es.len() > 0 {
        lemma_entries_depth(es.drop_last(), budget);
        let rest = entries_to_toc(es.drop_last(), budget);
        match es.last().0 {
            None => {},
            Some((href, texts)) => {
                let x = entries_to_toc(es, budget).last();
                assert(entries_to_toc(es, budget) == rest.push(x));
                lemma_depth_push(rest, x);
                if budget > 0 {
                    lemma_items_depth(es.last().1, "ol li"@, (budget - 1) as nat);
                }
            },
        }
    }
}

pub proof fn lemma_items_depth(fragment: Seq<char>, selector: Seq<char>, budget: nat)
    ensures
        toc_depth(toc_items(fragment, selector, budget)) <= budget + 1,
    decreases budget, 1nat, 0nat,
{
    match html_list_entries(fragment, selector, "a"@) {
        Some(es) => lemma_entries_depth(es, budget),
        None => {},
    }
}

/// `v` without its leading characters of class `k`.
fn skip_leading_chars(v: &[char], k: CharClass) -> (r: String)
    ensures
        r@ == skip_leading(v@, k),
{
    let mut a: usize = 0;
    while a < v.len() && class_contains(k, v[a])
        invariant
            a <= v@.len(),
            forall|i: int| 0 <= i < a ==> in_class(k, #[trigger] v@[i]),
        decreases v@.len() - a,
    {
        a += 1;
    }
    proof {
        lemma_skip_leading(v@, k, a as int);
    }
    string_of_range(v, a, v.len())
}

/// The entries of the elements of `fragment` that `selector` picks, with
/// nested lists followed `budget` levels deep.
fn extract_toc_items(fragment: &str, selector: &str, budget: usize) -> (r: Vec<TocItem>)
    ensures
        toc_views(r@) == toc_items(fragment@, selector@, budget as nat),
    decreases budget,
{
    let entries = match list_entries(fragment, selector, "a") {
        Some(e) => e,
        None => {
            return Vec::new();
        },
    };
    let ghost es = entries@.map_values(|e: ListEntry| entry_view(e));
    let mut items: Vec<TocItem> = Vec::new();
    let mut i: usize = 0;
    while i < entries.len()
        invariant
            i <= entries@.len(),
            es == entries@.map_values(|e: ListEntry| entry_view(e)),
            html_list_entries(fragment@, selector@, "a"@) == Some(es),
            toc_views(items@) == entries_to_toc(es.take(i as int), budget as nat),
        decreases entries@.len() - i,
    {
        assert(es.take(i + 1).drop_last() == es.take(i as int));
        assert(es.take(i + 1).last() == entry_view(entries@[i as int]));
        match &entries[i].link {
            None => {},
            Some(link) => {
                let href = match &link.href {
                    Some(h) => chars_of(h.as_str()),
                    None => Vec::new(),
                };
                let id = skip_leading_chars(href.as_slice(), CharClass::Hash);
                let text = join_strings(link.texts.as_slice(), " ");
                let title = strip_html_lean(text.as_str());
                let children = if budget == 0 {
                    Vec::new()
                } else {
                    extract_toc_items(entries[i].html.as_str(), "ol li", budget - 1)
                };
                proof {
                    assert(views(link.texts@) == link.texts@.map_values(|t: String| t@));
                    if budget == 0 {
                        assert(toc_views(children@) == Seq::<TocView>::empty());
                    }
                }
                let ghost before = items@;
                items.push(TocItem { id, title, children });
                proof {
                    assert(items@.drop_last() == before);
                    assert(toc_views(items@) == toc_views(before).push(items@.last().view()));
                }
            },
        }
        i += 1;
    }
    assert(es.take(i as int) == es);
    items
}

/// The table of contents of a page: the entries of its table of contents
/// list when it has a non-empty one, otherwise its headings, otherwise none.
pub fn extract_toc(html: &str) -> (r: Option<Vec<TocItem>>)
    ensures
        r matches Some(v) ==> extracted_toc(html@) == Some(toc_views(v@)),
        r is None ==> extracted_toc(html@) is None,
{
    let region = match capture(TOC_BLOCK_PATTERN, html, 1) {
        Some(inner) => Some(inner),
        None => capture(TOC_LIST_PATTERN, html, 1),
    };
    if let Some(inner) = region {
        let items = extract_toc_items(inner.as_str(), "li", TOC_DEPTH_LIMIT);
        if items.len() > 0 {
            proof {
                lemma_toc_views(items@);
            }
            return Some(items);
        }
        proof {
            lemma_toc_views(items@);
        }
    }
    let caps = captures_all(HEADING_PATTERN, html);
    let ghost all = regex_all_captures(HEADING_PATTERN@, html@);
    let mut headings: Vec<TocItem> = Vec::new();
    let mut i: usize = 0;
    while i < caps.len()
        invariant
            i <= caps@.len(),
            all == caps@.map_values(|w: Vec<String>| w@.map_values(|s: String| s@)),
            toc_views(headings@) == heading_entries(all.take(i as int)),
        decreases caps@.len() - i,
    {
        assert(all.take(i + 1).drop_last() == all.take(i as int));
        let c = &caps[i];
        let ghost cv = c@.map_values(|s: String| s@);
        assert(all.take(i + 1).last() == cv);
        let id = if c.len() > 1 {
            c[1].clone()
        } else {
            String::new()
        };
        let raw = if c.len() > 2 {
            c[2].clone()
        } else {
            String::new()
        };
        let title = strip_html_lean(raw.as_str());
        let item = TocItem { id, title, children: Vec::new() };
        proof {
            assert(id@ == crate::html::lean::group_or_empty(cv, 1));
            assert(raw@ == crate::html::lean::group_or_empty(cv, 2));
            assert(toc_views(item.children@) == Seq::<TocView>::empty());
        }
        let ghost before = headings@;
        headings.push(item);
        proof {
            assert(headings@.drop_last() == before);
            assert(toc_views(headings@) == toc_views(before).push(headings@.last().view()));
        }
        i += 1;
    }
    assert(all.take(i as int) == all);
    proof {
        lemma_toc_views(headings@);
    }
    if headings.len() > 0 {
        Some(headings)
    } else {
        None
    }
}

/// The nesting depth of an extracted table of contents stays within the
/// depth limit.
pub proof fn extracted_toc_depth(html: Seq<char>)
    ensures
        extracted_toc(html) matches Some(items) ==> toc_depth(items) <= TOC_DEPTH_LIMIT + 1,
{
    if let Some(inner) = toc_region(html) {
        lemma_items_depth(inner, "li"@, TOC_DEPTH_LIMIT as nat);
    }
    let hs = heading_entries(regex_all_captures(HEADING_PATTERN@, html));
    lemma_heading_depth(regex_all_captures(HEADING_PATTERN@, html));
}

pub proof fn lemma_heading_depth(caps: Seq<Seq<Seq<char>>>)
    ensures
        toc_depth(heading_entries(caps)) <= 1,
    decreases caps.len(),
{
    if caps.len() > 0 {
        lemma_heading_depth(caps.drop_last());
        let rest = heading_entries(caps.drop_last());
        let x = heading_entries(caps).last();
        assert(heading_entries(caps) == rest.push(x));
        lemma_depth_push(rest, x);
        assert(toc_depth(x.children) == 0);
    }
}

// ---------------------------------------------------------------------------
// Formatting a table of contents
// ---------------------------------------------------------------------------

/// `n` spaces.
pub open spec fn spaces(n: nat) -> Seq<char> {
    Seq::new(n, |i: int| ' ')
}

/// The line of one entry: indented by two spaces per level, with a `- `
/// marker below the top level, then `#id`, two spaces and the title.
pub open spec fn toc_line(item: TocView, indent: nat) -> Seq<char> {
    spaces(2 * indent) + (if indent > 0 {
        "- "@
    } else {
        Seq::empty()
    }) + "#"@ + item.id + "  "@ + item.title
}

/// The lines of a list of entries at `indent`.
pub open spec fn toc_lines(items: Seq<TocView>, indent: nat) -> Seq<Seq<char>>
    decreases items,
{
    if items.len() == 0 {
        Seq::empty()
    } else {
        toc_lines(items.drop_last(), indent) + entry_lines(items.last(), indent)
    }
}

/// The line of an entry, followed by its children's text when it has any.
pub open spec fn entry_lines(item: TocView, indent: nat) -> Seq<Seq<char>>
    decreases item,
{
    if item.children.len() == 0 {
        seq![toc_line(item, indent)]
    } else {
        seq![toc_line(item, indent), join(toc_lines(item.children, indent + 1), "\n"@)]
    }
}

/// The text of a table of contents: its lines joined by newlines.
pub open spec fn toc_text(items: Seq<TocView>, indent: nat) -> Seq<char> {
    join(toc_lines(items, indent), "\n"@)
}

pub proof fn lemma_child_depth(items: Seq<TocView>, i: int)
    requires
        0 <= i < items.len(),
    ensures
        1 + toc_depth(items[i].children) <= toc_depth(items),
    decreases items.len(),
{
    if i < items.len() - 1 {
        lemma_child_depth(items.drop_last(), i);
        assert(items.drop_last()[i] == items[i]);
    }
}

/// The table of contents as text, one entry per line, nested entries
/// indented by two spaces per level and marked with `- `.
pub fn format_toc(toc: &[TocItem], indent: usize) -> (r: String)
    requires
        2 * (indent + toc_depth(toc_views(toc@))) <= usize::MAX,
    ensures
        r@ == toc_text(toc_views(toc@), indent as nat),
    decreases toc_depth(toc_views(toc@)),
{
    let ghost tv = toc_views(toc@);
    proof {
        lemma_toc_views(toc@);
    }
    let mut lines: Vec<String> = Vec::new();
    let mut i: usize = 0;
    while i < toc.len()
        invariant
            i <= toc@.len(),
            tv == toc_views(toc@),
            tv.len() == toc@.len(),
            forall|j: int| 0 <= j < toc@.len() ==> #[trigger] tv[j] == toc@[j].view(),
            2 * (indent + toc_depth(tv)) <= usize::MAX,
            views(lines@) == toc_lines(tv.take(i as int), indent as nat),
        decreases toc@.len() - i,
    {
        let item = &toc[i];
        let ghost iv = tv[i as int];
        assert(tv.take(i + 1).drop_last() == tv.take(i as int));
        assert(tv.take(i + 1).last() == iv);
        proof {
            lemma_child_depth(tv, i as int);
        }
        let mut line = String::new();
        let mut k: usize = 0;
        while k < 2 * indent
            invariant
                2 * indent <= usize::MAX,
                k <= 2 * indent,
                line@ == spaces(k as nat),
            decreases 2 * indent - k,
        {
            crate::text::push_char(&mut line, ' ');
            assert(line@ =~= spaces((k + 1) as nat));
            k += 1;
        }
        if indent > 0 {
            line.append("- ");
        }
        line.append("#");
        line.append(item.id.as_str());
        line.append("  ");
        line.append(item.title.as_str());
        assert(line@ == toc_line(iv, indent as nat));
        let ghost before = lines@;
        lines.push(line);
        if item.children.len() > 0 {
            let nested = format_toc(item.children.as_slice(), indent + 1);
            lines.push(nested);
            proof {
                assert(iv.children == toc_views(item.children@));
                lemma_toc_views(item.children@);
                assert(views(lines@) =~= views(before) + entry_lines(iv, indent as nat));
            }
        } else {
            proof {
                lemma_toc_views(item.children@);
                assert(views(lines@) =~= views(before) + entry_lines(iv, indent as nat));
            }
        }
        i += 1;
    }
    assert(tv.take(i as int) == tv);
    join_strings(lines.as_slice(), "\n")
}

// ---------------------------------------------------------------------------
// Sections, titles and plain text
// ---------------------------------------------------------------------------

/// The lead: what precedes the first heading.
pub const LEAD_PATTERN: &'static str =
    r"(?:<div[^>]*>\s*)?(.*?)(?:<h[2-6]\s|<section[^>]*>\s*<h[2-6]\s)";

/// Before the id of a heading that starts a section.
pub const HEADING_SECTION_OPEN: &'static str = r#"<h[2-6]\s[^>]*id=""#;

/// After the id of a heading that starts a section: the section runs to the
/// next heading, section, end of body or closing `div`.
pub const HEADING_SECTION_CLOSE: &'static str =
    r#""[^>]*>.*?</h[2-6]>(.*?)(?=<h[2-6]\s[^>]*id="|<section[^>]*>|</section>\s*$|</body>|</div>\s*$)"#;

/// Before the id of a heading inside a `<section>`.
pub const WRAPPED_SECTION_OPEN: &'static str = r#"<section[^>]*>.*?<h[2-6]\s[^>]*id=""#;

/// After the id of a heading inside a `<section>`.
pub const WRAPPED_SECTION_CLOSE: &'static str =
    r#""[^>]*>.*?</h[2-6]>(.*?)(?=<section[^>]*>|</section>\s*$|</body>)"#;

/// An article's title.
pub const TITLE_PATTERN: &'static str = r#"<span id="a2-title"[^>]*>(.*?)</span>"#;

/// The first group of the first match of `pattern`, trimmed; empty when
/// there is none.
pub open spec fn captured_trimmed(pattern: Seq<char>, html: Seq<char>) -> Seq<char> {
    match regex_capture(pattern, html, 1) {
        Some(c) => trim_ws(c),
        None => Seq::empty(),
    }
}

/// The section of `html` that follows the heading with id `section_id`:
/// first as a run of text up to the next heading, then inside a `<section>`.
/// `"_lead"` names the text before the first heading.
pub open spec fn extracted_section(html: Seq<char>, section_id: Seq<char>) -> Seq<char> {
    if section_id == "_lead"@ {
        captured_trimmed(LEAD_PATTERN@, html)
    } else {
        let esc = regex_escaped(section_id);
        let direct = captured_trimmed(
            HEADING_SECTION_OPEN@ + esc + HEADING_SECTION_CLOSE@,
            html,
        );
        if direct.len() > 0 {
            direct
        } else {
            captured_trimmed(WRAPPED_SECTION_OPEN@ + esc + WRAPPED_SECTION_CLOSE@, html)
        }
    }
}

fn capture_trimmed(pattern: &str, html: &str) -> (r: String)
    ensures
        r@ == captured_trimmed(pattern@, html@),
{
    match capture(pattern, html, 1) {
        Some(c) => crate::text::trim_text(c.as_str()),
        None => String::new(),
    }
}

fn section_pattern(open: &str, section_id: &str, close: &str) -> (r: String)
    ensures
        r@ == open@ + regex_escaped(section_id@) + close@,
{
    let mut p = crate::text::copy_str(open);
    let esc = escape(section_id);
    p.append(esc.as_str());
    p.append(close);
    p
}

/// The HTML of the section with id `section_id` (see [`extracted_section`]);
/// empty when there is no such section.
pub fn extract_section(html: &str, section_id: &str) -> (r: String)
    ensures
        r@ == extracted_section(html@, section_id@),
{
    if crate::text::same_text(section_id, "_lead") {
        return capture_trimmed(LEAD_PATTERN, html);
    }
    let p = section_pattern(HEADING_SECTION_OPEN, section_id, HEADING_SECTION_CLOSE);
    let direct = capture_trimmed(p.as_str(), html);
    if !direct.as_str().is_empty() {
        return direct;
    }
    let p = section_pattern(WRAPPED_SECTION_OPEN, section_id, WRAPPED_SECTION_CLOSE);
    capture_trimmed(p.as_str(), html)
}

/// An article's title as plain text, empty when it has none.
pub open spec fn extracted_title(html: Seq<char>) -> Seq<char> {
    match regex_capture(TITLE_PATTERN@, html, 1) {
        Some(c) => lean_stripped(c),
        None => Seq::empty(),
    }
}

/// The article's title as plain text; empty when it has none.
pub fn extract_title(html: &str) -> (r: String)
    ensures
        r@ == extracted_title(html@),
{
    match capture(TITLE_PATTERN, html, 1) {
        Some(c) => strip_html_lean(c.as_str()),
        None => String::new(),
    }
}

/// The plain text of a page, or of one of its sections; a message names a
/// section that is not there.
pub open spec fn lean_view(html: Seq<char>, section_id: Option<Seq<char>>) -> Seq<char> {
    match section_id {
        Some(sid) => {
            let section = extracted_section(html, sid);
            if section.len() == 0 {
                "Section '#"@ + sid + "' not found."@
            } else {
                html_stripped(section, false)
            }
        },
        None => html_stripped(html, false),
    }
}

/// The plain text of a page, or of the section `section_id` of it.
pub fn lean_text(html: &str, section_id: Option<&str>) -> (r: String)
    ensures
        r@ == lean_view(
            html@,
            match section_id {
                Some(s) => Some(s@),
                None => None,
            },
        ),
{
    match section_id {
        Some(sid) => {
            let section = extract_section(html, sid);
            if section.as_str().is_empty() {
                let mut m = "Section '#".to_owned();
                m.append(sid);
                m.append("' not found.");
                return m;
            }
            strip_html(section.as_str(), false)
        },
        None => strip_html(html, false),
    }
}

} // verus!
