//! The GoldenDict backend, driven through its Chrome DevTools endpoint.
use vstd::prelude::*;

use crate::backends::{opt_views, BackendOutput, QueryOptions};
use crate::html::dom::{decode_entities, html_entities_decoded};
use crate::html::lean::group_or_empty;
use crate::html::strip::{html_stripped, strip_html};
use crate::pattern::{capture, captures_all, regex_all_captures, regex_capture};
use crate::table::{
    lemma_store_text, lookup, lookup_after_store, lookup_other_after_store, store, text_entries,
    Table,
};
use crate::text::{
    after_last_char, chars_of, chars_range, contains_seq, contains_text, copy_str, decimal,
    find_from, first_occurrence, index_after_last_char, join, join_strings, lemma_first_occurrence,
    lowercase, lowercased, occurs_at, parse_unsigned, parsed_unsigned, push_decimal, same_text,
    split_chars, split_on, string_of, views, char_views,
};

verus! {

/// The GoldenDict backend.
#[derive(Debug)]
pub struct GdBackend;

/// A devtools target: a page of the dictionary program.
#[derive(Debug)]
pub struct CdpTarget {
    pub id: String,
    pub url: String,
}

/// The port used when the configured address names none that parses.
pub const DEFAULT_CDP_PORT: u16 = 18123;

/// The start of each article in the lookup page.
pub const ARTICLE_MARK: &'static str = r#"<article class="gdarticle"#;

/// A dictionary's title inside an article.
pub const DICT_TITLE_PATTERN: &'static str = r#"<span class="gddicttitle">(.*?)</span>"#;

/// The numeric group in a lookup page's URL.
pub const GROUP_ID_PATTERN: &'static str = r"group=(\d+)";

/// A group declaration in the program's XML configuration.
pub const GROUP_DECL_PATTERN: &'static str = r#"<group\s+id="(\d+)"\s+name="([^"]*)"\s*/>"#;

/// The devtools port: the number after the address's last `:`, or the
/// default port when that is not a `u16`.
pub open spec fn cdp_port_of(addr: Seq<char>) -> nat {
    match parsed_unsigned(after_last_char(addr, ':'), u16::MAX as nat) {
        Some(p) => p,
        None => DEFAULT_CDP_PORT as nat,
    }
}

/// The devtools endpoint listing the targets.
pub open spec fn targets_url_of(port: nat) -> Seq<char> {
    "http://localhost:"@ + decimal(port) + "/json/list"@
}

/// The devtools websocket of a page.
pub open spec fn page_socket_of(port: nat, target_id: Seq<char>) -> Seq<char> {
    "ws://localhost:"@ + decimal(port) + "/devtools/page/"@ + target_id
}

/// Whether a target is the program's lookup page.
pub open spec fn is_lookup_page(t: CdpTarget) -> bool {
    contains_seq(t.url@, "gdlookup"@)
}

/// The id of the first lookup page among the targets.
pub open spec fn lookup_page_id(ts: Seq<CdpTarget>) -> Option<Seq<char>>
    decreases ts.len(),
{
    if ts.len() == 0 {
        None
    } else if is_lookup_page(ts[0]) {
        Some(ts[0].id@)
    } else {
        lookup_page_id(ts.drop_first())
    }
}

/// The group number in the URL of the first lookup page whose URL names
/// one.
pub open spec fn current_group_id(ts: Seq<CdpTarget>) -> Option<Seq<char>>
    decreases ts.len(),
{
    if ts.len() == 0 {
        None
    } else if is_lookup_page(ts[0]) && regex_capture(GROUP_ID_PATTERN@, ts[0].url@, 1) is Some {
        regex_capture(GROUP_ID_PATTERN@, ts[0].url@, 1)
    } else {
        current_group_id(ts.drop_first())
    }
}

/// The group names by number, as the program's configuration declares
/// them; a later declaration of a number wins.
pub open spec fn declared_groups(caps: Seq<Seq<Seq<char>>>) -> Seq<(Seq<char>, Seq<char>)>
    decreases caps.len(),
{
    if caps.len() == 0 {
        Seq::empty()
    } else {
        store(
            declared_groups(caps.drop_last()),
            group_or_empty(caps.last(), 1),
            group_or_empty(caps.last(), 2),
        )
    }
}

/// The dictionary name and content of one article chunk: the decoded
/// dictionary title (or `unknown`) and the chunk from its first
/// `<section` on (all of it when there is none).
pub open spec fn article_of(chunk: Seq<char>) -> (Seq<char>, Seq<char>) {
    (
        match regex_capture(DICT_TITLE_PATTERN@, chunk, 1) {
            Some(t) => html_entities_decoded(t),
            None => "unknown"@,
        },
        match first_occurrence(chunk, "<section"@) {
            Some(i) => chunk.subrange(i, chunk.len() as int),
            None => chunk,
        },
    )
}

/// The articles of each chunk.
pub open spec fn articles_of_chunks(chunks: Seq<Seq<char>>) -> Seq<(Seq<char>, Seq<char>)>
    decreases chunks.len(),
{
    if chunks.len() == 0 {
        Seq::empty()
    } else {
        articles_of_chunks(chunks.drop_last()).push(article_of(chunks.last()))
    }
}

/// The articles of a lookup page: the text after the first article mark,
/// split at every further mark.
pub open spec fn articles_of(raw: Seq<char>) -> Seq<(Seq<char>, Seq<char>)> {
    match first_occurrence(raw, ARTICLE_MARK@) {
        Some(i) => articles_of_chunks(
            split_on(raw.subrange(i + ARTICLE_MARK@.len(), raw.len() as int), ARTICLE_MARK@),
        ),
        None => Seq::empty(),
    }
}

/// `s` right-aligned in a field of two characters.
pub open spec fn width_two(s: Seq<char>) -> Seq<char> {
    if s.len() < 2 {
        seq![' '] + s
    } else {
        s
    }
}

/// The numbered dictionary names of a catalog.
pub open spec fn catalog_lines(names: Seq<Seq<char>>) -> Seq<Seq<char>>
    decreases names.len(),
{
    if names.len() == 0 {
        Seq::empty()
    } else {
        catalog_lines(names.drop_last()).push(
            "  "@ + width_two(decimal(names.len())) + ". "@ + names.last(),
        )
    }
}

/// Whether some selected dictionary name occurs in `name`, ignoring case.
pub open spec fn selected(name: Seq<char>, dicts: Seq<Seq<char>>) -> bool {
    exists|i: int| 0 <= i < dicts.len() && contains_seq(lowercased(name), lowercased(#[trigger] dicts[i]))
}

/// The text kept of an article: its HTML, or its plain text, headed by
/// the dictionary's name when anchors are asked for on plain text.
pub open spec fn article_text(name: Seq<char>, chunk: Seq<char>, as_html: bool, anchors: bool) -> Seq<char> {
    let text = if as_html {
        chunk
    } else {
        html_stripped(chunk, true)
    };
    if anchors && !as_html {
        "# From "@ + name + "\n\n"@ + text
    } else {
        text
    }
}

/// The per-dictionary texts of the articles: with a selection, only the
/// selected dictionaries unless all are asked for; a later article of the
/// same dictionary replaces an earlier one.
pub open spec fn article_texts(
    articles: Seq<(Seq<char>, Seq<char>)>,
    dicts: Option<Seq<Seq<char>>>,
    extract_all: bool,
    as_html: bool,
    anchors: bool,
) -> Seq<(Seq<char>, Seq<char>)>
    decreases articles.len(),
{
    if articles.len() == 0 {
        Seq::empty()
    } else {
        let rest = article_texts(articles.drop_last(), dicts, extract_all, as_html, anchors);
        let (name, chunk) = articles.last();
        let skip = match dicts {
            Some(d) => !extract_all && !selected(name, d),
            None => false,
        };
        if skip {
            rest
        } else {
            store(rest, name, article_text(name, chunk, as_html, anchors))
        }
    }
}

/// With a selection, an article is kept whenever one of the selected names
/// occurs anywhere in its dictionary's name, ignoring case.
pub proof fn selected_dictionary_is_kept(
    articles: Seq<(Seq<char>, Seq<char>)>,
    dicts: Seq<Seq<char>>,
    extract_all: bool,
    as_html: bool,
    anchors: bool,
    k: int,
    i: int,
)
    requires
        0 <= k < articles.len(),
        0 <= i < dicts.len(),
        contains_seq(lowercased(articles[k].0), lowercased(dicts[i])),
    ensures
        lookup(article_texts(articles, Some(dicts), extract_all, as_html, anchors), articles[k].0)
            is Some,
    decreases articles.len(),
{
    let n = articles.len() as int;
    let init = articles.drop_last();
    let rest = article_texts(init, Some(dicts), extract_all, as_html, anchors);
    let (name, chunk) = articles.last();
    let text = article_text(name, chunk, as_html, anchors);
    let key = articles[k].0;
    if name == key {
        assert(selected(name, dicts)) by {
            assert(contains_seq(lowercased(name), lowercased(dicts[i])));
        }
        lookup_after_store(rest, name, text);
    } else {
        assert(k < n - 1);
        assert(init[k] == articles[k]);
        selected_dictionary_is_kept(init, dicts, extract_all, as_html, anchors, k, i);
        lookup_other_after_store(rest, name, text, key);
    }
}

/// With a selection and without `extract_all`, a dictionary in whose name
/// no selected name occurs, ignoring case, is left out.
pub proof fn unselected_dictionary_is_dropped(
    articles: Seq<(Seq<char>, Seq<char>)>,
    dicts: Seq<Seq<char>>,
    as_html: bool,
    anchors: bool,
    name: Seq<char>,
)
    requires
        forall|i: int| 0 <= i < dicts.len() ==> !contains_seq(lowercased(name), lowercased(#[trigger] dicts[i])),
    ensures
        lookup(article_texts(articles, Some(dicts), false, as_html, anchors), name) is None,
    decreases articles.len(),
{
    if articles.len() > 0 {
        let init = articles.drop_last();
        let rest = article_texts(init, Some(dicts), false, as_html, anchors);
        let (n, chunk) = articles.last();
        unselected_dictionary_is_dropped(init, dicts, as_html, anchors, name);
        if n != name {
            lookup_other_after_store(rest, n, article_text(n, chunk, as_html, anchors), name);
        }
    }
}

/// The name and content of each article, by view.
pub open spec fn pair_views(v: Seq<(String, String)>) -> Seq<(Seq<char>, Seq<char>)> {
    v.map_values(|p: (String, String)| (p.0@, p.1@))
}

/// How long to wait for the program to render a lookup, in milliseconds:
/// longer for the group `H`.
pub open spec fn wait_millis_for(group: Option<Seq<char>>) -> nat {
    match group {
        Some(g) => if g == "H"@ {
            3000
        } else {
            1500
        },
        None => 1500,
    }
}

/// The program's arguments for a lookup: the group, if any, then the word.
pub open spec fn lookup_args_of(word: Seq<char>, group: Option<Seq<char>>) -> Seq<Seq<char>> {
    match group {
        Some(g) => seq!["-g"@, g, word],
        None => seq![word],
    }
}

/// The phase of reading a lookup page over the devtools socket.
#[derive(Debug, Clone, Copy, PartialEq, Eq, Structural)]
pub enum CdpPhase {
    /// `Runtime.enable` (request 1) was sent.
    AwaitEnable,
    /// `Runtime.evaluate` (request 2) was sent.
    AwaitEvaluate,
}

/// What arrived on the socket: a message with its `id` and, for an
/// evaluation, the string result; or the end of the stream.
#[derive(Debug)]
pub enum CdpEvent {
    Message { id: Option<u64>, value: Option<String> },
    Closed,
}

/// What to do next.
#[derive(Debug)]
pub enum CdpAction {
    /// Keep reading.
    Wait,
    /// Send `Runtime.evaluate` of the page's body HTML.
    SendEvaluate,
    /// The page's body HTML.
    Done(String),
    /// The session failed.
    Fail(String),
}

impl GdBackend {
    /// The devtools port of the address `gd_cdp` (`host:port`).
    pub fn cdp_port(&self, gd_cdp: &str) -> (r: u16)
        ensures
            r as nat == cdp_port_of(gd_cdp@),
    {
        let v = chars_of(gd_cdp);
        let start = index_after_last_char(v.as_slice(), ':');
        let tail = chars_range(v.as_slice(), start, v.len());
        match parse_unsigned(tail.as_slice(), u16::MAX as u64) {
            Some(p) => p as u16,
            None => DEFAULT_CDP_PORT,
        }
    }

    /// The endpoint listing the devtools targets.
    pub fn targets_url(&self, port: u16) -> (r: String)
        ensures
            r@ == targets_url_of(port as nat),
    {
        let mut u = "http://localhost:".to_owned();
        push_decimal(&mut u, port as u64);
        u.append("/json/list");
        u
    }

    /// The devtools websocket of the page `target_id`.
    pub fn page_socket(&self, port: u16, target_id: &str) -> (r: String)
        ensures
            r@ == page_socket_of(port as nat, target_id@),
    {
        let mut u = "ws://localhost:".to_owned();
        push_decimal(&mut u, port as u64);
        u.append("/devtools/page/");
        u.append(target_id);
        u
    }

    /// The id of the first lookup page among the targets.
    pub fn find_gdlookup(targets: &[CdpTarget]) -> (r: Option<String>)
        ensures
            r matches Some(id) ==> lookup_page_id(targets@) == Some(id@),
            r is None ==> lookup_page_id(targets@) is None,
    {
        let mut i: usize = 0;
        assert(targets@.subrange(0, targets@.len() as int) == targets@);
        while i < targets.len()
            invariant
                i <= targets@.len(),
                lookup_page_id(targets@) == lookup_page_id(targets@.subrange(
                    i as int,
                    targets@.len() as int,
                )),
            decreases targets@.len() - i,
        {
            let ghost rest = targets@.subrange(i as int, targets@.len() as int);
            assert(rest[0] == targets@[i as int]);
            assert(rest.drop_first() == targets@.subrange(i + 1, targets@.len() as int));
            if contains_text(targets[i].url.as_str(), "gdlookup") {
                return Some(targets[i].id.clone());
            }
            i += 1;
        }
        None
    }

    /// The group number shown by the first lookup page whose URL names one.
    pub fn current_group_id(targets: &[CdpTarget]) -> (r: Option<String>)
        ensures
            r matches Some(id) ==> current_group_id(targets@) == Some(id@),
            r is None ==> current_group_id(targets@) is None,
    {
        let mut i: usize = 0;
        assert(targets@.subrange(0, targets@.len() as int) == targets@);
        while i < targets.len()
            invariant
                i <= targets@.len(),
                current_group_id(targets@) == current_group_id(targets@.subrange(
                    i as int,
                    targets@.len() as int,
                )),
            decreases targets@.len() - i,
        {
            let ghost rest = targets@.subrange(i as int, targets@.len() as int);
            assert(rest[0] == targets@[i as int]);
            assert(rest.drop_first() == targets@.subrange(i + 1, targets@.len() as int));
            if contains_text(targets[i].url.as_str(), "gdlookup") {
                if let Some(id) = capture(GROUP_ID_PATTERN, targets[i].url.as_str(), 1) {
                    return Some(id);
                }
            }
            i += 1;
        }
        None
    }

    /// The group names by number that the program's XML configuration
    /// declares.
    pub fn parse_group_map(&self, config_xml: &str) -> (r: Table<String>)
        ensures
            text_entries(r@) == declared_groups(regex_all_captures(GROUP_DECL_PATTERN@, config_xml@)),
    {
        let caps = captures_all(GROUP_DECL_PATTERN, config_xml);
        let ghost all = regex_all_captures(GROUP_DECL_PATTERN@, config_xml@);
        let mut map: Table<String> = Table::new();
        assert(text_entries(map@) =~= Seq::<(Seq<char>, Seq<char>)>::empty());
        let mut i: usize = 0;
        while i < caps.len()
            invariant
                i <= caps@.len(),
                all == caps@.map_values(|w: Vec<String>| w@.map_values(|s: String| s@)),
                text_entries(map@) == declared_groups(all.take(i as int)),
            decreases caps@.len() - i,
        {
            assert(all.take(i + 1).drop_last() == all.take(i as int));
            let c = &caps[i];
            let ghost cv = c@.map_values(|s: String| s@);
            assert(all.take(i + 1).last() == cv);
            let id = if c.len() > 1 {
                c[1].clone()
            } else {
                String::new()
            };
            let name = if c.len() > 2 {
                c[2].clone()
            } else {
                String::new()
            };
            assert(id@ == group_or_empty(cv, 1));
            assert(name@ == group_or_empty(cv, 2));
            proof {
                lemma_store_text(map@, id@, name);
            }
            map.insert(id, name);
            i += 1;
        }
        assert(all.take(i as int) == all);
        map
    }

    /// The articles of a lookup page (see [`articles_of`]).
    pub fn split_articles(raw_html: &str) -> (r: Vec<(String, String)>)
        ensures
            pair_views(r@) == articles_of(raw_html@),
    {
        let raw = chars_of(raw_html);
        let mark = chars_of(ARTICLE_MARK);
        proof {
            reveal_strlit(r#"<article class="gdarticle"#);
        }
        let first = match find_from(raw.as_slice(), mark.as_slice(), 0) {
            Some(i) => i,
            None => {
                proof {
                    if exists|j: int| occurs_at(raw@, mark@, j) {
                        let j = choose|j: int| occurs_at(raw@, mark@, j);
                        assert(!occurs_at(raw@, mark@, j));
                    }
                }
                return Vec::new();
            },
        };
        proof {
            lemma_first_occurrence(raw@, mark@, first as int);
        }
        let n = raw.len();
        let m = mark.len();
        assert(first + m <= n);
        let rest = chars_range(raw.as_slice(), first + m, n);
        let chunks = split_chars(rest.as_slice(), mark.as_slice());
        let ghost cs = char_views(chunks@);
        let section = chars_of("<section");
        let mut out: Vec<(String, String)> = Vec::new();
        let mut i: usize = 0;
        while i < chunks.len()
            invariant
                i <= chunks@.len(),
                cs == char_views(chunks@),
                section@ == "<section"@,
                pair_views(out@) == articles_of_chunks(cs.take(i as int)),
            decreases chunks@.len() - i,
        {
            assert(cs.take(i + 1).drop_last() == cs.take(i as int));
            assert(cs.take(i + 1).last() == chunks@[i as int]@);
            let chunk = &chunks[i];
            let text = string_of(chunk.as_slice());
            let name = match capture(DICT_TITLE_PATTERN, text.as_str(), 1) {
                Some(t) => decode_entities(t.as_str()),
                None => "unknown".to_owned(),
            };
            let start = match find_from(chunk.as_slice(), section.as_slice(), 0) {
                Some(k) => {
                    proof {
                        lemma_first_occurrence(chunk@, section@, k as int);
                    }
                    k
                },
                None => {
                    proof {
                        if exists|j: int| occurs_at(chunk@, section@, j) {
                            let j = choose|j: int| occurs_at(chunk@, section@, j);
                            assert(!occurs_at(chunk@, section@, j));
                        }
                    }
                    0
                },
            };
            let content = crate::text::string_of_range(chunk.as_slice(), start, chunk.len());
            proof {
                if start == 0 {
                    assert(chunk@.subrange(0, chunk@.len() as int) == chunk@);
                }
            }
            let ghost before = out@;
            out.push((name, content));
            assert(pair_views(out@) =~= pair_views(before).push(article_of(chunk@)));
            i += 1;
        }
        assert(cs.take(i as int) == cs);
        out
    }

    /// The answer made of the articles: with no selection, no full content
    /// and no per-dictionary output asked for, the numbered dictionary
    /// names; otherwise each (selected) dictionary's text.
    pub fn render(articles: &[(String, String)], opts: &QueryOptions) -> (r: BackendOutput)
        ensures
            (!opts.extract_all && opts.select_dicts is None && !opts.multi_file) ==> (
            r matches BackendOutput::Text(t) && t@ == join(
                catalog_lines(pair_views(articles@).map_values(|p: (Seq<char>, Seq<char>)| p.0)),
                "\n"@,
            )),
            !(!opts.extract_all && opts.select_dicts is None && !opts.multi_file) ==> (
            r matches BackendOutput::Multi(m) && text_entries(m@) == article_texts(
                pair_views(articles@),
                opt_views(opts.select_dicts),
                opts.extract_all,
                opts.as_html,
                opts.anchors,
            )),
    {
        let ghost av = pair_views(articles@);
        if !opts.extract_all && opts.select_dicts.is_none() && !opts.multi_file {
            let ghost names = av.map_values(|p: (Seq<char>, Seq<char>)| p.0);
            let mut lines: Vec<String> = Vec::new();
            let mut i: usize = 0;
            while i < articles.len()
                invariant
                    i <= articles@.len(),
                    av == pair_views(articles@),
                    names == av.map_values(|p: (Seq<char>, Seq<char>)| p.0),
                    views(lines@) == catalog_lines(names.take(i as int)),
                decreases articles@.len() - i,
            {
                assert(names.take(i + 1).drop_last() == names.take(i as int));
                assert(names.take(i + 1).last() == articles@[i as int].0@);
                let num = crate::text::decimal_chars((i + 1) as u64);
                let mut line = "  ".to_owned();
                if num.len() < 2 {
                    line.append(" ");
                }
                crate::text::push_chars(&mut line, num.as_slice());
                line.append(". ");
                line.append(articles[i].0.as_str());
                proof {
                    assert(width_two(decimal((i + 1) as nat)) == if num@.len() < 2 {
                        " "@ + num@
                    } else {
                        num@
                    }) by {
                        reveal_strlit(" ");
                    }
                }
                assert(names.take(i + 1).len() == i + 1);
                assert(line@ == "  "@ + width_two(decimal((i + 1) as nat)) + ". "@
                    + names.take(i + 1).last());
                let ghost before = lines@;
                lines.push(line);
                assert(views(lines@) =~= views(before).push(lines@.last()@));
                i += 1;
            }
            assert(names.take(i as int) == names);
            return BackendOutput::Text(join_strings(lines.as_slice(), "\n"));
        }
        let mut results: Table<String> = Table::new();
        assert(text_entries(results@) =~= Seq::<(Seq<char>, Seq<char>)>::empty());
        let mut i: usize = 0;
        while i < articles.len()
            invariant
                i <= articles@.len(),
                av == pair_views(articles@),
                text_entries(results@) == article_texts(
                    av.take(i as int),
                    opt_views(opts.select_dicts),
                    opts.extract_all,
                    opts.as_html,
                    opts.anchors,
                ),
            decreases articles@.len() - i,
        {
            assert(av.take(i + 1).drop_last() == av.take(i as int));
            assert(av.take(i + 1).last() == (articles@[i as int].0@, articles@[i as int].1@));
            let name = &articles[i].0;
            let chunk = &articles[i].1;
            let skip = match &opts.select_dicts {
                Some(dicts) => {
                    let matched = any_selected(name.as_str(), dicts.as_slice());
                    !opts.extract_all && !matched
                },
                None => false,
            };
            if !skip {
                let text = if opts.as_html {
                    chunk.clone()
                } else {
                    strip_html(chunk.as_str(), true)
                };
                let entry = if opts.anchors && !opts.as_html {
                    let mut e = "# From ".to_owned();
                    e.append(name.as_str());
                    e.append("\n\n");
                    e.append(text.as_str());
                    e
                } else {
                    text
                };
                proof {
                    lemma_store_text(results@, name@, entry);
                }
                results.insert(name.clone(), entry);
            }
            i += 1;
        }
        assert(av.take(i as int) == av);
        BackendOutput::Multi(results)
    }

    /// Milliseconds to wait for the program to render a lookup.
    pub fn wait_millis(&self, group: Option<&str>) -> (r: u64)
        ensures
            r as nat == wait_millis_for(
                match group {
                    Some(g) => Some(g@),
                    None => None,
                },
            ),
    {
        match group {
            Some(g) => if same_text(g, "H") {
                3000
            } else {
                1500
            },
            None => 1500,
        }
    }

    /// The program's arguments for looking `word` up in `group`.
    pub fn lookup_args(word: &str, group: Option<&str>) -> (r: Vec<String>)
        ensures
            views(r@) == lookup_args_of(
                word@,
                match group {
                    Some(g) => Some(g@),
                    None => None,
                },
            ),
    {
        let mut args: Vec<String> = Vec::new();
        if let Some(g) = group {
            args.push("-g".to_owned());
            args.push(copy_str(g));
        }
        args.push(copy_str(word));
        assert(views(args@) =~= lookup_args_of(
            word@,
            match group {
                Some(g) => Some(g@),
                None => None,
            },
        ));
        args
    }
}

/// Whether some selected dictionary name occurs in `name`, ignoring case.
fn any_selected(name: &str, dicts: &[String]) -> (r: bool)
    ensures
        r == selected(name@, views(dicts@)),
{
    let lname = lowercase(name);
    let mut i: usize = 0;
    while i < dicts.len()
        invariant
            i <= dicts@.len(),
            lname@ == lowercased(name@),
            forall|j: int|
                0 <= j < i ==> !contains_seq(lowercased(name@), lowercased(#[trigger] dicts@[j]@)),
        decreases dicts@.len() - i,
    {
        let ld = lowercase(dicts[i].as_str());
        if contains_text(lname.as_str(), ld.as_str()) {
            assert(views(dicts@)[i as int] == dicts@[i as int]@);
            return true;
        }
        i += 1;
    }
    proof {
        let d = views(dicts@);
        if selected(name@, d) {
            let j = choose|j: int|
                0 <= j < d.len() && contains_seq(lowercased(name@), lowercased(#[trigger] d[j]));
            assert(d[j] == dicts@[j]@);
        }
    }
    false
}

/// The next step of reading the lookup page over the devtools socket.
pub open spec fn cdp_next(phase: CdpPhase, event: CdpEvent) -> (Option<CdpPhase>, Seq<char>, u8) {
    match event {
        CdpEvent::Closed => (
            None,
            if phase == CdpPhase::AwaitEnable {
                "no response for Runtime.enable"@
            } else {
                "no response for Runtime.evaluate"@
            },
            3,
        ),
        CdpEvent::Message { id, value } => if phase == CdpPhase::AwaitEnable {
            if id == Some(1u64) {
                (Some(CdpPhase::AwaitEvaluate), Seq::empty(), 1)
            } else {
                (Some(phase), Seq::empty(), 0)
            }
        } else if id == Some(2u64) {
            (
                None,
                match value {
                    Some(v) => v@,
                    None => Seq::empty(),
                },
                2,
            )
        } else {
            (Some(phase), Seq::empty(), 0)
        },
    }
}

/// One step of reading the lookup page: after `Runtime.enable` is
/// answered (id 1), the page's body is asked for; the answer to that
/// (id 2) holds the HTML; other messages are skipped; a stream that ends
/// first is a failure.
pub fn cdp_step(phase: CdpPhase, event: CdpEvent) -> (r: (CdpPhase, CdpAction))
    ensures
        ({
            let (next, text, kind) = cdp_next(phase, event);
            match r.1 {
                CdpAction::Wait => kind == 0 && next == Some(r.0),
                CdpAction::SendEvaluate => kind == 1 && next == Some(r.0),
                CdpAction::Done(h) => kind == 2 && h@ == text,
                CdpAction::Fail(m) => kind == 3 && m@ == text,
            }
        }),
{
    match event {
        CdpEvent::Closed => {
            let m = match phase {
                CdpPhase::AwaitEnable => "no response for Runtime.enable".to_owned(),
                CdpPhase::AwaitEvaluate => "no response for Runtime.evaluate".to_owned(),
            };
            (phase, CdpAction::Fail(m))
        },
        CdpEvent::Message { id, value } => match phase {
            CdpPhase::AwaitEnable => {
                if id == Some(1u64) {
                    (CdpPhase::AwaitEvaluate, CdpAction::SendEvaluate)
                } else {
                    (phase, CdpAction::Wait)
                }
            },
            CdpPhase::AwaitEvaluate => {
                if id == Some(2u64) {
                    let body = match value {
                        Some(v) => v,
                        None => String::new(),
                    };
                    (phase, CdpAction::Done(body))
                } else {
                    (phase, CdpAction::Wait)
                }
            },
        },
    }
}

} // verus!
