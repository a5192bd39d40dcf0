//! The MediaWiki `api.php` backend.
use vstd::prelude::*;

use crate::backends::{url_encode, url_encoded, BackendOutput, QueryOptions, opt_views};
use crate::error::Error;
use crate::html::lean::{lean_text, lean_view};
use crate::html::strip::{html_stripped, strip_html};
use crate::table::{lookup, Table};
use crate::text::{
    chars_of, chars_range, contains_seq, contains_text, copy_str, decimal, ends_with,
    ends_with_text, join, join_strings, push_decimal, same_text, string_of, views,
};

verus! {

/// The MediaWiki backend for one site.
#[derive(Debug)]
pub struct MediaWikiBackend {
    site: String,
}

/// The three requests the backend makes.
#[derive(Debug, Clone, Copy, PartialEq, Eq, Structural)]
pub enum MwKind {
    /// Full-text search.
    Search,
    /// Titles starting at the query.
    Prefix,
    /// The rendered article.
    Article,
}

/// A request: its kind and its `api.php` parameters.
#[derive(Debug)]
pub struct MwRequest {
    pub kind: MwKind,
    pub params: String,
}

/// One search hit as far as it is read: its `title` and `snippet` when
/// they are strings.
#[derive(Debug)]
pub struct MwSearchHit {
    pub title: Option<String>,
    pub snippet: Option<String>,
}

/// `s` without one trailing `/`.
pub open spec fn without_trailing_slash(s: Seq<char>) -> Seq<char> {
    if ends_with(s, "/"@) {
        s.drop_last()
    } else {
        s
    }
}

/// `s` without a trailing `/api.php`.
pub open spec fn without_api_php(s: Seq<char>) -> Seq<char> {
    if ends_with(s, "/api.php"@) {
        s.subrange(0, s.len() - "/api.php"@.len())
    } else {
        s
    }
}

/// The base URL of a site: a value holding `://` is a URL and is used as
/// it is, without a trailing `/` and a trailing `/api.php`; any other value
/// is a key of the configured sites.
pub open spec fn site_base(site: Seq<char>, sites: Seq<(Seq<char>, String)>) -> Option<Seq<char>> {
    if contains_seq(site, "://"@) {
        Some(without_api_php(without_trailing_slash(site)))
    } else {
        match lookup(sites, site) {
            Some(u) => Some(u@),
            None => None,
        }
    }
}

/// Whether the options ask for a search.
pub open spec fn wants_search(select_dicts: Option<Seq<Seq<char>>>) -> bool {
    match select_dicts {
        Some(d) => d.contains("search"@),
        None => false,
    }
}

/// The request that a query makes: a search when the options select
/// `search`, else a prefix listing when they ask for one output per entry,
/// else the article.
pub open spec fn request_of(query: Seq<char>, search: bool, multi_file: bool) -> (MwKind, Seq<char>) {
    let q = url_encoded(query, '_');
    if search {
        (MwKind::Search, "action=query&list=search&srsearch="@ + q + "&srwhat=text&srlimit=50"@)
    } else if multi_file {
        (MwKind::Prefix, "action=query&list=allpages&aplimit=10&apfrom="@ + q)
    } else {
        (MwKind::Article, "action=parse&prop=text&redirects&page="@ + q)
    }
}

/// The lines of the search hits: each hit's numbered title, then its
/// snippet as plain text.
pub open spec fn hit_lines(hits: Seq<MwSearchHit>) -> Seq<Seq<char>>
    decreases hits.len(),
{
    if hits.len() == 0 {
        Seq::empty()
    } else {
        let h = hits.last();
        hit_lines(hits.drop_last()) + seq![
            "\n["@ + decimal(hits.len()) + "] "@ + match h.title {
                Some(t) => t@,
                None => Seq::empty(),
            },
            html_stripped(
                match h.snippet {
                    Some(s) => s@,
                    None => Seq::empty(),
                },
                false,
            ),
        ]
    }
}

/// The text of a search answer: the total (0 when missing) and the range
/// of hits, then the hits.
pub open spec fn search_text(total: Option<u64>, hits: Seq<MwSearchHit>) -> Seq<char> {
    join(
        seq![
            "Results: "@ + decimal(
                match total {
                    Some(t) => t as nat,
                    None => 0,
                },
            ) + " total (1-"@ + decimal(hits.len()) + ")"@,
        ] + hit_lines(hits),
        "\n"@,
    )
}

/// The titles that are present.
pub open spec fn present_titles(pages: Seq<Option<String>>) -> Seq<Seq<char>>
    decreases pages.len(),
{
    if pages.len() == 0 {
        Seq::empty()
    } else {
        match pages.last() {
            Some(t) => present_titles(pages.drop_last()).push(t@),
            None => present_titles(pages.drop_last()),
        }
    }
}

/// Each title, indented by two spaces.
pub open spec fn indented(titles: Seq<Seq<char>>) -> Seq<Seq<char>>
    decreases titles.len(),
{
    if titles.len() == 0 {
        Seq::empty()
    } else {
        indented(titles.drop_last()).push("  "@ + titles.last())
    }
}

/// The text of a prefix listing.
pub open spec fn prefix_text(pages: Seq<Option<String>>) -> Seq<char> {
    let titles = present_titles(pages);
    join(seq!["Prefix results: "@ + decimal(titles.len())] + indented(titles), "\n"@)
}

fn urlencoding(text: &str) -> (r: String)
    ensures
        r@ == url_encoded(text@, '_'),
{
    url_encode(text, '_')
}

impl MediaWikiBackend {
    /// The site: a configured key or a URL.
    pub closed spec fn site_name(&self) -> Seq<char> {
        self.site@
    }

    pub fn new(site: &str) -> (r: Self)
        ensures
            r.site_name() == site@,
    {
        MediaWikiBackend { site: copy_str(site) }
    }

    /// The base URL of the site (see [`site_base`]).
    pub fn base_url(&self, sites: &Table<String>) -> (r: Option<String>)
        ensures
            r matches Some(u) ==> site_base(self.site_name(), sites@) == Some(u@),
            r is None ==> site_base(self.site_name(), sites@) is None,
    {
        if contains_text(self.site.as_str(), "://") {
            let v = chars_of(self.site.as_str());
            proof {
                reveal_strlit("/");
            }
            let v = if ends_with_text(v.as_slice(), "/") {
                chars_range(v.as_slice(), 0, v.len() - 1)
            } else {
                v
            };
            let api = chars_of("/api.php");
            let v = if ends_with_text(v.as_slice(), "/api.php") {
                chars_range(v.as_slice(), 0, v.len() - api.len())
            } else {
                v
            };
            return Some(string_of(v.as_slice()));
        }
        match sites.get(self.site.as_str()) {
            Some(u) => Some(u.clone()),
            None => None,
        }
    }

    /// The `api.php` URL with the given parameters; an unknown site is a
    /// configuration error.
    pub fn api_url(&self, sites: &Table<String>, params: &str) -> (r: Result<String, Error>)
        ensures
            r matches Ok(u) ==> (site_base(self.site_name(), sites@) matches Some(b) && u@ == b
                + "/api.php?format=json&"@ + params@),
            r is Err <==> site_base(self.site_name(), sites@) is None,
            r matches Err(e) ==> (e matches Error::Config(m) && m@ == "unknown site '"@
                + self.site_name() + "'"@),
    {
        match self.base_url(sites) {
            Some(b) => {
                let mut u = b;
                u.append("/api.php?format=json&");
                u.append(params);
                Ok(u)
            },
            None => {
                let mut m = "unknown site '".to_owned();
                m.append(self.site.as_str());
                m.append("'");
                Err(Error::Config(m))
            },
        }
    }

    /// The request that `query` makes under `opts` (see [`request_of`]).
    pub fn request(&self, query: &str, opts: &QueryOptions) -> (r: MwRequest)
        ensures
            (r.kind, r.params@) == request_of(
                query@,
                wants_search(opt_views(opts.select_dicts)),
                opts.multi_file,
            ),
    {
        let q = urlencoding(query);
        let search = match &opts.select_dicts {
            Some(d) => {
                let mut found = false;
                let mut i: usize = 0;
                while i < d.len()
                    invariant
                        i <= d@.len(),
                        found == exists|j: int| 0 <= j < i && d@[j]@ == "search"@,
                    decreases d@.len() - i,
                {
                    if same_text(d[i].as_str(), "search") {
                        found = true;
                    }
                    i += 1;
                }
                proof {
                    let dv = views(d@);
                    if found {
                        let j = choose|j: int| 0 <= j < i && d@[j]@ == "search"@;
                        assert(dv[j] == "search"@);
                    } else {
                        assert forall|j: int| 0 <= j < dv.len() implies dv[j] != "search"@ by {
                            assert(dv[j] == d@[j]@);
                        }
                    }
                }
                found
            },
            None => false,
        };
        if search {
            let mut p = "action=query&list=search&srsearch=".to_owned();
            p.append(q.as_str());
            p.append("&srwhat=text&srlimit=50");
            MwRequest { kind: MwKind::Search, params: p }
        } else if opts.multi_file {
            let mut p = "action=query&list=allpages&aplimit=10&apfrom=".to_owned();
            p.append(q.as_str());
            MwRequest { kind: MwKind::Prefix, params: p }
        } else {
            let mut p = "action=parse&prop=text&redirects&page=".to_owned();
            p.append(q.as_str());
            MwRequest { kind: MwKind::Article, params: p }
        }
    }

    /// The text answer to a search: `total` is the reported number of hits.
    pub fn render_search(&self, total: Option<u64>, hits: &[MwSearchHit]) -> (r: BackendOutput)
        ensures
            r matches BackendOutput::Text(t) && t@ == search_text(total, hits@),
    {
        let mut head = "Results: ".to_owned();
        push_decimal(
            &mut head,
            match total {
                Some(t) => t,
                None => 0,
            },
        );
        head.append(" total (1-");
        push_decimal(&mut head, hits.len() as u64);
        head.append(")");
        let ghost head_v = head@;
        let mut lines: Vec<String> = Vec::new();
        lines.push(head);
        let mut i: usize = 0;
        while i < hits.len()
            invariant
                i <= hits@.len(),
                views(lines@) == seq![head_v] + hit_lines(hits@.take(i as int)),
            decreases hits@.len() - i,
        {
            assert(hits@.take(i + 1).drop_last() == hits@.take(i as int));
            assert(hits@.take(i + 1).last() == hits@[i as int]);
            let h = &hits[i];
            let mut line = "\n[".to_owned();
            push_decimal(&mut line, (i + 1) as u64);
            line.append("] ");
            match &h.title {
                Some(t) => line.append(t.as_str()),
                None => {},
            }
            let snippet = match &h.snippet {
                Some(s) => strip_html(s.as_str(), false),
                None => strip_html("", false),
            };
            proof {
                if h.snippet is None {
                    assert(""@ == Seq::<char>::empty()) by {
                        reveal_strlit("");
                    }
                }
            }
            let ghost before = lines@;
            lines.push(line);
            lines.push(snippet);
            assert(views(lines@) =~= views(before) + seq![lines@[lines@.len() - 2]@, lines@.last()@]);
            i += 1;
        }
        assert(hits@.take(i as int) == hits@);
        BackendOutput::Text(join_strings(lines.as_slice(), "\n"))
    }

    /// The text answer to a prefix listing of the given titles.
    pub fn render_prefix(&self, pages: &[Option<String>]) -> (r: BackendOutput)
        ensures
            r matches BackendOutput::Text(t) && t@ == prefix_text(pages@),
    {
        let mut titles: Vec<String> = Vec::new();
        let mut i: usize = 0;
        while i < pages.len()
            invariant
                i <= pages@.len(),
                views(titles@) == present_titles(pages@.take(i as int)),
            decreases pages@.len() - i,
        {
            assert(pages@.take(i + 1).drop_last() == pages@.take(i as int));
            assert(pages@.take(i + 1).last() == pages@[i as int]);
            match &pages[i] {
                Some(t) => {
                    let ghost before = titles@;
                    titles.push(t.clone());
                    assert(views(titles@) =~= views(before).push(t@));
                },
                None => {},
            }
            i += 1;
        }
        assert(pages@.take(i as int) == pages@);
        let ghost tv = views(titles@);
        let mut head = "Prefix results: ".to_owned();
        push_decimal(&mut head, titles.len() as u64);
        let ghost head_v = head@;
        let mut lines: Vec<String> = Vec::new();
        lines.push(head);
        let mut k: usize = 0;
        while k < titles.len()
            invariant
                k <= titles@.len(),
                tv == views(titles@),
                views(lines@) == seq![head_v] + indented(tv.take(k as int)),
            decreases titles@.len() - k,
        {
            assert(tv.take(k + 1).drop_last() == tv.take(k as int));
            assert(tv.take(k + 1).last() == titles@[k as int]@);
            let mut line = "  ".to_owned();
            line.append(titles[k].as_str());
            let ghost before = lines@;
            lines.push(line);
            assert(views(lines@) =~= views(before).push(lines@.last()@));
            k += 1;
        }
        assert(tv.take(k as int) == tv);
        BackendOutput::Text(join_strings(lines.as_slice(), "\n"))
    }

    /// The answer made of an article's HTML (`None` when the reply held
    /// none): nothing for an empty article, else the HTML, or its plain
    /// text.
    pub fn render_article(&self, html: Option<&str>, as_html: bool) -> (r: BackendOutput)
        ensures
            match html {
                Some(h) if h@.len() > 0 => if as_html {
                    r matches BackendOutput::Html(o) && o@ == h@
                } else {
                    r matches BackendOutput::Text(o) && o@ == lean_view(h@, None)
                },
                _ => r matches BackendOutput::Text(o) && o@.len() == 0,
            },
    {
        let h = match html {
            Some(h) => h,
            None => {
                return BackendOutput::Text(String::new());
            },
        };
        if h.is_empty() {
            return BackendOutput::Text(String::new());
        }
        if as_html {
            BackendOutput::Html(copy_str(h))
        } else {
            BackendOutput::Text(lean_text(h, None))
        }
    }
}

} // verus!
