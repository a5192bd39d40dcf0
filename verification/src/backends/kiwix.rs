//! The kiwix-serve backend.
use vstd::prelude::*;

use crate::backends::{url_encode, url_encoded, BackendOutput};
use crate::html::lean::group_or_empty;
use crate::html::strip::{html_stripped, strip_html};
use crate::pattern::{capture, captures_all, regex_all_captures, regex_capture};
use crate::text::{
    chars_of, copy_str, decimal, join, join_strings, parse_unsigned, parsed_unsigned, push_chars,
    push_decimal, views,
};

verus! {

/// The kiwix-serve backend, searching one ZIM archive.
#[derive(Debug)]
pub struct KiwixBackend {
    zim_name: String,
}

/// The total number of results in a search page.
pub const COUNT_PATTERN: &'static str = r"of <b>(\d+)</b>";

/// A result's snippet.
pub const SNIPPET_PATTERN: &'static str = r"<cite>(.*?)</cite>";

/// The most results listed.
pub const PAGE_LENGTH: usize = 25;

/// The most characters of a snippet shown.
pub const SNIPPET_WIDTH: usize = 200;

/// The total number of results that a search page states, 0 when it
/// states none that is a `usize`.
pub open spec fn result_total(content: Seq<char>) -> nat {
    match regex_capture(COUNT_PATTERN@, content, 1) {
        Some(d) => match parsed_unsigned(d, usize::MAX as nat) {
            Some(v) => v,
            None => 0,
        },
        None => 0,
    }
}

/// The non-empty plain texts of the snippets.
pub open spec fn snippets(caps: Seq<Seq<Seq<char>>>) -> Seq<Seq<char>>
    decreases caps.len(),
{
    if caps.len() == 0 {
        Seq::empty()
    } else {
        let rest = snippets(caps.drop_last());
        let s = html_stripped(group_or_empty(caps.last(), 1), false);
        if s.len() == 0 {
            rest
        } else {
            rest.push(s)
        }
    }
}

/// The first `n` elements of `s`, or all of them.
pub open spec fn first_n<T>(s: Seq<T>, n: nat) -> Seq<T> {
    if s.len() > n {
        s.take(n as int)
    } else {
        s
    }
}

/// The snippets of the first page of results.
pub open spec fn page_snippets(content: Seq<char>) -> Seq<Seq<char>> {
    snippets(first_n(regex_all_captures(SNIPPET_PATTERN@, content), PAGE_LENGTH as nat))
}

/// A snippet as shown: its first 200 characters.
pub open spec fn shown(s: Seq<char>) -> Seq<char> {
    first_n(s, SNIPPET_WIDTH as nat)
}

/// The numbered lines of the snippets.
pub open spec fn numbered_lines(snips: Seq<Seq<char>>) -> Seq<Seq<char>>
    decreases snips.len(),
{
    if snips.len() == 0 {
        Seq::empty()
    } else {
        numbered_lines(snips.drop_last()).push(
            "\n["@ + decimal(snips.len()) + "] "@ + shown(snips.last()),
        )
    }
}

/// The plain-text answer to a search: a header with the total and the
/// number of snippets, then the numbered snippets.
pub open spec fn search_text(content: Seq<char>) -> Seq<char> {
    let snips = page_snippets(content);
    join(
        seq![
            "Results: "@ + decimal(result_total(content)) + " (page 1, 1-"@ + decimal(snips.len())
                + ")"@,
        ] + numbered_lines(snips),
        "\n"@,
    )
}

/// The URL of a search for `query` in the archive `zim`.
pub open spec fn search_url_of(base: Seq<char>, zim: Seq<char>, query: Seq<char>) -> Seq<char> {
    base + "/search?pattern="@ + url_encoded(query, '+') + "&books.name="@ + zim
        + "&pageLength=25&page="@ + "1"@
}

fn urlencoding(text: &str) -> (r: String)
    ensures
        r@ == url_encoded(text@, '+'),
{
    url_encode(text, '+')
}

impl KiwixBackend {
    /// The archive searched.
    pub closed spec fn zim(&self) -> Seq<char> {
        self.zim_name@
    }

    /// A backend searching the archive `zim_name` (already resolved from
    /// its shorthand).
    pub fn new(zim_name: &str) -> (r: Self)
        ensures
            r.zim() == zim_name@,
    {
        KiwixBackend { zim_name: copy_str(zim_name) }
    }

    /// The URL of a search for `query` on the server at `base`.
    pub fn search_url(&self, base: &str, query: &str) -> (r: String)
        ensures
            r@ == search_url_of(base@, self.zim(), query@),
    {
        let mut u = copy_str(base);
        u.append("/search?pattern=");
        u.append(urlencoding(query).as_str());
        u.append("&books.name=");
        u.append(self.zim_name.as_str());
        u.append("&pageLength=25&page=");
        u.append("1");
        u
    }

    /// The answer made of a search page: the page itself for HTML, its
    /// results as text otherwise.
    pub fn render(&self, content: &str, as_html: bool) -> (r: BackendOutput)
        ensures
            as_html ==> (r matches BackendOutput::Html(h) && h@ == content@),
            !as_html ==> (r matches BackendOutput::Text(t) && t@ == search_text(content@)),
    {
        if as_html {
            return BackendOutput::Html(copy_str(content));
        }
        let total: usize = match capture(COUNT_PATTERN, content, 1) {
            Some(d) => {
                let dv = chars_of(d.as_str());
                match parse_unsigned(dv.as_slice(), usize::MAX as u64) {
                    Some(v) => v as usize,
                    None => 0,
                }
            },
            None => 0,
        };
        let caps = captures_all(SNIPPET_PATTERN, content);
        let ghost all = regex_all_captures(SNIPPET_PATTERN@, content@);
        let n = if caps.len() > PAGE_LENGTH {
            PAGE_LENGTH
        } else {
            caps.len()
        };
        let mut snips: Vec<String> = Vec::new();
        let mut i: usize = 0;
        while i < n
            invariant
                i <= n <= caps@.len(),
                n as nat == first_n(all, PAGE_LENGTH as nat).len(),
                all == caps@.map_values(|w: Vec<String>| w@.map_values(|s: String| s@)),
                views(snips@) == snippets(all.take(i as int)),
            decreases n - i,
        {
            assert(all.take(i + 1).drop_last() == all.take(i as int));
            let c = &caps[i];
            let ghost cv = c@.map_values(|s: String| s@);
            assert(all.take(i + 1).last() == cv);
            let raw = if c.len() > 1 {
                c[1].clone()
            } else {
                String::new()
            };
            assert(raw@ == group_or_empty(cv, 1));
            let s = strip_html(raw.as_str(), false);
            if !s.as_str().is_empty() {
                let ghost before = snips@;
                snips.push(s);
                assert(views(snips@) =~= views(before).push(snips@.last()@));
            }
            i += 1;
        }
        assert(all.take(n as int) == first_n(all, PAGE_LENGTH as nat));
        let ghost snv = views(snips@);
        let mut lines: Vec<String> = Vec::new();
        let mut head = "Results: ".to_owned();
        push_decimal(&mut head, total as u64);
        head.append(" (page 1, 1-");
        push_decimal(&mut head, snips.len() as u64);
        head.append(")");
        let ghost head_v = head@;
        lines.push(head);
        let mut k: usize = 0;
        while k < snips.len()
            invariant
                k <= snips@.len(),
                snv == views(snips@),
                views(lines@) == seq![head_v] + numbered_lines(snv.take(k as int)),
            decreases snips@.len() - k,
        {
            assert(snv.take(k + 1).drop_last() == snv.take(k as int));
            let sv = chars_of(snips[k].as_str());
            let w = if sv.len() > SNIPPET_WIDTH {
                SNIPPET_WIDTH
            } else {
                sv.len()
            };
            let mut line = "\n[".to_owned();
            push_decimal(&mut line, (k + 1) as u64);
            line.append("] ");
            let head_chars = crate::text::chars_range(sv.as_slice(), 0, w);
            push_chars(&mut line, head_chars.as_slice());
            proof {
                assert(snv.take(k + 1).last() == snips@[k as int]@);
                assert(sv@.subrange(0, w as int) == shown(sv@));
            }
            let ghost before = lines@;
            lines.push(line);
            assert(views(lines@) =~= views(before).push(lines@.last()@));
            k += 1;
        }
        assert(snv.take(k as int) == snv);
        assert(total as nat == result_total(content@));
        assert(snv == page_snippets(content@));
        assert(head_v == "Results: "@ + decimal(result_total(content@)) + " (page 1, 1-"@
            + decimal(snv.len()) + ")"@);
        BackendOutput::Text(join_strings(lines.as_slice(), "\n"))
    }
}

} // verus!
