//! The aard2-web backend.
use vstd::prelude::*;

use crate::backends::{url_encode, url_encoded, BackendOutput, QueryOptions};
use crate::text::{copy_str, decimal, join, join_strings, push_decimal, views};

verus! {

/// The aard2-web backend.
#[derive(Debug)]
pub struct Aard2Backend;

/// One entry of aard2-web's answer to a lookup, as far as it is read: the
/// `dictLabel`, `label` and `url` fields when they are strings.
#[derive(Debug)]
pub struct Aard2Item {
    pub dict_label: Option<String>,
    pub label: Option<String>,
    pub url: Option<String>,
}

/// What a lookup does once the entries are known: fetch an article, or
/// answer at once.
#[derive(Debug)]
pub enum Aard2Step {
    Fetch(String),
    Output(BackendOutput),
}

/// The text of an optional field, or `default`.
pub open spec fn field_or(f: Option<String>, default: Seq<char>) -> Seq<char> {
    match f {
        Some(s) => s@,
        None => default,
    }
}

/// The line of one entry: `[dictionary] title  -> url`.
pub open spec fn item_line(item: Aard2Item) -> Seq<char> {
    "\n  ["@ + field_or(item.dict_label, "?"@) + "] "@ + field_or(item.label, "?"@) + "  -> "@
        + field_or(item.url, ""@)
}

/// The lines of the entries.
pub open spec fn item_lines(items: Seq<Aard2Item>) -> Seq<Seq<char>>
    decreases items.len(),
{
    if items.len() == 0 {
        Seq::empty()
    } else {
        item_lines(items.drop_last()).push(item_line(items.last()))
    }
}

/// The plain-text answer: the number of entries, then one line per entry.
pub open spec fn results_text(items: Seq<Aard2Item>) -> Seq<char> {
    join(seq!["Results: "@ + decimal(items.len())] + item_lines(items), "\n"@)
}

/// The URL of aard2-web's lookup of `query`.
pub open spec fn find_url_of(base: Seq<char>, query: Seq<char>) -> Seq<char> {
    base + "/find/?key="@ + url_encoded(query, '+')
}

/// What a lookup does with the entries found: for HTML, fetch the first
/// entry's article when it has a URL, else answer that nothing was found;
/// for text, list the entries.
pub open spec fn next_step(base: Seq<char>, items: Seq<Aard2Item>, as_html: bool) -> (bool, Seq<
    char,
>) {
    if as_html {
        if items.len() > 0 && items[0].url is Some {
            (true, base + items[0].url->0@)
        } else {
            (false, "<p>No results found</p>"@)
        }
    } else {
        (false, results_text(items))
    }
}

fn urlencoding(text: &str) -> (r: String)
    ensures
        r@ == url_encoded(text@, '+'),
{
    url_encode(text, '+')
}

fn field_text(f: &Option<String>, default: &str) -> (r: String)
    ensures
        r@ == field_or(*f, default@),
{
    match f {
        Some(s) => s.clone(),
        None => copy_str(default),
    }
}

impl Aard2Backend {
    pub fn new() -> (r: Self)
        ensures
            r == Aard2Backend,
    {
        Aard2Backend
    }

    /// The URL that looks `query` up on the aard2-web server at `base`.
    pub fn find_url(&self, base: &str, query: &str) -> (r: String)
        ensures
            r@ == find_url_of(base@, query@),
    {
        let mut u = copy_str(base);
        u.append("/find/?key=");
        let q = urlencoding(query);
        u.append(q.as_str());
        u
    }

    /// The next step of a lookup, given the entries that the server found.
    pub fn answer(&self, base: &str, items: &[Aard2Item], opts: &QueryOptions) -> (r: Aard2Step)
        ensures
            match r {
                Aard2Step::Fetch(u) => next_step(base@, items@, opts.as_html) == (true, u@),
                Aard2Step::Output(BackendOutput::Html(h)) => opts.as_html && next_step(
                    base@,
                    items@,
                    opts.as_html,
                ) == (false, h@),
                Aard2Step::Output(BackendOutput::Text(t)) => !opts.as_html && next_step(
                    base@,
                    items@,
                    opts.as_html,
                ) == (false, t@),
                Aard2Step::Output(BackendOutput::Multi(_)) => false,
            },
    {
        if opts.as_html {
            if items.len() > 0 {
                if let Some(u) = &items[0].url {
                    let mut full = copy_str(base);
                    full.append(u.as_str());
                    return Aard2Step::Fetch(full);
                }
            }
            return Aard2Step::Output(BackendOutput::Html("<p>No results found</p>".to_owned()));
        }
        let mut lines: Vec<String> = Vec::new();
        let mut head = "Results: ".to_owned();
        push_decimal(&mut head, items.len() as u64);
        lines.push(head);
        let mut i: usize = 0;
        while i < items.len()
            invariant
                i <= items@.len(),
                views(lines@) == seq!["Results: "@ + decimal(items@.len())] + item_lines(
                    items@.take(i as int),
                ),
            decreases items@.len() - i,
        {
            assert(items@.take(i + 1).drop_last() == items@.take(i as int));
            let item = &items[i];
            let mut line = "\n  [".to_owned();
            line.append(field_text(&item.dict_label, "?").as_str());
            line.append("] ");
            line.append(field_text(&item.label, "?").as_str());
            line.append("  -> ");
            line.append(field_text(&item.url, "").as_str());
            assert(line@ == item_line(items@[i as int]));
            assert(items@.take(i + 1).last() == items@[i as int]);
            let ghost before = lines@;
            lines.push(line);
            assert(views(lines@) =~= views(before).push(item_line(items@[i as int])));
            assert(views(lines@) =~= seq!["Results: "@ + decimal(items@.len())] + item_lines(
                items@.take(i + 1),
            ));
            i += 1;
        }
        assert(items@.take(i as int) == items@);
        Aard2Step::Output(BackendOutput::Text(join_strings(lines.as_slice(), "\n")))
    }
}

} // verus!
