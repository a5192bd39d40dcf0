//! HTML parsing and entity decoding, through `scraper` and `html-escape`.
use vstd::prelude::*;

verus! {

/// `text` with its HTML character references decoded
/// (`html_escape::decode_html_entities`).
pub uninterp spec fn html_entities_decoded(text: Seq<char>) -> Seq<char>;

/// Decodes the HTML character references in `text`.
#[verifier::external_body]
pub(crate) fn decode_entities(text: &str) -> (r: String)
    ensures
        r@ == html_entities_decoded(text@),
{
    html_escape::decode_html_entities(text).into_owned()
}

/// The first element matching the link selector inside a list entry: its
/// `href` attribute and its text nodes.
#[derive(Debug)]
pub struct Link {
    pub href: Option<String>,
    pub texts: Vec<String>,
}

/// An element matching the item selector: its first link, if any, and its
/// own serialized HTML.
#[derive(Debug)]
pub struct ListEntry {
    pub link: Option<Link>,
    pub html: String,
}

/// The plain value of a [`ListEntry`].
pub open spec fn entry_view(e: ListEntry) -> (Option<(Option<Seq<char>>, Seq<Seq<char>>)>, Seq<
    char,
>) {
    (
        match e.link {
            Some(l) => Some(
                (
                    match l.href {
                        Some(h) => Some(h@),
                        None => None,
                    },
                    l.texts@.map_values(|t: String| t@),
                ),
            ),
            None => None,
        },
        e.html@,
    )
}

/// The entries that parsing `fragment` as an HTML fragment and selecting
/// `item_selector` yields, in document order, each with the first element
/// inside it that matches `link_selector`; `None` when a selector does not
/// parse.
pub uninterp spec fn html_list_entries(
    fragment: Seq<char>,
    item_selector: Seq<char>,
    link_selector: Seq<char>,
) -> Option<Seq<(Option<(Option<Seq<char>>, Seq<Seq<char>>)>, Seq<char>)>>;

/// `Html::parse_fragment(fragment)`, `Selector::parse` of both selectors,
/// then for each element that `select(item_selector)` yields: the `href`
/// attribute and `text()` of its first `link_selector` element, and its
/// `html()`.
#[verifier::external_body]
pub(crate) fn list_entries(fragment: &str, item_selector: &str, link_selector: &str) -> (r:
    Option<Vec<ListEntry>>)
    ensures
        r matches Some(v) ==> html_list_entries(fragment@, item_selector@, link_selector@) == Some(
            v@.map_values(|e: ListEntry| entry_view(e)),
        ),
        r is None ==> html_list_entries(fragment@, item_selector@, link_selector@) is None,
{
    let doc = scraper::Html::parse_fragment(fragment);
    let items = scraper::Selector::parse(item_selector).ok()?;
    let links = scraper::Selector::parse(link_selector).ok()?;
    Some(doc.select(&items).map(|e| ListEntry {
        link: e.select(&links).next().map(|a| Link {
            href: a.value().attr("href").map(|h| h.to_string()),
            texts: a.text().map(|t| t.to_string()).collect(),
        }),
        html: e.html(),
    }).collect())
}

} // verus!
