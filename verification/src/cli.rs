//! The command line: what a set of flags asks for, and how answers are
//! shown and saved.
use vstd::prelude::*;

use crate::backends::kiwix::first_n;
use crate::backends::{BackendOutput, QueryOptions};
use crate::config::Config;
use crate::html::lean::{
    extract_toc, extracted_toc, extracted_toc_depth, format_toc, lean_text, lean_view, toc_depth,
    toc_text, toc_views, TOC_DEPTH_LIMIT,
};
use crate::pattern::{regex_replaced, replace_all};
use crate::table::Table;
use crate::text::{
    char_views, chars_of, chars_range, copy_str, join, join_strings, push_char, split_chars,
    split_on, string_of_range, trim_bounds, trim_text, trim_ws, views, CharClass,
};
use crate::tokens::{resolve_zim, resolved};

verus! {

/// The command-line arguments.
#[derive(Debug)]
pub struct Cli {
    /// Words to look up, joined by spaces.
    pub query: Vec<String>,
    pub gd: bool,
    pub gd_group: Option<String>,
    pub gd_dicts: Option<String>,
    pub gd_all: bool,
    pub gd_multi_file: bool,
    pub gd_anchors: bool,
    pub kiwix: bool,
    pub kiwix_zim: Option<String>,
    pub kiwix_page: u32,
    pub aard2: bool,
    pub aard2_slob: Option<String>,
    pub mw: Option<String>,
    pub mw_search: bool,
    pub mw_page: u32,
    pub html: bool,
    pub lean_toc: bool,
    pub lean_section: Option<String>,
    pub lean_text: bool,
    pub daemon: bool,
    pub toggle_gd_auto_clip: bool,
    pub toggle_gd_auto_focus: bool,
    pub gd_clip: bool,
    pub clip: Option<String>,
    pub serve: bool,
}

/// What the program does, by the first flag that applies.
#[derive(Debug, Clone, Copy, PartialEq, Eq, Structural)]
pub enum Command {
    ToggleClipboard,
    ToggleFocus,
    Daemon,
    Cycle,
    Serve,
    Query,
}

/// The lookups that a query runs.
#[derive(Debug, Clone, Copy, PartialEq, Eq, Structural)]
pub enum QueryPlan {
    /// No words were given.
    Empty,
    /// No backend was named: the dictionary catalog.
    Catalog,
    /// The named backends, in this order.
    Backends { gd: bool, kiwix: bool, aard2: bool, mw: bool },
}

/// What lean reading makes of a page: the page itself, or text to print.
#[derive(Debug)]
pub enum LeanOutcome {
    Pass(String),
    Print(String),
}

pub open spec fn command_of(args: Cli) -> Command {
    if args.toggle_gd_auto_clip {
        Command::ToggleClipboard
    } else if args.toggle_gd_auto_focus {
        Command::ToggleFocus
    } else if args.daemon {
        Command::Daemon
    } else if args.gd_clip {
        Command::Cycle
    } else if args.serve {
        Command::Serve
    } else {
        Command::Query
    }
}

pub open spec fn plan_of(query: Seq<char>, args: Cli) -> QueryPlan {
    if query.len() == 0 {
        QueryPlan::Empty
    } else if !args.gd && !args.kiwix && !args.aard2 && args.mw is None {
        QueryPlan::Catalog
    } else {
        QueryPlan::Backends { gd: args.gd, kiwix: args.kiwix, aard2: args.aard2, mw: args.mw is Some }
    }
}

/// The dictionaries named in a comma-separated list: each name trimmed,
/// empty names dropped.
pub open spec fn dict_names(pieces: Seq<Seq<char>>) -> Seq<Seq<char>>
    decreases pieces.len(),
{
    if pieces.len() == 0 {
        Seq::empty()
    } else {
        let rest = dict_names(pieces.drop_last());
        let t = trim_ws(pieces.last());
        if t.len() == 0 {
            rest
        } else {
            rest.push(t)
        }
    }
}

/// The page, or what lean reading prints of it: the table of contents
/// (or a note that there is none), a section, or the plain text.
pub open spec fn lean_outcome(
    content: Seq<char>,
    toc: bool,
    section: Option<Seq<char>>,
    text: bool,
) -> (bool, Seq<char>) {
    if !toc && section is None && !text {
        (false, content)
    } else if toc {
        (
            true,
            match extracted_toc(content) {
                Some(items) => toc_text(items, 0),
                None => "(no TOC found)"@,
            },
        )
    } else if section is Some {
        (true, lean_view(content, section))
    } else {
        (true, lean_view(content, None))
    }
}

/// Characters kept in a file name.
pub const UNSAFE_NAME_PATTERN: &'static str = r"[^a-zA-Z0-9\u4e00-\u9fff _-]";

/// The most characters of a file name taken from a dictionary name.
pub const FILE_STEM_WIDTH: usize = 40;

/// `s` with each space replaced by `_`.
pub open spec fn underscored(s: Seq<char>) -> Seq<char> {
    s.map_values(|c: char| if c == ' ' { '_' } else { c })
}

/// The file name stem made of a dictionary name: characters other than
/// ASCII letters and digits, CJK ideographs, space, `_` and `-` removed,
/// cut to 40 characters, trimmed, spaces turned into underscores.
pub open spec fn file_stem(name: Seq<char>) -> Seq<char> {
    underscored(
        trim_ws(first_n(regex_replaced(UNSAFE_NAME_PATTERN@, name, ""@), FILE_STEM_WIDTH as nat)),
    )
}

/// The files that an answer is saved as: one per dictionary, or a single
/// `output.txt` unless the text is blank.
pub open spec fn files_of(output: BackendOutput) -> Seq<(Seq<char>, Seq<char>)> {
    match output {
        BackendOutput::Multi(m) => m@.map_values(
            |e: (Seq<char>, String)| (file_stem(e.0) + ".txt"@, e.1@),
        ),
        BackendOutput::Text(t) => if trim_ws(t@).len() == 0 {
            Seq::empty()
        } else {
            seq![("output.txt"@, t@)]
        },
        BackendOutput::Html(t) => if trim_ws(t@).len() == 0 {
            Seq::empty()
        } else {
            seq![("output.txt"@, t@)]
        },
    }
}

/// How an answer is printed: text and HTML as they are; per-dictionary
/// texts one after another, each under a `# name` heading unless HTML is
/// asked for.
pub open spec fn shown_output(output: BackendOutput, as_html: bool) -> Seq<char> {
    match output {
        BackendOutput::Text(t) => t@,
        BackendOutput::Html(h) => h@,
        BackendOutput::Multi(m) => shown_entries(m@, as_html),
    }
}

pub open spec fn shown_entries(e: Seq<(Seq<char>, String)>, as_html: bool) -> Seq<char>
    decreases e.len(),
{
    if e.len() == 0 {
        Seq::empty()
    } else {
        shown_entries(e.drop_last(), as_html) + if as_html {
            e.last().1@
        } else {
            "# "@ + e.last().0 + "\n"@ + e.last().1@ + "\n"@ + "\n"@
        }
    }
}

/// The options of a plain lookup.
pub fn plain_options(as_html: bool) -> (r: QueryOptions)
    ensures
        r.as_html == as_html && r.group is None && r.select_dicts is None && !r.extract_all
            && !r.multi_file && !r.anchors,
{
    QueryOptions {
        as_html,
        group: None,
        select_dicts: None,
        extract_all: false,
        multi_file: false,
        anchors: false,
    }
}

/// The trimmed, non-empty names of a comma-separated list.
pub fn split_dicts(list: &str) -> (r: Vec<String>)
    ensures
        views(r@) == dict_names(split_on(list@, ","@)),
{
    let v = chars_of(list);
    let comma = chars_of(",");
    proof {
        reveal_strlit(",");
    }
    let pieces = split_chars(v.as_slice(), comma.as_slice());
    let ghost pv = char_views(pieces@);
    let mut names: Vec<String> = Vec::new();
    let mut i: usize = 0;
    while i < pieces.len()
        invariant
            i <= pieces@.len(),
            pv == char_views(pieces@),
            views(names@) == dict_names(pv.take(i as int)),
        decreases pieces@.len() - i,
    {
        assert(pv.take(i + 1).drop_last() == pv.take(i as int));
        assert(pv.take(i + 1).last() == pieces@[i as int]@);
        let (a, b) = trim_bounds(pieces[i].as_slice(), CharClass::Whitespace);
        if a < b {
            let ghost before = names@;
            names.push(string_of_range(pieces[i].as_slice(), a, b));
            assert(views(names@) =~= views(before).push(names@.last()@));
        }
        i += 1;
    }
    assert(pv.take(i as int) == pv);
    names
}

impl Cli {
    /// What the flags ask the program to do.
    pub fn command(&self) -> (r: Command)
        ensures
            r == command_of(*self),
    {
        if self.toggle_gd_auto_clip {
            Command::ToggleClipboard
        } else if self.toggle_gd_auto_focus {
            Command::ToggleFocus
        } else if self.daemon {
            Command::Daemon
        } else if self.gd_clip {
            Command::Cycle
        } else if self.serve {
            Command::Serve
        } else {
            Command::Query
        }
    }

    /// Whether the command can go on without a configuration: the daemon
    /// and its controls can.
    pub fn needs_config(&self) -> (r: bool)
        ensures
            r == !(self.daemon || self.toggle_gd_auto_clip || self.gd_clip
                || self.toggle_gd_auto_focus),
    {
        !(self.daemon || self.toggle_gd_auto_clip || self.gd_clip || self.toggle_gd_auto_focus)
    }

    /// The query: the words, joined by spaces.
    pub fn query_text(&self) -> (r: String)
        ensures
            r@ == join(views(self.query@), " "@),
    {
        join_strings(self.query.as_slice(), " ")
    }

    /// The lookups that the query runs.
    pub fn plan(&self, query: &str) -> (r: QueryPlan)
        ensures
            r == plan_of(query@, *self),
    {
        if query.is_empty() {
            return QueryPlan::Empty;
        }
        if !self.gd && !self.kiwix && !self.aard2 && self.mw.is_none() {
            return QueryPlan::Catalog;
        }
        QueryPlan::Backends {
            gd: self.gd,
            kiwix: self.kiwix,
            aard2: self.aard2,
            mw: self.mw.is_some(),
        }
    }

    /// The options of a GoldenDict lookup, and whether its answer is
    /// saved to files (when dictionaries are selected, all or one output
    /// per dictionary is asked for) rather than printed (then one output
    /// per dictionary is used all the same).
    pub fn gd_options(&self) -> (r: (QueryOptions, bool))
        ensures
            r.1 == (self.gd_multi_file || self.gd_dicts is Some || self.gd_all),
            r.0.as_html == self.html,
            r.0.group == self.gd_group,
            r.0.extract_all == self.gd_all,
            r.0.anchors == self.gd_anchors,
            r.0.multi_file == (self.gd_multi_file || !r.1),
            match self.gd_dicts {
                Some(d) => r.0.select_dicts matches Some(s) && views(s@) == dict_names(
                    split_on(d@, ","@),
                ),
                None => r.0.select_dicts is None,
            },
    {
        let select_dicts = match &self.gd_dicts {
            Some(d) => Some(split_dicts(d.as_str())),
            None => None,
        };
        let to_files = self.gd_multi_file || select_dicts.is_some() || self.gd_all;
        let opts = QueryOptions {
            as_html: self.html,
            group: self.gd_group.clone(),
            extract_all: self.gd_all,
            multi_file: self.gd_multi_file || !to_files,
            anchors: self.gd_anchors,
            select_dicts,
        };
        (opts, to_files)
    }

    /// The ZIM archive named by `-z`, resolved from its shorthand.
    pub fn kiwix_zim(&self, config: &Config) -> (r: Option<String>)
        ensures
            match self.kiwix_zim {
                Some(z) => r matches Some(s) && s@ == resolved(config.kiwix@, z@),
                None => r is None,
            },
    {
        match &self.kiwix_zim {
            Some(z) => Some(resolve_zim(config, z.as_str())),
            None => None,
        }
    }

    /// The MediaWiki site (`en.wikipedia` unless named) and the options of
    /// its lookup: HTML, and a search when `--mw-search` is given.
    pub fn mw_options(&self) -> (r: (String, QueryOptions))
        ensures
            r.0@ == match self.mw {
                Some(s) => s@,
                None => "en.wikipedia"@,
            },
            r.1.as_html && r.1.group is None && !r.1.extract_all && !r.1.multi_file
                && !r.1.anchors,
            self.mw_search ==> (r.1.select_dicts matches Some(d) && views(d@) == seq!["search"@]),
            !self.mw_search ==> r.1.select_dicts is None,
    {
        let site = match &self.mw {
            Some(s) => s.clone(),
            None => "en.wikipedia".to_owned(),
        };
        let mut opts = plain_options(true);
        if self.mw_search {
            let mut d: Vec<String> = Vec::new();
            d.push("search".to_owned());
            assert(views(d@) =~= seq!["search"@]);
            opts.select_dicts = Some(d);
        }
        (site, opts)
    }

    /// What lean reading makes of a page (see [`lean_outcome`]).
    pub fn apply_lean(&self, content: &str) -> (r: LeanOutcome)
        ensures
            ({
                let section = match self.lean_section {
                    Some(s) => Some(s@),
                    None => None,
                };
                let (printed, text) = lean_outcome(content@, self.lean_toc, section, self.lean_text);
                match r {
                    LeanOutcome::Pass(t) => !printed && t@ == text,
                    LeanOutcome::Print(t) => printed && t@ == text,
                }
            }),
    {
        if !self.lean_toc && self.lean_section.is_none() && !self.lean_text {
            return LeanOutcome::Pass(copy_str(content));
        }
        if self.lean_toc {
            proof {
                extracted_toc_depth(content@);
            }
            return match extract_toc(content) {
                Some(toc) => {
                    assert(2 * (0 + toc_depth(toc_views(toc@))) <= usize::MAX);
                    LeanOutcome::Print(format_toc(toc.as_slice(), 0))
                },
                None => LeanOutcome::Print("(no TOC found)".to_owned()),
            };
        }
        if let Some(section) = &self.lean_section {
            return LeanOutcome::Print(lean_text(content, Some(section.as_str())));
        }
        LeanOutcome::Print(lean_text(content, None))
    }
}

/// The file name stem made of a dictionary name (see [`file_stem`]).
pub fn safe_file_stem(name: &str) -> (r: String)
    ensures
        r@ == file_stem(name@),
{
    let kept = replace_all(UNSAFE_NAME_PATTERN, name, "");
    let v = chars_of(kept.as_str());
    let n = if v.len() > FILE_STEM_WIDTH {
        FILE_STEM_WIDTH
    } else {
        v.len()
    };
    let cut = chars_range(v.as_slice(), 0, n);
    assert(cut@ == first_n(v@, FILE_STEM_WIDTH as nat));
    let (a, b) = trim_bounds(cut.as_slice(), CharClass::Whitespace);
    let mut r = String::new();
    let mut i = a;
    while i < b
        invariant
            a <= i <= b <= cut@.len(),
            r@ == underscored(cut@.subrange(a as int, i as int)),
        decreases b - i,
    {
        let c = cut[i];
        push_char(&mut r, if c == ' ' { '_' } else { c });
        assert(underscored(cut@.subrange(a as int, i + 1)) =~= underscored(
            cut@.subrange(a as int, i as int),
        ).push(if c == ' ' { '_' } else { c }));
        i += 1;
    }
    r
}

/// The files that an answer is saved as (see [`files_of`]): name and text.
pub fn files_to_write(output: &BackendOutput) -> (r: Vec<(String, String)>)
    ensures
        r@.map_values(|p: (String, String)| (p.0@, p.1@)) == files_of(*output),
{
    let mut files: Vec<(String, String)> = Vec::new();
    match output {
        BackendOutput::Multi(m) => {
            let mut i: usize = 0;
            while i < m.len()
                invariant
                    i <= m@.len(),
                    files@.len() == i,
                    forall|j: int|
                        0 <= j < i ==> (#[trigger] files@[j]).0@ == file_stem(m@[j].0) + ".txt"@
                            && files@[j].1@ == m@[j].1@,
                decreases m@.len() - i,
            {
                let (name, text) = m.entry(i);
                let mut f = safe_file_stem(name.as_str());
                f.append(".txt");
                files.push((f, text.clone()));
                i += 1;
            }
            assert(files@.map_values(|p: (String, String)| (p.0@, p.1@)) =~= files_of(*output));
        },
        BackendOutput::Text(t) | BackendOutput::Html(t) => {
            let trimmed = trim_text(t.as_str());
            if !trimmed.as_str().is_empty() {
                files.push(("output.txt".to_owned(), t.clone()));
            }
            assert(files@.map_values(|p: (String, String)| (p.0@, p.1@)) =~= files_of(*output));
        },
    }
    files
}

/// How an answer is printed (see [`shown_output`]).
pub fn render_output(output: &BackendOutput, as_html: bool) -> (r: String)
    ensures
        r@ == shown_output(*output, as_html),
{
    match output {
        BackendOutput::Text(t) => t.clone(),
        BackendOutput::Html(h) => h.clone(),
        BackendOutput::Multi(m) => {
            let mut r = String::new();
            let mut i: usize = 0;
            while i < m.len()
                invariant
                    i <= m@.len(),
                    r@ == shown_entries(m@.take(i as int), as_html),
                decreases m@.len() - i,
            {
                assert(m@.take(i + 1).drop_last() == m@.take(i as int));
                let (name, text) = m.entry(i);
                assert(m@.take(i + 1).last() == m@[i as int]);
                if as_html {
                    r.append(text.as_str());
                } else {
                    r.append("# ");
                    r.append(name.as_str());
                    r.append("\n");
                    r.append(text.as_str());
                    r.append("\n");
                    r.append("\n");
                }
                i += 1;
            }
            assert(m@.take(i as int) == m@);
            r
        },
    }
}

} // verus!
