use corpora_atlas::backends::aard2::{Aard2Backend, Aard2Item, Aard2Step};
use corpora_atlas::backends::gd::{cdp_step, CdpAction, CdpEvent, CdpPhase, CdpTarget, GdBackend};
use corpora_atlas::backends::kiwix::KiwixBackend;
use corpora_atlas::backends::mediawiki::{MediaWikiBackend, MwKind, MwSearchHit};
use corpora_atlas::backends::{url_encode, BackendOutput, QueryOptions};
use corpora_atlas::cli::{
    files_to_write, render_output, safe_file_stem, split_dicts, Cli, Command, LeanOutcome,
    QueryPlan,
};
use corpora_atlas::config::{
    default_window_app_id, validate_settings, Config, GdConfig, MediawikiConfig, Paths, Servers,
    WebUi,
};
use corpora_atlas::daemon::clipboard::prepare_query;
use corpora_atlas::daemon::gd_clip::{cycle_lookup, next_group};
use corpora_atlas::daemon::ipc::{apply_toggle, classify, IpcCommand};
use corpora_atlas::daemon::Daemon;
use corpora_atlas::error::Error;
use corpora_atlas::html::lean::{extract_section, extract_title, extract_toc, format_toc, lean_text, TocItem};
use corpora_atlas::html::strip::{strip_html, trim_each_line};
use corpora_atlas::lang::{triage, Script};
use corpora_atlas::state::DaemonState;
use corpora_atlas::strip::strip_query;
use corpora_atlas::text::punct_or_symbol;
use corpora_atlas::table::Table;
use corpora_atlas::tokens::{get_fallbacks, resolve_slob, resolve_zim};

fn strings(v: &[&str]) -> Vec<String> {
    v.iter().map(|s| s.to_string()).collect()
}

fn config() -> Config {
    let mut fallback = Table::new();
    fallback.insert("english".to_string(), strings(&["EN", "EN2", "EN3"]));
    fallback.insert("chinese".to_string(), strings(&["ZH", "Z2", "Z3"]));
    let mut kiwix = Table::new();
    kiwix.insert("wikisource-zh".to_string(), "wikisource_zh_all_maxi_2026-02".to_string());
    let mut aard2 = Table::new();
    aard2.insert("enwiki".to_string(), "enwiki-20260401.slob".to_string());
    let mut sites = Table::new();
    sites.insert("en.wikipedia".to_string(), "https://en.wikipedia.org/w".to_string());
    Config {
        paths: Paths {
            socket: "/tmp/ca.sock".to_string(),
            state: "/tmp/ca.state".to_string(),
            lock: "/tmp/ca.lock".to_string(),
            pid: "/tmp/ca.pid".to_string(),
            output: "/tmp/ca-out".to_string(),
        },
        servers: Servers {
            gd_cdp: "localhost:18123".to_string(),
            kiwix: "http://localhost:8077".to_string(),
            aard2: "http://127.0.0.1:8013".to_string(),
        },
        webui: WebUi { port: 8080, host: "127.0.0.1".to_string() },
        gd: GdConfig {
            binary: "goldendict".to_string(),
            config_path: "/tmp/gd".to_string(),
            cdp_timeout: 3,
            window_app_id: default_window_app_id(),
        },
        max_query_len: 50,
        fallback,
        kiwix,
        aard2,
        mediawiki: MediawikiConfig { sites },
    }
}

fn args() -> Cli {
    Cli {
        query: vec![],
        gd: false,
        gd_group: None,
        gd_dicts: None,
        gd_all: false,
        gd_multi_file: false,
        gd_anchors: false,
        kiwix: false,
        kiwix_zim: None,
        kiwix_page: 1,
        aard2: false,
        aard2_slob: None,
        mw: None,
        mw_search: false,
        mw_page: 1,
        html: false,
        lean_toc: false,
        lean_section: None,
        lean_text: false,
        daemon: false,
        toggle_gd_auto_clip: false,
        toggle_gd_auto_focus: false,
        gd_clip: false,
        clip: None,
        serve: false,
    }
}

// --- cleaning and preparing queries ----------------------------------------

#[test]
fn strip_query_twice_is_once() {
    for s in ["**hello**!", "  「*こんにちは*」 ", "...", "a_b", "#x#"] {
        let once = strip_query(s);
        assert_eq!(strip_query(&once), once);
    }
}

#[test]
fn strip_query_trims_unicode_symbols() {
    assert_eq!(strip_query("a€"), "a");
    assert_eq!(strip_query("→「word」µ"), "word」µ");
    assert_eq!(strip_query("「word」"), "word");
    assert_eq!(strip_query("\u{A0}x\u{A0}"), "x");
}

#[test]
fn punctuation_follows_general_categories() {
    assert!(punct_or_symbol('€'));
    assert!(punct_or_symbol('→'));
    assert!(punct_or_symbol('「'));
    assert!(punct_or_symbol('!'));
    assert!(punct_or_symbol('\u{1F600}'));
    assert!(!punct_or_symbol('µ'));
    assert!(!punct_or_symbol('\u{A0}'));
    assert!(!punct_or_symbol('a'));
    assert!(!punct_or_symbol('中'));
}

#[test]
fn arabic_supplement_is_other_script() {
    assert_eq!(Script::detect("\u{0750}"), Script::Other);
    assert_eq!(Script::detect("\u{0627}"), Script::Semitic);
    assert_eq!(Script::detect("\u{05D0}"), Script::Semitic);
}

#[test]
fn url_encoding_round_trips() {
    let text = "a b+%é中~";
    let e = url_encode(text, '+');
    assert_eq!(e, "a+b%2B%25%C3%A9%E4%B8%AD~");
    let expected_len: usize = text
        .bytes()
        .map(|b| if b.is_ascii_alphanumeric() || b"-_.~ ".contains(&b) { 1 } else { 3 })
        .sum();
    assert_eq!(e.len(), expected_len);
}

#[test]
fn strip_query_keeps_inner_punctuation() {
    assert_eq!(strip_query("(don't)"), "don't");
    assert_eq!(strip_query("a_b"), "ab");
}

#[test]
fn prepare_query_takes_first_line() {
    assert_eq!(prepare_query("  *hello*  \nsecond line", 50), Some("hello".to_string()));
}

#[test]
fn prepare_query_refuses() {
    assert_eq!(prepare_query("", 50), None);
    assert_eq!(prepare_query("***", 50), None);
    assert_eq!(prepare_query("123", 50), None);
    assert_eq!(prepare_query("http://example.com", 50), None);
    assert_eq!(prepare_query("https://example.com", 50), None);
    assert_eq!(prepare_query("www.example.com", 50), None);
    assert_eq!(prepare_query("ftp://host", 50), None);
    assert_eq!(prepare_query("and/or", 50), None);
    assert_eq!(prepare_query("hello world", 5), None);
}

#[test]
fn prepare_query_counts_characters() {
    assert_eq!(prepare_query("日本語", 3), Some("日本語".to_string()));
    assert_eq!(prepare_query("日本語", 2), None);
}

#[test]
fn prepared_query_prepares_to_itself() {
    let q = prepare_query(" \"Привет!\" \nx", 50).unwrap();
    assert_eq!(q, "Привет");
    assert_eq!(prepare_query(&q, 50), Some(q.clone()));
}

// --- scripts and chains ------------------------------------------------------

#[test]
fn detect_uses_first_known_character() {
    assert_eq!(Script::detect("123 abc"), Script::Latin);
    assert_eq!(Script::detect("1 中 a"), Script::Chinese);
    assert_eq!(Script::detect("שלום"), Script::Semitic);
    assert_eq!(Script::detect("नमस्ते"), Script::Brahmic);
    assert_eq!(Script::detect(""), Script::Other);
}

#[test]
fn triage_finds_chain() {
    let cfg = config();
    let (script, chain) = triage("你好", get_fallbacks(&cfg));
    assert_eq!(script, Script::Chinese);
    assert_eq!(chain, strings(&["ZH", "Z2", "Z3"]));
    let (script, chain) = triage("Привет", &cfg.fallback);
    assert_eq!(script, Script::Cyrillic);
    assert!(chain.is_empty());
}

#[test]
fn shorthands_resolve_or_pass_through() {
    let cfg = config();
    assert_eq!(resolve_zim(&cfg, "wikisource-zh"), "wikisource_zh_all_maxi_2026-02");
    assert_eq!(resolve_zim(&cfg, "other_zim"), "other_zim");
    assert_eq!(resolve_slob(&cfg, "enwiki"), "enwiki-20260401.slob");
    assert_eq!(resolve_slob(&cfg, "x.slob"), "x.slob");
}

#[test]
fn table_read_gives_back_write() {
    let mut t: Table<String> = Table::new();
    t.insert("a".to_string(), "1".to_string());
    t.insert("b".to_string(), "2".to_string());
    t.insert("a".to_string(), "3".to_string());
    assert_eq!(t.get("a"), Some(&"3".to_string()));
    assert_eq!(t.get("b"), Some(&"2".to_string()));
    assert_eq!(t.get("c"), None);
    assert_eq!(t.len(), 2);
    assert_eq!(t.position("b"), Some(1));
}

// --- state and cycling -------------------------------------------------------

#[test]
fn cycling_has_the_chain_length_as_period() {
    let mut state = DaemonState::default();
    let chain = strings(&["A", "B", "C"]);
    let mut groups = Vec::new();
    for _ in 0..7 {
        state.advance("word", &chain);
        groups.push(state.group.clone());
    }
    assert_eq!(groups, strings(&["A", "B", "C", "A", "B", "C", "A"]));
    assert_eq!(state.repeat, 6);
}

#[test]
fn chinese_chain_cycles_and_wraps() {
    let chain = strings(&["文", "CE", "中2", "J", "J2"]);
    let mut state = DaemonState::default();
    let mut groups = Vec::new();
    for cycle in 0..6 {
        assert_eq!(state.advance("你好", &chain), cycle);
        groups.push(state.group.clone());
    }
    assert_eq!(groups, strings(&["文", "CE", "中2", "J", "J2", "文"]));
}

#[test]
fn advance_with_empty_chain_keeps_group() {
    let mut state = DaemonState::default();
    state.group = "KEEP".to_string();
    assert_eq!(state.advance("w", &[]), 0);
    assert_eq!(state.group, "KEEP");
    assert_eq!(state.prev_query, "w");
}

#[test]
fn mark_done_then_advance_takes_second_group() {
    let mut state = DaemonState::default();
    state.mark_done("word", "A");
    let chain = strings(&["A", "B"]);
    assert_eq!(state.advance("word", &chain), 1);
    assert_eq!(state.group, "B");
}

#[test]
fn cycle_in_step_advances() {
    let mut state = DaemonState::default();
    state.mark_done("你好", "ZH");
    let chain = strings(&["ZH", "Z2", "Z3"]);
    assert_eq!(next_group(&mut state, "你好", &chain, "ZH"), "Z2");
    assert_eq!(state.repeat, 1);
    assert_eq!(next_group(&mut state, "你好", &chain, ""), "Z3");
    assert_eq!(state.repeat, 2);
}

#[test]
fn cycle_respects_shown_group() {
    let chain = strings(&["ZH", "Z2", "Z3"]);
    let mut state = DaemonState::default();
    state.mark_done("你好", "ZH");
    assert_eq!(next_group(&mut state, "你好", &chain, "Z2"), "Z3");
    assert_eq!(state.repeat, 2);
    assert_eq!(next_group(&mut state, "你好", &chain, "Z1"), "Z1");
    assert_eq!(state.group, "Z1");
    assert_eq!(next_group(&mut state, "中文", &chain, "Z3"), "ZH");
    assert_eq!(state.prev_query, "中文");
    assert_eq!(state.repeat, 0);
}

#[test]
fn cycle_wraps_after_last_group() {
    let chain = strings(&["ZH", "Z2"]);
    let mut state = DaemonState::default();
    state.mark_done("你好", "ZH");
    assert_eq!(next_group(&mut state, "你好", &chain, "Z2"), "ZH");
    assert_eq!(state.repeat, 2);
}

#[test]
fn cycle_latin_word_uses_shown_group() {
    let chain = strings(&["EN", "EN2"]);
    let mut state = DaemonState::default();
    state.mark_done("hello", "EN");
    let (group, changed) = cycle_lookup(&mut state, "hello", Script::Latin, &chain, "EN2");
    assert_eq!(group, "EN2");
    assert!(!changed);
    assert_eq!(state.group, "EN");
    assert_eq!(state.repeat, 0);
}

#[test]
fn cycle_other_script_advances() {
    let chain = strings(&["ZH", "Z2", "Z3"]);
    let mut state = DaemonState::default();
    state.mark_done("你好", "ZH");
    let (group, changed) = cycle_lookup(&mut state, "你好", Script::Chinese, &chain, "");
    assert_eq!(group, "Z2");
    assert!(changed);
    assert_eq!(state.repeat, 1);
}

#[test]
fn state_paths_come_from_config() {
    let (state, lock) = DaemonState::paths(&config());
    assert_eq!(state, "/tmp/ca.state");
    assert_eq!(lock, "/tmp/ca.lock");
}

#[test]
fn toggles_flip_and_restore() {
    let mut state = DaemonState::default();
    assert_eq!(classify("toggle"), IpcCommand::Toggle);
    assert_eq!(classify("toggle_focus"), IpcCommand::ToggleFocus);
    assert_eq!(classify("cycle"), IpcCommand::Cycle);
    assert_eq!(classify("bogus"), IpcCommand::Unknown);
    assert_eq!(apply_toggle(&mut state, IpcCommand::Toggle), Some(" monitoring enabled".to_string()));
    assert!(state.monitoring);
    assert_eq!(apply_toggle(&mut state, IpcCommand::Toggle), Some(" monitoring disabled".to_string()));
    assert!(!state.monitoring);
    assert_eq!(
        apply_toggle(&mut state, IpcCommand::ToggleFocus),
        Some(" GD auto-focus enabled".to_string())
    );
    assert!(state.focus_gd);
    assert_eq!(apply_toggle(&mut state, IpcCommand::Cycle), None);
    assert!(state.focus_gd);
}

#[test]
fn clipboard_polling_yields_lookups() {
    let cfg = config();
    let daemon = Daemon::new();
    let mut prev = String::new();
    let ev = daemon.on_clipboard(&mut prev, "*hello*", 50, &cfg.fallback, true).unwrap();
    assert_eq!(ev.query, "hello");
    assert_eq!(ev.group, "EN");
    assert!(ev.should_focus);
    assert_eq!(prev, "*hello*");
    assert!(daemon.on_clipboard(&mut prev, "*hello*", 50, &cfg.fallback, true).is_none());
    assert!(daemon.on_clipboard(&mut prev, "", 50, &cfg.fallback, true).is_none());
    assert!(daemon.on_clipboard(&mut prev, "http://x", 50, &cfg.fallback, true).is_none());
    assert_eq!(prev, "http://x");
    let ev = daemon.on_clipboard(&mut prev, "Привет", 50, &cfg.fallback, false).unwrap();
    assert_eq!(ev.group, "");
}

// --- configuration -----------------------------------------------------------

#[test]
fn settings_are_checked_in_order() {
    match validate_settings(false, 0) {
        Err(Error::Config(m)) => assert_eq!(m, "daemon.poll_interval must be > 0"),
        other => panic!("unexpected {:?}", other),
    }
    match validate_settings(true, 0) {
        Err(Error::Config(m)) => assert_eq!(m, "gd.cdp_timeout must be > 0"),
        other => panic!("unexpected {:?}", other),
    }
    assert!(validate_settings(true, 3).is_ok());
    assert_eq!(default_window_app_id(), "goldendict");
}

// --- HTML --------------------------------------------------------------------

#[test]
fn strip_html_block_lines() {
    let html = "<h2>Title</h2>\r\n<p>  a &amp; b  </p>\n\n\n\n<div>c</div>";
    assert_eq!(strip_html(html, true), "Title\n\n\na & b\n\nc");
}

#[test]
fn trim_each_line_trims_every_line() {
    let v: Vec<char> = "  a \r\n b\t\n\nc \n".chars().collect();
    let r: String = trim_each_line(&v).into_iter().collect();
    assert_eq!(r, "a\nb\n\nc");
}

#[test]
fn strip_html_inline_entities() {
    assert_eq!(strip_html("<b>x</b>&lt;y&gt;\n\t z", false), "x <y> z");
}

#[test]
fn toc_from_list() {
    let html = r###"<div id="a2-toc"><ol class="toc"><li><a href="#Intro">Intro</a></li><li><a href="##History">History <b>old</b></a><ol><li><a href="#Early">Early</a></li></ol></li></ol></div>"###;
    let toc = extract_toc(html).unwrap();
    assert_eq!(toc.len(), 3);
    assert_eq!(toc[0].id, "Intro");
    assert_eq!(toc[1].id, "History");
    assert_eq!(toc[1].title, "History old");
    assert_eq!(toc[1].children.len(), 1);
    assert_eq!(toc[1].children[0].id, "Early");
    assert_eq!(toc[2].id, "Early");
    let text = format_toc(&toc, 0);
    assert_eq!(text, "#Intro  Intro\n#History  History old\n  - #Early  Early\n#Early  Early");
}

#[test]
fn toc_from_headings() {
    let html = r#"<h2 id="a">First <i>one</i></h2><p>x</p><h3 class="c" id="b">Second</h3>"#;
    let toc = extract_toc(html).unwrap();
    assert_eq!(toc.len(), 2);
    assert_eq!(toc[0].id, "a");
    assert_eq!(toc[0].title, "First one");
    assert_eq!(toc[1].id, "b");
    assert!(toc[1].children.is_empty());
}

#[test]
fn toc_format_nested_exact() {
    let toc = vec![TocItem {
        id: "s1".into(),
        title: "S1".into(),
        children: vec![TocItem {
            id: "s1_1".into(),
            title: "S1.1".into(),
            children: vec![TocItem { id: "deep".into(), title: "D".into(), children: vec![] }],
        }],
    }];
    assert_eq!(format_toc(&toc, 0), "#s1  S1\n  - #s1_1  S1.1\n    - #deep  D");
    assert_eq!(format_toc(&toc[0].children, 1), "  - #s1_1  S1.1\n    - #deep  D");
}

#[test]
fn title_is_decoded() {
    let html = r#"<div><span id="a2-title" class="t">Tom &amp; <b>Jerry</b></span></div>"#;
    assert_eq!(extract_title(html), "Tom & Jerry");
}

#[test]
fn lead_section() {
    let html = "<p>Intro text</p><h2 id=\"x\">X</h2><p>body</p>";
    assert_eq!(extract_section(html, "_lead"), "<p>Intro text</p>");
    assert_eq!(lean_text(html, Some("_lead")), "Intro text");
}

#[test]
fn named_section_needs_lookahead() {
    // The section patterns use look-ahead, which the regex engine does not
    // support: the pattern does not compile and no section is found.
    let html = "<h2 id=\"a.b\">A</h2><p>one</p><h2 id=\"c\">C</h2>";
    assert_eq!(extract_section(html, "a.b"), "");
    assert_eq!(lean_text(html, Some("a.b")), "Section '#a.b' not found.");
}

// --- backends ----------------------------------------------------------------

#[test]
fn url_encoding_is_exact() {
    assert_eq!(url_encode("a b&ü~", '+'), "a+b%26%C3%BC~");
    assert_eq!(url_encode("Cat dog", '_'), "Cat_dog");
    assert_eq!(url_encode("", '+'), "");
    for c in url_encode("日本 語/?", '+').chars() {
        assert!(c == '+' || ('!'..='~').contains(&c));
    }
}

#[test]
fn aard2_urls_and_text() {
    let b = Aard2Backend::new();
    assert_eq!(b.find_url("http://h:8013", "big cat"), "http://h:8013/find/?key=big+cat");
    let items = vec![
        Aard2Item {
            dict_label: Some("enwiki".into()),
            label: Some("Cat".into()),
            url: Some("/wiki/Cat".into()),
        },
        Aard2Item { dict_label: None, label: None, url: None },
    ];
    match b.answer("http://h", &items, &QueryOptions::default()) {
        Aard2Step::Output(BackendOutput::Text(t)) => {
            assert_eq!(t, "Results: 2\n\n  [enwiki] Cat  -> /wiki/Cat\n\n  [?] ?  -> ")
        }
        other => panic!("unexpected {:?}", other),
    }
    let html = QueryOptions { as_html: true, ..QueryOptions::default() };
    match b.answer("http://h", &items, &html) {
        Aard2Step::Fetch(u) => assert_eq!(u, "http://h/wiki/Cat"),
        other => panic!("unexpected {:?}", other),
    }
    match b.answer("http://h", &items[1..], &html) {
        Aard2Step::Output(BackendOutput::Html(h)) => assert_eq!(h, "<p>No results found</p>"),
        other => panic!("unexpected {:?}", other),
    }
}

#[test]
fn kiwix_search() {
    let k = KiwixBackend::new("wikisource_en");
    assert_eq!(
        k.search_url("http://localhost:8077", "a b"),
        "http://localhost:8077/search?pattern=a+b&books.name=wikisource_en&pageLength=25&page=1"
    );
    let page = r#"Results 1-2 of <b>42</b><cite>First <b>hit</b></cite><cite></cite><cite>Second</cite>"#;
    match k.render(page, false) {
        BackendOutput::Text(t) => {
            assert_eq!(t, "Results: 42 (page 1, 1-2)\n\n[1] First hit\n\n[2] Second")
        }
        other => panic!("unexpected {:?}", other),
    }
    match k.render(page, true) {
        BackendOutput::Html(h) => assert_eq!(h, page),
        other => panic!("unexpected {:?}", other),
    }
}

#[test]
fn kiwix_limits() {
    let k = KiwixBackend::new("z");
    let long = "x".repeat(250);
    let mut page = String::from("of <b>99999999999999999999999</b>");
    for _ in 0..30 {
        page.push_str(&format!("<cite>{long}</cite>"));
    }
    match k.render(&page, false) {
        BackendOutput::Text(t) => {
            let lines: Vec<&str> = t.split('\n').collect();
            assert_eq!(lines[0], "Results: 0 (page 1, 1-25)");
            assert_eq!(lines[2], format!("[1] {}", "x".repeat(200)));
            assert_eq!(lines.len(), 51);
        }
        other => panic!("unexpected {:?}", other),
    }
}

#[test]
fn mediawiki_sites() {
    let cfg = config();
    let sites = &cfg.mediawiki.sites;
    assert_eq!(MediaWikiBackend::new("en.wikipedia").base_url(sites), Some("https://en.wikipedia.org/w".into()));
    assert_eq!(MediaWikiBackend::new("https://fr.wikipedia.org/w/").base_url(sites), Some("https://fr.wikipedia.org/w".into()));
    assert_eq!(MediaWikiBackend::new("https://x.org/w/api.php").base_url(sites), Some("https://x.org/w".into()));
    assert_eq!(MediaWikiBackend::new("nosuch").base_url(sites), None);
    match MediaWikiBackend::new("nosuch").api_url(sites, "a=b") {
        Err(Error::Config(m)) => assert_eq!(m, "unknown site 'nosuch'"),
        other => panic!("unexpected {:?}", other),
    }
    assert_eq!(
        MediaWikiBackend::new("en.wikipedia").api_url(sites, "a=b").unwrap(),
        "https://en.wikipedia.org/w/api.php?format=json&a=b"
    );
}

#[test]
fn mediawiki_requests() {
    let m = MediaWikiBackend::new("en.wikipedia");
    let search = QueryOptions { select_dicts: Some(vec!["search".into()]), ..QueryOptions::default() };
    let r = m.request("quantum physics", &search);
    assert_eq!(r.kind, MwKind::Search);
    assert_eq!(r.params, "action=query&list=search&srsearch=quantum_physics&srwhat=text&srlimit=50");
    let prefix = QueryOptions { multi_file: true, ..QueryOptions::default() };
    let r = m.request("Phil", &prefix);
    assert_eq!(r.kind, MwKind::Prefix);
    assert_eq!(r.params, "action=query&list=allpages&aplimit=10&apfrom=Phil");
    let r = m.request("Café", &QueryOptions::default());
    assert_eq!(r.kind, MwKind::Article);
    assert_eq!(r.params, "action=parse&prop=text&redirects&page=Caf%C3%A9");
}

#[test]
fn mediawiki_answers() {
    let m = MediaWikiBackend::new("en.wikipedia");
    let hits = vec![
        MwSearchHit { title: Some("A".into()), snippet: Some("<span>x</span> y".into()) },
        MwSearchHit { title: None, snippet: None },
    ];
    match m.render_search(Some(7), &hits) {
        BackendOutput::Text(t) => assert_eq!(t, "Results: 7 total (1-2)\n\n[1] A\nx y\n\n[2] \n"),
        other => panic!("unexpected {:?}", other),
    }
    match m.render_search(None, &[]) {
        BackendOutput::Text(t) => assert_eq!(t, "Results: 0 total (1-0)"),
        other => panic!("unexpected {:?}", other),
    }
    match m.render_prefix(&[Some("P1".into()), None, Some("P2".into())]) {
        BackendOutput::Text(t) => assert_eq!(t, "Prefix results: 2\n  P1\n  P2"),
        other => panic!("unexpected {:?}", other),
    }
    match m.render_article(Some("<p>Hi <b>there</b></p>"), false) {
        BackendOutput::Text(t) => assert_eq!(t, "Hi there"),
        other => panic!("unexpected {:?}", other),
    }
    match m.render_article(Some("<p>x</p>"), true) {
        BackendOutput::Html(h) => assert_eq!(h, "<p>x</p>"),
        other => panic!("unexpected {:?}", other),
    }
    match m.render_article(None, true) {
        BackendOutput::Text(t) => assert_eq!(t, ""),
        other => panic!("unexpected {:?}", other),
    }
}

#[test]
fn gd_devtools_addresses() {
    let gd = GdBackend;
    assert_eq!(gd.cdp_port("localhost:18124"), 18124);
    assert_eq!(gd.cdp_port("localhost:+80"), 80);
    assert_eq!(gd.cdp_port("localhost:99999"), 18123);
    assert_eq!(gd.cdp_port("localhost:"), 18123);
    assert_eq!(gd.cdp_port("9222"), 9222);
    assert_eq!(gd.targets_url(9222), "http://localhost:9222/json/list");
    assert_eq!(gd.page_socket(9222, "ABC"), "ws://localhost:9222/devtools/page/ABC");
    assert_eq!(gd.wait_millis(Some("H")), 3000);
    assert_eq!(gd.wait_millis(Some("EN")), 1500);
    assert_eq!(gd.wait_millis(None), 1500);
    assert_eq!(GdBackend::lookup_args("word", Some("EN")), strings(&["-g", "EN", "word"]));
    assert_eq!(GdBackend::lookup_args("word", None), strings(&["word"]));
}

#[test]
fn gd_targets_and_groups() {
    let targets = vec![
        CdpTarget { id: "1".into(), url: "chrome://about".into() },
        CdpTarget { id: "2".into(), url: "gdlookup://localhost/?word=x".into() },
        CdpTarget { id: "3".into(), url: "gdlookup://localhost/?word=x&group=7".into() },
    ];
    assert_eq!(GdBackend::find_gdlookup(&targets), Some("2".into()));
    assert_eq!(GdBackend::current_group_id(&targets), Some("7".into()));
    assert_eq!(GdBackend::find_gdlookup(&targets[..1]), None);
    let xml = r#"<groups><group id="1" name="Eng"/><group  id="2" name="Zh" /><group id="1" name="Eng2"/></groups>"#;
    let map = GdBackend.parse_group_map(xml);
    assert_eq!(map.len(), 2);
    assert_eq!(map.get("1"), Some(&"Eng2".to_string()));
    assert_eq!(map.get("2"), Some(&"Zh".to_string()));
}

#[test]
fn gd_articles() {
    let raw = r#"<div>head<article class="gdarticle gdactivearticle"><span class="gddicttitle">Oxford &amp; Co</span><section>one</section></article><article class="gdarticle"><div>no title</div></article>"#;
    let arts = GdBackend::split_articles(raw);
    assert_eq!(arts.len(), 2);
    assert_eq!(arts[0].0, "Oxford & Co");
    assert_eq!(arts[0].1, "<section>one</section></article>");
    assert_eq!(arts[1].0, "unknown");
    assert_eq!(arts[1].1, "\"><div>no title</div></article>");
    assert!(GdBackend::split_articles("<div>no articles</div>").is_empty());

    match GdBackend::render(&arts, &QueryOptions::default()) {
        BackendOutput::Text(t) => assert_eq!(t, "   1. Oxford & Co\n   2. unknown"),
        other => panic!("unexpected {:?}", other),
    }
    let opts = QueryOptions {
        select_dicts: Some(vec!["OXFORD".into()]),
        anchors: true,
        ..QueryOptions::default()
    };
    match GdBackend::render(&arts, &opts) {
        BackendOutput::Multi(m) => {
            assert_eq!(m.len(), 1);
            assert_eq!(m.get("Oxford & Co"), Some(&"# From Oxford & Co\n\none".to_string()));
        }
        other => panic!("unexpected {:?}", other),
    }
    let all_html = QueryOptions { extract_all: true, as_html: true, anchors: true, ..QueryOptions::default() };
    match GdBackend::render(&arts, &all_html) {
        BackendOutput::Multi(m) => {
            assert_eq!(m.len(), 2);
            assert_eq!(m.get("unknown"), Some(&"\"><div>no title</div></article>".to_string()));
        }
        other => panic!("unexpected {:?}", other),
    }
}

#[test]
fn gd_page_reading_steps() {
    let (p, a) = cdp_step(CdpPhase::AwaitEnable, CdpEvent::Message { id: Some(5), value: None });
    assert_eq!(p, CdpPhase::AwaitEnable);
    assert!(matches!(a, CdpAction::Wait));
    let (p, a) = cdp_step(CdpPhase::AwaitEnable, CdpEvent::Message { id: Some(1), value: None });
    assert_eq!(p, CdpPhase::AwaitEvaluate);
    assert!(matches!(a, CdpAction::SendEvaluate));
    let (_, a) = cdp_step(CdpPhase::AwaitEvaluate, CdpEvent::Message { id: Some(2), value: Some("<b>x</b>".into()) });
    assert!(matches!(a, CdpAction::Done(ref h) if h == "<b>x</b>"));
    let (_, a) = cdp_step(CdpPhase::AwaitEvaluate, CdpEvent::Closed);
    assert!(matches!(a, CdpAction::Fail(ref m) if m == "no response for Runtime.evaluate"));
    let (_, a) = cdp_step(CdpPhase::AwaitEnable, CdpEvent::Closed);
    assert!(matches!(a, CdpAction::Fail(ref m) if m == "no response for Runtime.enable"));
}

// --- command line ------------------------------------------------------------

#[test]
fn command_and_plan() {
    let mut a = args();
    assert_eq!(a.command(), Command::Query);
    assert!(a.needs_config());
    a.query = strings(&["big", "cat"]);
    let q = a.query_text();
    assert_eq!(q, "big cat");
    assert_eq!(a.plan(&q), QueryPlan::Catalog);
    assert_eq!(a.plan(""), QueryPlan::Empty);
    a.kiwix = true;
    a.mw = Some("en.wikipedia".into());
    assert_eq!(a.plan(&q), QueryPlan::Backends { gd: false, kiwix: true, aard2: false, mw: true });
    a.gd_clip = true;
    assert_eq!(a.command(), Command::Cycle);
    assert!(!a.needs_config());
    a.toggle_gd_auto_clip = true;
    assert_eq!(a.command(), Command::ToggleClipboard);
}

#[test]
fn gd_flags() {
    let mut a = args();
    let (opts, to_files) = a.gd_options();
    assert!(!to_files);
    assert!(opts.multi_file);
    a.gd_dicts = Some(" Oxford , ,Longman".into());
    let (opts, to_files) = a.gd_options();
    assert!(to_files);
    assert!(!opts.multi_file);
    assert_eq!(opts.select_dicts, Some(strings(&["Oxford", "Longman"])));
    assert_eq!(split_dicts(""), Vec::<String>::new());
}

#[test]
fn kiwix_and_mediawiki_flags() {
    let cfg = config();
    let mut a = args();
    assert_eq!(a.kiwix_zim(&cfg), None);
    a.kiwix_zim = Some("wikisource-zh".into());
    assert_eq!(a.kiwix_zim(&cfg), Some("wikisource_zh_all_maxi_2026-02".into()));
    let (site, opts) = a.mw_options();
    assert_eq!(site, "en.wikipedia");
    assert!(opts.as_html);
    assert!(opts.select_dicts.is_none());
    a.mw = Some("https://fr.wikipedia.org/w".into());
    a.mw_search = true;
    let (site, opts) = a.mw_options();
    assert_eq!(site, "https://fr.wikipedia.org/w");
    assert_eq!(opts.select_dicts, Some(strings(&["search"])));
}

#[test]
fn lean_outcomes() {
    let mut a = args();
    let page = r#"<h2 id="a">Alpha</h2><p>x</p>"#;
    assert!(matches!(a.apply_lean(page), LeanOutcome::Pass(ref p) if p == page));
    a.lean_toc = true;
    assert!(matches!(a.apply_lean(page), LeanOutcome::Print(ref p) if p == "#a  Alpha"));
    assert!(matches!(a.apply_lean("<p>none</p>"), LeanOutcome::Print(ref p) if p == "(no TOC found)"));
    a.lean_toc = false;
    a.lean_text = true;
    assert!(matches!(a.apply_lean(page), LeanOutcome::Print(ref p) if p == "Alpha x"));
    a.lean_section = Some("zz".into());
    assert!(matches!(a.apply_lean(page), LeanOutcome::Print(ref p) if p == "Section '#zz' not found."));
}

#[test]
fn saving_and_printing() {
    assert_eq!(safe_file_stem("Oxford: Dict (2nd ed.)"), "Oxford_Dict_2nd_ed");
    assert_eq!(safe_file_stem("  汉语 词典 "), "汉语_词典");
    assert_eq!(safe_file_stem(&"a".repeat(50)), "a".repeat(40));
    let mut m = Table::new();
    m.insert("Dict A".to_string(), "text a".to_string());
    m.insert("B/b".to_string(), "text b".to_string());
    let out = BackendOutput::Multi(m);
    assert_eq!(
        files_to_write(&out),
        vec![("Dict_A.txt".to_string(), "text a".to_string()), ("Bb.txt".to_string(), "text b".to_string())]
    );
    assert_eq!(render_output(&out, false), "# Dict A\ntext a\n\n# B/b\ntext b\n\n");
    assert_eq!(render_output(&out, true), "text atext b");
    assert!(files_to_write(&BackendOutput::Text(" \n ".into())).is_empty());
    assert_eq!(
        files_to_write(&BackendOutput::Html("<p>x</p>".into())),
        vec![("output.txt".to_string(), "<p>x</p>".to_string())]
    );
    assert_eq!(render_output(&BackendOutput::Text("t".into()), false), "t");
}
