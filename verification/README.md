# corpora-atlas

A terminal lookup tool for GoldenDict-ng, kiwix-serve, aard2-web and
MediaWiki, with a daemon that watches the clipboard and looks words up in
GoldenDict, cycling through a chain of dictionary groups chosen by the
word's script.

## Layout

- `src/` — the library, verified with Verus: query cleaning and script
  detection, the group-cycling state machine, the daemon's decisions, URL
  building and answer rendering for each backend, HTML stripping and lean
  reading (table of contents, sections, titles), and the command-line plan.
  Calls into `regex`, `scraper` and `html-escape` go through a few trusted
  wrappers whose results are named by specification functions.
- `app/` — the program around it: flag parsing, the configuration and state
  files, HTTP and devtools sessions, the Unix socket, and the desktop
  programs (`wl-paste`, `notify-send`, `wlrctl`, GoldenDict itself).
- `tests/` — tests of the library on concrete values.
