//! Daemon mode: clipboard polling and socket requests.
pub mod clipboard;
pub mod gd_clip;
pub mod ipc;

use vstd::prelude::*;

use crate::daemon::clipboard::{prepare_query, prepared};
use crate::lang::{chain_for, detected, script_key, triage};
use crate::table::Table;
use crate::text::{copy_str, same_text};

verus! {

/// The clipboard-monitoring daemon.
#[derive(Debug, Default)]
pub struct Daemon;

/// A lookup that clipboard polling asks for.
#[derive(Debug)]
pub struct ClipboardEvent {
    pub query: String,
    pub group: String,
    pub should_focus: bool,
}

/// The lookup, if any, that a new clipboard text asks for: the prepared
/// query, in the first group of its script's chain (empty when the chain is).
pub open spec fn clipboard_lookup(
    clip: Seq<char>,
    max_len: nat,
    fallbacks: Seq<(Seq<char>, Vec<String>)>,
) -> Option<(Seq<char>, Seq<char>)> {
    match prepared(clip, max_len) {
        Some(q) => {
            let chain = chain_for(fallbacks, script_key(detected(q)));
            Some((q, if chain.len() > 0 { chain[0] } else { Seq::empty() }))
        },
        None => None,
    }
}

impl Daemon {
    pub fn new() -> (r: Self)
        ensures
            r == Daemon,
    {
        Daemon
    }

    /// One step of clipboard polling with monitoring on: a clipboard text
    /// that is empty or the same as the previous one is ignored; otherwise
    /// it becomes the previous text and yields the lookup it asks for.
    pub fn on_clipboard(
        &self,
        prev_clip: &mut String,
        clip: &str,
        max_len: usize,
        fallbacks: &Table<Vec<String>>,
        should_focus: bool,
    ) -> (r: Option<ClipboardEvent>)
        ensures
            clip@.len() == 0 || clip@ == old(prev_clip)@ ==> r is None && final(prev_clip)@ == old(
                prev_clip,
            )@,
            !(clip@.len() == 0 || clip@ == old(prev_clip)@) ==> final(prev_clip)@ == clip@ && (
            match r {
                Some(ev) => clipboard_lookup(clip@, max_len as nat, fallbacks@) == Some(
                    (ev.query@, ev.group@),
                ) && ev.should_focus == should_focus,
                None => clipboard_lookup(clip@, max_len as nat, fallbacks@) is None,
            }),
    {
        if same_text(clip, prev_clip.as_str()) || clip.is_empty() {
            return None;
        }
        *prev_clip = copy_str(clip);
        let query = match prepare_query(clip, max_len) {
            Some(q) => q,
            None => return None,
        };
        let (_script, chain) = triage(query.as_str(), fallbacks);
        let group = if chain.len() > 0 {
            chain[0].clone()
        } else {
            String::new()
        };
        Some(ClipboardEvent { query, group, should_focus })
    }
}

} // verus!
