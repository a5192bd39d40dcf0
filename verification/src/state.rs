//! The daemon's persistent lookup state and the rules by which repeated
//! lookups of one word cycle through a chain of dictionary groups.
use vstd::prelude::*;

use crate::config::Config;
use crate::text::{copy_str, same_text};

verus! {

/// The daemon's state as it is stored between lookups.
#[derive(Debug)]
pub struct DaemonState {
    /// The last looked-up word.
    pub prev_query: String,
    /// How many times in a row that word was looked up again.
    pub repeat: usize,
    /// The dictionary group of the last lookup.
    pub group: String,
    /// Whether the clipboard is being monitored.
    pub monitoring: bool,
    /// Whether the dictionary window is focused after a lookup.
    pub focus_gd: bool,
}

/// The mathematical value of a [`DaemonState`].
pub struct StateView {
    pub prev_query: Seq<char>,
    pub repeat: nat,
    pub group: Seq<char>,
    pub monitoring: bool,
    pub focus_gd: bool,
}

impl View for DaemonState {
    type V = StateView;

    open spec fn view(&self) -> StateView {
        StateView {
            prev_query: self.prev_query@,
            repeat: self.repeat as nat,
            group: self.group@,
            monitoring: self.monitoring,
            focus_gd: self.focus_gd,
        }
    }
}

/// The state after looking up `query` once more with the chain `chain`:
/// the same word again counts one more repeat, a new word starts over at
/// zero; the group is the chain's entry at the repeat count, wrapping
/// around; an empty chain leaves the group as it was.
pub open spec fn advanced(s: StateView, query: Seq<char>, chain: Seq<Seq<char>>) -> StateView {
    let (prev, repeat) = if query == s.prev_query {
        (s.prev_query, s.repeat + 1)
    } else {
        (query, 0nat)
    };
    StateView {
        prev_query: prev,
        repeat: repeat,
        group: if chain.len() > 0 {
            chain[(repeat % chain.len()) as int]
        } else {
            s.group
        },
        monitoring: s.monitoring,
        focus_gd: s.focus_gd,
    }
}

/// The state after `query` was looked up in `group` as a fresh word.
pub open spec fn marked_done(s: StateView, query: Seq<char>, group: Seq<char>) -> StateView {
    StateView {
        prev_query: query,
        repeat: 0,
        group: group,
        monitoring: s.monitoring,
        focus_gd: s.focus_gd,
    }
}

/// The state after `n` lookups of `query` with the chain `chain`.
pub open spec fn advanced_times(
    s: StateView,
    query: Seq<char>,
    chain: Seq<Seq<char>>,
    n: nat,
) -> StateView
    decreases n,
{
    if n == 0 {
        s
    } else {
        advanced(advanced_times(s, query, chain, (n - 1) as nat), query, chain)
    }
}

impl Default for DaemonState {
    fn default() -> (r: Self)
        ensures
            r@ == (StateView {
                prev_query: Seq::empty(),
                repeat: 0,
                group: Seq::empty(),
                monitoring: false,
                focus_gd: false,
            }),
    {
        DaemonState {
            prev_query: String::new(),
            repeat: 0,
            group: String::new(),
            monitoring: false,
            focus_gd: false,
        }
    }
}

impl DaemonState {
    /// The state file and the lock file that guards it, as configured.
    pub fn paths(config: &Config) -> (r: (String, String))
        ensures
            r.0@ == config.paths.state@,
            r.1@ == config.paths.lock@,
    {
        (copy_str(config.paths.state.as_str()), copy_str(config.paths.lock.as_str()))
    }

    /// Records one more lookup of `query` and selects the group of the
    /// chain at the new repeat count; returns that count.
    pub fn advance(&mut self, query: &str, chain: &[String]) -> (r: usize)
        requires
            query@ == old(self).prev_query@ ==> old(self).repeat < usize::MAX,
        ensures
            final(self)@ == advanced(old(self)@, query@, chain@.map_values(|g: String| g@)),
            r == final(self).repeat,
    {
        if same_text(query, self.prev_query.as_str()) {
            self.repeat = self.repeat + 1;
        } else {
            self.prev_query = copy_str(query);
            self.repeat = 0;
        }
        if chain.len() > 0 {
            self.group = chain[self.repeat % chain.len()].clone();
        }
        self.repeat
    }

    /// Records that `query` was looked up in `group` as a fresh word.
    pub fn mark_done(&mut self, query: &str, group: &str)
        ensures
            final(self)@ == marked_done(old(self)@, query@, group@),
    {
        self.prev_query = copy_str(query);
        self.repeat = 0;
        self.group = copy_str(group);
    }
}

// ---------------------------------------------------------------------------
// Laws of the cycling
// ---------------------------------------------------------------------------

/// Looking up a new word and then repeating it `k` times selects the chain's
/// groups in order, starting at the first and wrapping around: the repeat
/// count is `k` and the group is `chain[k % len]`.
pub proof fn repeated_lookups_walk_the_chain(
    s: StateView,
    query: Seq<char>,
    chain: Seq<Seq<char>>,
    k: nat,
)
    requires
        query != s.prev_query,
        chain.len() > 0,
    ensures
        advanced_times(s, query, chain, k + 1).repeat == k,
        advanced_times(s, query, chain, k + 1).prev_query == query,
        advanced_times(s, query, chain, k + 1).group == chain[(k % chain.len()) as int],
    decreases k,
{
    let prev = advanced_times(s, query, chain, k);
    assert(advanced_times(s, query, chain, k + 1) == advanced(prev, query, chain));
    if k > 0 {
        repeated_lookups_walk_the_chain(s, query, chain, (k - 1) as nat);
        assert(((k - 1) as nat + 1) as nat == k);
    }
}

/// Once a word has been looked up, repeating it `len` more times comes back
/// to the same group: the cycle has the length of the chain.
pub proof fn cycle_period_is_chain_length(
    s: StateView,
    query: Seq<char>,
    chain: Seq<Seq<char>>,
    n: nat,
)
    requires
        query != s.prev_query,
        chain.len() > 0,
        n >= 1,
    ensures
        advanced_times(s, query, chain, n + chain.len()).group == advanced_times(
            s,
            query,
            chain,
            n,
        ).group,
{
    let len = chain.len();
    repeated_lookups_walk_the_chain(s, query, chain, (n - 1) as nat);
    repeated_lookups_walk_the_chain(s, query, chain, (n - 1 + len) as nat);
    let a = (n - 1) as int;
    vstd::arithmetic::div_mod::lemma_mod_add_multiples_vanish(a, len as int);
    assert(((n - 1 + len) as nat) as int == len + a);
}

/// After a word was marked done, looking it up again selects the chain's
/// second group (the first when the chain has one group), with repeat 1.
pub proof fn lookup_after_mark_done(
    s: StateView,
    query: Seq<char>,
    group: Seq<char>,
    chain: Seq<Seq<char>>,
)
    requires
        chain.len() > 0,
    ensures
        advanced(marked_done(s, query, group), query, chain).repeat == 1,
        advanced(marked_done(s, query, group), query, chain).group == chain[(1nat % chain.len()) as int],
{
}

/// Advancing changes neither the monitoring nor the focus setting.
pub proof fn advance_keeps_settings(s: StateView, query: Seq<char>, chain: Seq<Seq<char>>)
    ensures
        advanced(s, query, chain).monitoring == s.monitoring,
        advanced(s, query, chain).focus_gd == s.focus_gd,
{
}

} // verus!
