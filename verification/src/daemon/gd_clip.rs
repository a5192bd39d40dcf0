//! The group cycling of the `cycle` command.
use vstd::prelude::*;

use crate::lang::Script;
use crate::state::{advanced, DaemonState, StateView};
use crate::text::{copy_str, same_text};

verus! {

/// The position of the first occurrence of `x` in `s`.
pub open spec fn first_index(s: Seq<Seq<char>>, x: Seq<char>) -> int
    decreases s.len(),
{
    if s.len() == 0 || s[0] == x {
        0
    } else {
        1 + first_index(s.drop_first(), x)
    }
}

pub proof fn lemma_first_index(s: Seq<Seq<char>>, x: Seq<char>, n: int)
    requires
        0 <= n < s.len(),
        s[n] == x,
        forall|j: int| 0 <= j < n ==> s[j] != x,
    ensures
        first_index(s, x) == n,
    decreases n,
{
    if n > 0 {
        let t = s.drop_first();
        assert forall|j: int| 0 <= j < n - 1 implies t[j] != x by {
            assert(t[j] == s[j + 1]);
        }
        lemma_first_index(t, x, n - 1);
    }
}

/// The state after a `cycle` request for `query`, given the chain of the
/// query's script and the group that the dictionary program shows
/// (`gd_group`, empty when unknown).
///
/// When the program shows another group than the state remembers, that
/// choice is respected: a new word starts over at the chain's first group;
/// the same word continues after the program's group when the chain holds
/// it, and otherwise stays in the program's group. When the program shows
/// the remembered group, the lookup advances through the chain.
pub open spec fn cycled(s: StateView, query: Seq<char>, chain: Seq<Seq<char>>, gd_group: Seq<char>) -> StateView {
    if gd_group.len() > 0 && gd_group != s.group {
        if query != s.prev_query {
            StateView {
                prev_query: query,
                repeat: 0,
                group: if chain.len() > 0 {
                    chain[0]
                } else {
                    Seq::empty()
                },
                ..s
            }
        } else if chain.contains(gd_group) {
            let next = first_index(chain, gd_group) + 1;
            StateView { repeat: next as nat, group: chain[next % (chain.len() as int)], ..s }
        } else {
            StateView { group: gd_group, ..s }
        }
    } else {
        advanced(s, query, chain)
    }
}

/// The position of the first string of `chain` equal to `x`.
pub fn position_of(chain: &[String], x: &str) -> (r: Option<usize>)
    ensures
        r matches Some(i) ==> i < chain.len() && chain@[i as int]@ == x@ && forall|j: int|
            0 <= j < i ==> chain@[j]@ != x@,
        r is None ==> forall|j: int| 0 <= j < chain@.len() ==> chain@[j]@ != x@,
{
    let mut i: usize = 0;
    while i < chain.len()
        invariant
            i <= chain@.len(),
            forall|j: int| 0 <= j < i ==> chain@[j]@ != x@,
        decreases chain@.len() - i,
    {
        if same_text(chain[i].as_str(), x) {
            return Some(i);
        }
        i += 1;
    }
    None
}

/// Updates the state for a `cycle` request and returns the group to look
/// the query up in.
pub fn next_group(state: &mut DaemonState, query: &str, chain: &[String], gd_group: &str) -> (r:
    String)
    requires
        (gd_group@.len() == 0 || gd_group@ == old(state).group@) && query@ == old(
            state,
        ).prev_query@ ==> old(state).repeat < usize::MAX,
    ensures
        final(state)@ == cycled(old(state)@, query@, chain@.map_values(|g: String| g@), gd_group@),
        r@ == final(state).group@,
{
    let ghost views = chain@.map_values(|g: String| g@);
    if !gd_group.is_empty() && !same_text(gd_group, state.group.as_str()) {
        if !same_text(query, state.prev_query.as_str()) {
            state.prev_query = copy_str(query);
            state.repeat = 0;
            state.group = if chain.len() > 0 {
                chain[0].clone()
            } else {
                String::new()
            };
            state.group.clone()
        } else {
            let found = position_of(chain, gd_group);
            if let Some(i) = found {
                proof {
                    lemma_first_index(views, gd_group@, i as int);
                    assert(views[i as int] == gd_group@);
                    assert(views.contains(gd_group@));
                }
                state.repeat = i + 1;
                state.group = chain[(i + 1) % chain.len()].clone();
            } else {
                assert(!views.contains(gd_group@)) by {
                    if views.contains(gd_group@) {
                        let j = choose|j: int| 0 <= j < views.len() && views[j] == gd_group@;
                        assert(chain@[j]@ == gd_group@);
                    }
                }
                state.group = copy_str(gd_group);
            }
            state.group.clone()
        }
    } else {
        state.advance(query, chain);
        state.group.clone()
    }
}


/// The group in which a `cycle` request looks `query` up, and whether the
/// state changed and must be saved. A word in Latin script is looked up in
/// the group the dictionary program shows (`gd_group`), leaving the state
/// alone; any other word cycles through its chain as [`next_group`] does.
pub fn cycle_lookup(
    state: &mut DaemonState,
    query: &str,
    script: Script,
    chain: &[String],
    gd_group: &str,
) -> (r: (String, bool))
    requires
        script != Script::Latin && (gd_group@.len() == 0 || gd_group@ == old(state).group@)
            && query@ == old(state).prev_query@ ==> old(state).repeat < usize::MAX,
    ensures
        script == Script::Latin ==> final(state)@ == old(state)@ && r.0@ == gd_group@ && !r.1,
        script != Script::Latin ==> final(state)@ == cycled(
            old(state)@,
            query@,
            chain@.map_values(|g: String| g@),
            gd_group@,
        ) && r.0@ == final(state).group@ && r.1,
{
    if script == Script::Latin {
        return (copy_str(gd_group), false);
    }
    let group = next_group(state, query, chain, gd_group);
    (group, true)
}

} // verus!

verus! {

/// When the dictionary program shows the group the state remembers, or no
/// group, a `cycle` request advances through the chain exactly as a
/// repeated lookup does.
pub proof fn cycle_follows_chain_when_in_step(
    s: StateView,
    query: Seq<char>,
    chain: Seq<Seq<char>>,
    gd_group: Seq<char>,
)
    requires
        gd_group.len() == 0 || gd_group == s.group,
    ensures
        cycled(s, query, chain, gd_group) == advanced(s, query, chain),
{
}

/// When the program shows another group than remembered and the word is
/// the same, the next group is the one after the program's group in the
/// chain, wrapping around.
pub proof fn cycle_continues_after_shown_group(
    s: StateView,
    chain: Seq<Seq<char>>,
    gd_group: Seq<char>,
    i: int,
)
    requires
        gd_group.len() > 0,
        gd_group != s.group,
        0 <= i < chain.len(),
        chain[i] == gd_group,
        forall|j: int| 0 <= j < i ==> chain[j] != gd_group,
    ensures
        cycled(s, s.prev_query, chain, gd_group).group == chain[(i + 1) % (chain.len() as int)],
        cycled(s, s.prev_query, chain, gd_group).repeat == i + 1,
{
    lemma_first_index(chain, gd_group, i);
    assert(chain.contains(gd_group));
}

} // verus!
