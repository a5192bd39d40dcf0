//! Resolution of configured shorthands.
use vstd::prelude::*;

use crate::config::Config;
use crate::table::{lookup, Table};
use crate::text::copy_str;

verus! {

/// The value configured for `shorthand`, or the shorthand itself.
pub open spec fn resolved(table: Seq<(Seq<char>, String)>, shorthand: Seq<char>) -> Seq<char> {
    match lookup(table, shorthand) {
        Some(v) => v@,
        None => shorthand,
    }
}

fn resolve_in(table: &Table<String>, shorthand: &str) -> (r: String)
    ensures
        r@ == resolved(table@, shorthand@),
{
    match table.get(shorthand) {
        Some(v) => v.clone(),
        None => copy_str(shorthand),
    }
}

/// The ZIM file name configured for `shorthand`; an unknown shorthand is
/// passed through as it is.
pub fn resolve_zim(config: &Config, shorthand: &str) -> (r: String)
    ensures
        r@ == resolved(config.kiwix@, shorthand@),
{
    resolve_in(&config.kiwix, shorthand)
}

/// The SLOB file name configured for `shorthand`; an unknown shorthand is
/// passed through as it is.
pub fn resolve_slob(config: &Config, shorthand: &str) -> (r: String)
    ensures
        r@ == resolved(config.aard2@, shorthand@),
{
    resolve_in(&config.aard2, shorthand)
}

/// The configured fallback chains.
pub fn get_fallbacks(config: &Config) -> (r: &Table<Vec<String>>)
    ensures
        r == &config.fallback,
{
    &config.fallback
}

} // verus!
