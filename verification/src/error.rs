//! Errors that the library's own logic reports.
use vstd::prelude::*;

verus! {

/// An error of the lookup logic.
#[derive(Debug)]
pub enum Error {
    /// The configuration is invalid or names an unknown entry.
    Config(String),
    /// The dictionary program's devtools session answered unexpectedly.
    Cdp(String),
    /// Any other failure.
    Other(String),
}

} // verus!
