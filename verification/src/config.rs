//! The settings that the lookup logic reads from the configuration file.
use vstd::prelude::*;

use crate::error::Error;
use crate::table::Table;

verus! {

/// Filesystem locations used by the daemon and the command line.
#[derive(Debug)]
pub struct Paths {
    /// Unix socket of the running daemon.
    pub socket: String,
    /// File holding the daemon's lookup state.
    pub state: String,
    /// Lock file that serialises access to the state file.
    pub lock: String,
    /// File holding the daemon's process id.
    pub pid: String,
    /// Directory that rendered lookups are written to.
    pub output: String,
}

/// Where the web interface listens.
#[derive(Debug)]
pub struct WebUi {
    pub port: u16,
    pub host: String,
}

/// Backend service endpoints.
#[derive(Debug)]
pub struct Servers {
    /// `host:port` of the dictionary program's devtools endpoint.
    pub gd_cdp: String,
    /// Base URL of kiwix-serve.
    pub kiwix: String,
    /// Base URL of aard2-web.
    pub aard2: String,
}

/// Dictionary program settings.
#[derive(Debug)]
pub struct GdConfig {
    /// Executable name or path.
    pub binary: String,
    /// The program's XML configuration, which names its groups.
    pub config_path: String,
    /// Seconds to wait for the devtools endpoint.
    pub cdp_timeout: u64,
    /// Window class used to focus the program's window.
    pub window_app_id: String,
}

/// MediaWiki sites by key.
#[derive(Debug)]
pub struct MediawikiConfig {
    /// Base URL (the directory of `api.php`) of each site.
    pub sites: Table<String>,
}

/// The configuration as the lookup logic reads it.
#[derive(Debug)]
pub struct Config {
    pub paths: Paths,
    pub servers: Servers,
    pub webui: WebUi,
    pub gd: GdConfig,
    /// Longest clipboard text, in characters, that is looked up.
    pub max_query_len: usize,
    /// Chain of dictionary groups for each script key.
    pub fallback: Table<Vec<String>>,
    /// ZIM file names by shorthand.
    pub kiwix: Table<String>,
    /// SLOB file names by shorthand.
    pub aard2: Table<String>,
    pub mediawiki: MediawikiConfig,
}

/// The window class used when the configuration names none.
pub fn default_window_app_id() -> (r: String)
    ensures
        r@ == "goldendict"@,
{
    "goldendict".to_owned()
}

/// The outcome of checking the configured intervals, in the order in which
/// they are checked: the poll interval must be positive, then the devtools
/// timeout must be non-zero.
pub open spec fn settings_check(poll_interval_positive: bool, cdp_timeout: u64) -> Option<
    Seq<char>,
> {
    if !poll_interval_positive {
        Some("daemon.poll_interval must be > 0"@)
    } else if cdp_timeout == 0 {
        Some("gd.cdp_timeout must be > 0"@)
    } else {
        None
    }
}

/// Checks the configured intervals; `poll_interval_positive` tells whether
/// the poll interval is greater than zero.
pub fn validate_settings(poll_interval_positive: bool, cdp_timeout: u64) -> (r: Result<(), Error>)
    ensures
        r is Ok <==> settings_check(poll_interval_positive, cdp_timeout) is None,
        r matches Err(Error::Config(m)) ==> Some(m@) == settings_check(
            poll_interval_positive,
            cdp_timeout,
        ),
        r matches Err(e) ==> e is Config,
{
    if !poll_interval_positive {
        return Err(Error::Config("daemon.poll_interval must be > 0".to_owned()));
    }
    if cdp_timeout == 0 {
        return Err(Error::Config("gd.cdp_timeout must be > 0".to_owned()));
    }
    Ok(())
}

} // verus!
