//! The runtime configuration the surrounding program hands the library:
//! defaults, and the rule that narrows a requested log level to one of
//! the recognized ones.

use vstd::prelude::*;
use vstd::string::*;
use crate::text::str_eq;

verus! {

/// Runtime configuration, read once per polling cycle.
#[derive(Debug, Clone, PartialEq)]
pub struct Configuration {
    /// Port of the web front end.
    pub port: u16,
    /// Update interval of the status poller, in seconds.
    pub interval: u64,
    /// In test mode the poller builds every snapshot from fixture data
    /// and never invokes the external commands.
    pub test_mode: bool,
    /// Requested log level: `error`, `info` or `debug`.
    pub log_level: String,
}

impl Default for Configuration {
    /// The defaults used where no argument overrides them.
    fn default() -> (c: Configuration)
        ensures
            c.port == 4545,
            c.interval == 60,
            !c.test_mode,
            c.log_level@ == ("info")@,
    {
        Configuration {
            port: 4545,
            interval: 60,
            test_mode: false,
            log_level: String::from_str("info"),
        }
    }
}

/// A requested log level narrowed to the recognized ones: `error`,
/// `info` and `debug` stand; anything else falls back to `info`.
pub open spec fn spec_log_level_of(s: Seq<char>) -> Seq<char> {
    if s == ("error")@ || s == ("info")@ || s == ("debug")@ {
        s
    } else {
        ("info")@
    }
}

pub fn normalize_log_level(requested: &str) -> (r: String)
    ensures
        r@ == spec_log_level_of(requested@),
{
    if str_eq(requested, "error") || str_eq(requested, "info") || str_eq(requested, "debug") {
        requested.to_owned()
    } else {
        String::from_str("info")
    }
}

} // verus!
