//! What the server is configured with.

use vstd::prelude::*;

verus! {

/// Where a Redis server is reached. It is read for the sake of existing configuration files
/// and not used.
#[derive(Debug)]
pub struct RedisConfig {
    pub host: String,
    pub port: u16,
    pub db: u16,
}

/// The configuration of the server.
#[derive(Debug)]
pub struct Config {
    pub redis: RedisConfig,
    /// What every route begins with; slashes around it do not matter.
    pub url_prefix: String,
    pub host: String,
    pub port: u16,
}

/// The log filter for a number of verbosity flags.
pub open spec fn filter_of(verbose: u8) -> Seq<char> {
    if verbose <= 1 {
        "info"@
    } else if verbose == 2 {
        "debug"@
    } else {
        "trace"@
    }
}

/// One flag says no more than none; a second one asks for details, and every further one for all
/// there is.
pub proof fn each_flag_says_more(verbose: u8)
    ensures
        filter_of(0) == "info"@ && filter_of(1) == filter_of(0),
        filter_of(2) == "debug"@,
        verbose > 2 ==> filter_of(verbose) == "trace"@,
{
}

/// The log filter for a number of verbosity flags.
pub fn default_log_filter(verbose: u8) -> (filter: &'static str)
    ensures
        filter@ == filter_of(verbose),
{
    match verbose {
        0 | 1 => "info",
        2 => "debug",
        _ => "trace",
    }
}

} // verus!
