//! Agent configuration, loaded once at startup.

use vstd::prelude::*;

verus! {

/// The poll interval used when the configuration names none.
pub const DEFAULT_INTERVAL_SECS: u64 = 300;

/// The agent's configuration: provider credential and zone, the hostnames
/// that should resolve to the caller's address, an optional poll interval in
/// seconds, and an optional crash-reporting endpoint.
#[derive(Debug, Clone)]
pub struct Config {
    pub api_token: String,
    pub backtrace: Option<BacktraceConfig>,
    pub domains: Vec<String>,
    pub interval: Option<i64>,
    pub zone_id: String,
}

/// Endpoint and credential of the optional crash-reporting collaborator.
#[derive(Debug, Clone)]
pub struct BacktraceConfig {
    pub token: String,
    pub url: String,
}

/// The number of seconds one cycle sleeps for a given configured interval:
/// the configured value reinterpreted as unsigned, or the default when the
/// configuration names none.
pub open spec fn spec_interval_secs(interval: Option<i64>) -> u64 {
    match interval {
        Some(i) => i as u64,
        None => DEFAULT_INTERVAL_SECS,
    }
}

impl Config {
    /// The poll interval in seconds, defaulting when unconfigured.
    pub fn interval_secs(&self) -> (r: u64)
        ensures
            r == spec_interval_secs(self.interval),
    {
        match self.interval {
            Some(i) => i as u64,
            None => DEFAULT_INTERVAL_SECS,
        }
    }
}

} // verus!
