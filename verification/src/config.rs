//! What the loader is set up with.

use vstd::prelude::*;

verus! {

/// The settings of the loader.
#[derive(Clone, Copy, Debug, PartialEq, Eq)]
pub struct Config {
    pub app_name: &'static str,
    pub api_url: &'static str,
    pub poll_interval_ms: u64,
    pub user_agent: &'static str,
}

impl Default for Config {
    /// The settings for the feed of the spotter network, polled once a minute.
    fn default() -> (config: Config)
        ensures
            config.app_name@ == "sn_loader"@,
            config.api_url@ == "http://www.spotternetwork.org/feeds/reports.txt"@,
            config.poll_interval_ms == 60_000,
            config.user_agent@ == "sigtor.org"@,
    {
        Config {
            app_name: "sn_loader",
            api_url: "http://www.spotternetwork.org/feeds/reports.txt",
            poll_interval_ms: 60_000,
            user_agent: "sigtor.org",
        }
    }
}

} // verus!
