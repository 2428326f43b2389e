//! The proxy's configuration and the durations it derives from it.

use std::time::Duration;

use vstd::prelude::*;
use vstd::string::*;

verus! {

/// The duration `Duration::from_secs` makes of a number of whole seconds.
pub uninterp spec fn duration_of_secs(secs: u64) -> Duration;

/// `std::time::Duration::from_secs`: the duration of `secs` whole seconds
/// (its value is named by `duration_of_secs`, which depends on `secs` alone).
#[verifier::external_body]
fn duration_from_secs(secs: u64) -> (d: Duration)
    ensures
        d == duration_of_secs(secs),
{
    Duration::from_secs(secs)
}

/// The address the proxy listens on by default: `127.0.0.1:8080`.
pub open spec fn default_address() -> Seq<char> {
    seq!['1', '2', '7', '.', '0', '.', '0', '.', '1', ':', '8', '0', '8', '0']
}

/// Proxy server configuration.
#[derive(Clone, Debug)]
pub struct Config {
    /// Listening address.
    pub address: String,
    /// Connection timeout (seconds).
    pub timeout_seconds: u64,
    /// Maximum number of idle connections kept per host.
    pub max_idle_connections: usize,
    /// Idle connection timeout (seconds).
    pub idle_timeout_seconds: u64,
}

impl Config {
    /// The connection timeout: `timeout_seconds` whole seconds.
    pub fn timeout(&self) -> (d: Duration)
        ensures
            d == duration_of_secs(self.timeout_seconds),
    {
        duration_from_secs(self.timeout_seconds)
    }

    /// The idle connection timeout: `idle_timeout_seconds` whole seconds.
    pub fn idle_timeout(&self) -> (d: Duration)
        ensures
            d == duration_of_secs(self.idle_timeout_seconds),
    {
        duration_from_secs(self.idle_timeout_seconds)
    }
}

impl Default for Config {
    /// Listen on `127.0.0.1:8080`, time out connections after 10 s, keep up
    /// to 100 idle connections per host and drop them after 90 s.
    fn default() -> (c: Self)
        ensures
            c.address@ == default_address(),
            c.timeout_seconds == 10,
            c.max_idle_connections == 100,
            c.idle_timeout_seconds == 90,
    {
        proof {
            reveal_strlit("127.0.0.1:8080");
        }
        Config {
            address: String::from_str("127.0.0.1:8080"),
            timeout_seconds: 10,
            max_idle_connections: 100,
            idle_timeout_seconds: 90,
        }
    }
}

} // verus!
