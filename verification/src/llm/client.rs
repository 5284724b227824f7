//! Connection settings for a local llama-server.
use vstd::prelude::*;
use std::time::Duration;
use crate::text::{concat2, string_of};

verus! {

/// What `Duration::from_secs` returns for a count of whole seconds.
pub uninterp spec fn duration_from_secs(secs: u64) -> Duration;

/// Calls `Duration::from_secs`; its result is named by `duration_from_secs`
/// of the count.
#[verifier::external_body]
pub(crate) fn seconds(secs: u64) -> (d: Duration)
    ensures
        d == duration_from_secs(secs),
{
    Duration::from_secs(secs)
}

/// `Duration`'s `clone`: a `Duration` is `Copy`, so the clone is the same
/// duration.
pub assume_specification[ <Duration as Clone>::clone ](d: &Duration) -> (r: Duration)
    ensures
        r == *d,
;

/// How long a request may take unless configured otherwise, in seconds.
pub const DEFAULT_TIMEOUT_SECS: u64 = 60;

/// Where the local llama-server listens unless configured otherwise.
pub const DEFAULT_BASE_URL: &'static str = "http://127.0.0.1:8080";

/// The server's base URL and the request timeout.
#[derive(Debug, Clone)]
pub struct ClientConfig {
    pub base_url: String,
    pub timeout: Duration,
}

impl Default for ClientConfig {
    /// The local server with the default timeout.
    fn default() -> (c: ClientConfig)
        ensures
            c.base_url@ == DEFAULT_BASE_URL@,
            c.timeout == duration_from_secs(DEFAULT_TIMEOUT_SECS),
    {
        ClientConfig { base_url: string_of(DEFAULT_BASE_URL), timeout: seconds(DEFAULT_TIMEOUT_SECS) }
    }
}

impl ClientConfig {
    /// A server at `base_url` with the default timeout.
    pub fn new(base_url: &str) -> (c: ClientConfig)
        ensures
            c.base_url@ == base_url@,
            c.timeout == duration_from_secs(DEFAULT_TIMEOUT_SECS),
    {
        ClientConfig { base_url: string_of(base_url), timeout: seconds(DEFAULT_TIMEOUT_SECS) }
    }

    /// The same server with another timeout.
    pub fn with_timeout(self, timeout: Duration) -> (c: ClientConfig)
        ensures
            c.base_url@ == self.base_url@,
            c.timeout == timeout,
    {
        ClientConfig { base_url: self.base_url, timeout }
    }

    /// The completions endpoint.
    pub fn completions_url(&self) -> (u: String)
        ensures
            u@ == self.base_url@ + "/v1/completions"@,
    {
        concat2(self.base_url.as_str(), "/v1/completions")
    }

    /// The chat completions endpoint.
    pub fn chat_url(&self) -> (u: String)
        ensures
            u@ == self.base_url@ + "/v1/chat/completions"@,
    {
        concat2(self.base_url.as_str(), "/v1/chat/completions")
    }

    /// The health endpoint.
    pub fn health_url(&self) -> (u: String)
        ensures
            u@ == self.base_url@ + "/health"@,
    {
        concat2(self.base_url.as_str(), "/health")
    }
}

} // verus!
