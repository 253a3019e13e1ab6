//! Configuration values for the chain connections. The connections themselves
//! (transports, signing, reconnection) belong to the chain client and are
//! driven outside this library.

use vstd::prelude::*;

verus! {

/// Configuration of the streaming pubsub connection: endpoint, and the retry
/// policy the transport applies when reconnecting.
#[derive(Debug, Clone, PartialEq, Eq)]
pub struct PubSubProviderConfig {
    /// The streaming endpoint to connect to.
    pub url: String,
    /// How many reconnect attempts the transport may make.
    pub max_retries: u32,
    /// Seconds to wait between reconnect attempts.
    pub retry_interval_secs: u64,
}

impl PubSubProviderConfig {
    /// A config for `url` with the default retry policy: 12 attempts, 5
    /// seconds apart.
    pub fn new(url: String) -> (r: PubSubProviderConfig)
        ensures
            r.url@ == url@,
            r.max_retries == 12,
            r.retry_interval_secs == 5,
    {
        PubSubProviderConfig { url, max_retries: 12, retry_interval_secs: 5 }
    }
}

} // verus!
