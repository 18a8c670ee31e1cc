//! A distributed rate limiter over a shared atomic counter store: fixed
//! window, sliding window and token bucket strategies, the duration parser
//! they are configured with, and a local cache that answers already-observed
//! denials without a remote round trip.

pub mod ratelimit;
