use vstd::prelude::*;

pub mod cache;
pub mod common;
pub mod duration;
pub mod single;
pub mod store;

use crate::ratelimit::cache::EphemeralCache;
use crate::ratelimit::common::RatelimitResponse;

verus! {

/// A rate-limiting strategy: one instance owns its configuration and decides,
/// per identifier, whether a request is admitted.
///
/// Every decision leaves at most `capacity()` units remaining, reports the
/// configured capacity as its limit, and reports 0 remaining on a denial.
/// The instance itself changes only by recording a freshly observed denial in
/// its local cache: on success it is left untouched.
pub trait Algorithm: Sized {
    /// The configured capacity of the window or bucket.
    spec fn capacity(&self) -> u32;

    /// The instance is fit for use.
    spec fn wf(&self) -> bool;

    /// The mapping the instance's local cache holds, when one is enabled.
    spec fn cache_map(&self) -> Option<Map<Seq<char>, u128>>;

    /// Decides whether the request of the given weight (1 when `rate` is
    /// None) is admitted for `identifier`, charging it against the shared
    /// store.  The instance changes only by recording a denial it has just
    /// observed in its local cache.
    fn limit(&mut self, identifier: &str, rate: Option<u32>) -> (r: RatelimitResponse)
        requires
            old(self).wf(),
        ensures
            final(self).wf(),
            final(self).capacity() == old(self).capacity(),
            r.limit == old(self).capacity(),
            r.remaining <= r.limit,
            !r.success ==> r.remaining == 0,
            r.success ==> final(self).cache_map() == old(self).cache_map(),
            (match (old(self).cache_map(), final(self).cache_map()) {
                (Some(before), Some(after)) => after == before || (!r.success && after
                    == before.insert(identifier@, r.reset)),
                (None, None) => true,
                _ => false,
            }),
    ;
}

/// The immutable bundle every algorithm instance owns: a handle to the
/// remote counter store, an optional local cache of identifiers known to be
/// blocked, and the prefix under which all remote keys are namespaced.
#[derive(Debug, Clone)]
pub struct RatelimitConfiguration {
    pub redis: redis::Client,
    pub cache: Option<EphemeralCache>,
    pub prefix: String,
}

impl RatelimitConfiguration {
    /// The local cache, when present, holds one entry per identifier.
    pub open spec fn wf(self) -> bool {
        match self.cache {
            Some(c) => c.wf(),
            None => true,
        }
    }

    /// The mapping the local cache holds, when one is enabled.
    pub open spec fn cache_map(self) -> Option<Map<Seq<char>, u128>> {
        match self.cache {
            Some(c) => Some(c@),
            None => None::<Map<Seq<char>, u128>>,
        }
    }

    /// Bundles a store handle with an empty local cache (present exactly
    /// when `allow_cache` holds) and the key prefix, which defaults to the
    /// library's own namespace.
    pub fn new(redis: redis::Client, allow_cache: bool, prefix_str: Option<String>) -> (r:
        RatelimitConfiguration)
        ensures
            r.wf(),
            r.redis == redis,
            r.cache is Some <==> allow_cache,
            allow_cache ==> r.cache_map() == Some(Map::<Seq<char>, u128>::empty()),
            match prefix_str {
                Some(p) => r.prefix@ == p@,
                None => r.prefix@ == "@upstash/ratelimit"@,
            },
    {
        let cache: Option<EphemeralCache> = if allow_cache {
            Some(EphemeralCache::new())
        } else {
            None
        };
        let prefix: String = match prefix_str {
            Some(p) => p,
            None => "@upstash/ratelimit".to_owned(),
        };
        RatelimitConfiguration { redis, cache, prefix }
    }
}

} // verus!
