//! The options of a cache.

use vstd::prelude::*;

use crate::heuristic::Fraction;
use crate::time;
use crate::time::{Duration, SystemTime};

verus! {

/// Holds configuration options which control the behavior of the cache and
/// are independent of any specific request or response.
#[derive(Debug, Copy, Clone)]
pub struct CachePolicyOptions {
    /// If `shared` is `true` (default), then the response is evaluated from a
    /// perspective of a shared cache (i.e. `private` is not cacheable and
    /// `s-maxage` is respected). If `shared` is `false`, then the response is
    /// evaluated from a perspective of a single-user cache (i.e. `private` is
    /// cacheable and `s-maxage` is ignored). `shared: true` is recommended
    /// for HTTP clients.
    pub shared: bool,
    /// `cache_heuristic` is a fraction of response's age that is used as a
    /// fallback cache duration. The default is 0.1 (10%), e.g. if a file
    /// hasn't been modified for 100 days, it'll be cached for 100*0.1 = 10
    /// days.
    pub cache_heuristic: Fraction,
    /// `immutable_min_time_to_live` is a duration to take as the
    /// default time to cache responses with `Cache-Control: immutable`. Note
    /// that per RFC these can become stale, so `max-age` still overrides the
    /// default.
    pub immutable_min_time_to_live: Duration,
    /// If `ignore_cargo_cult` is `true`, common anti-cache directives will be
    /// completely ignored if the non-standard `pre-check` and `post-check`
    /// directives are present. These two useless directives are most commonly
    /// found in bad StackOverflow answers and PHP's "session limiter"
    /// defaults.
    pub ignore_cargo_cult: bool,
    /// If `trust_server_date` is `false`, then server's `Date` header won't
    /// be used as the base for `max-age`. This is against the RFC, but it's
    /// useful if you want to cache responses with very short `max-age`, but
    /// your local clock is not exactly in sync with the server's.
    pub trust_server_date: bool,
    /// When the response has been received.
    pub response_time: SystemTime,
}

impl CachePolicyOptions {
    /// The default options for a response that was received at `response_time`.
    pub open spec fn is_default_at(self, response_time: SystemTime) -> bool {
        &&& self.shared
        &&& self.cache_heuristic == (Fraction { bits: 0x3DCC_CCCD })
        &&& self.immutable_min_time_to_live@ == time::seconds(86_400)
        &&& !self.ignore_cargo_cult
        &&& self.trust_server_date
        &&& self.response_time == response_time
    }

    /// The default options for a response that was received at `response_time`.
    pub fn received_at(response_time: SystemTime) -> (r: CachePolicyOptions)
        ensures
            r.is_default_at(response_time),
    {
        CachePolicyOptions {
            shared: true,
            cache_heuristic: Fraction { bits: 0x3DCC_CCCD },
            immutable_min_time_to_live: Duration::from_secs(86_400),
            ignore_cargo_cult: false,
            trust_server_date: true,
            response_time,
        }
    }
}

impl Default for CachePolicyOptions {
    /// The default options for a response that is received now.
    fn default() -> (r: CachePolicyOptions)
        ensures
            r.is_default_at(r.response_time),
    {
        CachePolicyOptions::received_at(SystemTime::now())
    }
}

} // verus!
