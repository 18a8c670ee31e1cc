use vstd::prelude::*;

verus! {

/// The ways a rate limiter can fail.
///
/// `Configuration` is fatal and synchronous: a malformed window or interval
/// string rejected while building an algorithm instance.  `Remote` marks a
/// failed round trip to the shared counter store; callers of `limit` never see
/// it directly, since the algorithms translate it into a fail-closed denial.
/// `Clock` marks an unreadable system clock and is handled the same way.
#[derive(Debug, Clone, Copy, PartialEq, Eq, Structural)]
pub enum RatelimitError {
    Configuration,
    Remote,
    Clock,
}

/// The outcome of one rate-limit decision.
///
/// `success` says whether the request was admitted, `limit` is the configured
/// capacity, `remaining` the units still available in the current window or
/// bucket (0 when denied), and `reset` the epoch-millisecond time at which the
/// constraint next resets (0 when it was not computed, as on short-circuit and
/// error paths).
#[derive(Debug, Clone, PartialEq, Eq, Structural)]
pub struct RatelimitResponse {
    pub success: bool,
    pub limit: u32,
    pub remaining: u32,
    pub reset: u128,
}

impl RatelimitResponse {
    /// Every well-formed response leaves at most `limit` units remaining.
    pub open spec fn wf(self) -> bool {
        self.remaining <= self.limit
    }

    /// The fail-closed denial: used when the store cannot be consulted or the
    /// local cache already knows the identifier to be blocked.
    pub fn denied(limit: u32) -> (r: RatelimitResponse)
        ensures
            r == (RatelimitResponse { success: false, limit, remaining: 0, reset: 0 }),
            r.wf(),
    {
        RatelimitResponse { success: false, limit, remaining: 0, reset: 0 }
    }
}

} // verus!
