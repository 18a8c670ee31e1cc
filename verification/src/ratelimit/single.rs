use vstd::prelude::*;

use crate::ratelimit::cache::blocked_of;
use crate::ratelimit::common::{RatelimitError, RatelimitResponse};
use crate::ratelimit::duration::{duration_ms_val, into_milliseconds, is_valid_duration};
use crate::ratelimit::store::{
    connect, now_millis, run_fixed_window_script, run_sliding_window_script,
    run_token_bucket_script,
};
use crate::ratelimit::{Algorithm, RatelimitConfiguration};

verus! {

// ---------------------------------------------------------------------------
// Rendering window numbers for remote keys.
// ---------------------------------------------------------------------------
/// The digit character for one decimal digit value.
pub open spec fn digit_to_char(d: int) -> char {
    if d == 0 {
        '0'
    } else if d == 1 {
        '1'
    } else if d == 2 {
        '2'
    } else if d == 3 {
        '3'
    } else if d == 4 {
        '4'
    } else if d == 5 {
        '5'
    } else if d == 6 {
        '6'
    } else if d == 7 {
        '7'
    } else if d == 8 {
        '8'
    } else {
        '9'
    }
}

/// The decimal rendering of a non-negative number, most significant digit
/// first.
pub open spec fn decimal_digits(n: int) -> Seq<char>
    decreases n,
{
    if n <= 9 {
        seq![digit_to_char(n)]
    } else {
        decimal_digits(n / 10).push(digit_to_char(n % 10))
    }
}

fn digit_str(d: u128) -> (r: &'static str)
    requires
        d <= 9,
    ensures
        r@ =~= seq![digit_to_char(d as int)],
{
    proof {
        reveal_strlit("0");
        reveal_strlit("1");
        reveal_strlit("2");
        reveal_strlit("3");
        reveal_strlit("4");
        reveal_strlit("5");
        reveal_strlit("6");
        reveal_strlit("7");
        reveal_strlit("8");
        reveal_strlit("9");
    }
    if d == 0 {
        "0"
    } else if d == 1 {
        "1"
    } else if d == 2 {
        "2"
    } else if d == 3 {
        "3"
    } else if d == 4 {
        "4"
    } else if d == 5 {
        "5"
    } else if d == 6 {
        "6"
    } else if d == 7 {
        "7"
    } else if d == 8 {
        "8"
    } else {
        "9"
    }
}

fn push_decimal(out: &mut String, n: u128)
    ensures
        final(out)@ == old(out)@ + decimal_digits(n as int),
    decreases n,
{
    if n <= 9 {
        out.append(digit_str(n));
    } else {
        push_decimal(out, n / 10);
        out.append(digit_str(n % 10));
    }
}

// ---------------------------------------------------------------------------
// Remote key construction.
// ---------------------------------------------------------------------------
/// The remote key for state that is not split into windows:
/// `{prefix}:{identifier}`.
pub open spec fn spec_bucket_key(prefix: Seq<char>, id: Seq<char>) -> Seq<char> {
    prefix + seq![':'] + id
}

/// The remote key for one window of one identifier:
/// `{prefix}:{identifier}:{window}`.
pub open spec fn spec_window_key(prefix: Seq<char>, id: Seq<char>, window: int) -> Seq<char> {
    prefix + seq![':'] + id + seq![':'] + decimal_digits(window)
}

fn make_bucket_key(prefix: &String, identifier: &str) -> (r: String)
    ensures
        r@ == spec_bucket_key(prefix@, identifier@),
{
    proof {
        reveal_strlit(":");
    }
    let mut out: String = prefix.clone();
    out.append(":");
    out.append(identifier);
    proof {
        assert(":"@ =~= seq![':']);
        assert(out@ =~= spec_bucket_key(prefix@, identifier@));
    }
    out
}

fn make_window_key(prefix: &String, identifier: &str, window: u128) -> (r: String)
    ensures
        r@ == spec_window_key(prefix@, identifier@, window as int),
{
    proof {
        reveal_strlit(":");
    }
    let mut out: String = make_bucket_key(prefix, identifier);
    out.append(":");
    push_decimal(&mut out, window);
    proof {
        assert(":"@ =~= seq![':']);
        assert(out@ =~= spec_window_key(prefix@, identifier@, window as int));
    }
    out
}

// ---------------------------------------------------------------------------
// Interpreting what the store's scripts hand back.
// ---------------------------------------------------------------------------
/// When the window numbered `window` of length `duration` milliseconds ends:
/// the start of the next window, held at the largest representable instant
/// when the product leaves the type.
pub open spec fn spec_reset(window: int, duration: int) -> u128 {
    if (window + 1) * duration > u128::MAX {
        u128::MAX
    } else {
        ((window + 1) * duration) as u128
    }
}

fn reset_of(window: u128, duration: u128) -> (r: u128)
    requires
        1 <= duration,
    ensures
        r == spec_reset(window as int, duration as int),
{
    match window.checked_add(1) {
        Some(next) => match next.checked_mul(duration) {
            Some(v) => v,
            None => u128::MAX,
        },
        None => {
            proof {
                assert((window as int + 1) * duration > u128::MAX) by (nonlinear_arith)
                    requires
                        window as int == u128::MAX,
                        duration >= 1,
                ;
            }
            u128::MAX
        },
    }
}

/// Reset monotonicity law: a later instant falls in the same or a later
/// window, so the reset a window-based response reports never decreases as
/// time moves forward.
pub proof fn lemma_reset_monotonic(now1: int, now2: int, duration: int)
    requires
        1 <= duration,
        0 <= now1 <= now2,
    ensures
        spec_reset(now1 / duration, duration) <= spec_reset(now2 / duration, duration),
{
    vstd::arithmetic::div_mod::lemma_div_is_ordered(now1, now2, duration);
    vstd::arithmetic::mul::lemma_mul_inequality(now1 / duration + 1, now2 / duration + 1, duration);
}

/// The response the fixed-window algorithm builds from the post-increment
/// total `used` the store's script reports: admitted while the total is
/// within the limit, with `limit - used` units left (kept within
/// `0 ..= limit` whatever the store reports), resetting when the current
/// window ends.
pub open spec fn spec_fixed_window_response(
    limit: u32,
    used: i64,
    window: int,
    duration: int,
) -> RatelimitResponse {
    RatelimitResponse {
        success: used <= limit,
        limit,
        remaining: if used < 0 {
            limit
        } else if used > limit {
            0u32
        } else {
            (limit - used) as u32
        },
        reset: spec_reset(window, duration),
    }
}

/// Builds the fixed-window response for one script result.
pub fn fixed_window_response(limit: u32, used: i64, window: u128, duration: u128) -> (r:
    RatelimitResponse)
    requires
        1 <= duration,
    ensures
        r == spec_fixed_window_response(limit, used, window as int, duration as int),
        r.wf(),
{
    let reset: u128 = reset_of(window, duration);
    let success: bool = used <= limit as i64;
    let remaining: u32 = if used < 0 {
        limit
    } else if used > limit as i64 {
        0
    } else {
        limit - (used as u32)
    };
    RatelimitResponse { success, limit, remaining, reset }
}

/// The response the sliding-window algorithm builds from the signed count of
/// tokens the store's script reports as still available: admitted while that
/// count is not negative, with the count itself left (kept within
/// `0 ..= limit` whatever the store reports), resetting when the current
/// window ends.
pub open spec fn spec_sliding_window_response(
    limit: u32,
    remaining_tokens: i64,
    window: int,
    duration: int,
) -> RatelimitResponse {
    RatelimitResponse {
        success: remaining_tokens >= 0,
        limit,
        remaining: if remaining_tokens < 0 {
            0u32
        } else if remaining_tokens > limit {
            limit
        } else {
            remaining_tokens as u32
        },
        reset: spec_reset(window, duration),
    }
}

/// Builds the sliding-window response for one script result.
pub fn sliding_window_response(limit: u32, remaining_tokens: i64, window: u128, duration: u128) -> (
    r: RatelimitResponse)
    requires
        1 <= duration,
    ensures
        r == spec_sliding_window_response(limit, remaining_tokens, window as int, duration as int),
        r.wf(),
{
    let reset: u128 = reset_of(window, duration);
    let success: bool = remaining_tokens >= 0;
    let remaining: u32 = if remaining_tokens < 0 {
        0
    } else if remaining_tokens > limit as i64 {
        limit
    } else {
        remaining_tokens as u32
    };
    RatelimitResponse { success, limit, remaining, reset }
}

/// The response the token-bucket algorithm builds from the pair the store's
/// script reports: the post-refill balance (0 when the requested weight was
/// not available) and the instant the next refill interval starts.  Admitted
/// while the balance is positive; the balance is the count remaining (kept
/// within `0 ..= limit` whatever the store reports), and the reported
/// instant is the reset (0 when the store reports a negative one).
pub open spec fn spec_token_bucket_response(
    limit: u32,
    remaining_tokens: i64,
    reset_ms: i64,
) -> RatelimitResponse {
    RatelimitResponse {
        success: remaining_tokens > 0,
        limit,
        remaining: if remaining_tokens < 0 {
            0u32
        } else if remaining_tokens > limit {
            limit
        } else {
            remaining_tokens as u32
        },
        reset: if reset_ms < 0 {
            0u128
        } else {
            reset_ms as u128
        },
    }
}

/// Builds the token-bucket response for one script result.
pub fn token_bucket_response(limit: u32, remaining_tokens: i64, reset_ms: i64) -> (r:
    RatelimitResponse)
    ensures
        r == spec_token_bucket_response(limit, remaining_tokens, reset_ms),
        r.wf(),
{
    let success: bool = remaining_tokens > 0;
    let remaining: u32 = if remaining_tokens < 0 {
        0
    } else if remaining_tokens > limit as i64 {
        limit
    } else {
        remaining_tokens as u32
    };
    let reset: u128 = if reset_ms < 0 {
        0
    } else {
        reset_ms as u128
    };
    RatelimitResponse { success, limit, remaining, reset }
}

// ---------------------------------------------------------------------------
// The arithmetic the store's scripts perform, stated and checked here.
// ---------------------------------------------------------------------------
/// The count a sliding window weighs at a moment `elapsed` milliseconds into
/// the current window: everything used in the current window plus the
/// previous window's count scaled by the fraction of the previous window
/// still covered, rounded down.
pub open spec fn spec_interpolated_count(
    previous: int,
    current: int,
    elapsed: int,
    duration: int,
) -> int {
    current + previous * (duration - elapsed) / duration
}

/// Computes the weighted sliding-window count.
pub fn interpolated_count(previous: u64, current: u64, elapsed: u64, duration: u64) -> (r: u128)
    requires
        1 <= duration,
        elapsed < duration,
    ensures
        r == spec_interpolated_count(
            previous as int,
            current as int,
            elapsed as int,
            duration as int,
        ),
        r <= current + previous,
{
    let rest: u64 = duration - elapsed;
    proof {
        assert(previous as int * rest as int <= 0xffff_ffff_ffff_ffff * 0xffff_ffff_ffff_ffff)
            by (nonlinear_arith)
            requires
                previous as int <= 0xffff_ffff_ffff_ffff,
                rest as int <= 0xffff_ffff_ffff_ffff,
                0 <= previous as int,
                0 <= rest as int,
        ;
        vstd::arithmetic::mul::lemma_mul_inequality(rest as int, duration as int, previous as int);
        vstd::arithmetic::div_mod::lemma_div_is_ordered(
            rest as int * previous as int,
            duration as int * previous as int,
            duration as int,
        );
        vstd::arithmetic::div_mod::lemma_div_multiples_vanish(previous as int, duration as int);
    }
    let weighted: u128 = (previous as u128) * (rest as u128) / (duration as u128);
    (current as u128) + weighted
}

/// Sliding-window boundary law: at the very start of a window the previous
/// window is still fully covered, so a call that finds nothing yet used in
/// the current window weighs the previous window's whole count plus its own
/// weight, and a previous count at or above the limit forces a denial.
pub proof fn lemma_sliding_window_boundary(
    limit: u32,
    previous: int,
    weight: int,
    remaining_tokens: i64,
    window: int,
    duration: int,
)
    requires
        1 <= duration,
        0 <= previous,
        1 <= weight,
        remaining_tokens == limit - spec_interpolated_count(previous, weight, 0, duration),
    ensures
        spec_interpolated_count(previous, weight, 0, duration) == previous + weight,
        previous >= limit ==> !spec_sliding_window_response(
            limit,
            remaining_tokens,
            window,
            duration,
        ).success,
{
    vstd::arithmetic::div_mod::lemma_div_multiples_vanish(previous, duration);
    assert(previous * duration == duration * previous);
    assert(previous * (duration - 0) / duration == previous);
}

/// The balance the token-bucket script sees after refilling: one
/// `refill_rate` of tokens for every interval that elapsed since the bucket
/// was last touched, never beyond `capacity`.
pub open spec fn spec_refill(
    balance: int,
    last_index: int,
    index: int,
    capacity: int,
    refill_rate: int,
) -> int {
    if index > last_index {
        if balance + (index - last_index) * refill_rate > capacity {
            capacity
        } else {
            balance + (index - last_index) * refill_rate
        }
    } else {
        balance
    }
}

/// One run of the token-bucket script over the stored balance: the pair of
/// the value the script reports (the post-refill balance, or 0 when fewer
/// than `weight` tokens are available) and the balance it stores back.
pub open spec fn spec_token_bucket_step(
    balance: int,
    last_index: int,
    index: int,
    capacity: int,
    refill_rate: int,
    weight: int,
) -> (int, int) {
    let available = spec_refill(balance, last_index, index, capacity, refill_rate);
    if available >= weight {
        (available, available - weight)
    } else {
        (0, available)
    }
}

/// Computes one run of the token-bucket script over the stored balance,
/// handing back the reported value and the balance to store.
pub fn token_bucket_step(
    balance: u32,
    last_index: u128,
    index: u128,
    capacity: u32,
    refill_rate: u32,
    weight: u32,
) -> (r: (u32, u32))
    requires
        balance <= capacity,
    ensures
        r.0 == spec_token_bucket_step(
            balance as int,
            last_index as int,
            index as int,
            capacity as int,
            refill_rate as int,
            weight as int,
        ).0,
        r.1 == spec_token_bucket_step(
            balance as int,
            last_index as int,
            index as int,
            capacity as int,
            refill_rate as int,
            weight as int,
        ).1,
        r.0 <= capacity,
        r.1 <= capacity,
{
    let available: u32 = if index > last_index {
        let gap: u128 = index - last_index;
        match gap.checked_mul(refill_rate as u128) {
            Some(added) => {
                let room: u32 = capacity - balance;
                if added >= room as u128 {
                    capacity
                } else {
                    balance + (added as u32)
                }
            },
            None => capacity,
        }
    } else {
        balance
    };
    if available >= weight {
        (available, available - weight)
    } else {
        (0, available)
    }
}

/// Token-bucket refill law: a refill rate at or above the capacity restores
/// the bucket to its full capacity after any whole elapsed interval,
/// whatever balance was left.
pub proof fn lemma_token_bucket_full_refill(
    balance: int,
    last_index: int,
    index: int,
    capacity: int,
    refill_rate: int,
)
    requires
        0 <= balance <= capacity,
        last_index < index,
        capacity <= refill_rate,
    ensures
        spec_refill(balance, last_index, index, capacity, refill_rate) == capacity,
{
    vstd::arithmetic::mul::lemma_mul_inequality(1, index - last_index, refill_rate);
}

/// Fixed-window admissions law: the store reports the post-increment total,
/// so with weight 1 the calls of one window observe totals 1, 2, 3, ...;
/// each of the first `limit` of them is admitted and the one after is
/// denied.
pub proof fn lemma_fixed_window_admission(limit: u32, used: i64, window: int, duration: int)
    ensures
        1 <= used <= limit ==> spec_fixed_window_response(limit, used, window, duration).success,
        used == limit + 1 ==> !spec_fixed_window_response(limit, used, window, duration).success,
{
}

/// Bounded-remainder law: every response any of the three algorithms builds
/// leaves at most `limit` units remaining, whatever the store reported.
pub proof fn lemma_remaining_within_limit(
    limit: u32,
    value: i64,
    reset_ms: i64,
    window: int,
    duration: int,
)
    ensures
        spec_fixed_window_response(limit, value, window, duration).remaining <= limit,
        spec_sliding_window_response(limit, value, window, duration).remaining <= limit,
        spec_token_bucket_response(limit, value, reset_ms).remaining <= limit,
{
}

// ---------------------------------------------------------------------------
// Fixed window.
// ---------------------------------------------------------------------------
/// Counts requests in consecutive windows of a fixed length: the window that
/// contains the instant `now` is numbered `now / duration`, each request
/// adds its weight to that window's counter in the shared store, and the
/// request is admitted while the counter stays within `tokens`.
#[derive(Debug, Clone)]
pub struct FixedWindow {
    pub client: RatelimitConfiguration,
    pub tokens: u32,
    pub duration: u128,
}

impl FixedWindow {
    /// The configuration's cache is sound and the window has some length.
    pub open spec fn wf_spec(self) -> bool {
        self.client.wf() && 1 <= self.duration
    }

    /// Builds a fixed window of `tokens` capacity over a window described by
    /// a duration string; rejects a string that names no positive duration.
    pub fn new(client: RatelimitConfiguration, tokens: u32, window: &str) -> (r: Result<
        FixedWindow,
        RatelimitError,
    >)
        requires
            client.wf(),
        ensures
            (match r {
                Ok(fw) => is_valid_duration(window@) && 1 <= duration_ms_val(window@) && fw
                    == (FixedWindow {
                    client,
                    tokens,
                    duration: duration_ms_val(window@) as u128,
                }) && fw.wf_spec(),
                Err(e) => e == RatelimitError::Configuration && !(is_valid_duration(window@) && 1
                    <= duration_ms_val(window@)),
            }),
    {
        match into_milliseconds(window) {
            Ok(ms) => if ms >= 1 {
                Ok(FixedWindow { client, tokens, duration: ms })
            } else {
                Err(RatelimitError::Configuration)
            },
            Err(e) => Err(e),
        }
    }

    /// Decides one request against the window that contains the instant
    /// `now_ms`: a live local block denies at once; otherwise the store's
    /// script charges the request and its total shapes the response, a
    /// fresh denial being recorded in the local cache; a failed round trip
    /// denies without touching the cache.
    pub fn limit_at(&mut self, identifier: &str, rate: Option<u32>, now_ms: u128) -> (r:
        RatelimitResponse)
        requires
            old(self).wf_spec(),
        ensures
            final(self).wf_spec(),
            final(self).tokens == old(self).tokens,
            final(self).duration == old(self).duration,
            final(self).client.prefix == old(self).client.prefix,
            final(self).client.redis == old(self).client.redis,
            r.limit == old(self).tokens,
            r.remaining <= r.limit,
            !r.success ==> r.remaining == 0,
            (match old(self).client.cache_map() {
                Some(m) => blocked_of(m, identifier@, now_ms).blocked,
                None => false,
            }) ==> r == (RatelimitResponse {
                success: false,
                limit: old(self).tokens,
                remaining: 0,
                reset: 0,
            }) && *final(self) == *old(self),
            r.success ==> *final(self) == *old(self),
            (match (old(self).client.cache_map(), final(self).client.cache_map()) {
                (Some(before), Some(after)) => after == before || (!r.success && after
                    == before.insert(identifier@, r.reset)),
                (None, None) => true,
                _ => false,
            }),
            r == (RatelimitResponse {
                success: false,
                limit: old(self).tokens,
                remaining: 0,
                reset: 0,
            }) || (exists|used: i64|
                r == #[trigger] spec_fixed_window_response(
                    old(self).tokens,
                    used,
                    (now_ms / old(self).duration) as int,
                    old(self).duration as int,
                )),
    {
        let tokens: u32 = self.tokens;
        let duration: u128 = self.duration;
        let weight: u32 = match rate {
            Some(w) => w,
            None => 1,
        };
        let mut blocked_now: bool = false;
        match &self.client.cache {
            Some(c) => {
                blocked_now = c.is_blocked_at(identifier, now_ms).blocked;
            },
            None => {},
        }
        if blocked_now {
            return RatelimitResponse::denied(tokens);
        }
        let window: u128 = now_ms / duration;
        let key: String = make_window_key(&self.client.prefix, identifier, window);
        let mut con: redis::Connection = match connect(&self.client.redis) {
            Ok(c) => c,
            Err(_) => return RatelimitResponse::denied(tokens),
        };
        let used: i64 = match run_fixed_window_script(&mut con, key.as_str(), duration, weight) {
            Ok(v) => v,
            Err(_) => return RatelimitResponse::denied(tokens),
        };
        let resp: RatelimitResponse = fixed_window_response(tokens, used, window, duration);
        if !resp.success {
            match &mut self.client.cache {
                Some(c) => {
                    c.block_until(identifier, resp.reset);
                },
                None => {},
            }
        }
        resp
    }
}

impl Algorithm for FixedWindow {
    open spec fn capacity(&self) -> u32 {
        self.tokens
    }

    open spec fn wf(&self) -> bool {
        self.wf_spec()
    }

    open spec fn cache_map(&self) -> Option<Map<Seq<char>, u128>> {
        self.client.cache_map()
    }

    fn limit(&mut self, identifier: &str, rate: Option<u32>) -> (r: RatelimitResponse) {
        let now: u128 = match now_millis() {
            Some(n) => n,
            None => {
                return RatelimitResponse::denied(self.tokens);
            },
        };
        self.limit_at(identifier, rate, now)
    }
}

// ---------------------------------------------------------------------------
// Sliding window.
// ---------------------------------------------------------------------------
/// Softens the fixed window's boundary: a request is charged to the current
/// window's counter, but the decision also weighs the previous window's
/// counter by how much of it the sliding window still covers.
#[derive(Debug, Clone)]
pub struct SlidingWindow {
    pub client: RatelimitConfiguration,
    pub tokens: u32,
    pub duration: u128,
}

impl SlidingWindow {
    /// The configuration's cache is sound and the window has some length.
    pub open spec fn wf_spec(self) -> bool {
        self.client.wf() && 1 <= self.duration
    }

    /// Builds a sliding window of `tokens` capacity over a window described
    /// by a duration string; rejects a string that names no positive
    /// duration.
    pub fn new(client: RatelimitConfiguration, tokens: u32, window: &str) -> (r: Result<
        SlidingWindow,
        RatelimitError,
    >)
        requires
            client.wf(),
        ensures
            (match r {
                Ok(sw) => is_valid_duration(window@) && 1 <= duration_ms_val(window@) && sw
                    == (SlidingWindow {
                    client,
                    tokens,
                    duration: duration_ms_val(window@) as u128,
                }) && sw.wf_spec(),
                Err(e) => e == RatelimitError::Configuration && !(is_valid_duration(window@) && 1
                    <= duration_ms_val(window@)),
            }),
    {
        match into_milliseconds(window) {
            Ok(ms) => if ms >= 1 {
                Ok(SlidingWindow { client, tokens, duration: ms })
            } else {
                Err(RatelimitError::Configuration)
            },
            Err(e) => Err(e),
        }
    }

    /// Decides one request at the instant `now_ms`: a live local block
    /// denies at once; otherwise the store's script charges the current
    /// window, weighs in the previous one, and the signed count it reports
    /// shapes the response, a fresh denial being recorded in the local
    /// cache; a failed round trip denies without touching the cache.
    pub fn limit_at(&mut self, identifier: &str, rate: Option<u32>, now_ms: u128) -> (r:
        RatelimitResponse)
        requires
            old(self).wf_spec(),
        ensures
            final(self).wf_spec(),
            final(self).tokens == old(self).tokens,
            final(self).duration == old(self).duration,
            final(self).client.prefix == old(self).client.prefix,
            final(self).client.redis == old(self).client.redis,
            r.limit == old(self).tokens,
            r.remaining <= r.limit,
            !r.success ==> r.remaining == 0,
            (match old(self).client.cache_map() {
                Some(m) => blocked_of(m, identifier@, now_ms).blocked,
                None => false,
            }) ==> r == (RatelimitResponse {
                success: false,
                limit: old(self).tokens,
                remaining: 0,
                reset: 0,
            }) && *final(self) == *old(self),
            r.success ==> *final(self) == *old(self),
            (match (old(self).client.cache_map(), final(self).client.cache_map()) {
                (Some(before), Some(after)) => after == before || (!r.success && after
                    == before.insert(identifier@, r.reset)),
                (None, None) => true,
                _ => false,
            }),
            r == (RatelimitResponse {
                success: false,
                limit: old(self).tokens,
                remaining: 0,
                reset: 0,
            }) || (exists|remaining_tokens: i64|
                r == #[trigger] spec_sliding_window_response(
                    old(self).tokens,
                    remaining_tokens,
                    (now_ms / old(self).duration) as int,
                    old(self).duration as int,
                )),
    {
        let tokens: u32 = self.tokens;
        let duration: u128 = self.duration;
        let weight: u32 = match rate {
            Some(w) => w,
            None => 1,
        };
        let mut blocked_now: bool = false;
        match &self.client.cache {
            Some(c) => {
                blocked_now = c.is_blocked_at(identifier, now_ms).blocked;
            },
            None => {},
        }
        if blocked_now {
            return RatelimitResponse::denied(tokens);
        }
        let current_window: u128 = now_ms / duration;
        let previous_window: u128 = if current_window == 0 {
            0
        } else {
            current_window - 1
        };
        let current_key: String = make_window_key(&self.client.prefix, identifier, current_window);
        let previous_key: String = make_window_key(
            &self.client.prefix,
            identifier,
            previous_window,
        );
        let mut con: redis::Connection = match connect(&self.client.redis) {
            Ok(c) => c,
            Err(_) => return RatelimitResponse::denied(tokens),
        };
        let remaining_tokens: i64 = match run_sliding_window_script(
            &mut con,
            current_key.as_str(),
            previous_key.as_str(),
            tokens,
            now_ms,
            duration,
            weight,
        ) {
            Ok(v) => v,
            Err(_) => return RatelimitResponse::denied(tokens),
        };
        let resp: RatelimitResponse = sliding_window_response(
            tokens,
            remaining_tokens,
            current_window,
            duration,
        );
        if !resp.success {
            match &mut self.client.cache {
                Some(c) => {
                    c.block_until(identifier, resp.reset);
                },
                None => {},
            }
        }
        resp
    }
}

impl Algorithm for SlidingWindow {
    open spec fn capacity(&self) -> u32 {
        self.tokens
    }

    open spec fn wf(&self) -> bool {
        self.wf_spec()
    }

    open spec fn cache_map(&self) -> Option<Map<Seq<char>, u128>> {
        self.client.cache_map()
    }

    fn limit(&mut self, identifier: &str, rate: Option<u32>) -> (r: RatelimitResponse) {
        let now: u128 = match now_millis() {
            Some(n) => n,
            None => {
                return RatelimitResponse::denied(self.tokens);
            },
        };
        self.limit_at(identifier, rate, now)
    }
}

// ---------------------------------------------------------------------------
// Token bucket.
// ---------------------------------------------------------------------------
/// A continuously refilling balance: every `interval` milliseconds the
/// bucket gains `refill_rate` tokens up to its capacity, and each request
/// deducts its weight while enough tokens remain.
#[derive(Debug, Clone)]
pub struct TokenBucket {
    pub client: RatelimitConfiguration,
    pub tokens: u32,
    pub interval: u128,
    pub refill_rate: u32,
}

impl TokenBucket {
    /// The configuration's cache is sound and the interval has some length.
    pub open spec fn wf_spec(self) -> bool {
        self.client.wf() && 1 <= self.interval
    }

    /// Builds a token bucket of `tokens` capacity refilling `refill_rate`
    /// tokens per interval described by a duration string; rejects a string
    /// that names no positive duration.
    pub fn new(client: RatelimitConfiguration, tokens: u32, interval: &str, refill_rate: u32) -> (r:
        Result<TokenBucket, RatelimitError>)
        requires
            client.wf(),
        ensures
            (match r {
                Ok(tb) => is_valid_duration(interval@) && 1 <= duration_ms_val(interval@) && tb
                    == (TokenBucket {
                    client,
                    tokens,
                    interval: duration_ms_val(interval@) as u128,
                    refill_rate,
                }) && tb.wf_spec(),
                Err(e) => e == RatelimitError::Configuration && !(is_valid_duration(interval@) && 1
                    <= duration_ms_val(interval@)),
            }),
    {
        match into_milliseconds(interval) {
            Ok(ms) => if ms >= 1 {
                Ok(TokenBucket { client, tokens, interval: ms, refill_rate })
            } else {
                Err(RatelimitError::Configuration)
            },
            Err(e) => Err(e),
        }
    }

    /// Decides one request at the instant `now_ms`: a live local block
    /// denies at once; otherwise the store's script refills the bucket for
    /// the intervals that elapsed, tries to deduct the weight, and the pair
    /// it reports shapes the response, a fresh denial being recorded in the
    /// local cache; a failed round trip denies without touching the cache.
    pub fn limit_at(&mut self, identifier: &str, rate: Option<u32>, now_ms: u128) -> (r:
        RatelimitResponse)
        requires
            old(self).wf_spec(),
        ensures
            final(self).wf_spec(),
            final(self).tokens == old(self).tokens,
            final(self).interval == old(self).interval,
            final(self).refill_rate == old(self).refill_rate,
            final(self).client.prefix == old(self).client.prefix,
            final(self).client.redis == old(self).client.redis,
            r.limit == old(self).tokens,
            r.remaining <= r.limit,
            !r.success ==> r.remaining == 0,
            (match old(self).client.cache_map() {
                Some(m) => blocked_of(m, identifier@, now_ms).blocked,
                None => false,
            }) ==> r == (RatelimitResponse {
                success: false,
                limit: old(self).tokens,
                remaining: 0,
                reset: 0,
            }) && *final(self) == *old(self),
            r.success ==> *final(self) == *old(self),
            (match (old(self).client.cache_map(), final(self).client.cache_map()) {
                (Some(before), Some(after)) => after == before || (!r.success && after
                    == before.insert(identifier@, r.reset)),
                (None, None) => true,
                _ => false,
            }),
            r == (RatelimitResponse {
                success: false,
                limit: old(self).tokens,
                remaining: 0,
                reset: 0,
            }) || (exists|remaining_tokens: i64, reset_ms: i64|
                r == #[trigger] spec_token_bucket_response(
                    old(self).tokens,
                    remaining_tokens,
                    reset_ms,
                )),
    {
        let tokens: u32 = self.tokens;
        let interval: u128 = self.interval;
        let weight: u32 = match rate {
            Some(w) => w,
            None => 1,
        };
        let mut blocked_now: bool = false;
        match &self.client.cache {
            Some(c) => {
                blocked_now = c.is_blocked_at(identifier, now_ms).blocked;
            },
            None => {},
        }
        if blocked_now {
            return RatelimitResponse::denied(tokens);
        }
        let interval_index: u128 = now_ms / interval;
        let key: String = make_bucket_key(&self.client.prefix, identifier);
        let mut con: redis::Connection = match connect(&self.client.redis) {
            Ok(c) => c,
            Err(_) => return RatelimitResponse::denied(tokens),
        };
        let pair: (i64, i64) = match run_token_bucket_script(
            &mut con,
            key.as_str(),
            tokens,
            interval,
            self.refill_rate,
            interval_index,
            weight,
        ) {
            Ok(p) => p,
            Err(_) => return RatelimitResponse::denied(tokens),
        };
        let resp: RatelimitResponse = token_bucket_response(tokens, pair.0, pair.1);
        if !resp.success {
            match &mut self.client.cache {
                Some(c) => {
                    c.block_until(identifier, resp.reset);
                },
                None => {},
            }
        }
        resp
    }
}

impl Algorithm for TokenBucket {
    open spec fn capacity(&self) -> u32 {
        self.tokens
    }

    open spec fn wf(&self) -> bool {
        self.wf_spec()
    }

    open spec fn cache_map(&self) -> Option<Map<Seq<char>, u128>> {
        self.client.cache_map()
    }

    fn limit(&mut self, identifier: &str, rate: Option<u32>) -> (r: RatelimitResponse) {
        let now: u128 = match now_millis() {
            Some(n) => n,
            None => {
                return RatelimitResponse::denied(self.tokens);
            },
        };
        self.limit_at(identifier, rate, now)
    }
}

} // verus!
