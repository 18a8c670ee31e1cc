use vstd::prelude::*;

use crate::ratelimit::common::RatelimitError;

verus! {

// The trusted boundary of the library: the system clock and the remote
// atomic counter store.  Everything here is believed, not proved; every
// function that consumes a clock reading or a script result is verified for
// every value these items can hand back.
#[verifier::external_type_specification]
#[verifier::external_body]
pub struct ExClient(redis::Client);

#[verifier::external_type_specification]
#[verifier::external_body]
pub struct ExConnection(redis::Connection);

/// Relies on redis::Client::clone, an unconstrained duplicate of the handle;
/// nothing is claimed about the copy.
pub assume_specification[ <redis::Client as Clone>::clone ](client: &redis::Client) -> (r:
    redis::Client);

/// Relies on std::time::SystemTime::now, SystemTime::duration_since and
/// Duration::as_millis: the number of milliseconds between the Unix epoch and
/// the moment of the call, or None when the system clock reads earlier than
/// the epoch.
#[verifier::external_body]
pub(crate) fn now_millis() -> (r: Option<u128>) {
    match std::time::SystemTime::now().duration_since(std::time::UNIX_EPOCH) {
        Ok(elapsed) => Some(elapsed.as_millis()),
        Err(_) => None,
    }
}

/// Relies on redis::Client::get_connection: opens one connection to the
/// store, or fails when the store cannot be reached.
#[verifier::external_body]
pub(crate) fn connect(client: &redis::Client) -> (r: Result<redis::Connection, RatelimitError>)
    ensures
        r is Err ==> r->Err_0 == RatelimitError::Remote,
{
    match client.get_connection() {
        Ok(con) => Ok(con),
        Err(_) => Err(RatelimitError::Remote),
    }
}

/// Relies on redis::Script::new, ScriptInvocation::key, ScriptInvocation::arg
/// and ScriptInvocation::invoke: runs the fixed-window script in one atomic
/// round trip.  The script increments the window's counter by `weight`, sets
/// the counter to expire after `duration_ms` when it creates it, and hands
/// back the post-increment total; the store serializes concurrent runs, so
/// nothing is promised here about the total that comes back.
#[verifier::external_body]
pub(crate) fn run_fixed_window_script(
    con: &mut redis::Connection,
    key: &str,
    duration_ms: u128,
    weight: u32,
) -> (r: Result<i64, RatelimitError>)
    ensures
        r is Err ==> r->Err_0 == RatelimitError::Remote,
{
    let script = redis::Script::new(
        "local used = redis.call('INCRBY', KEYS[1], ARGV[2]) if used == tonumber(ARGV[2]) then redis.call('PEXPIRE', KEYS[1], ARGV[1]) end return used",
    );
    match script.key(key).arg(duration_ms).arg(weight).invoke::<i64>(con) {
        Ok(used) => Ok(used),
        Err(_) => Err(RatelimitError::Remote),
    }
}

/// Relies on redis::Script::new, ScriptInvocation::key, ScriptInvocation::arg
/// and ScriptInvocation::invoke: runs the sliding-window script in one atomic
/// round trip.  The script increments the current window's counter by
/// `weight`, reads the previous window's counter, weights it by the fraction
/// of the previous window still covered, and hands back
/// `limit - (current + weighted previous)`, which is negative when the limit
/// is exceeded; nothing is promised here about the value that comes back.
#[verifier::external_body]
pub(crate) fn run_sliding_window_script(
    con: &mut redis::Connection,
    current_key: &str,
    previous_key: &str,
    limit: u32,
    now_ms: u128,
    duration_ms: u128,
    weight: u32,
) -> (r: Result<i64, RatelimitError>)
    ensures
        r is Err ==> r->Err_0 == RatelimitError::Remote,
{
    let script = redis::Script::new(
        "local curr = redis.call('INCRBY', KEYS[1], ARGV[4]) if curr == tonumber(ARGV[4]) then redis.call('PEXPIRE', KEYS[1], 2 * tonumber(ARGV[3])) end local prev = tonumber(redis.call('GET', KEYS[2])) or 0 local dur = tonumber(ARGV[3]) local elapsed = tonumber(ARGV[2]) % dur local weighted = math.floor(prev * (dur - elapsed) / dur) return tonumber(ARGV[1]) - (curr + weighted)",
    );
    match script.key(current_key).key(previous_key).arg(limit).arg(now_ms).arg(duration_ms).arg(
        weight,
    ).invoke::<i64>(con) {
        Ok(remaining) => Ok(remaining),
        Err(_) => Err(RatelimitError::Remote),
    }
}

/// Relies on redis::Script::new, ScriptInvocation::key, ScriptInvocation::arg
/// and ScriptInvocation::invoke: runs the token-bucket script in one atomic
/// round trip.  The script refills the bucket for the intervals elapsed since
/// it was last touched (capped at `capacity`), deducts `weight` tokens when
/// that many are available, and hands back the pair of the post-refill
/// balance (0 when the deduction could not be made) and the epoch
/// millisecond at which the next interval starts; nothing is promised here
/// about the pair that comes back.
#[verifier::external_body]
pub(crate) fn run_token_bucket_script(
    con: &mut redis::Connection,
    key: &str,
    capacity: u32,
    interval_ms: u128,
    refill_rate: u32,
    interval_index: u128,
    weight: u32,
) -> (r: Result<(i64, i64), RatelimitError>)
    ensures
        r is Err ==> r->Err_0 == RatelimitError::Remote,
{
    let script = redis::Script::new(
        "local cap = tonumber(ARGV[1]) local rate = tonumber(ARGV[3]) local idx = tonumber(ARGV[4]) local w = tonumber(ARGV[5]) local state = redis.call('HMGET', KEYS[1], 'tokens', 'idx') local tokens = tonumber(state[1]) local last = tonumber(state[2]) if tokens == nil then tokens = cap last = idx end if idx > last then tokens = math.min(cap, tokens + (idx - last) * rate) last = idx end local reset = (last + 1) * tonumber(ARGV[2]) if tokens >= w then redis.call('HSET', KEYS[1], 'tokens', tokens - w, 'idx', last) return {tokens, reset} else return {0, reset} end",
    );
    match script.key(key).arg(capacity).arg(interval_ms).arg(refill_rate).arg(interval_index).arg(
        weight,
    ).invoke::<(i64, i64)>(con) {
        Ok(pair) => Ok(pair),
        Err(_) => Err(RatelimitError::Remote),
    }
}

} // verus!
