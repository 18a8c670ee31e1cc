use upstash_ratelimit_rs::ratelimit::duration::into_milliseconds;
use upstash_ratelimit_rs::ratelimit::single::{
    fixed_window_response, interpolated_count, sliding_window_response, token_bucket_response,
    token_bucket_step, FixedWindow, SlidingWindow, TokenBucket,
};
use upstash_ratelimit_rs::ratelimit::{Algorithm, RatelimitConfiguration};

fn unreachable_store() -> redis::Client {
    redis::Client::open("redis://127.0.0.1:1/").unwrap()
}

#[test]
fn test_fixed_window_scenario() {
    // Capacity 10, window "30s": ten sequential unit-weight calls succeed
    // with remaining 9, 8, ..., 0; the eleventh call is denied.
    let duration = into_milliseconds("30s").unwrap();
    assert_eq!(30000, duration);
    let window = 100u128;
    for i in 1..=10i64 {
        let r = fixed_window_response(10, i, window, duration);
        assert!(r.success);
        assert_eq!(10, r.limit);
        assert_eq!((10 - i) as u32, r.remaining);
        assert_eq!(101 * 30000, r.reset);
    }
    let r = fixed_window_response(10, 11, window, duration);
    assert!(!r.success);
    assert_eq!(0, r.remaining);
    assert_eq!(101 * 30000, r.reset);
}

#[test]
fn test_sliding_window_boundary() {
    // The previous window used the full limit of 10 and the current window
    // nothing; a unit-weight call at the very start of the current window
    // weighs the whole previous count and is denied.
    let interp = interpolated_count(10, 1, 0, 60000);
    assert_eq!(11, interp);
    let remaining_tokens = 10i64 - interp as i64;
    let r = sliding_window_response(10, remaining_tokens, 5, 60000);
    assert!(!r.success);
    assert_eq!(0, r.remaining);
}

#[test]
fn test_sliding_window_midway_weighting() {
    // Halfway through the current window only half the previous count is
    // weighed in.
    let interp = interpolated_count(8, 1, 30000, 60000);
    assert_eq!(5, interp);
    let r = sliding_window_response(10, 10 - interp as i64, 5, 60000);
    assert!(r.success);
    assert_eq!(5, r.remaining);
}

#[test]
fn test_token_bucket_refill() {
    // Capacity 5, interval 10s, refill rate 5: consume all five tokens, then
    // a call one full interval later succeeds with the bucket refilled,
    // capped at capacity.
    let capacity = 5u32;
    let refill_rate = 5u32;
    let interval = into_milliseconds("10s").unwrap();
    assert_eq!(10000, interval);

    let mut balance = 5u32;
    for i in 0..5u32 {
        let (reported, after) = token_bucket_step(balance, 0, 0, capacity, refill_rate, 1);
        assert_eq!(5 - i, reported);
        assert!(token_bucket_response(capacity, reported as i64, 10000).success);
        balance = after;
    }
    assert_eq!(0, balance);

    let (reported, after) = token_bucket_step(balance, 0, 0, capacity, refill_rate, 1);
    assert_eq!(0, reported);
    assert_eq!(0, after);
    assert!(!token_bucket_response(capacity, reported as i64, 10000).success);

    let (reported, after) = token_bucket_step(balance, 0, 1, capacity, refill_rate, 1);
    assert_eq!(5, reported);
    assert_eq!(4, after);
    let r = token_bucket_response(capacity, reported as i64, 20000);
    assert!(r.success);
    assert_eq!(5, r.remaining);
    assert!(r.remaining <= r.limit);
}

#[test]
fn test_token_bucket_partial_refill() {
    // A slower refill rate adds tokens per interval without passing capacity.
    let (reported, after) = token_bucket_step(1, 3, 5, 10, 2, 1);
    assert_eq!(5, reported);
    assert_eq!(4, after);
    let (reported2, _) = token_bucket_step(9, 0, 4, 10, 2, 1);
    assert_eq!(10, reported2);
}

#[test]
fn test_remaining_never_exceeds_limit() {
    assert_eq!(10, fixed_window_response(10, -5, 0, 1000).remaining);
    assert_eq!(0, fixed_window_response(10, 1000, 0, 1000).remaining);
    assert_eq!(10, sliding_window_response(10, 100, 0, 1000).remaining);
    assert_eq!(0, sliding_window_response(10, -100, 0, 1000).remaining);
    assert_eq!(10, token_bucket_response(10, 100, 50).remaining);
    assert_eq!(0, token_bucket_response(10, -3, -1).remaining);
    assert_eq!(0, token_bucket_response(10, -3, -1).reset);
}

#[test]
fn test_fixed_window_fails_closed_without_store() {
    let config = RatelimitConfiguration::new(unreachable_store(), true, None);
    let mut ratelimit = FixedWindow::new(config, 10, "60s").unwrap();

    let res = ratelimit.limit("u1", None);
    assert!(!res.success);
    assert_eq!(10, res.limit);
    assert_eq!(0, res.remaining);
    assert_eq!(0, res.reset);
    // The failed round trip must not poison the local cache.
    assert!(ratelimit.client.cache.as_ref().unwrap().get("u1").is_none());
}

#[test]
fn test_sliding_window_fails_closed_without_store() {
    let config = RatelimitConfiguration::new(unreachable_store(), true, None);
    let mut ratelimit = SlidingWindow::new(config, 10, "60s").unwrap();

    let res = ratelimit.limit("u1", None);
    assert!(!res.success);
    assert_eq!(10, res.limit);
    assert_eq!(0, res.remaining);
    assert_eq!(0, res.reset);
}

#[test]
fn test_token_bucket_fails_closed_without_store() {
    let config = RatelimitConfiguration::new(unreachable_store(), true, None);
    let mut ratelimit = TokenBucket::new(config, 10, "30s", 5).unwrap();

    let res = ratelimit.limit("u1", Some(2));
    assert!(!res.success);
    assert_eq!(10, res.limit);
    assert_eq!(0, res.remaining);
    assert_eq!(0, res.reset);
}

#[test]
fn test_denial_short_circuit() {
    // Once the local cache records a block, a call before the recorded reset
    // is denied from the cache alone; at the reset the block has lapsed, the
    // unreachable store is consulted, and the call still fails closed.
    let config = RatelimitConfiguration::new(unreachable_store(), true, None);
    let mut ratelimit = FixedWindow::new(config, 10, "60s").unwrap();
    match &mut ratelimit.client.cache {
        Some(c) => c.block_until("u1", 1_000_000),
        None => unreachable!(),
    }

    let res = ratelimit.limit_at("u1", None, 999_999);
    assert!(!res.success);
    assert_eq!(0, res.remaining);
    assert_eq!(0, res.reset);

    let res2 = ratelimit.limit_at("u1", None, 1_000_000);
    assert!(!res2.success);
}

#[test]
fn test_constructor_rejects_bad_duration() {
    let config = RatelimitConfiguration::new(unreachable_store(), false, None);
    assert!(FixedWindow::new(config.clone(), 10, "abc").is_err());
    assert!(SlidingWindow::new(config.clone(), 10, "").is_err());
    assert!(TokenBucket::new(config.clone(), 10, "0s", 5).is_err());
    assert!(FixedWindow::new(config, 10, "60s").is_ok());
}

#[test]
fn test_configuration_prefix_and_cache() {
    let config = RatelimitConfiguration::new(unreachable_store(), false, None);
    assert_eq!("@upstash/ratelimit", config.prefix);
    assert!(config.cache.is_none());

    let config2 = RatelimitConfiguration::new(unreachable_store(), true, Some("myapp".to_string()));
    assert_eq!("myapp", config2.prefix);
    assert!(config2.cache.is_some());
}
