use upstash_ratelimit_rs::ratelimit::cache::EphemeralCache;

#[test]
fn test_get_cache() {
    let key = "ip_address";
    let mut test_cache = EphemeralCache::new();
    test_cache.set(key, 2000);
    assert_eq!(2000, test_cache.get(key).unwrap());
    assert!(test_cache.get("unknown_key").is_none());
}

#[test]
fn cache_test_get_cache() {
    let key = "ip_address";
    let mut test_cache = EphemeralCache::new();
    test_cache.set(key, 2000);
    assert_eq!(2000, test_cache.get(key).unwrap());
    assert!(test_cache.get("unknown_key").is_none());
}

#[test]
fn test_incr_cache() {
    let key_one = "ip_address_one";
    let key_two = "ip_address_two";

    let mut test_cache = EphemeralCache::new();

    test_cache.incr(key_one);

    assert_eq!(1, test_cache.get(key_one).unwrap());

    test_cache.set(key_two, 4000);
    test_cache.incr(key_two);

    assert_ne!(4000, test_cache.get(key_two).unwrap())
}

#[test]
fn test_is_blocked() {
    let mut test_cache = EphemeralCache::new();
    let key = "ip_address";

    assert!(!test_cache.is_blocked(key).blocked);

    test_cache.block_until(key, 1708223649);
    assert!(!test_cache.is_blocked(key).blocked);
}

#[test]
fn test_is_blocked_at_before_reset() {
    let mut cache = EphemeralCache::new();
    cache.block_until("u1", 1000);

    let answer = cache.is_blocked_at("u1", 999);
    assert!(answer.blocked);
    assert_eq!(1000, answer.reset);
}

#[test]
fn test_is_blocked_at_expires_at_reset() {
    let mut cache = EphemeralCache::new();
    cache.block_until("u1", 1000);

    assert!(!cache.is_blocked_at("u1", 1000).blocked);
    assert_eq!(0, cache.is_blocked_at("u1", 1000).reset);
    assert!(!cache.is_blocked_at("u1", 2000).blocked);
}

#[test]
fn test_is_blocked_at_unknown_identifier() {
    let cache = EphemeralCache::new();
    assert!(!cache.is_blocked_at("nobody", 0).blocked);
}

#[test]
fn test_block_until_overwrites() {
    let mut cache = EphemeralCache::new();
    cache.block_until("u1", 500);
    cache.block_until("u1", 1500);
    assert_eq!(1500, cache.get("u1").unwrap());
    assert!(cache.is_blocked_at("u1", 1000).blocked);
}

#[test]
fn test_incr_counts_per_identifier() {
    let mut cache = EphemeralCache::new();
    for _ in 0..5 {
        cache.incr("a");
    }
    cache.incr("b");
    assert_eq!(5, cache.get("a").unwrap());
    assert_eq!(1, cache.get("b").unwrap());
}
