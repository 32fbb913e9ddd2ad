use solana_validator_optimizer::lite::simulated_response;
use solana_validator_optimizer::rpc_cache::{default_keys, CacheError, CacheLookup, RpcCache, CACHE_TTL_MS};
use solana_validator_optimizer::upstream::UpstreamPlan;

#[test]
fn zero_capacity_is_refused() {
    assert!(matches!(RpcCache::new(0), Err(CacheError::ZeroCapacity)));
}

#[test]
fn stored_response_is_served_until_it_expires() {
    let mut cache = RpcCache::new(4).unwrap();
    let key = "getEpochInfo".to_string();
    assert_eq!(cache.lookup(&key, 1_000), CacheLookup::Miss);
    let response = cache.store(key.clone(), "Epoch: 5".to_string(), 1_000);
    assert_eq!(response, "Epoch: 5");
    assert_eq!(
        cache.lookup(&key, 1_000 + CACHE_TTL_MS - 1),
        CacheLookup::Hit("(cached) Epoch: 5".to_string())
    );
    assert_eq!(cache.lookup(&key, 1_000 + CACHE_TTL_MS), CacheLookup::Expired);
    let stats = cache.stats();
    assert_eq!(stats.requests, 3);
    assert_eq!(stats.hits, 1);
    assert_eq!(stats.misses, 2);
    assert_eq!(stats.upstream, 0);
}

#[test]
fn full_cache_evicts_least_recently_used() {
    let mut cache = RpcCache::new(2).unwrap();
    let a = "a".to_string();
    let b = "b".to_string();
    let c = "c".to_string();
    cache.store(a.clone(), "A".to_string(), 0);
    cache.store(b.clone(), "B".to_string(), 0);
    // touching `a` makes `b` the least recently used entry
    assert_eq!(cache.lookup(&a, 1), CacheLookup::Hit("(cached) A".to_string()));
    cache.store(c.clone(), "C".to_string(), 1);
    assert_eq!(cache.lookup(&b, 2), CacheLookup::Miss);
    assert_eq!(cache.lookup(&a, 2), CacheLookup::Hit("(cached) A".to_string()));
    assert_eq!(cache.lookup(&c, 2), CacheLookup::Hit("(cached) C".to_string()));
}

#[test]
fn storing_again_replaces_the_value() {
    let mut cache = RpcCache::new(2).unwrap();
    let k = "k".to_string();
    cache.store(k.clone(), "old".to_string(), 0);
    cache.store(k.clone(), "new".to_string(), 5);
    assert_eq!(cache.lookup(&k, 6), CacheLookup::Hit("(cached) new".to_string()));
    // the second store reset the expiry
    assert_eq!(cache.lookup(&k, CACHE_TTL_MS + 1), CacheLookup::Hit("(cached) new".to_string()));
}

#[test]
fn warm_up_keys() {
    let keys = default_keys();
    assert_eq!(
        keys,
        vec![
            "getBalance:9Vpj7yMy7V7ojAB8BoS5efZLTi3kWJv3bXWQ7vLxB4vG".to_string(),
            "getEpochInfo".to_string()
        ]
    );
}

#[test]
fn upstream_counts_only_calls_to_the_node() {
    let mut cache = RpcCache::new(4).unwrap();
    let keys = ["getAccountInfo:x", "getBalance:abc", "getEpochInfo", "getBalance:11111111111111111111111111111111"];
    let mut expected_upstream = 0;
    for key in keys {
        let k = key.to_string();
        assert_eq!(cache.lookup(&k, 0), CacheLookup::Miss);
        assert!(cache.has_pending_miss());
        let plan = cache.plan_fetch(key);
        if !matches!(plan, UpstreamPlan::Respond(_)) {
            expected_upstream += 1;
        }
        assert_eq!(cache.stats().upstream, expected_upstream);
    }
    assert_eq!(expected_upstream, 2);
    assert_eq!(cache.stats().misses, 4);
    assert!(cache.has_pending_miss());
}

#[test]
fn error_responses_are_cached_too() {
    let mut cache = RpcCache::new(2).unwrap();
    let k = "getBalance:abc".to_string();
    assert_eq!(cache.lookup(&k, 0), CacheLookup::Miss);
    let plan = cache.plan_fetch(&k);
    let text = match plan {
        UpstreamPlan::Respond(t) => t,
        other => panic!("unexpected plan {:?}", other),
    };
    let r1 = cache.store(k.clone(), text, 0);
    assert_eq!(r1, "Error: String is the wrong size");
    assert_eq!(cache.lookup(&k, 9_999), CacheLookup::Hit(format!("(cached) {}", r1)));
    assert_eq!(cache.stats().upstream, 0);
}

#[test]
fn simulated_fetch_is_cached() {
    let mut cache = RpcCache::new(2).unwrap();
    let k = "getBalance:Orly".to_string();
    assert_eq!(cache.lookup(&k, 100), CacheLookup::Miss);
    let first = cache.store(k.clone(), simulated_response(&k), 100);
    assert_eq!(first, "FreshData(getBalance:Orly)");
    assert_eq!(
        cache.lookup(&k, 5_000),
        CacheLookup::Hit("(cached) FreshData(getBalance:Orly)".to_string())
    );
}

#[test]
fn reset_keeps_entries() {
    let mut cache = RpcCache::new(2).unwrap();
    let k = "k".to_string();
    cache.store(k.clone(), "v".to_string(), 0);
    assert_eq!(cache.lookup(&k, 1), CacheLookup::Hit("(cached) v".to_string()));
    assert!(cache.can_count_request());
    cache.reset_stats();
    assert_eq!(cache.stats().requests, 0);
    assert_eq!(cache.stats().hits, 0);
    assert_eq!(cache.lookup(&k, 2), CacheLookup::Hit("(cached) v".to_string()));
}
