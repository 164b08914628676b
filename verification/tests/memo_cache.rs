use kubewarden::memo::{BeginOutcome, MemoCache, MEMO_TTL_SECONDS};

#[test]
fn coalescing_single_upstream_call() {
    // a burst of requests on one key within the TTL: the first claims the
    // upstream computation, the rest wait or read the cached value
    let mut cache: MemoCache<String> = MemoCache::new(MEMO_TTL_SECONDS);
    let key = "get_resource(v1,Service),kube-dns,kube-system";

    // first caller: nothing cached, so it computes upstream
    assert_eq!(cache.begin(key, 100), BeginOutcome::MustCompute);
    // callers arriving while the computation is in flight wait; none computes
    assert_eq!(cache.begin(key, 100), BeginOutcome::Wait);
    assert_eq!(cache.begin(key, 101), BeginOutcome::Wait);
    assert!(cache.get(key, 101).is_none());

    // the first caller stores its result; its own answer was not cached
    cache.complete(key, "the service".to_string(), 101);

    // every caller within the TTL reads the value, marked as cached
    assert_eq!(cache.begin(key, 103), BeginOutcome::Hit);
    assert_eq!(cache.get(key, 103).unwrap().as_str(), "the service");
    assert_eq!(cache.begin(key, 101 + MEMO_TTL_SECONDS), BeginOutcome::Hit);
}

#[test]
fn expiry_after_the_ttl() {
    let mut cache: MemoCache<u64> = MemoCache::new(MEMO_TTL_SECONDS);
    cache.complete("k", 42, 10);
    assert_eq!(cache.begin("k", 15), BeginOutcome::Hit);
    // one instant past the TTL the value is stale and a new computation is claimed
    assert_eq!(cache.begin("k", 16), BeginOutcome::MustCompute);
    assert!(cache.get("k", 16).is_none());
}

#[test]
fn keys_do_not_interfere() {
    let mut cache: MemoCache<u64> = MemoCache::new(MEMO_TTL_SECONDS);
    cache.complete("a", 1, 0);
    assert_eq!(cache.begin("b", 1), BeginOutcome::MustCompute);
    cache.complete("b", 2, 1);
    assert_eq!(cache.get("a", 2).unwrap(), &1);
    assert_eq!(cache.get("b", 2).unwrap(), &2);
}

#[test]
fn failures_are_never_cached() {
    let mut cache: MemoCache<u64> = MemoCache::new(MEMO_TTL_SECONDS);
    assert_eq!(cache.begin("k", 0), BeginOutcome::MustCompute);
    // the upstream call failed: the claim is released, nothing is stored
    cache.fail("k");
    assert_eq!(cache.begin("k", 1), BeginOutcome::MustCompute);
}

#[test]
fn fresh_hits_are_served_marked_as_cached() {
    let mut cache: MemoCache<String> = MemoCache::new(MEMO_TTL_SECONDS);
    assert!(cache.cached_answer("k", 0).is_none());
    assert_eq!(cache.begin("k", 0), BeginOutcome::MustCompute);
    // nothing to hand out while the computation is in flight
    assert!(cache.cached_answer("k", 1).is_none());
    cache.complete("k", "value".to_string(), 1);
    let answer = cache.cached_answer("k", 2).unwrap();
    assert!(answer.was_cached);
    assert_eq!(answer.value.as_str(), "value");
    // past the TTL nothing is handed out
    assert!(cache.cached_answer("k", 2 + MEMO_TTL_SECONDS + 5).is_none());
}

#[test]
fn updates_leave_other_keys_alone() {
    let mut cache: MemoCache<u64> = MemoCache::new(MEMO_TTL_SECONDS);
    cache.complete("a", 1, 0);
    cache.complete("b", 2, 0);
    cache.fail("a");
    assert!(cache.get("a", 1).is_none());
    assert_eq!(cache.get("b", 1).unwrap(), &2);
}
