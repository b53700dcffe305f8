use eternity::{Bucket, BucketBuilder, CacheStep, RateLimitAction, NANOS_PER_SEC};

const SEC: u64 = 1_000_000_000;

/// Runs a caching hit to its end: the value is computed only when the bucket
/// asks for it, and cached then.
fn hit_or_cache(
    bucket: &mut Bucket<String>,
    key: u64,
    now: u64,
    function: impl FnOnce() -> Option<String>,
) -> Option<String> {
    match bucket.hit_or_cache(key, now) {
        CacheStep::Ready(value) => value,
        CacheStep::Compute(_) => bucket.cache_computed(key, function()),
    }
}

#[test]
fn test_caching() {
    let mut bucket: Bucket<String> = BucketBuilder::new().limit(2).time_span(60).delay(5).build();

    let value = hit_or_cache(&mut bucket, 1, 0, || Some("success1".to_string()));
    assert_eq!(value, Some("success1".to_string()));

    let value = hit_or_cache(&mut bucket, 1, 1_000, || Some("success2".to_string()));
    assert_eq!(value, Some("success1".to_string()));
}

#[test]
fn builder_defaults_never_block() {
    // One hit per window of no length, and no delay: every hit passes, even
    // at the same instant.
    let mut bucket: Bucket<()> = BucketBuilder::new().build();
    assert!(bucket.hit_limit(7, 10).is_none());
    assert!(bucket.hit_limit(7, 11).is_none());
    assert!(bucket.hit_limit(7, 11).is_none());
}

#[test]
fn limit_caps_hits_per_window() {
    let mut bucket: Bucket<()> = BucketBuilder::new().limit(3).time_span(10).build();
    for i in 0..3u64 {
        assert!(bucket.hit_limit(1, 1 + i).is_none(), "hit {} passes", i);
    }
    let info = bucket.hit_limit(1, 4).expect("fourth hit is limited");
    // The window opened at 1 and ends 10 s later.
    assert_eq!(info.rate_limit, u128::from(1 + 10 * SEC - 4));
    assert_eq!(info.active_delays, 0);
    assert!(info.is_first_try);
    assert_eq!(info.action, RateLimitAction::Cancelled);
    assert!(info.cached.is_none());
    // A refused hit is not counted: still refused, with less time left, and
    // no longer the first try.
    let info = bucket.hit_limit(1, 5 * SEC).expect("still limited");
    assert_eq!(info.rate_limit, u128::from(1 + 10 * SEC - 5 * SEC));
    assert!(!info.is_first_try);
    // Another key has its own tickets.
    assert!(bucket.hit_limit(2, 5 * SEC).is_none());
    // Once the window has ended, tickets come back.
    assert!(bucket.hit_limit(1, 10 * SEC + 1).is_none());
    assert!(bucket.hit_limit(1, 10 * SEC + 2).is_none());
}

#[test]
fn first_try_again_after_a_passed_hit() {
    let mut bucket: Bucket<()> = BucketBuilder::new().limit(1).time_span(60).build();
    assert!(bucket.hit_limit(1, 0).is_none());
    assert!(bucket.hit_limit(1, SEC).expect("limited").is_first_try);
    let info = bucket.hit_limit(1, 2 * SEC).expect("limited");
    assert!(!info.is_first_try);
    assert_eq!(info.rate_limit, u128::from(58 * SEC));
    assert!(bucket.hit_limit(1, 60 * SEC).is_none());
    assert!(bucket.hit_limit(1, 61 * SEC).expect("limited").is_first_try);
}

#[test]
fn limit_zero_allows_no_hit() {
    let mut bucket: Bucket<()> = BucketBuilder::new().limit(0).time_span(5).build();
    let info = bucket.hit_limit(1, 0).expect("no ticket");
    assert_eq!(info.rate_limit, u128::from(5 * SEC));
    assert!(bucket.hit_limit(1, 4 * SEC).is_some());
    let info = bucket.hit_limit(1, 5 * SEC).expect("a new window has no ticket either");
    assert_eq!(info.rate_limit, u128::from(5 * SEC));
    assert!(info.is_first_try);
}

#[test]
fn full_limit_does_not_overflow() {
    let mut bucket: Bucket<()> = BucketBuilder::new().limit(u32::MAX).time_span(60).build();
    assert!(bucket.hit_limit(1, 0).is_none());
    assert!(bucket.hit_limit(1, 1).is_none());
}

#[test]
fn delay_separates_hits() {
    let mut bucket: Bucket<()> = BucketBuilder::new().limit(100).time_span(60).delay(2).build();
    assert!(bucket.hit_limit(1, SEC).is_none());
    let info = bucket.hit_limit(1, 2 * SEC).expect("within the delay");
    assert_eq!(info.rate_limit, u128::from(SEC));
    assert!(bucket.hit_limit(1, 3 * SEC - 1).is_some());
    // At the end of the delay the hit passes.
    assert!(bucket.hit_limit(1, 3 * SEC).is_none());
}

#[test]
fn awaiting_bucket_asks_for_delay() {
    let mut bucket: Bucket<String> = BucketBuilder::new().limit(1).time_span(30).await_ratelimits(true).build();
    assert!(bucket.hit_limit(9, 0).is_none());
    let info = bucket.hit_limit(9, SEC).expect("limited");
    assert_eq!(info.action, RateLimitAction::Delayed);
    assert_eq!(info.rate_limit, 29 * NANOS_PER_SEC);
    assert_eq!(info.active_delays, 0);
    assert!(info.is_first_try);
    match bucket.hit_or_cache(9, 2 * SEC) {
        CacheStep::Compute(Some(wait)) => assert_eq!(wait, 28 * NANOS_PER_SEC),
        _ => panic!("a delaying bucket asks to wait, then compute"),
    }
    // A delayed hit leaves the record as it was: still the first try, no
    // delay counted, no ticket taken.
    let info = bucket.hit_limit(9, 3 * SEC).expect("limited");
    assert!(info.is_first_try);
    assert_eq!(info.active_delays, 0);
    assert!(bucket.hit_limit(9, 30 * SEC).is_none());
}

#[test]
fn passed_hit_clears_cache() {
    let mut bucket: Bucket<String> = BucketBuilder::new().limit(1).time_span(1).build();
    assert_eq!(hit_or_cache(&mut bucket, 3, 0, || Some("a".to_string())), Some("a".to_string()));
    assert_eq!(hit_or_cache(&mut bucket, 3, 10, || Some("b".to_string())), Some("a".to_string()));
    // The window has ended: the hit passes, the function runs again.
    assert_eq!(hit_or_cache(&mut bucket, 3, 2 * SEC, || Some("c".to_string())), Some("c".to_string()));
    // A function that gives nothing caches nothing; a refused hit with
    // nothing cached answers with nothing and does not run the function.
    let mut bucket: Bucket<String> = BucketBuilder::new().limit(1).time_span(60).build();
    assert_eq!(hit_or_cache(&mut bucket, 3, 0, || None), None);
    assert_eq!(hit_or_cache(&mut bucket, 3, 1, || panic!("not run when refused")), None);
}

#[test]
fn add_cache_value_only_for_hit_keys() {
    let mut bucket: Bucket<String> = BucketBuilder::new().limit(1).time_span(60).build();
    bucket.add_cache_value(4, "never".to_string());
    assert!(bucket.hit_limit(4, 0).is_none());
    bucket.add_cache_value(4, "kept".to_string());
    let info = bucket.hit_limit(4, 1).expect("limited");
    assert_eq!(info.cached, Some("kept".to_string()));
}
