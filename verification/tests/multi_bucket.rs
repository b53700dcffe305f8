use eternity::multi_bucket::{CachedLimitedEnums, EnumKey, LimitedRequests, ToBucket};
use eternity::{Bucket, BucketBuilder, CacheStep, RateLimitAction};

const SEC: u64 = 1_000_000_000;

#[derive(Clone, PartialEq, Eq, Hash)]
enum SpecificRoute {
    GetUser(u64),
    GetAllUsers,
}

impl SpecificRoute {
    fn key(&self) -> EnumKey {
        match self {
            Self::GetUser(id) => EnumKey { variant: 0, id: *id },
            Self::GetAllUsers => EnumKey { variant: 1, id: 0 },
        }
    }
}

impl ToBucket<String> for SpecificRoute {
    fn to_bucket(&self) -> Option<Bucket<String>> {
        Some(match self {
            // Shorter rate limit.
            Self::GetUser(_) => BucketBuilder::new().limit(2).time_span(60).build(),
            // Longer rate limit.
            Self::GetAllUsers => BucketBuilder::new().limit(1).time_span(600).build(),
        })
    }
}

/// Runs `mut_cache_or` to its end: the value is computed only when asked for.
fn enum_mut_cache_or(
    buckets: &mut CachedLimitedEnums<String>,
    route: &SpecificRoute,
    now: u64,
    function: impl FnOnce() -> Option<String>,
) -> Option<String> {
    let key = route.key();
    match buckets.mut_cache_or(&key, route, now) {
        CacheStep::Ready(value) => value,
        CacheStep::Compute(_) => buckets.cache_computed(&key, function()),
    }
}

/// Runs `cache_or` to its end: the value is computed only when asked for.
fn limited_cache_or(
    limiter: &mut LimitedRequests<String>,
    group: u64,
    key: u64,
    now: u64,
    function: impl FnOnce() -> Option<String>,
) -> Option<String> {
    match limiter.cache_or(group, key, now) {
        CacheStep::Ready(value) => value,
        CacheStep::Compute(_) => limiter.cache_computed(group, key, function()),
    }
}

#[test]
fn test_routed_caching() {
    let mut buckets: CachedLimitedEnums<String> = CachedLimitedEnums::new();

    // Expected: Calls the function instead of returning the cached value.
    let value = enum_mut_cache_or(&mut buckets, &SpecificRoute::GetUser(1), 0, || {
        Some("Ferris".to_string())
    });
    assert_eq!(value, Some("Ferris".to_string()));

    // Expected: Calls the function instead of returning the cached value.
    let value = enum_mut_cache_or(&mut buckets, &SpecificRoute::GetUser(1), 1, || {
        Some("Ferris2".to_string())
    });
    assert_eq!(value, Some("Ferris2".to_string()));

    // Expected: Calls the function instead of returning the cached value.
    let value = enum_mut_cache_or(&mut buckets, &SpecificRoute::GetAllUsers, 2, || {
        Some("Ferris, Ferris2".to_string())
    });
    assert_eq!(value, Some("Ferris, Ferris2".to_string()));

    // Expected: Returns the cached value instead of calling the function.
    let value = enum_mut_cache_or(&mut buckets, &SpecificRoute::GetAllUsers, 3, || {
        Some("Ferris, Ferris2, Ferris3".to_string())
    });
    assert_eq!(value, Some("Ferris, Ferris2".to_string()));
}

struct Command(bool);

impl ToBucket<String> for Command {
    fn to_bucket(&self) -> Option<Bucket<String>> {
        if self.0 {
            Some(BucketBuilder::new().limit(4).time_span(60).delay(1).await_ratelimits(true).build())
        } else {
            None
        }
    }
}

#[test]
fn build_group_adds_a_group() {
    let mut limiter: LimitedRequests<String> = LimitedRequests::new();
    assert!(!limiter.contains_group(5));
    limiter.build_group(5).limit(4).time_span(60).delay(1).await_ratelimits(true).build();
    assert!(limiter.contains_group(5));
    assert!(limiter.hit_limit(5, 1, 0).is_none());
    let info = limiter.hit_limit(5, 1, SEC / 2).expect("within the delay");
    assert_eq!(info.action, RateLimitAction::Delayed);
    assert_eq!(info.rate_limit, u128::from(SEC / 2));
    // No group, no limit.
    assert!(limiter.hit_limit(6, 1, 0).is_none());
    assert!(!limiter.contains_group(6));
}

#[test]
fn insert_group_reports_unconvertible_keys() {
    let mut limiter: LimitedRequests<String> = LimitedRequests::default();
    assert_eq!(limiter.insert_group(1, &Command(true)), Ok(()));
    assert_eq!(limiter.insert_group(2, &Command(false)), Err(2));
    assert!(limiter.contains_group(1));
    assert!(!limiter.contains_group(2));
    let result = limiter.insert_groups(vec![
        (3, Command(false)),
        (4, Command(true)),
        (5, Command(false)),
    ]);
    assert_eq!(result, Err(vec![3, 5]));
    assert!(limiter.contains_group(4));
    assert!(!limiter.contains_group(3));
    assert_eq!(limiter.insert_groups(vec![(6, Command(true))]), Ok(()));
    assert_eq!(limiter.insert_converted(7, None), Err(7));
}

#[test]
fn insert_buckets_keeps_the_last() {
    let mut limiter: LimitedRequests<()> = LimitedRequests::new();
    limiter.insert_buckets(
        &1,
        vec![BucketBuilder::new().limit(1).time_span(60).build(), BucketBuilder::new().limit(5).time_span(60).build()],
    );
    for t in 0..5u64 {
        assert!(limiter.hit_limit(1, 0, t).is_none());
    }
    assert!(limiter.hit_limit(1, 0, 5).is_some());
    limiter.insert_buckets(&2, Vec::new());
    assert!(!limiter.contains_group(2));
}

#[test]
fn cache_or_without_group_answers_none() {
    let mut limiter: LimitedRequests<String> = LimitedRequests::new();
    assert_eq!(limited_cache_or(&mut limiter, 1, 1, 0, || Some("x".to_string())), None);
    limiter.insert_bucket(1, BucketBuilder::new().limit(1).time_span(60).build());
    assert_eq!(limited_cache_or(&mut limiter, 1, 1, 0, || Some("x".to_string())), Some("x".to_string()));
    assert_eq!(limited_cache_or(&mut limiter, 1, 1, 1, || Some("y".to_string())), Some("x".to_string()));
    // A cancelled hit with nothing cached answers with nothing.
    assert_eq!(limited_cache_or(&mut limiter, 1, 2, 2, || None), None);
    assert_eq!(limited_cache_or(&mut limiter, 1, 2, 3, || Some("z".to_string())), None);
}

#[test]
fn mut_cache_or_creates_the_group() {
    let mut limiter: LimitedRequests<String> = LimitedRequests::new();
    match limiter.mut_cache_or(9, 1, &Command(false), 0) {
        CacheStep::Ready(None) => {},
        _ => panic!("an unconvertible key answers with nothing"),
    }
    assert!(!limiter.contains_group(9));
    match limiter.mut_cache_or(9, 1, &Command(true), 0) {
        CacheStep::Compute(None) => {},
        _ => panic!("the first hit passes"),
    }
    assert!(limiter.contains_group(9));
    assert_eq!(limiter.cache_computed(9, 1, Some("v".to_string())), Some("v".to_string()));
    match limiter.mut_cache_or(9, 1, &Command(false), 10) {
        CacheStep::Compute(Some(wait)) => assert_eq!(wait, u128::from(SEC - 10)),
        _ => panic!("the delay asks to wait"),
    }
    match limiter.mut_cache_or_with(10, 1, None, 0) {
        CacheStep::Ready(None) => {},
        _ => panic!("no group, no bucket"),
    }
}

#[test]
fn enum_groups_by_variant() {
    let mut buckets: CachedLimitedEnums<String> = CachedLimitedEnums::default();
    let user1 = SpecificRoute::GetUser(1);
    let user2 = SpecificRoute::GetUser(2);
    let all = SpecificRoute::GetAllUsers;
    assert_eq!(
        buckets.insert_enums(vec![(user1.key(), user1.clone()), (all.key(), all.clone())]),
        Ok(())
    );
    assert_eq!(buckets.insert_converted(EnumKey { variant: 7, id: 0 }, None), Err(EnumKey { variant: 7, id: 0 }));
    // Two hits for user 1 pass, a third is limited; user 2 has its own bucket.
    assert!(buckets.hit_limit(&user1.key(), 0).is_none());
    assert!(buckets.hit_limit(&user1.key(), 1).is_none());
    assert!(buckets.hit_limit(&user1.key(), 2).is_some());
    assert!(buckets.hit_limit(&user2.key(), 3).is_none());
    match buckets.cache_or(&EnumKey { variant: 3, id: 0 }, 0) {
        CacheStep::Ready(None) => {},
        _ => panic!("no group for the variant"),
    }
    buckets.build_group(&EnumKey { variant: 3, id: 0 }).limit(1).time_span(120).build();
    assert!(buckets.hit_limit(&EnumKey { variant: 3, id: 0 }, 0).is_none());
    assert!(buckets.hit_limit(&EnumKey { variant: 3, id: 0 }, 119 * SEC).is_some());
}

#[test]
fn insert_enum_errors_keep_order() {
    let mut buckets: CachedLimitedEnums<String> = CachedLimitedEnums::new();
    let k1 = EnumKey { variant: 1, id: 1 };
    let k2 = EnumKey { variant: 2, id: 2 };
    let k3 = EnumKey { variant: 3, id: 3 };
    assert_eq!(buckets.insert_enum(k1, &Command(false)), Err(k1));
    assert_eq!(
        buckets.insert_enums(vec![(k2, Command(false)), (k1, Command(true)), (k3, Command(false))]),
        Err(vec![k2, k3])
    );
    assert!(buckets.hit_limit(&k1, 0).is_none());
    assert!(buckets.hit_limit(&k1, 1).is_some());
    assert!(buckets.hit_limit(&k2, 0).is_none());
}

#[test]
fn delayed_hits_are_not_counted() {
    // Four hits in 60 seconds, one second apart, delayed instead of cancelled.
    let mut limiter: LimitedRequests<()> = LimitedRequests::new();
    limiter.build_group(1).limit(4).time_span(60).delay(1).await_ratelimits(true).build();
    assert!(limiter.hit_limit(1, 1, 0).is_none());
    // Back to back: the second hit is delayed until one second after the first.
    let info = limiter.hit_limit(1, 1, 1).expect("delayed");
    assert_eq!(info.action, RateLimitAction::Delayed);
    assert_eq!(info.rate_limit, u128::from(SEC - 1));
    assert_eq!(info.active_delays, 0);
    // The delayed hit took no ticket: three more pass, one second apart, and
    // the fifth hit of the window is delayed until the window ends.
    assert!(limiter.hit_limit(1, 1, SEC).is_none());
    assert!(limiter.hit_limit(1, 1, 2 * SEC).is_none());
    assert!(limiter.hit_limit(1, 1, 3 * SEC).is_none());
    let info = limiter.hit_limit(1, 1, 4 * SEC).expect("window used up");
    assert_eq!(info.rate_limit, u128::from(60 * SEC - 4 * SEC));
    assert!(info.is_first_try);
}

#[test]
fn enum_mut_cache_or_keeps_an_existing_group() {
    let mut buckets: CachedLimitedEnums<String> = CachedLimitedEnums::new();
    let key = EnumKey { variant: 4, id: 1 };
    buckets.build_group(&key).limit(1).time_span(60).build();
    // The value does not convert, but the group exists: it is hit as by
    // `cache_or`.
    match buckets.mut_cache_or(&key, &Command(false), 0) {
        CacheStep::Compute(None) => {},
        _ => panic!("the first hit on the existing group passes"),
    }
    assert_eq!(buckets.cache_computed(&key, Some("w".to_string())), Some("w".to_string()));
    match buckets.mut_cache_or(&key, &Command(true), 1) {
        CacheStep::Ready(Some(v)) => assert_eq!(v, "w"),
        _ => panic!("the existing group keeps its tickets and cache"),
    }
}
