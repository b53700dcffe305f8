//! A multi-bucket type uses groups of buckets. Each group represents
//! a category, e.g. a command name or HTTP endpoint, which then contains
//! buckets. The buckets represent individual identities, such as the command
//! user's ID or the endpoint parameters.
//!
//! # Group and Bucket Keys
//! The group key accesses a bucket group and the bucket key accesses the
//! actual bucket instance containing the rate limit data within a group.
//! Both are numbers chosen by the caller.
use crate::{
    after_hit, answer_of, built_bucket, cache_answer, reports, with_cached, Bucket, BucketBuilder,
    BucketView, BuilderView, CacheStep, RateLimitInfo, default_builder,
};
use std::collections::HashMap;
use vstd::prelude::*;

verus! {

/// Creates a bucket using the key.
///
/// This trait ensures that all possible valid sets can become a bucket.
/// The `Value` resembles the cached value.
pub trait ToBucket<Value = ()> {
    /// Turns a key into a bucket.
    fn to_bucket(&self) -> Option<Bucket<Value>>;
}

/// The buckets of a map of groups, each seen by its view.
pub open spec fn group_views<Value>(m: Map<u64, Bucket<Value>>) -> Map<u64, BucketView<Value>> {
    Map::new(|g: u64| m.contains_key(g), |g: u64| m[g]@)
}

/// The groups `m` after inserting, in order, the group of each pair of `s`
/// whose bucket is there.
pub open spec fn insert_converted_all<Value>(
    m: Map<u64, BucketView<Value>>,
    s: Seq<(u64, Option<BucketView<Value>>)>,
) -> Map<u64, BucketView<Value>>
    decreases s.len(),
{
    if s.len() == 0 {
        m
    } else {
        let last = s.last();
        let before = insert_converted_all(m, s.drop_last());
        match last.1 {
            Some(b) => before.insert(last.0, b),
            None => before,
        }
    }
}

/// The keys of the pairs of `s` that have no bucket, in order.
pub open spec fn unconverted_keys<K, Value>(s: Seq<(K, Option<BucketView<Value>>)>) -> Seq<K>
    decreases s.len(),
{
    if s.len() == 0 {
        Seq::empty()
    } else {
        let before = unconverted_keys(s.drop_last());
        match s.last().1 {
            Some(_) => before,
            None => before.push(s.last().0),
        }
    }
}

/// Each pair of `v` seen with the view of its bucket.
pub open spec fn pairs_view<K, Value>(v: Seq<(K, Option<Bucket<Value>>)>) -> Seq<
    (K, Option<BucketView<Value>>),
> {
    v.map_values(
        |p: (K, Option<Bucket<Value>>)|
            (
                p.0,
                match p.1 {
                    Some(b) => Some(b@),
                    None => None,
                },
            ),
    )
}

/// The view of the bucket in `b`, if there is one.
pub open spec fn bucket_view_of<Value>(b: Option<Bucket<Value>>) -> Option<BucketView<Value>> {
    match b {
        Some(bucket) => Some(bucket@),
        None => None,
    }
}

/// The groups `new` and the report `r` are what a hit on `bucket_key` in the
/// group `group_key` of the groups `old` at `now` leads to: the hit on the
/// bucket of that group, the other groups unchanged; or, where there is no
/// such group, no report and no change.
pub open spec fn group_hit<Value: Clone>(
    old: Map<u64, BucketView<Value>>,
    group_key: u64,
    bucket_key: u64,
    now: u64,
    new: Map<u64, BucketView<Value>>,
    r: Option<RateLimitInfo<Value>>,
) -> bool {
    if old.contains_key(group_key) {
        let b = old[group_key];
        &&& new == old.insert(group_key, after_hit(b, bucket_key, now))
        &&& match b.outcome_of(bucket_key, now).wait {
            None => r is None,
            Some(_) => r is Some && reports(r->0, b.outcome_of(bucket_key, now), b.await_ratelimits),
        }
    } else {
        r is None && new == old
    }
}

/// The groups `new` and the answer `r` are what a cached lookup on
/// `bucket_key` in the group `group_key` of the groups `old` at `now` leads
/// to: the hit on the bucket of that group, the other groups unchanged, and
/// the answer of a caching hit; or, where there is no such group, the answer
/// `None` and no change.
pub open spec fn group_lookup<Value: Clone>(
    old: Map<u64, BucketView<Value>>,
    group_key: u64,
    bucket_key: u64,
    now: u64,
    new: Map<u64, BucketView<Value>>,
    r: CacheStep<Value>,
) -> bool {
    if old.contains_key(group_key) {
        let b = old[group_key];
        &&& new == old.insert(group_key, after_hit(b, bucket_key, now))
        &&& cache_answer(r, b.outcome_of(bucket_key, now), b.await_ratelimits)
    } else {
        r == CacheStep::<Value>::Ready(None) && new == old
    }
}

/// Like [`group_lookup`], where a missing group is first created with the
/// bucket `converted`, if there is one.
pub open spec fn group_lookup_creating<Value: Clone>(
    old: Map<u64, BucketView<Value>>,
    group_key: u64,
    bucket_key: u64,
    converted: Option<BucketView<Value>>,
    now: u64,
    new: Map<u64, BucketView<Value>>,
    r: CacheStep<Value>,
) -> bool {
    let groups = if !old.contains_key(group_key) && converted is Some {
        old.insert(group_key, converted->0)
    } else {
        old
    };
    group_lookup(groups, group_key, bucket_key, now, new, r)
}

/// This builder borrows a [`LimitedRequests`] and allows to add a new
/// bucket while providing a builder API to the user. The bucket is added
/// once [`build`] is called.
///
/// This type is intended to be provided by [`LimitedRequests::build_group`]
///
/// [`build`]: Self::build
pub struct LimitedRequestsModifier<'a, Value> {
    /// The group that the bucket is built for.
    pub group_key: u64,
    /// The limiter that the bucket is added to.
    pub multi_bucket: &'a mut LimitedRequests<Value>,
    /// The settings of the bucket.
    pub bucket_builder: BucketBuilder,
}

impl<'a, Value: Clone> LimitedRequestsModifier<'a, Value> {
    fn new(group_key: u64, multi_bucket: &'a mut LimitedRequests<Value>) -> (m: Self)
        ensures
            m.group_key == group_key,
            m.bucket_builder@ == default_builder(),
            *m.multi_bucket == *old(multi_bucket),
            *final(multi_bucket) == *final(m.multi_bucket),
    {
        LimitedRequestsModifier { group_key, multi_bucket, bucket_builder: BucketBuilder::default() }
    }

    /// The time to elapse between hitting the limiter.
    ///
    /// Expressed in seconds.
    pub fn delay(self, secs: u64) -> (r: Self)
        ensures
            r.group_key == self.group_key,
            r.bucket_builder@ == (BuilderView { delay: secs, ..self.bucket_builder@ }),
            *r.multi_bucket == *old(self.multi_bucket),
            *final(self.multi_bucket) == *final(r.multi_bucket),
    {
        let mut this = self;
        this.bucket_builder.delay(secs);
        this
    }

    /// How long the bucket will apply for.
    ///
    /// Expressed in seconds.
    pub fn time_span(self, secs: u64) -> (r: Self)
        ensures
            r.group_key == self.group_key,
            r.bucket_builder@ == (BuilderView { time_span: secs, ..self.bucket_builder@ }),
            *r.multi_bucket == *old(self.multi_bucket),
            *final(self.multi_bucket) == *final(r.multi_bucket),
    {
        let mut this = self;
        this.bucket_builder.time_span(secs);
        this
    }

    /// Number of hits allowed per [`time_span`].
    ///
    /// [`time_span`]: Self::time_span
    pub fn limit(self, n: u32) -> (r: Self)
        ensures
            r.group_key == self.group_key,
            r.bucket_builder@ == (BuilderView { limit: n, ..self.bucket_builder@ }),
            *r.multi_bucket == *old(self.multi_bucket),
            *final(self.multi_bucket) == *final(r.multi_bucket),
    {
        let mut this = self;
        this.bucket_builder.limit(n);
        this
    }

    /// If this is set to `true`, the invocation of the
    /// command will be delayed `amount` times instead of stopping command
    /// dispatch.
    ///
    /// By default this value is `false` and rate limits will cancel instead.
    pub fn await_ratelimits(self, is_awaiting: bool) -> (r: Self)
        ensures
            r.group_key == self.group_key,
            r.bucket_builder@ == (BuilderView { await_ratelimits: is_awaiting, ..self.bucket_builder@ }),
            *r.multi_bucket == *old(self.multi_bucket),
            *final(self.multi_bucket) == *final(r.multi_bucket),
    {
        let mut this = self;
        this.bucket_builder.await_ratelimits(is_awaiting);
        this
    }

    /// Constructs the bucket and adds it to the related multi bucket.
    pub fn build(self)
        ensures
            final(self.multi_bucket)@ == old(self.multi_bucket)@.insert(
                self.group_key,
                built_bucket(self.bucket_builder@),
            ),
    {
        let mut this = self;
        let bucket = this.bucket_builder.build();
        this.multi_bucket.insert_bucket(this.group_key, bucket);
    }
}

/// This limiter can use a *group key* for each bucket group and a bucket key
/// to get the bucket instance.
///
/// # Example:
/// Use the number of a command as group key and the user ID as instance key.
/// You can use the same key for both too.
pub struct LimitedRequests<Value> {
    buckets: HashMap<u64, Bucket<Value>>,
}

impl<Value> View for LimitedRequests<Value> {
    type V = Map<u64, BucketView<Value>>;

    closed spec fn view(&self) -> Map<u64, BucketView<Value>> {
        group_views(self.buckets@)
    }
}

impl<Value: Clone> Default for LimitedRequests<Value> {
    /// Creates an empty limiter.
    fn default() -> (r: Self)
        ensures
            r@ == Map::<u64, BucketView<Value>>::empty(),
    {
        Self::new()
    }
}

impl<Value: Clone> LimitedRequests<Value> {
    /// Creates an empty limiter.
    pub fn new() -> (r: Self)
        ensures
            r@ == Map::<u64, BucketView<Value>>::empty(),
    {
        let r = LimitedRequests { buckets: HashMap::new() };
        assert(r@ =~= Map::<u64, BucketView<Value>>::empty());
        r
    }

    /// Inserts a single `bucket` to the group with `group_key`.
    pub fn insert_bucket(&mut self, group_key: u64, bucket: Bucket<Value>)
        ensures
            final(self)@ == old(self)@.insert(group_key, bucket@),
    {
        broadcast use vstd::std_specs::hash::group_hash_axioms;
        let ghost before = old(self)@;
        let ghost b = bucket@;
        self.buckets.insert(group_key, bucket);
        assert(self@ =~= before.insert(group_key, b));
    }

    /// Inserts the group `group_key` with the bucket that its key converted
    /// into, if it converted into one.
    ///
    /// # Errors
    /// If the key did not convert, `group_key` is returned.
    pub fn insert_converted(&mut self, group_key: u64, converted: Option<Bucket<Value>>) -> (r: Result<(), u64>)
        ensures
            r == (if converted is Some { Ok::<(), u64>(()) } else { Err(group_key) }),
            converted matches Some(b) ==> final(self)@ == old(self)@.insert(group_key, b@),
            converted is None ==> final(self)@ == old(self)@,
    {
        match converted {
            Some(bucket) => {
                self.insert_bucket(group_key, bucket);
                Ok(())
            },
            None => Err(group_key),
        }
    }

    /// Inserts a single group by turning `key` into a [`Bucket`] for the
    /// group `group_key`.
    ///
    /// # Errors
    /// If `key` cannot be converted, the method will return `group_key`.
    /// This means, you have provided a key that cannot construct a bucket
    /// group.
    pub fn insert_group<K: ToBucket<Value>>(&mut self, group_key: u64, key: &K) -> (r: Result<(), u64>)
        ensures
            exists|converted: Option<Bucket<Value>>|
                #[trigger] call_ensures(K::to_bucket, (key,), converted) && ({
                    &&& r == (if converted is Some { Ok::<(), u64>(()) } else { Err(group_key) })
                    &&& converted matches Some(b) ==> final(self)@ == old(self)@.insert(group_key, b@)
                    &&& converted is None ==> final(self)@ == old(self)@
                }),
    {
        let converted = key.to_bucket();
        let ghost returned = converted;
        let r = self.insert_converted(group_key, converted);
        assert(call_ensures(K::to_bucket, (key,), returned));
        r
    }

    /// Inserts the groups of `groups` in order, each with the bucket that its
    /// key converted into, if it converted into one.
    ///
    /// # Errors
    /// If some keys did not convert, they are returned in order.
    pub fn insert_all_converted(&mut self, groups: Vec<(u64, Option<Bucket<Value>>)>) -> (r: Result<(), Vec<u64>>)
        ensures
            final(self)@ == insert_converted_all(old(self)@, pairs_view(groups@)),
            match r {
                Ok(_) => unconverted_keys(pairs_view(groups@)).len() == 0,
                Err(keys) => keys@ == unconverted_keys(pairs_view(groups@)) && keys@.len() > 0,
            },
    {
        let ghost all = pairs_view(groups@);
        let ghost start = self@;
        let mut groups = groups;
        let mut erroneous_keys: Vec<u64> = Vec::new();
        let n = groups.len();
        let mut i: usize = 0;
        while i < n
            invariant
                i <= n,
                n == all.len(),
                groups@.len() == n - i,
                pairs_view(groups@) == all.skip(i as int),
                self@ == insert_converted_all(start, all.take(i as int)),
                erroneous_keys@ == unconverted_keys(all.take(i as int)),
            decreases n - i,
        {
            let ghost rest = groups@;
            let (group_key, converted) = groups.remove(0);
            assert(pairs_view(groups@) =~= pairs_view(rest).drop_first());
            assert(pairs_view(rest)[0] == all[i as int]);
            assert(all.take(i + 1).drop_last() =~= all.take(i as int));
            match converted {
                Some(bucket) => {
                    self.insert_bucket(group_key, bucket);
                },
                None => {
                    erroneous_keys.push(group_key);
                },
            }
            i = i + 1;
            assert(all.skip(i as int) =~= all.skip(i - 1).drop_first());
        }
        assert(all.take(n as int) =~= all);
        if erroneous_keys.len() == 0 {
            Ok(())
        } else {
            Err(erroneous_keys)
        }
    }

    /// Inserts multiple groups at once, turning the key of each into a
    /// [`Bucket`] for its group.
    ///
    /// # Errors
    /// If keys cannot be converted, the method will return a `Vec` containing
    /// the group keys of the nonconvertible keys. This means, you have
    /// provided a key that cannot construct a bucket group.
    pub fn insert_groups<K: ToBucket<Value>>(&mut self, bucket_keys: Vec<(u64, K)>) -> (r: Result<(), Vec<u64>>)
        ensures
            exists|conv: Seq<(u64, Option<Bucket<Value>>)>| {
                &&& conv.len() == bucket_keys@.len()
                &&& forall|i: int| 0 <= i < conv.len() ==> (#[trigger] conv[i]).0 == bucket_keys@[i].0
                    && call_ensures(K::to_bucket, (&bucket_keys@[i].1,), conv[i].1)
                &&& final(self)@ == insert_converted_all(old(self)@, pairs_view(conv))
                &&& match r {
                    Ok(_) => unconverted_keys(pairs_view(conv)).len() == 0,
                    Err(keys) => keys@ == unconverted_keys(pairs_view(conv)) && keys@.len() > 0,
                }
            },
    {
        let mut converted: Vec<(u64, Option<Bucket<Value>>)> = Vec::new();
        let n = bucket_keys.len();
        for i in 0..n
            invariant
                n == bucket_keys@.len(),
                converted@.len() == i,
                forall|j: int| 0 <= j < i ==> (#[trigger] converted@[j]).0 == bucket_keys@[j].0
                    && call_ensures(K::to_bucket, (&bucket_keys@[j].1,), converted@[j].1),
        {
            let pair = &bucket_keys[i];
            let bucket = pair.1.to_bucket();
            converted.push((pair.0, bucket));
        }
        let ghost conv = converted@;
        let r = self.insert_all_converted(converted);
        assert(forall|i: int| 0 <= i < conv.len() ==> (#[trigger] conv[i]).0 == bucket_keys@[i].0
            && call_ensures(K::to_bucket, (&bucket_keys@[i].1,), conv[i].1));
        r
    }

    /// Inserts multiple `buckets` to the group with `group_key`, one after
    /// the other: the group ends with the last of them.
    pub fn insert_buckets(&mut self, group_key: &u64, buckets: Vec<Bucket<Value>>)
        ensures
            buckets@.len() == 0 ==> final(self)@ == old(self)@,
            buckets@.len() > 0 ==> final(self)@ == old(self)@.insert(*group_key, buckets@.last()@),
    {
        let ghost all = buckets@;
        let mut buckets = buckets;
        let n = buckets.len();
        let mut i: usize = 0;
        while i < n
            invariant
                i <= n,
                n == all.len(),
                buckets@ == all.skip(i as int),
                i == 0 ==> self@ == old(self)@,
                i > 0 ==> self@ == old(self)@.insert(*group_key, all[i - 1]@),
            decreases n - i,
        {
            let ghost rest = buckets@;
            let bucket = buckets.remove(0);
            assert(buckets@ =~= all.skip(i + 1));
            self.insert_bucket(*group_key, bucket);
            proof {
                if i > 0 {
                    assert(self@ =~= old(self)@.insert(*group_key, all[i as int]@));
                }
            }
            i = i + 1;
        }
    }

    /// Hits `bucket_key` in the group `group_key` at `now`, and returns the
    /// rate limit once the conditions are met. Nothing happens to a group that
    /// does not exist.
    pub fn hit_limit(&mut self, group_key: u64, bucket_key: u64, now: u64) -> (r: Option<RateLimitInfo<Value>>)
        ensures
            group_hit(old(self)@, group_key, bucket_key, now, final(self)@, r),
    {
        broadcast use vstd::std_specs::hash::group_hash_axioms;
        let ghost before = old(self)@;
        match self.buckets.remove(&group_key) {
            Some(mut bucket) => {
                let r = bucket.hit_limit(bucket_key, now);
                self.insert_bucket(group_key, bucket);
                assert(self@ =~= before.insert(group_key, after_hit(before[group_key], bucket_key, now)));
                r
            },
            None => {
                assert(self@ =~= before);
                None
            },
        }
    }

    /// Hits `bucket_key` in the group `group_key` at `now` and tells what to
    /// answer: the cached value (or `None`) if the hit is cancelled, or else
    /// that the value is to be computed and handed to
    /// [`cache_computed`](Self::cache_computed).
    ///
    /// # Difference to [`mut_cache_or`](Self::mut_cache_or)
    /// When the `group_key` does not exist, the group won't be created and
    /// `None` is the answer.
    pub fn cache_or(&mut self, group_key: u64, bucket_key: u64, now: u64) -> (r: CacheStep<Value>)
        ensures
            group_lookup(old(self)@, group_key, bucket_key, now, final(self)@, r),
    {
        let info = self.hit_limit(group_key, bucket_key, now);
        if !self.contains_group(group_key) {
            return CacheStep::Ready(None);
        }
        answer_of(info)
    }

    /// Add a bucket group for the `group_key`.
    /// The method returns a new builder to add it to `self`.
    pub fn build_group(&mut self, group_key: u64) -> (m: LimitedRequestsModifier<'_, Value>)
        ensures
            m.group_key == group_key,
            m.bucket_builder@ == default_builder(),
            *m.multi_bucket == *old(self),
            *final(self) == *final(m.multi_bucket),
    {
        LimitedRequestsModifier::new(group_key, self)
    }

    /// Whether the group `group_key` exists.
    pub fn contains_group(&self, group_key: u64) -> (r: bool)
        ensures
            r == self@.contains_key(group_key),
    {
        broadcast use vstd::std_specs::hash::group_hash_axioms;
        self.buckets.contains_key(&group_key)
    }

    /// Like [`cache_or`](Self::cache_or), but when the group `group_key` does
    /// not exist, it is created with `new_group`, the bucket that its key
    /// converted into; if it did not convert, `None` is the answer.
    pub fn mut_cache_or_with(
        &mut self,
        group_key: u64,
        bucket_key: u64,
        new_group: Option<Bucket<Value>>,
        now: u64,
    ) -> (r: CacheStep<Value>)
        ensures
            group_lookup_creating(old(self)@, group_key, bucket_key, bucket_view_of(new_group), now, final(self)@, r),
    {
        if !self.contains_group(group_key) {
            match new_group {
                Some(bucket) => self.insert_bucket(group_key, bucket),
                None => return CacheStep::Ready(None),
            }
        }
        self.cache_or(group_key, bucket_key, now)
    }

    /// Hits `bucket_key` in the group `group_key` at `now` and tells what to
    /// answer, as [`cache_or`](Self::cache_or) does.
    ///
    /// # Difference to [`cache_or`](Self::cache_or)
    /// When the `group_key` does not exist, the group is created with the
    /// bucket that `key` turns into; if it turns into none, `None` is the
    /// answer. An existing group is used as it is, and `key` is not turned
    /// into a bucket then.
    pub fn mut_cache_or<K: ToBucket<Value>>(
        &mut self,
        group_key: u64,
        bucket_key: u64,
        key: &K,
        now: u64,
    ) -> (r: CacheStep<Value>)
        ensures
            old(self)@.contains_key(group_key) ==> group_lookup(
                old(self)@,
                group_key,
                bucket_key,
                now,
                final(self)@,
                r,
            ),
            !old(self)@.contains_key(group_key) ==> exists|converted: Option<Bucket<Value>>|
                #[trigger] call_ensures(K::to_bucket, (key,), converted) && group_lookup_creating(
                    old(self)@,
                    group_key,
                    bucket_key,
                    bucket_view_of(converted),
                    now,
                    final(self)@,
                    r,
                ),
    {
        if self.contains_group(group_key) {
            self.cache_or(group_key, bucket_key, now)
        } else {
            let converted = key.to_bucket();
            let ghost returned = converted;
            let r = self.mut_cache_or_with(group_key, bucket_key, converted, now);
            assert(call_ensures(K::to_bucket, (key,), returned));
            r
        }
    }

    /// Caches the value computed after a [`cache_or`](Self::cache_or) on
    /// `bucket_key` in the group `group_key`, and answers with it; nothing is
    /// cached when no value was computed.
    pub fn cache_computed(&mut self, group_key: u64, bucket_key: u64, computed: Option<Value>) -> (r: Option<Value>)
        ensures
            r == computed,
            (computed is None || !old(self)@.contains_key(group_key)) ==> final(self)@ == old(self)@,
            old(self)@.contains_key(group_key) ==> (computed matches Some(v) ==> exists|c: Value|
                cloned(v, c) && final(self)@ == old(self)@.insert(
                    group_key,
                    with_cached(old(self)@[group_key], bucket_key, c),
                )),
    {
        broadcast use vstd::std_specs::hash::group_hash_axioms;
        let ghost before = old(self)@;
        match self.buckets.remove(&group_key) {
            Some(mut bucket) => {
                let r = bucket.cache_computed(bucket_key, computed);
                self.insert_bucket(group_key, bucket);
                proof {
                    if computed is None {
                        assert(self@ =~= before);
                    } else {
                        let c = choose|c: Value| cloned(computed->0, c)
                            && bucket@ == with_cached(before[group_key], bucket_key, c);
                        assert(self@ =~= before.insert(group_key, with_cached(before[group_key], bucket_key, c)));
                    }
                }
                r
            },
            None => {
                assert(self@ =~= before);
                computed
            },
        }
    }
}

/// The key of an enum value: `variant` tells the variant apart, ignoring
/// its fields, and `id` tells the whole value apart from the other values of
/// the same variant.
#[derive(Clone, Copy, Debug, PartialEq, Eq, Hash, Structural)]
pub struct EnumKey {
    /// The variant of the value.
    pub variant: u64,
    /// The value among those of its variant.
    pub id: u64,
}

/// Each pair of `s` with its key replaced by the key's variant.
pub open spec fn by_variant<Value>(s: Seq<(EnumKey, Option<BucketView<Value>>)>) -> Seq<
    (u64, Option<BucketView<Value>>),
> {
    s.map_values(|p: (EnumKey, Option<BucketView<Value>>)| (p.0.variant, p.1))
}

/// This builder borrows a [`CachedLimitedEnums`] and allows to add a new
/// bucket while providing a builder API to the user. The bucket is added
/// once [`build`] is called.
///
/// This type is intended to be provided by [`CachedLimitedEnums::build_group`]
///
/// [`build`]: Self::build
pub struct CachedLimitedEnumsModifier<'a, Value> {
    /// The key whose variant the bucket is built for.
    pub key: EnumKey,
    /// The limiter that the bucket is added to.
    pub multi_bucket: &'a mut CachedLimitedEnums<Value>,
    /// The settings of the bucket.
    pub bucket_builder: BucketBuilder,
}

impl<'a, Value: Clone> CachedLimitedEnumsModifier<'a, Value> {
    fn new(key: &EnumKey, multi_bucket: &'a mut CachedLimitedEnums<Value>) -> (m: Self)
        ensures
            m.key == *key,
            m.bucket_builder@ == default_builder(),
            *m.multi_bucket == *old(multi_bucket),
            *final(multi_bucket) == *final(m.multi_bucket),
    {
        CachedLimitedEnumsModifier { key: *key, multi_bucket, bucket_builder: BucketBuilder::default() }
    }

    /// The time to elapse between hitting the limiter.
    ///
    /// Expressed in seconds.
    pub fn delay(self, secs: u64) -> (r: Self)
        ensures
            r.key == self.key,
            r.bucket_builder@ == (BuilderView { delay: secs, ..self.bucket_builder@ }),
            *r.multi_bucket == *old(self.multi_bucket),
            *final(self.multi_bucket) == *final(r.multi_bucket),
    {
        let mut this = self;
        this.bucket_builder.delay(secs);
        this
    }

    /// How long the bucket will apply for.
    ///
    /// Expressed in seconds.
    pub fn time_span(self, secs: u64) -> (r: Self)
        ensures
            r.key == self.key,
            r.bucket_builder@ == (BuilderView { time_span: secs, ..self.bucket_builder@ }),
            *r.multi_bucket == *old(self.multi_bucket),
            *final(self.multi_bucket) == *final(r.multi_bucket),
    {
        let mut this = self;
        this.bucket_builder.time_span(secs);
        this
    }

    /// Number of hits allowed per [`time_span`].
    ///
    /// [`time_span`]: Self::time_span
    pub fn limit(self, n: u32) -> (r: Self)
        ensures
            r.key == self.key,
            r.bucket_builder@ == (BuilderView { limit: n, ..self.bucket_builder@ }),
            *r.multi_bucket == *old(self.multi_bucket),
            *final(self.multi_bucket) == *final(r.multi_bucket),
    {
        let mut this = self;
        this.bucket_builder.limit(n);
        this
    }

    /// If this is set to `true`, the invocation of the
    /// command will be delayed `amount` times instead of stopping command
    /// dispatch.
    ///
    /// By default this value is `false` and rate limits will cancel instead.
    pub fn await_ratelimits(self, is_awaiting: bool) -> (r: Self)
        ensures
            r.key == self.key,
            r.bucket_builder@ == (BuilderView { await_ratelimits: is_awaiting, ..self.bucket_builder@ }),
            *r.multi_bucket == *old(self.multi_bucket),
            *final(self.multi_bucket) == *final(r.multi_bucket),
    {
        let mut this = self;
        this.bucket_builder.await_ratelimits(is_awaiting);
        this
    }

    /// Constructs the bucket and adds it to the related multi bucket.
    pub fn build(self)
        ensures
            final(self.multi_bucket)@ == old(self.multi_bucket)@.insert(
                self.key.variant,
                built_bucket(self.bucket_builder@),
            ),
    {
        let mut this = self;
        let bucket = this.bucket_builder.build();
        this.multi_bucket.insert_bucket(&this.key, bucket);
    }
}

/// A limiter whose keys are the values of an enum.
///
/// # Implementation
/// The variant of a key picks the bucket group, ignoring the fields, and the
/// whole key then picks the actual bucket instance.
///
/// It's tailored to limit calling and caching HTTP endpoints, where the
/// the key represents the endpoints containing arguments.
pub struct CachedLimitedEnums<Value> {
    groups: LimitedRequests<Value>,
}

impl<Value> View for CachedLimitedEnums<Value> {
    type V = Map<u64, BucketView<Value>>;

    closed spec fn view(&self) -> Map<u64, BucketView<Value>> {
        self.groups@
    }
}

impl<Value: Clone> Default for CachedLimitedEnums<Value> {
    /// Create an empty [`CachedLimitedEnums`].
    fn default() -> (r: Self)
        ensures
            r@ == Map::<u64, BucketView<Value>>::empty(),
    {
        Self::new()
    }
}

impl<Value: Clone> CachedLimitedEnums<Value> {
    /// Create an empty [`CachedLimitedEnums`].
    pub fn new() -> (r: Self)
        ensures
            r@ == Map::<u64, BucketView<Value>>::empty(),
    {
        CachedLimitedEnums { groups: LimitedRequests::new() }
    }

    /// Inserts the group of the variant of `key` with the bucket that `key`
    /// converted into, if it converted into one.
    ///
    /// # Errors
    /// If the key did not convert, it is returned.
    pub fn insert_converted(&mut self, key: EnumKey, converted: Option<Bucket<Value>>) -> (r: Result<(), EnumKey>)
        ensures
            r == (if converted is Some { Ok::<(), EnumKey>(()) } else { Err(key) }),
            converted matches Some(b) ==> final(self)@ == old(self)@.insert(key.variant, b@),
            converted is None ==> final(self)@ == old(self)@,
    {
        match self.groups.insert_converted(key.variant, converted) {
            Ok(()) => Ok(()),
            Err(_) => Err(key),
        }
    }

    /// Inserts a single group by turning `source`, the value whose key is
    /// `key`, into a [`Bucket`] for the variant of `key`.
    ///
    /// # Errors
    /// If the value cannot be converted, the method will return `key`.
    pub fn insert_enum<K: ToBucket<Value>>(&mut self, key: EnumKey, source: &K) -> (r: Result<(), EnumKey>)
        ensures
            exists|converted: Option<Bucket<Value>>|
                #[trigger] call_ensures(K::to_bucket, (source,), converted) && ({
                    &&& r == (if converted is Some { Ok::<(), EnumKey>(()) } else { Err(key) })
                    &&& converted matches Some(b) ==> final(self)@ == old(self)@.insert(key.variant, b@)
                    &&& converted is None ==> final(self)@ == old(self)@
                }),
    {
        let converted = source.to_bucket();
        let ghost returned = converted;
        let r = self.insert_converted(key, converted);
        assert(call_ensures(K::to_bucket, (source,), returned));
        r
    }

    /// Inserts an already created bucket for the variant of `key`.
    pub fn insert_bucket(&mut self, key: &EnumKey, bucket: Bucket<Value>)
        ensures
            final(self)@ == old(self)@.insert(key.variant, bucket@),
    {
        self.groups.insert_bucket(key.variant, bucket);
    }

    /// Add a bucket group for the variant of `key`.
    /// The method returns a new builder to add it to `self`.
    pub fn build_group(&mut self, key: &EnumKey) -> (m: CachedLimitedEnumsModifier<'_, Value>)
        ensures
            m.key == *key,
            m.bucket_builder@ == default_builder(),
            *m.multi_bucket == *old(self),
            *final(self) == *final(m.multi_bucket),
    {
        CachedLimitedEnumsModifier::new(key, self)
    }

    /// Inserts the groups of the variants of the keys of `groups` in order,
    /// each with the bucket that its key converted into, if it converted into
    /// one.
    ///
    /// # Errors
    /// If some keys did not convert, they are returned in order.
    pub fn insert_all_converted(&mut self, groups: Vec<(EnumKey, Option<Bucket<Value>>)>) -> (r: Result<(), Vec<EnumKey>>)
        ensures
            final(self)@ == insert_converted_all(old(self)@, by_variant(pairs_view(groups@))),
            match r {
                Ok(_) => unconverted_keys(pairs_view(groups@)).len() == 0,
                Err(keys) => keys@ == unconverted_keys(pairs_view(groups@)) && keys@.len() > 0,
            },
    {
        let ghost all = pairs_view(groups@);
        let mut groups = groups;
        let mut erroneous_keys: Vec<EnumKey> = Vec::new();
        let mut by_group: Vec<(u64, Option<Bucket<Value>>)> = Vec::new();
        let n = groups.len();
        let mut i: usize = 0;
        while i < n
            invariant
                i <= n,
                n == all.len(),
                groups@.len() == n - i,
                pairs_view(groups@) == all.skip(i as int),
                pairs_view(by_group@) == by_variant(all.take(i as int)),
                erroneous_keys@ == unconverted_keys(all.take(i as int)),
            decreases n - i,
        {
            let ghost rest = groups@;
            let (key, converted) = groups.remove(0);
            assert(pairs_view(groups@) =~= pairs_view(rest).drop_first());
            assert(pairs_view(rest)[0] == all[i as int]);
            assert(all.take(i + 1).drop_last() =~= all.take(i as int));
            if converted.is_none() {
                erroneous_keys.push(key);
            }
            let ghost old_by_group = by_group@;
            by_group.push((key.variant, converted));
            assert(by_group@ == old_by_group.push((key.variant, converted)));
            assert(pairs_view(by_group@) =~= pairs_view(old_by_group).push((all[i as int].0.variant, all[i as int].1)));
            assert(by_variant(all.take(i + 1)) =~= by_variant(all.take(i as int)).push((all[i as int].0.variant, all[i as int].1)));
            i = i + 1;
            assert(all.skip(i as int) =~= all.skip(i - 1).drop_first());
        }
        assert(all.take(n as int) =~= all);
        let _ = self.groups.insert_all_converted(by_group);
        if erroneous_keys.len() == 0 {
            Ok(())
        } else {
            Err(erroneous_keys)
        }
    }

    /// Inserts multiple enum values, turning each into a [`Bucket`] for the
    /// variant of its key.
    ///
    /// # Errors
    /// If values cannot be converted, the method will return a `Vec`
    /// containing the keys of the nonconvertible values.
    pub fn insert_enums<K: ToBucket<Value>>(&mut self, keys: Vec<(EnumKey, K)>) -> (r: Result<(), Vec<EnumKey>>)
        ensures
            exists|conv: Seq<(EnumKey, Option<Bucket<Value>>)>| {
                &&& conv.len() == keys@.len()
                &&& forall|i: int| 0 <= i < conv.len() ==> (#[trigger] conv[i]).0 == keys@[i].0
                    && call_ensures(K::to_bucket, (&keys@[i].1,), conv[i].1)
                &&& final(self)@ == insert_converted_all(old(self)@, by_variant(pairs_view(conv)))
                &&& match r {
                    Ok(_) => unconverted_keys(pairs_view(conv)).len() == 0,
                    Err(ks) => ks@ == unconverted_keys(pairs_view(conv)) && ks@.len() > 0,
                }
            },
    {
        let mut converted: Vec<(EnumKey, Option<Bucket<Value>>)> = Vec::new();
        let n = keys.len();
        for i in 0..n
            invariant
                n == keys@.len(),
                converted@.len() == i,
                forall|j: int| 0 <= j < i ==> (#[trigger] converted@[j]).0 == keys@[j].0
                    && call_ensures(K::to_bucket, (&keys@[j].1,), converted@[j].1),
        {
            let pair = &keys[i];
            let bucket = pair.1.to_bucket();
            converted.push((pair.0, bucket));
        }
        let ghost conv = converted@;
        let r = self.insert_all_converted(converted);
        assert(forall|i: int| 0 <= i < conv.len() ==> (#[trigger] conv[i]).0 == keys@[i].0
            && call_ensures(K::to_bucket, (&keys@[i].1,), conv[i].1));
        r
    }

    /// Hits `key` at `now`, and returns the rate limit once the conditions
    /// are met. Nothing happens when the variant of `key` has no group.
    pub fn hit_limit(&mut self, key: &EnumKey, now: u64) -> (r: Option<RateLimitInfo<Value>>)
        ensures
            group_hit(old(self)@, key.variant, key.id, now, final(self)@, r),
    {
        self.groups.hit_limit(key.variant, key.id, now)
    }

    /// Hits `key` at `now` and tells what to answer: the cached value (or
    /// `None`) if the hit is cancelled, or else that the value is to be
    /// computed and handed to [`cache_computed`](Self::cache_computed).
    ///
    /// # Difference to [`mut_cache_or`](Self::mut_cache_or)
    /// When the variant of `key` has no group, the group won't be created and
    /// `None` is the answer.
    pub fn cache_or(&mut self, key: &EnumKey, now: u64) -> (r: CacheStep<Value>)
        ensures
            group_lookup(old(self)@, key.variant, key.id, now, final(self)@, r),
    {
        self.groups.cache_or(key.variant, key.id, now)
    }

    /// Like [`cache_or`](Self::cache_or), but when the variant of `key` has no
    /// group, it is created with `converted`, the bucket that the value of
    /// `key` turned into; if it turned into none, `None` is the answer.
    pub fn mut_cache_or_with(&mut self, key: &EnumKey, converted: Option<Bucket<Value>>, now: u64) -> (r: CacheStep<Value>)
        ensures
            group_lookup_creating(old(self)@, key.variant, key.id, bucket_view_of(converted), now, final(self)@, r),
    {
        self.groups.mut_cache_or_with(key.variant, key.id, converted, now)
    }

    /// Hits `key` at `now` and tells what to answer, as
    /// [`cache_or`](Self::cache_or) does.
    ///
    /// # Difference to [`cache_or`](Self::cache_or)
    /// When the variant of `key` has no group, the group is created with the
    /// bucket that `source`, the value of `key`, turns into; if it turns into
    /// none, `None` is the answer. An existing group is used as it is, and
    /// `source` is not turned into a bucket then.
    pub fn mut_cache_or<K: ToBucket<Value>>(&mut self, key: &EnumKey, source: &K, now: u64) -> (r: CacheStep<Value>)
        ensures
            old(self)@.contains_key(key.variant) ==> group_lookup(
                old(self)@,
                key.variant,
                key.id,
                now,
                final(self)@,
                r,
            ),
            !old(self)@.contains_key(key.variant) ==> exists|converted: Option<Bucket<Value>>|
                #[trigger] call_ensures(K::to_bucket, (source,), converted) && group_lookup_creating(
                    old(self)@,
                    key.variant,
                    key.id,
                    bucket_view_of(converted),
                    now,
                    final(self)@,
                    r,
                ),
    {
        if self.groups.contains_group(key.variant) {
            self.groups.cache_or(key.variant, key.id, now)
        } else {
            let converted = source.to_bucket();
            let ghost returned = converted;
            let r = self.groups.mut_cache_or_with(key.variant, key.id, converted, now);
            assert(call_ensures(K::to_bucket, (source,), returned));
            r
        }
    }

    /// Caches the value computed after a [`cache_or`](Self::cache_or) on
    /// `key`, and answers with it; nothing is cached when no value was
    /// computed.
    pub fn cache_computed(&mut self, key: &EnumKey, computed: Option<Value>) -> (r: Option<Value>)
        ensures
            r == computed,
            (computed is None || !old(self)@.contains_key(key.variant)) ==> final(self)@ == old(self)@,
            old(self)@.contains_key(key.variant) ==> (computed matches Some(v) ==> exists|c: Value|
                cloned(v, c) && final(self)@ == old(self)@.insert(
                    key.variant,
                    with_cached(old(self)@[key.variant], key.id, c),
                )),
    {
        self.groups.cache_computed(key.variant, key.id, computed)
    }
}

} // verus!
