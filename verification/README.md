# eternity

Rate limiting of keyed hits, with a cache of one value per key, verified with
Verus.

- `src/lib.rs`: `Bucket`, its builder, and the model of one hit
  (`hit_outcome`): tickets per window, a delay between hits, and the report of
  a refused hit. Instants are nanoseconds (`u64`) handed in by the caller.
- `src/multi_bucket.rs`: `LimitedRequests` (buckets by group number) and
  `CachedLimitedEnums` (buckets by enum variant), with their builders and the
  two steps of a cached lookup (`cache_or`, then `cache_computed`).
- `src/laws.rs`: what holds of every hit, proved over the model.
- `app/lib.rs`: the asynchronous front end: it reads the clock, sleeps where a
  rate limit delays a hit, runs the futures that compute values, and shares the
  limiters behind `tokio` mutexes.
