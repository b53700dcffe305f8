//! Rate limiting of keyed hits, with an optional cache of one value per key.
//!
//! Time is plain data here: an instant is a count of nanoseconds (`u64`) on a
//! monotonic clock chosen by the caller, and a span of time is a count of
//! nanoseconds (`u128`). The caller reads the clock and performs any waiting
//! that a rate limit asks for.
use std::collections::HashMap;
use vstd::prelude::*;

pub mod laws;
pub mod multi_bucket;

verus! {

/// Nanoseconds in one second.
pub const NANOS_PER_SEC: u128 = 1_000_000_000u128;

/// Action taken for the command invocation.
#[derive(Clone, Copy, Debug, PartialEq, Eq, Structural)]
pub enum RateLimitAction {
    /// The invocation is to be delayed by the reported span of time.
    Delayed,
    /// Tried to delay invocation but maximum of delays reached.
    FailedDelay,
    /// Cancelled the invocation due to time or ticket reasons.
    Cancelled,
}

/// Builds a [`Bucket`].
///
/// The term `hit` represents one attempt to hit the rate limit.
pub struct BucketBuilder {
    /// Time between two hits, in seconds.
    pub(crate) delay: u64,
    /// Length of one rate limit window, in seconds.
    pub(crate) time_span: u64,
    /// Hits allowed per window.
    pub(crate) limit: u32,
    /// Whether a rate limit delays the hit instead of cancelling it.
    pub(crate) await_ratelimits: bool,
}

/// What a [`BucketBuilder`] holds: the settings of the bucket it builds.
pub struct BuilderView {
    /// Time between two hits, in seconds.
    pub delay: u64,
    /// Length of one rate limit window, in seconds.
    pub time_span: u64,
    /// Hits allowed per window.
    pub limit: u32,
    /// Whether a rate limit delays the hit instead of cancelling it.
    pub await_ratelimits: bool,
}

impl View for BucketBuilder {
    type V = BuilderView;

    closed spec fn view(&self) -> BuilderView {
        BuilderView {
            delay: self.delay,
            time_span: self.time_span,
            limit: self.limit,
            await_ratelimits: self.await_ratelimits,
        }
    }
}

/// The span of time that `secs` whole seconds make, in nanoseconds.
pub open spec fn secs_to_nanos(secs: u64) -> u128 {
    (secs * NANOS_PER_SEC) as u128
}

fn nanos_of_secs(secs: u64) -> (n: u128)
    ensures
        n == secs_to_nanos(secs),
        n == secs * NANOS_PER_SEC,
{
    assert(secs * NANOS_PER_SEC <= u64::MAX * NANOS_PER_SEC) by (nonlinear_arith)
        requires
            secs <= u64::MAX,
    ;
    (secs as u128) * NANOS_PER_SEC
}

/// The settings of a fresh builder: no delay, an empty window, one hit per
/// window, and rate limits that cancel.
pub open spec fn default_builder() -> BuilderView {
    BuilderView { delay: 0, time_span: 0, limit: 1, await_ratelimits: false }
}

impl Default for BucketBuilder {
    /// A builder with no delay, no window, a limit of one hit and cancelling
    /// rate limits.
    fn default() -> (b: Self)
        ensures
            b@ == default_builder(),
    {
        BucketBuilder { delay: 0, time_span: 0, limit: 1, await_ratelimits: false }
    }
}

impl BucketBuilder {
    /// A bucket collecting tickets per command invocation.
    pub fn new() -> (b: Self)
        ensures
            b@ == default_builder(),
    {
        Self::default()
    }

    /// The time to elapse between hitting the limiter.
    ///
    /// Expressed in seconds.
    pub fn delay(&mut self, secs: u64) -> (r: &mut Self)
        ensures
            r@ == (BuilderView { delay: secs, ..old(self)@ }),
            *final(self) == *final(r),
    {
        self.delay = secs;
        self
    }

    /// How long the bucket will apply for.
    ///
    /// Expressed in seconds.
    pub fn time_span(&mut self, secs: u64) -> (r: &mut Self)
        ensures
            r@ == (BuilderView { time_span: secs, ..old(self)@ }),
            *final(self) == *final(r),
    {
        self.time_span = secs;
        self
    }

    /// Number of hits allowed per [`time_span`].
    ///
    /// [`time_span`]: Self::time_span
    pub fn limit(&mut self, n: u32) -> (r: &mut Self)
        ensures
            r@ == (BuilderView { limit: n, ..old(self)@ }),
            *final(self) == *final(r),
    {
        self.limit = n;
        self
    }

    /// If this is set to `true`, the invocation of the
    /// command will be delayed `amount` times instead of stopping command
    /// dispatch.
    ///
    /// By default this value is `false` and rate limits will cancel instead.
    pub fn await_ratelimits(&mut self, is_awaiting: bool) -> (r: &mut Self)
        ensures
            r@ == (BuilderView { await_ratelimits: is_awaiting, ..old(self)@ }),
            *final(self) == *final(r),
    {
        self.await_ratelimits = is_awaiting;
        self
    }

    /// Constructs the bucket.
    pub fn build<Value>(&mut self) -> (b: Bucket<Value>)
        ensures
            *final(self) == *old(self),
            b@ == built_bucket::<Value>(old(self)@),
    {
        Bucket {
            ratelimit: RateLimitSpec { delay: self.delay, limit: (self.time_span, self.limit) },
            tickets_for: HashMap::new(),
            await_ratelimits: self.await_ratelimits,
        }
    }
}

/// The empty bucket that a builder with the settings `b` builds.
pub open spec fn built_bucket<Value>(b: BuilderView) -> BucketView<Value> {
    BucketView {
        ratelimit: RateLimitSpec { delay: b.delay, limit: (b.time_span, b.limit) },
        tickets_for: Map::empty(),
        await_ratelimits: b.await_ratelimits,
    }
}

/// A rate limit specification, where `delay` defines how much time must elapse
/// between each hit and the `limit` defines how long the rate limit applies
/// and the maximum amount of hits.
#[derive(Clone, Copy, Debug)]
pub struct RateLimitSpec {
    /// The time between each hit to elapse, in seconds.
    pub delay: u64,
    /// A tuple consisting of first the duration for the rate limit to apply,
    /// in seconds, and second the maximum of hits until the rate limit
    /// is triggered.
    pub limit: (u64, u32),
}

/// An active rate limit record.
pub struct RateLimitInstance<Value> {
    /// Last time the instance has been hit successfully.
    pub last_time: Option<u64>,
    /// The time the current window started.
    pub set_time: u64,
    /// The amount of hits taken in the current window.
    pub tickets: u32,
    /// The amount of delays awaited: no hit raises it, and a hit that passes
    /// lowers it by one.
    pub awaiting: u32,
    /// Whether no rate limit info has been returned for this record since the
    /// last hit that passed or the last window that started. A delayed hit
    /// returns no info, so it leaves this as it is.
    pub is_first_try: bool,
    /// The cached value.
    pub cached_value: Option<Value>,
}

/// The record of a key that has not been hit before, created at `now`.
pub open spec fn fresh_instance<Value>(now: u64) -> RateLimitInstance<Value> {
    RateLimitInstance {
        last_time: None,
        set_time: now,
        tickets: 0,
        awaiting: 0,
        is_first_try: true,
        cached_value: None,
    }
}

impl<Value> RateLimitInstance<Value> {
    /// A record created at `creation_time`.
    pub fn new(creation_time: u64) -> (r: Self)
        ensures
            r == fresh_instance::<Value>(creation_time),
    {
        RateLimitInstance {
            last_time: None,
            set_time: creation_time,
            tickets: 0,
            awaiting: 0,
            is_first_try: true,
            cached_value: None,
        }
    }
}

/// Describes the rate limit encountered.
///
/// If this value is returned, the callee informs about a rate limit.
///
/// The term `hit` represents one attempt to hit the rate limit.
#[derive(Clone, Debug)]
pub struct RateLimitInfo<Value> {
    /// Time to elapse in order to invoke a command again, in nanoseconds.
    pub rate_limit: u128,
    /// Amount of active delays by this target, as its record counts them.
    pub active_delays: u32,
    /// Whether this is the first time the rate limit info has been
    /// returned for the bucket without the rate limit to elapse.
    pub is_first_try: bool,
    /// Action taken for this rate limit: `Delayed` asks the caller to wait
    /// `rate_limit` and then go on as if the hit had passed.
    pub action: RateLimitAction,
    /// If a value has been cached, this field will yield a value.
    pub cached: Option<Value>,
}

/// Whether the hits of the current window have used up the limit.
pub open spec fn tickets_exhausted<Value>(rl: RateLimitSpec, inst: RateLimitInstance<Value>) -> bool {
    inst.tickets >= rl.limit.1
}

/// The instant at which the current window of `inst` ends.
pub open spec fn window_end<Value>(rl: RateLimitSpec, inst: RateLimitInstance<Value>) -> int {
    inst.set_time + secs_to_nanos(rl.limit.0)
}

/// The instant at which the delay after the last hit that passed ends.
pub open spec fn delay_end<Value>(rl: RateLimitSpec, inst: RateLimitInstance<Value>) -> int {
    inst.last_time->0 + secs_to_nanos(rl.delay)
}

/// The record after its window has been restarted at `now`.
pub open spec fn reset_window<Value>(inst: RateLimitInstance<Value>, now: u64) -> RateLimitInstance<Value> {
    RateLimitInstance { tickets: 0, set_time: now, cached_value: None, is_first_try: true, ..inst }
}

/// The record that a hit at `now` is judged on: `inst`, with its window
/// restarted if the window is used up and has ended.
pub open spec fn current_window<Value>(
    rl: RateLimitSpec,
    inst: RateLimitInstance<Value>,
    now: u64,
) -> RateLimitInstance<Value> {
    if tickets_exhausted(rl, inst) && now >= window_end(rl, inst) {
        reset_window(inst, now)
    } else {
        inst
    }
}

/// The record after a hit at `now` has passed.
pub open spec fn pass_hit<Value>(inst: RateLimitInstance<Value>, now: u64) -> RateLimitInstance<Value> {
    RateLimitInstance {
        awaiting: inst.awaiting.saturating_sub(1),
        tickets: (inst.tickets + 1) as u32,
        is_first_try: true,
        last_time: Some(now),
        cached_value: None,
        ..inst
    }
}

/// The record after a hit has been refused: a cancelled hit returns its
/// report, and the record notes that the next report is no first try; a
/// delayed hit is only waited out, and leaves the record as it was.
pub open spec fn refuse_hit<Value>(inst: RateLimitInstance<Value>, await_ratelimits: bool) -> RateLimitInstance<Value> {
    if await_ratelimits {
        inst
    } else {
        RateLimitInstance { is_first_try: false, ..inst }
    }
}

/// What a hit leads to.
pub struct HitOutcome<Value> {
    /// The record afterwards.
    pub record: RateLimitInstance<Value>,
    /// Where the hit is refused, the span of time until the limit that
    /// refused it ends, in nanoseconds.
    pub wait: Option<u128>,
    /// Where the hit is refused, whether the refusal is the first since the
    /// last hit that passed or the last window that started.
    pub first_try: bool,
}

/// The span of time that the limits of `rl` refuse a hit at `now` on the
/// record `inst` for, if they refuse it: until the end of a used-up window,
/// or until the end of the delay after the last hit that passed.
pub open spec fn refusal_wait<Value>(rl: RateLimitSpec, inst: RateLimitInstance<Value>, now: u64) -> Option<u128> {
    if tickets_exhausted(rl, inst) {
        Some((window_end(rl, inst) - now) as u128)
    } else if inst.last_time is Some && now < delay_end(rl, inst) {
        Some((delay_end(rl, inst) - now) as u128)
    } else {
        None
    }
}

/// A hit at `now` on the record `inst`.
pub open spec fn hit_outcome<Value>(
    rl: RateLimitSpec,
    await_ratelimits: bool,
    inst: RateLimitInstance<Value>,
    now: u64,
) -> HitOutcome<Value> {
    let current = current_window(rl, inst, now);
    match refusal_wait(rl, current, now) {
        Some(wait) => HitOutcome {
            record: refuse_hit(current, await_ratelimits),
            wait: Some(wait),
            first_try: current.is_first_try,
        },
        None => HitOutcome { record: pass_hit(current, now), wait: None, first_try: true },
    }
}

/// The action a refused hit takes.
pub open spec fn refusal_action(await_ratelimits: bool) -> RateLimitAction {
    if await_ratelimits {
        RateLimitAction::Delayed
    } else {
        RateLimitAction::Cancelled
    }
}

/// `info` reports the refused hit that `outcome` describes.
pub open spec fn reports<Value: Clone>(
    info: RateLimitInfo<Value>,
    outcome: HitOutcome<Value>,
    await_ratelimits: bool,
) -> bool {
    &&& outcome.wait == Some(info.rate_limit)
    &&& info.active_delays == outcome.record.awaiting
    &&& info.is_first_try == outcome.first_try
    &&& info.action == refusal_action(await_ratelimits)
    &&& (info.cached is Some <==> outcome.record.cached_value is Some)
    &&& (outcome.record.cached_value is Some ==> cloned(outcome.record.cached_value->0, info.cached->0))
}

/// What the caller of a caching hit is to do next.
#[derive(Debug)]
pub enum CacheStep<Value> {
    /// Answer with this value; nothing is to be computed.
    Ready(Option<Value>),
    /// Wait the given span of time in nanoseconds, if there is one, then
    /// compute the value and hand it back to have it cached.
    Compute(Option<u128>),
}

/// `r` is what a caching hit answers after the hit that `outcome` describes:
/// a hit that passes, or that is delayed, asks for the value to be computed
/// (after the delay); a cancelled hit answers with a clone of the cached
/// value, or with nothing if there is none.
pub open spec fn cache_answer<Value: Clone>(
    r: CacheStep<Value>,
    outcome: HitOutcome<Value>,
    await_ratelimits: bool,
) -> bool {
    match outcome.wait {
        None => r == CacheStep::<Value>::Compute(None),
        Some(w) => if await_ratelimits {
            r == CacheStep::<Value>::Compute(Some(w))
        } else {
            match outcome.record.cached_value {
                Some(c) => r matches CacheStep::Ready(Some(v)) && cloned(c, v),
                None => r == CacheStep::<Value>::Ready(None),
            }
        },
    }
}

/// The record of `key` in `b` with `value` cached, if `key` has one.
pub open spec fn with_cached<Value>(b: BucketView<Value>, key: u64, value: Value) -> BucketView<Value> {
    if b.tickets_for.contains_key(key) {
        BucketView {
            tickets_for: b.tickets_for.insert(
                key,
                RateLimitInstance { cached_value: Some(value), ..b.tickets_for[key] },
            ),
            ..b
        }
    } else {
        b
    }
}

/// What a [`Bucket`] holds.
pub struct BucketView<Value> {
    /// The rate limit of every key.
    pub ratelimit: RateLimitSpec,
    /// The record of each key hit so far.
    pub tickets_for: Map<u64, RateLimitInstance<Value>>,
    /// Whether a rate limit delays the hit instead of cancelling it.
    pub await_ratelimits: bool,
}

impl<Value> BucketView<Value> {
    /// The record that a hit at `now` on `key` starts from.
    pub open spec fn instance_for(self, key: u64, now: u64) -> RateLimitInstance<Value> {
        if self.tickets_for.contains_key(key) {
            self.tickets_for[key]
        } else {
            fresh_instance(now)
        }
    }

    /// A hit at `now` on `key`.
    pub open spec fn outcome_of(self, key: u64, now: u64) -> HitOutcome<Value> {
        hit_outcome(self.ratelimit, self.await_ratelimits, self.instance_for(key, now), now)
    }
}

/// The bucket `b` after a hit on `key` at `now`.
pub open spec fn after_hit<Value>(b: BucketView<Value>, key: u64, now: u64) -> BucketView<Value> {
    BucketView { tickets_for: b.tickets_for.insert(key, b.outcome_of(key, now).record), ..b }
}

/// This type checks for rate limits on keys.
/// It caches one value per key.
pub struct Bucket<Value> {
    pub(crate) ratelimit: RateLimitSpec,
    pub(crate) tickets_for: HashMap<u64, RateLimitInstance<Value>>,
    pub(crate) await_ratelimits: bool,
}

impl<Value> View for Bucket<Value> {
    type V = BucketView<Value>;

    closed spec fn view(&self) -> BucketView<Value> {
        BucketView {
            ratelimit: self.ratelimit,
            tickets_for: self.tickets_for@,
            await_ratelimits: self.await_ratelimits,
        }
    }
}

impl<Value: Clone> Bucket<Value> {
    /// Tries to perform a hit on `key` in the bucket at the instant `now`.
    /// If no hit can be performed, this method will return the rate limit.
    /// Otherwise, the method will return `None`.
    pub fn hit_limit(&mut self, key: u64, now: u64) -> (r: Option<RateLimitInfo<Value>>)
        ensures
            final(self)@ == after_hit(old(self)@, key, now),
            match old(self)@.outcome_of(key, now).wait {
                None => r is None,
                Some(_) => r is Some && reports(r->0, old(self)@.outcome_of(key, now), old(self)@.await_ratelimits),
            },
    {
        broadcast use vstd::std_specs::hash::group_hash_axioms;
        let ghost before = old(self)@;
        let mut inst = match self.tickets_for.remove(&key) {
            Some(i) => i,
            None => RateLimitInstance::new(now),
        };
        assert(inst == before.instance_for(key, now));
        let (time_span, limit) = self.ratelimit.limit;
        let span = nanos_of_secs(time_span);
        if inst.tickets >= limit && now as u128 >= inst.set_time as u128 + span {
            inst.tickets = 0;
            inst.set_time = now;
            inst.cached_value = None;
            inst.is_first_try = true;
        }
        let ghost current = inst;
        let wait: Option<u128> = if inst.tickets >= limit {
            Some(inst.set_time as u128 + span - now as u128)
        } else {
            let delay = nanos_of_secs(self.ratelimit.delay);
            match inst.last_time {
                Some(last) if (now as u128) < last as u128 + delay => Some(last as u128 + delay - now as u128),
                _ => None,
            }
        };
        assert(wait == refusal_wait(before.ratelimit, current, now));
        let r = match wait {
            Some(w) => {
                let info = Self::rating(&mut inst, w, self.await_ratelimits);
                Some(info)
            },
            None => {
                inst.awaiting = inst.awaiting.saturating_sub(1);
                inst.tickets = inst.tickets + 1;
                inst.is_first_try = true;
                inst.last_time = Some(now);
                inst.cached_value = None;
                None
            },
        };
        assert(inst == before.outcome_of(key, now).record);
        self.tickets_for.insert(key, inst);
        assert(self.tickets_for@ =~= before.tickets_for.insert(key, before.outcome_of(key, now).record));
        r
    }

    /// Checks the bucket for a rate limit on `key` at `now`.
    /// If a rate limit cancels the hit, the answer is a clone of the cached
    /// value, or `None` if no value is cached. Otherwise the value is to be
    /// computed (after the wait that a delaying rate limit asks for) and
    /// handed to [`cache_computed`](Self::cache_computed).
    pub fn hit_or_cache(&mut self, key: u64, now: u64) -> (r: CacheStep<Value>)
        ensures
            final(self)@ == after_hit(old(self)@, key, now),
            cache_answer(r, old(self)@.outcome_of(key, now), old(self)@.await_ratelimits),
    {
        answer_of(self.hit_limit(key, now))
    }

    /// Caches the value computed after [`hit_or_cache`](Self::hit_or_cache)
    /// and answers with it; nothing is cached when no value was computed.
    pub fn cache_computed(&mut self, key: u64, computed: Option<Value>) -> (r: Option<Value>)
        ensures
            r == computed,
            computed is None ==> *final(self) == *old(self),
            computed matches Some(v) ==> exists|c: Value|
                cloned(v, c) && final(self)@ == with_cached(old(self)@, key, c),
    {
        match computed {
            Some(to_cache) => {
                let value = to_cache.clone();
                assert(cloned(to_cache, value));
                self.add_cache_value(key, value);
                Some(to_cache)
            },
            None => None,
        }
    }

    /// Inserts a cache value into the record of `key`, if `key` has one.
    pub fn add_cache_value(&mut self, key: u64, value: Value)
        ensures
            final(self)@ == with_cached(old(self)@, key, value),
    {
        broadcast use vstd::std_specs::hash::group_hash_axioms;
        let ghost before = old(self)@;
        if let Some(mut instance) = self.tickets_for.remove(&key) {
            instance.cached_value = Some(value);
            self.tickets_for.insert(key, instance);
            assert(self.tickets_for@ =~= before.tickets_for.insert(key, instance));
        } else {
            assert(self.tickets_for@ =~= before.tickets_for);
        }
    }

    /// Reports a refused hit on `ticket_owner` with `ratelimit` left. A
    /// cancelled hit returns the report, so the record notes that the next
    /// report is no first try; a delayed hit leaves the record as it was.
    fn rating(
        ticket_owner: &mut RateLimitInstance<Value>,
        ratelimit: u128,
        await_ratelimits: bool,
    ) -> (info: RateLimitInfo<Value>)
        ensures
            *final(ticket_owner) == refuse_hit(*old(ticket_owner), await_ratelimits),
            reports(
                info,
                HitOutcome { record: *final(ticket_owner), wait: Some(ratelimit), first_try: old(ticket_owner).is_first_try },
                await_ratelimits,
            ),
    {
        let was_first_try = ticket_owner.is_first_try;
        let action = if await_ratelimits {
            RateLimitAction::Delayed
        } else {
            ticket_owner.is_first_try = false;
            RateLimitAction::Cancelled
        };
        RateLimitInfo {
            rate_limit: ratelimit,
            active_delays: ticket_owner.awaiting,
            cached: ticket_owner.cached_value.clone(),
            action,
            is_first_try: was_first_try,
        }
    }
}

/// What a caching hit answers after a hit whose report is `info`.
pub(crate) fn answer_of<Value: Clone>(info: Option<RateLimitInfo<Value>>) -> (r: CacheStep<Value>)
    ensures
        info is None ==> r == CacheStep::<Value>::Compute(None),
        info matches Some(i) ==> (i.action == RateLimitAction::Delayed ==> r == CacheStep::<Value>::Compute(Some(i.rate_limit))),
        info matches Some(i) ==> (i.action != RateLimitAction::Delayed ==> r == CacheStep::<Value>::Ready(i.cached)),
{
    match info {
        None => CacheStep::Compute(None),
        Some(info) => match info.action {
            RateLimitAction::Delayed => CacheStep::Compute(Some(info.rate_limit)),
            _ => CacheStep::Ready(info.cached),
        },
    }
}

} // verus!
