//! What holds of every hit: the limits that a bucket keeps, what its reports
//! say, and what its cache serves.
use crate::multi_bucket::{group_hit, group_lookup, group_lookup_creating, insert_converted_all};
use crate::{
    after_hit, reports, cache_answer, current_window, delay_end, hit_outcome, pass_hit, refuse_hit,
    reset_window, tickets_exhausted, window_end, with_cached, BucketView, CacheStep,
    RateLimitAction, RateLimitInfo, RateLimitInstance, RateLimitSpec, secs_to_nanos, NANOS_PER_SEC,
};
use vstd::prelude::*;

verus! {

/// A hit that passes takes a ticket of the current window, and never more
/// than `limit` of them: either the window goes on with one more ticket
/// taken, or the hit opens a new window, after the old one has ended, with
/// one ticket taken.
pub proof fn lemma_passed_hit_within_limit<Value>(
    rl: RateLimitSpec,
    await_ratelimits: bool,
    inst: RateLimitInstance<Value>,
    now: u64,
)
    requires
        hit_outcome(rl, await_ratelimits, inst, now).wait is None,
    ensures
        ({
            let next = hit_outcome(rl, await_ratelimits, inst, now).record;
            &&& next.tickets <= rl.limit.1
            &&& {
                ||| next.set_time == inst.set_time && next.tickets == inst.tickets + 1
                ||| next.set_time == now && next.tickets == 1 && now >= window_end(rl, inst)
            }
        }),
{
}

/// A limit of zero lets no hit pass.
pub proof fn lemma_limit_zero_allows_no_hit<Value>(
    rl: RateLimitSpec,
    await_ratelimits: bool,
    inst: RateLimitInstance<Value>,
    now: u64,
)
    requires
        rl.limit.1 == 0,
    ensures
        hit_outcome(rl, await_ratelimits, inst, now).wait is Some,
{
}

/// A hit passes only when no hit passed before, or the delay after the last
/// hit that passed has elapsed; the hit that passes becomes the last.
pub proof fn lemma_passed_hit_respects_delay<Value>(
    rl: RateLimitSpec,
    await_ratelimits: bool,
    inst: RateLimitInstance<Value>,
    now: u64,
)
    requires
        hit_outcome(rl, await_ratelimits, inst, now).wait is None,
    ensures
        inst.last_time is Some ==> now >= delay_end(rl, inst),
        hit_outcome(rl, await_ratelimits, inst, now).record.last_time == Some(now),
{
}

/// A refused hit takes no ticket and does not count as the last hit: the
/// record only notes the refusal, after restarting a window that it finds
/// used up and ended.
pub proof fn lemma_refused_hit_not_counted<Value>(
    rl: RateLimitSpec,
    await_ratelimits: bool,
    inst: RateLimitInstance<Value>,
    now: u64,
)
    requires
        hit_outcome(rl, await_ratelimits, inst, now).wait is Some,
    ensures
        ({
            let next = hit_outcome(rl, await_ratelimits, inst, now).record;
            &&& next.last_time == inst.last_time
            &&& next.tickets <= inst.tickets
            &&& {
                ||| next == refuse_hit(inst, await_ratelimits)
                ||| next == refuse_hit(reset_window(inst, now), await_ratelimits)
            }
        }),
{
}

/// The reported wait is the time left until the limit that refused the hit
/// ends: the end of the window, or the end of the delay after the last hit
/// that passed. Some time is always left, but for a window of no length that
/// allows no hit.
pub proof fn lemma_refusal_reports_time_left<Value>(
    rl: RateLimitSpec,
    await_ratelimits: bool,
    inst: RateLimitInstance<Value>,
    now: u64,
)
    requires
        hit_outcome(rl, await_ratelimits, inst, now).wait is Some,
    ensures
        ({
            let wait = hit_outcome(rl, await_ratelimits, inst, now).wait->0;
            &&& {
                ||| now + wait == window_end(rl, current_window(rl, inst, now))
                ||| inst.last_time is Some && now + wait == delay_end(rl, inst)
            }
            &&& (wait > 0 || (rl.limit.0 == 0 && rl.limit.1 == 0))
        }),
{
}

/// Once the window has ended and the delay after the last hit that passed
/// has elapsed, a hit passes under a limit of at least one, and a used-up
/// window starts anew with one ticket taken.
pub proof fn lemma_hit_passes_after_window<Value>(
    rl: RateLimitSpec,
    await_ratelimits: bool,
    inst: RateLimitInstance<Value>,
    now: u64,
)
    requires
        rl.limit.1 >= 1,
        inst.tickets <= rl.limit.1,
        now >= window_end(rl, inst),
        inst.last_time is Some ==> now >= delay_end(rl, inst),
    ensures
        hit_outcome(rl, await_ratelimits, inst, now).wait is None,
        hit_outcome(rl, await_ratelimits, inst, now).record.tickets == if tickets_exhausted(rl, inst) {
            1
        } else {
            inst.tickets + 1
        },
{
}

/// While tickets are left in the window, a hit passes once the delay after
/// the last hit that passed has elapsed.
pub proof fn lemma_hit_passes_with_tickets_left<Value>(
    rl: RateLimitSpec,
    await_ratelimits: bool,
    inst: RateLimitInstance<Value>,
    now: u64,
)
    requires
        !tickets_exhausted(rl, inst),
        inst.last_time is Some ==> now >= delay_end(rl, inst),
    ensures
        hit_outcome(rl, await_ratelimits, inst, now).wait is None,
        hit_outcome(rl, await_ratelimits, inst, now).record == pass_hit(inst, now),
{
}

/// The tickets of a record never exceed the limit.
pub proof fn lemma_tickets_stay_bounded<Value>(
    rl: RateLimitSpec,
    await_ratelimits: bool,
    inst: RateLimitInstance<Value>,
    now: u64,
)
    requires
        inst.tickets <= rl.limit.1,
    ensures
        hit_outcome(rl, await_ratelimits, inst, now).record.tickets <= rl.limit.1,
{
}

/// In a bucket whose records all hold no more tickets than the limit, so do
/// they all after any hit.
pub proof fn lemma_bucket_tickets_stay_bounded<Value>(b: BucketView<Value>, key: u64, now: u64)
    requires
        forall|k: u64| #[trigger] b.tickets_for.contains_key(k) ==> b.tickets_for[k].tickets <= b.ratelimit.limit.1,
    ensures
        forall|k: u64| #[trigger] after_hit(b, key, now).tickets_for.contains_key(k)
            ==> after_hit(b, key, now).tickets_for[k].tickets <= b.ratelimit.limit.1,
{
    lemma_tickets_stay_bounded(b.ratelimit, b.await_ratelimits, b.instance_for(key, now), now);
}

/// A hit changes the record of its key alone, creating it if needed, and
/// leaves the settings of the bucket as they were.
pub proof fn lemma_hit_touches_only_its_key<Value>(b: BucketView<Value>, key: u64, now: u64)
    ensures
        after_hit(b, key, now).tickets_for.dom() == b.tickets_for.dom().insert(key),
        forall|k: u64| k != key && #[trigger] b.tickets_for.contains_key(k)
            ==> after_hit(b, key, now).tickets_for[k] == b.tickets_for[k],
        after_hit(b, key, now).ratelimit == b.ratelimit,
        after_hit(b, key, now).await_ratelimits == b.await_ratelimits,
{
}

/// A hit that passes clears the cached value of its key.
pub proof fn lemma_passed_hit_clears_cache<Value>(
    rl: RateLimitSpec,
    await_ratelimits: bool,
    inst: RateLimitInstance<Value>,
    now: u64,
)
    requires
        hit_outcome(rl, await_ratelimits, inst, now).wait is None,
    ensures
        hit_outcome(rl, await_ratelimits, inst, now).record.cached_value is None,
{
}

/// The record of `key` in `b` refuses a hit at `now` within the window or the
/// delay that it is in, without restarting the window.
pub open spec fn refused_in_place<Value>(b: BucketView<Value>, key: u64, now: u64) -> bool {
    let inst = b.tickets_for[key];
    ||| tickets_exhausted(b.ratelimit, inst) && now < window_end(b.ratelimit, inst)
    ||| !tickets_exhausted(b.ratelimit, inst) && inst.last_time is Some && now < delay_end(b.ratelimit, inst)
}

/// A value cached for a key is what a cancelled caching hit on that key
/// answers with, as long as the hit is refused within the window or the delay
/// in which the value was cached.
pub proof fn lemma_cached_value_served<Value: Clone>(
    b: BucketView<Value>,
    key: u64,
    value: Value,
    now: u64,
    r: CacheStep<Value>,
)
    requires
        b.tickets_for.contains_key(key),
        refused_in_place(b, key, now),
        !b.await_ratelimits,
        cache_answer(r, with_cached(b, key, value).outcome_of(key, now), false),
    ensures
        r matches CacheStep::Ready(Some(v)) && cloned(value, v),
{
}

/// A cancelled caching hit on a key with nothing cached answers with nothing.
pub proof fn lemma_cancelled_lookup_without_cache<Value: Clone>(
    b: BucketView<Value>,
    key: u64,
    now: u64,
    r: CacheStep<Value>,
)
    requires
        b.tickets_for.contains_key(key),
        b.tickets_for[key].cached_value is None,
        refused_in_place(b, key, now),
        !b.await_ratelimits,
        cache_answer(r, b.outcome_of(key, now), false),
    ensures
        r == CacheStep::<Value>::Ready(None),
{
}

/// After a cancelled hit, the record notes that its report was returned:
/// the next refusal, unless a new window has started in between, is no first
/// try.
pub proof fn lemma_cancelled_refusal_clears_first_try<Value>(
    rl: RateLimitSpec,
    inst: RateLimitInstance<Value>,
    now: u64,
    later: u64,
)
    requires
        hit_outcome(rl, false, inst, now).wait is Some,
        ({
            let next = hit_outcome(rl, false, inst, now).record;
            &&& hit_outcome(rl, false, next, later).wait is Some
            &&& !(tickets_exhausted(rl, next) && later >= window_end(rl, next))
        }),
    ensures
        !hit_outcome(rl, false, inst, now).record.is_first_try,
        !hit_outcome(rl, false, hit_outcome(rl, false, inst, now).record, later).first_try,
{
}

/// A delayed hit is only waited out: the record stays as the current window
/// left it, a window that it finds used up and ended restarted.
pub proof fn lemma_delayed_hit_leaves_record<Value>(
    rl: RateLimitSpec,
    inst: RateLimitInstance<Value>,
    now: u64,
)
    requires
        hit_outcome(rl, true, inst, now).wait is Some,
    ensures
        hit_outcome(rl, true, inst, now).record == current_window(rl, inst, now),
{
}

/// No hit raises the count of awaited delays, and a hit that passes lowers it
/// by one.
pub proof fn lemma_delay_count_never_grows<Value>(
    rl: RateLimitSpec,
    await_ratelimits: bool,
    inst: RateLimitInstance<Value>,
    now: u64,
)
    ensures
        ({
            let outcome = hit_outcome(rl, await_ratelimits, inst, now);
            &&& outcome.wait is Some ==> outcome.record.awaiting == inst.awaiting
            &&& outcome.wait is None ==> outcome.record.awaiting == inst.awaiting.saturating_sub(1)
        }),
{
}

/// The record after hits at each of `times` in order, starting from `inst`,
/// and how many of the hits passed.
pub open spec fn replay_hits<Value>(
    rl: RateLimitSpec,
    await_ratelimits: bool,
    inst: RateLimitInstance<Value>,
    times: Seq<u64>,
) -> (RateLimitInstance<Value>, nat)
    decreases times.len(),
{
    if times.len() == 0 {
        (inst, 0)
    } else {
        let before = replay_hits(rl, await_ratelimits, inst, times.drop_last());
        let outcome = hit_outcome(rl, await_ratelimits, before.0, times.last());
        (outcome.record, before.1 + if outcome.wait is None { 1nat } else { 0nat })
    }
}

/// Within one window, no more hits pass than the tickets that the limit
/// leaves: however many hits come, at whatever instants before the end of the
/// window, the tickets taken and the hits that pass stay within `limit`.
pub proof fn lemma_window_caps_passed_hits<Value>(
    rl: RateLimitSpec,
    await_ratelimits: bool,
    inst: RateLimitInstance<Value>,
    times: Seq<u64>,
)
    requires
        inst.tickets <= rl.limit.1,
        forall|i: int| 0 <= i < times.len() ==> #[trigger] times[i] < window_end(rl, inst),
    ensures
        replay_hits(rl, await_ratelimits, inst, times).0.set_time == inst.set_time,
        replay_hits(rl, await_ratelimits, inst, times).0.tickets == inst.tickets + replay_hits(
            rl,
            await_ratelimits,
            inst,
            times,
        ).1,
        inst.tickets + replay_hits(rl, await_ratelimits, inst, times).1 <= rl.limit.1,
    decreases times.len(),
{
    if times.len() > 0 {
        let rest = times.drop_last();
        assert forall|i: int| 0 <= i < rest.len() implies #[trigger] rest[i] < window_end(rl, inst) by {
            assert(rest[i] == times[i]);
        }
        lemma_window_caps_passed_hits(rl, await_ratelimits, inst, rest);
        assert(times.last() == times[times.len() - 1]);
    }
}

/// Hitting a key in a group is hitting that key in the group's bucket, the
/// other groups left as they were; without the group nothing happens and
/// nothing is reported.
pub proof fn lemma_group_hit_is_bucket_hit<Value: Clone>(
    old: Map<u64, BucketView<Value>>,
    group_key: u64,
    bucket_key: u64,
    now: u64,
    new: Map<u64, BucketView<Value>>,
    r: Option<RateLimitInfo<Value>>,
)
    requires
        group_hit(old, group_key, bucket_key, now, new, r),
    ensures
        !old.contains_key(group_key) ==> r is None && new == old,
        old.contains_key(group_key) ==> new.dom() == old.dom() && new[group_key] == after_hit(
            old[group_key],
            bucket_key,
            now,
        ),
        forall|g: u64| g != group_key && #[trigger] old.contains_key(g) ==> new[g] == old[g],
{
    if old.contains_key(group_key) {
        assert(new.dom() =~= old.dom());
    }
}

/// A lookup that may create its group keeps an existing group as it is,
/// whatever the key converts into, and otherwise creates the group from the
/// converted bucket before the hit.
pub proof fn lemma_lookup_creating_keeps_existing_group<Value: Clone>(
    old: Map<u64, BucketView<Value>>,
    group_key: u64,
    bucket_key: u64,
    converted: Option<BucketView<Value>>,
    now: u64,
    new: Map<u64, BucketView<Value>>,
    r: CacheStep<Value>,
)
    ensures
        old.contains_key(group_key) ==> (group_lookup_creating(old, group_key, bucket_key, converted, now, new, r)
            <==> group_lookup(old, group_key, bucket_key, now, new, r)),
        !old.contains_key(group_key) && converted is Some ==> (group_lookup_creating(
            old,
            group_key,
            bucket_key,
            converted,
            now,
            new,
            r,
        ) <==> group_lookup(old.insert(group_key, converted->0), group_key, bucket_key, now, new, r)),
        !old.contains_key(group_key) && converted is None ==> (group_lookup_creating(
            old,
            group_key,
            bucket_key,
            converted,
            now,
            new,
            r,
        ) <==> (r == CacheStep::<Value>::Ready(None) && new == old)),
{
}

/// A hit on a record whose window is used up and still running is refused
/// until the end of the window, whatever the delay says: the reported wait is
/// the start of the window plus its span, minus now. With a limit of zero,
/// a window that has ended starts anew and refuses the hit for its whole
/// span.
pub proof fn lemma_used_up_window_waits_for_its_end<Value>(
    rl: RateLimitSpec,
    await_ratelimits: bool,
    inst: RateLimitInstance<Value>,
    now: u64,
)
    ensures
        inst.tickets >= rl.limit.1 && now < inst.set_time + rl.limit.0 * NANOS_PER_SEC
            ==> hit_outcome(rl, await_ratelimits, inst, now).wait
                == Some((inst.set_time + rl.limit.0 * NANOS_PER_SEC - now) as u128),
        rl.limit.1 == 0 && now >= inst.set_time + rl.limit.0 * NANOS_PER_SEC
            ==> hit_outcome(rl, await_ratelimits, inst, now).wait
                == Some((rl.limit.0 * NANOS_PER_SEC) as u128),
{
}

/// On a bucket that awaits rate limits, a refused caching hit always asks for
/// the value to be computed after the reported wait, whether or not a value
/// is cached; where the window of the key is used up and running, that wait
/// lasts until the end of the window.
pub proof fn lemma_delaying_bucket_computes_after_wait<Value: Clone>(
    b: BucketView<Value>,
    key: u64,
    now: u64,
    r: CacheStep<Value>,
)
    requires
        b.await_ratelimits,
        cache_answer(r, b.outcome_of(key, now), b.await_ratelimits),
    ensures
        b.outcome_of(key, now).wait matches Some(w) ==> r == CacheStep::<Value>::Compute(Some(w)),
        b.tickets_for.contains_key(key) && b.tickets_for[key].tickets >= b.ratelimit.limit.1
            && now < b.tickets_for[key].set_time + b.ratelimit.limit.0 * NANOS_PER_SEC
            ==> r == CacheStep::<Value>::Compute(
                Some((b.tickets_for[key].set_time + b.ratelimit.limit.0 * NANOS_PER_SEC - now) as u128),
            ),
{
    lemma_used_up_window_waits_for_its_end(b.ratelimit, b.await_ratelimits, b.instance_for(key, now), now);
}

/// A group answers a hit with a report exactly when its bucket refuses the
/// hit, on every refusal: the report gives the wait of the refusal and the
/// action of the bucket. Where the window of the key is used up and running,
/// the report waits until the end of the window.
pub proof fn lemma_group_reports_every_refusal<Value: Clone>(
    old: Map<u64, BucketView<Value>>,
    group_key: u64,
    bucket_key: u64,
    now: u64,
    new: Map<u64, BucketView<Value>>,
    r: Option<RateLimitInfo<Value>>,
)
    requires
        old.contains_key(group_key),
        group_hit(old, group_key, bucket_key, now, new, r),
    ensures
        ({
            let b = old[group_key];
            &&& (r is Some <==> b.outcome_of(bucket_key, now).wait is Some)
            &&& r is Some ==> Some(r->0.rate_limit) == b.outcome_of(bucket_key, now).wait
            &&& r is Some ==> r->0.action == (if b.await_ratelimits {
                RateLimitAction::Delayed
            } else {
                RateLimitAction::Cancelled
            })
            &&& (b.tickets_for.contains_key(bucket_key) && b.tickets_for[bucket_key].tickets >= b.ratelimit.limit.1
                && now < b.tickets_for[bucket_key].set_time + b.ratelimit.limit.0 * NANOS_PER_SEC)
                ==> r is Some && r->0.rate_limit == (b.tickets_for[bucket_key].set_time
                    + b.ratelimit.limit.0 * NANOS_PER_SEC - now) as u128
        }),
{
    let b = old[group_key];
    lemma_used_up_window_waits_for_its_end(b.ratelimit, b.await_ratelimits, b.instance_for(bucket_key, now), now);
}

/// A refused lookup on a group whose bucket cancels answers with a clone of
/// the value cached for the key, on every refusal within the window or the
/// delay in which it was cached, and with nothing where nothing is cached.
pub proof fn lemma_group_serves_cached_value<Value: Clone>(
    old: Map<u64, BucketView<Value>>,
    group_key: u64,
    bucket_key: u64,
    now: u64,
    new: Map<u64, BucketView<Value>>,
    r: CacheStep<Value>,
)
    requires
        old.contains_key(group_key),
        !old[group_key].await_ratelimits,
        old[group_key].tickets_for.contains_key(bucket_key),
        ({
            let rl = old[group_key].ratelimit;
            let inst = old[group_key].tickets_for[bucket_key];
            ||| inst.tickets >= rl.limit.1 && now < inst.set_time + rl.limit.0 * NANOS_PER_SEC
            ||| inst.tickets < rl.limit.1 && inst.last_time is Some
                && now < inst.last_time->0 + rl.delay * NANOS_PER_SEC
        }),
        group_lookup(old, group_key, bucket_key, now, new, r),
    ensures
        old[group_key].tickets_for[bucket_key].cached_value matches Some(c) ==> r matches CacheStep::Ready(
            Some(v),
        ) && cloned(c, v),
        old[group_key].tickets_for[bucket_key].cached_value is None ==> r == CacheStep::<Value>::Ready(None),
{
}

/// After inserting groups in order, a group whose key converted holds the
/// bucket of the last pair for it that converted, whether or not the group
/// existed before.
pub proof fn lemma_inserted_group_holds_last_conversion<Value>(
    m: Map<u64, BucketView<Value>>,
    s: Seq<(u64, Option<BucketView<Value>>)>,
    i: int,
    key: u64,
    bucket: BucketView<Value>,
)
    requires
        0 <= i < s.len(),
        s[i] == (key, Some(bucket)),
        forall|j: int| i < j < s.len() && #[trigger] s[j].0 == key ==> s[j].1 is None,
    ensures
        insert_converted_all(m, s).contains_key(key),
        insert_converted_all(m, s)[key] == bucket,
    decreases s.len(),
{
    if i < s.len() - 1 {
        let rest = s.drop_last();
        assert forall|j: int| i < j < rest.len() && #[trigger] rest[j].0 == key implies rest[j].1 is None by {
            assert(rest[j] == s[j]);
        }
        assert(rest[i] == s[i]);
        lemma_inserted_group_holds_last_conversion(m, rest, i, key, bucket);
        assert(s.last() == s[s.len() - 1]);
    }
}

/// Inserting groups leaves a group whose key never converted as it was, or
/// missing as it was.
pub proof fn lemma_unconverted_group_kept<Value>(
    m: Map<u64, BucketView<Value>>,
    s: Seq<(u64, Option<BucketView<Value>>)>,
    key: u64,
)
    requires
        forall|j: int| 0 <= j < s.len() && #[trigger] s[j].0 == key ==> s[j].1 is None,
    ensures
        insert_converted_all(m, s).contains_key(key) == m.contains_key(key),
        m.contains_key(key) ==> insert_converted_all(m, s)[key] == m[key],
    decreases s.len(),
{
    if s.len() > 0 {
        let rest = s.drop_last();
        assert forall|j: int| 0 <= j < rest.len() && #[trigger] rest[j].0 == key implies rest[j].1 is None by {
            assert(rest[j] == s[j]);
        }
        lemma_unconverted_group_kept(m, rest, key);
        assert(s.last() == s[s.len() - 1]);
    }
}

/// What a hit does, in plain terms of the record it finds: with tickets left
/// in the window and the delay after the last passed hit over, the hit passes,
/// takes a ticket and becomes the last hit; with tickets left and the delay
/// not over, it is refused until the delay ends; with the window used up and
/// ended under a limit of at least one, the window starts anew at `now` and
/// the delay alone decides.
pub proof fn lemma_hit_in_plain_terms<Value>(
    rl: RateLimitSpec,
    await_ratelimits: bool,
    inst: RateLimitInstance<Value>,
    now: u64,
)
    ensures
        ({
            let outcome = hit_outcome(rl, await_ratelimits, inst, now);
            let delay_over = inst.last_time is None || now >= inst.last_time->0 + rl.delay * NANOS_PER_SEC;
            let window_over = now >= inst.set_time + rl.limit.0 * NANOS_PER_SEC;
            &&& inst.tickets < rl.limit.1 && delay_over ==> {
                &&& outcome.wait is None
                &&& outcome.record.tickets == inst.tickets + 1
                &&& outcome.record.set_time == inst.set_time
                &&& outcome.record.last_time == Some(now)
                &&& outcome.record.cached_value is None
            }
            &&& inst.tickets < rl.limit.1 && !delay_over ==> {
                &&& outcome.wait == Some((inst.last_time->0 + rl.delay * NANOS_PER_SEC - now) as u128)
                &&& outcome.record.tickets == inst.tickets
                &&& outcome.record.set_time == inst.set_time
                &&& outcome.record.last_time == inst.last_time
                &&& outcome.record.cached_value == inst.cached_value
            }
            &&& inst.tickets >= rl.limit.1 && rl.limit.1 >= 1 && window_over && delay_over ==> {
                &&& outcome.wait is None
                &&& outcome.record.tickets == 1
                &&& outcome.record.set_time == now
                &&& outcome.record.last_time == Some(now)
            }
            &&& inst.tickets >= rl.limit.1 && rl.limit.1 >= 1 && window_over && !delay_over ==> {
                &&& outcome.wait == Some((inst.last_time->0 + rl.delay * NANOS_PER_SEC - now) as u128)
                &&& outcome.record.tickets == 0
                &&& outcome.record.set_time == now
                &&& outcome.record.cached_value is None
            }
            &&& inst.tickets >= rl.limit.1 && !window_over ==> {
                &&& outcome.record.tickets == inst.tickets
                &&& outcome.record.set_time == inst.set_time
                &&& outcome.record.last_time == inst.last_time
                &&& outcome.record.cached_value == inst.cached_value
            }
        }),
{
}

/// The report of a hit that a bucket refuses within the window or the delay
/// of the key's record gives the time left, a clone of the value cached for
/// the key, and whether the record had reported no refusal yet.
pub proof fn lemma_refusal_report_in_plain_terms<Value: Clone>(
    b: BucketView<Value>,
    key: u64,
    now: u64,
    r: Option<RateLimitInfo<Value>>,
)
    requires
        b.tickets_for.contains_key(key),
        match b.outcome_of(key, now).wait {
            None => r is None,
            Some(_) => r is Some && reports(r->0, b.outcome_of(key, now), b.await_ratelimits),
        },
        ({
            let rl = b.ratelimit;
            let inst = b.tickets_for[key];
            ||| inst.tickets >= rl.limit.1 && now < inst.set_time + rl.limit.0 * NANOS_PER_SEC
            ||| inst.tickets < rl.limit.1 && inst.last_time is Some
                && now < inst.last_time->0 + rl.delay * NANOS_PER_SEC
        }),
    ensures
        r is Some,
        r->0.is_first_try == b.tickets_for[key].is_first_try,
        r->0.action == (if b.await_ratelimits { RateLimitAction::Delayed } else { RateLimitAction::Cancelled }),
        b.tickets_for[key].cached_value matches Some(c) ==> r->0.cached matches Some(v) && cloned(c, v),
        b.tickets_for[key].cached_value is None ==> r->0.cached is None,
        ({
            let rl = b.ratelimit;
            let inst = b.tickets_for[key];
            &&& inst.tickets >= rl.limit.1 ==> r->0.rate_limit == (inst.set_time + rl.limit.0 * NANOS_PER_SEC - now) as u128
            &&& inst.tickets < rl.limit.1 ==> r->0.rate_limit == (inst.last_time->0 + rl.delay * NANOS_PER_SEC - now) as u128
        }),
{
}

} // verus!
