//! Per-identity token buckets with an optional lockout.
//!
//! Credit is counted in whole units: one token is `UNITS_PER_TOKEN` units and
//! a bucket of `capacity` tokens per minute gains `capacity` units per
//! millisecond, so refilling is exact integer arithmetic. Time is a
//! monotonic clock reading in milliseconds.

use vstd::prelude::*;
use dashmap::DashMap;

verus! {

/// Credit units in one token (the milliseconds in a minute).
pub const UNITS_PER_TOKEN: u64 = 60_000;

/// The state of one identity's bucket.
#[derive(Clone, Copy, Debug, PartialEq, Eq)]
pub struct Bucket {
    /// Credit in units, at most `capacity * UNITS_PER_TOKEN`.
    pub credit: u64,
    /// When credit was last refilled.
    pub last_ms: u64,
    /// While set and in the future, every request is refused.
    pub lock_until_ms: Option<u64>,
}

/// The decision on one request.
#[derive(Clone, Copy, Debug, PartialEq, Eq)]
pub enum TakeResult {
    /// Admitted; `remaining` whole tokens are left.
    Allowed { limit: u32, remaining: u32 },
    /// Refused for want of a token; retry after `retry_after` seconds.
    Limited { retry_after: u64, limit: u32, remaining: u32 },
    /// Refused because the identity is locked out for `retry_after` seconds.
    Locked { retry_after: u64, limit: u32, remaining: u32 },
}

/// `a / b` rounded up.
pub open spec fn ceil_div(a: int, b: int) -> int {
    (a + b - 1) / b
}

/// Full credit for a capacity.
pub open spec fn full_credit(capacity: u32) -> int {
    capacity * UNITS_PER_TOKEN
}

/// A bucket first seen at `now`: full, unlocked.
pub open spec fn fresh_bucket(capacity: u32, now: u64) -> Bucket {
    Bucket { credit: (capacity * UNITS_PER_TOKEN) as u64, last_ms: now, lock_until_ms: None }
}

/// Credit after refilling from `last_ms` to `now`, capped at full.
pub open spec fn refilled(b: Bucket, capacity: u32, now: u64) -> int {
    let elapsed = if now >= b.last_ms { now - b.last_ms } else { 0 };
    let c = b.credit + elapsed * capacity;
    if c > full_credit(capacity) { full_credit(capacity) } else { c }
}

/// The lock deadline `secs` seconds after `now`, saturating.
pub open spec fn lock_deadline(now: u64, secs: u64) -> u64 {
    let t = now + secs * 1000;
    if t > u64::MAX { u64::MAX } else { t as u64 }
}

/// Seconds until one token has refilled from `credit` units.
pub open spec fn wait_secs(credit: int, capacity: u32) -> u64 {
    if capacity == 0 {
        u64::MAX
    } else {
        let s = ceil_div(UNITS_PER_TOKEN - credit, capacity * 1000);
        if s < 1 { 1 } else { s as u64 }
    }
}

/// One request against bucket `b` at `now`: the new bucket and the decision.
pub open spec fn take_step(
    capacity: u32,
    lock_enabled: bool,
    lock_secs: u64,
    b: Bucket,
    now: u64,
) -> (Bucket, TakeResult) {
    if b.lock_until_ms is Some && b.lock_until_ms->Some_0 > now {
        let t = b.lock_until_ms->Some_0;
        (b, TakeResult::Locked { retry_after: ceil_div(t - now, 1000) as u64, limit: capacity, remaining: 0 })
    } else {
        let c = refilled(b, capacity, now);
        if c >= UNITS_PER_TOKEN {
            let left = c - UNITS_PER_TOKEN;
            (
                Bucket { credit: left as u64, last_ms: now, lock_until_ms: None },
                TakeResult::Allowed { limit: capacity, remaining: (left / UNITS_PER_TOKEN as int) as u32 },
            )
        } else if lock_enabled && lock_secs > 0 {
            (
                Bucket { credit: c as u64, last_ms: now, lock_until_ms: Some(lock_deadline(now, lock_secs)) },
                TakeResult::Locked { retry_after: lock_secs, limit: capacity, remaining: 0 },
            )
        } else {
            (
                Bucket { credit: c as u64, last_ms: now, lock_until_ms: None },
                TakeResult::Limited { retry_after: wait_secs(c, capacity), limit: capacity, remaining: 0 },
            )
        }
    }
}

/// Whether a decision admits the request.
pub open spec fn admitted(r: TakeResult) -> bool {
    r is Allowed
}

/// The bucket after `n` requests at the same instant `now`.
pub open spec fn bucket_after(
    capacity: u32,
    lock_enabled: bool,
    lock_secs: u64,
    b: Bucket,
    now: u64,
    n: nat,
) -> Bucket
    decreases n,
{
    if n == 0 {
        b
    } else {
        take_step(
            capacity,
            lock_enabled,
            lock_secs,
            bucket_after(capacity, lock_enabled, lock_secs, b, now, (n - 1) as nat),
            now,
        ).0
    }
}

/// The decision on the request that follows `n` others at the instant `now`.
pub open spec fn decision_after(
    capacity: u32,
    lock_enabled: bool,
    lock_secs: u64,
    b: Bucket,
    now: u64,
    n: nat,
) -> TakeResult {
    take_step(
        capacity,
        lock_enabled,
        lock_secs,
        bucket_after(capacity, lock_enabled, lock_secs, b, now, n),
        now,
    ).1
}

proof fn lemma_refill_same_instant(b: Bucket, capacity: u32, now: u64)
    requires
        b.last_ms == now,
        b.credit <= full_credit(capacity),
    ensures
        refilled(b, capacity, now) == b.credit,
{
    let elapsed = if now >= b.last_ms { now - b.last_ms } else { 0 };
    assert(elapsed == 0);
    assert(elapsed * capacity == 0) by (nonlinear_arith)
        requires elapsed == 0;
}

proof fn lemma_burst(capacity: u32, lock_enabled: bool, lock_secs: u64, now: u64, n: nat)
    requires
        n <= capacity,
    ensures
        bucket_after(capacity, lock_enabled, lock_secs, fresh_bucket(capacity, now), now, n) == (
        Bucket {
            credit: ((capacity - n) * UNITS_PER_TOKEN) as u64,
            last_ms: now,
            lock_until_ms: None,
        }),
    decreases n,
{
    if n > 0 {
        lemma_burst(capacity, lock_enabled, lock_secs, now, (n - 1) as nat);
        assert((capacity - (n - 1)) * UNITS_PER_TOKEN <= capacity * UNITS_PER_TOKEN) by (nonlinear_arith)
            requires n >= 1, n <= capacity;
        assert((capacity - (n - 1)) * UNITS_PER_TOKEN >= UNITS_PER_TOKEN) by (nonlinear_arith)
            requires n >= 1, n <= capacity;
        let prev = bucket_after(
            capacity,
            lock_enabled,
            lock_secs,
            fresh_bucket(capacity, now),
            now,
            (n - 1) as nat,
        );
        assert(prev.credit == (capacity - (n - 1)) * UNITS_PER_TOKEN);
        lemma_refill_same_instant(prev, capacity, now);
        assert((capacity - (n - 1)) * UNITS_PER_TOKEN - UNITS_PER_TOKEN == (capacity - n) * UNITS_PER_TOKEN)
            by (nonlinear_arith);
    }
}

/// The token bucket admits a burst of exactly its capacity and then one
/// request per refill interval. A fresh identity sending `capacity` requests
/// at one instant has the `n`-th admitted with `capacity - 1 - n` tokens
/// left, whatever the lockout setting; the next one is locked out when
/// lockout is on, and otherwise refused with the wait for one token. With
/// lockout off, at any later instant within one to two refill intervals
/// (60 / `capacity` seconds each) exactly one more request is admitted.
pub proof fn burst_then_one_per_interval(
    capacity: u32,
    lock_enabled: bool,
    lock_secs: u64,
    now: u64,
    later: u64,
)
    requires
        capacity >= 1,
        later >= now,
        (later - now) * capacity >= UNITS_PER_TOKEN,
        (later - now) * capacity < 2 * UNITS_PER_TOKEN,
    ensures
        forall|n: nat|
            n < capacity ==> #[trigger] decision_after(
                capacity,
                lock_enabled,
                lock_secs,
                fresh_bucket(capacity, now),
                now,
                n,
            ) == (TakeResult::Allowed { limit: capacity, remaining: (capacity - 1 - n) as u32 }),
        decision_after(
            capacity,
            lock_enabled,
            lock_secs,
            fresh_bucket(capacity, now),
            now,
            capacity as nat,
        ) == if lock_enabled && lock_secs > 0 {
            TakeResult::Locked { retry_after: lock_secs, limit: capacity, remaining: 0 }
        } else {
            TakeResult::Limited { retry_after: wait_secs(0, capacity), limit: capacity, remaining: 0 }
        },
        !(lock_enabled && lock_secs > 0) ==> ({
            let drained = bucket_after(
                capacity,
                lock_enabled,
                lock_secs,
                fresh_bucket(capacity, now),
                now,
                capacity as nat + 1,
            );
            &&& decision_after(capacity, lock_enabled, lock_secs, drained, later, 0) == (
            TakeResult::Allowed { limit: capacity, remaining: 0 })
            &&& !admitted(decision_after(capacity, lock_enabled, lock_secs, drained, later, 1))
        }),
{
    let b0 = fresh_bucket(capacity, now);
    assert forall|n: nat| n < capacity implies #[trigger] decision_after(
        capacity,
        lock_enabled,
        lock_secs,
        b0,
        now,
        n,
    ) == (TakeResult::Allowed { limit: capacity, remaining: (capacity - 1 - n) as u32 }) by {
        lemma_burst(capacity, lock_enabled, lock_secs, now, n);
        let bn = bucket_after(capacity, lock_enabled, lock_secs, b0, now, n);
        assert((capacity - n) * UNITS_PER_TOKEN >= UNITS_PER_TOKEN) by (nonlinear_arith)
            requires n < capacity;
        assert((capacity - n) * UNITS_PER_TOKEN <= capacity * UNITS_PER_TOKEN) by (nonlinear_arith)
            requires n < capacity;
        lemma_refill_same_instant(bn, capacity, now);
        assert((capacity - n) * UNITS_PER_TOKEN - UNITS_PER_TOKEN == (capacity - 1 - n) * UNITS_PER_TOKEN)
            by (nonlinear_arith);
        assert(((capacity - 1 - n) * UNITS_PER_TOKEN) / (UNITS_PER_TOKEN as int) == capacity - 1 - n)
            by (nonlinear_arith)
            requires n < capacity;
    }
    lemma_burst(capacity, lock_enabled, lock_secs, now, capacity as nat);
    let last = bucket_after(capacity, lock_enabled, lock_secs, b0, now, capacity as nat);
    assert(capacity * UNITS_PER_TOKEN >= 0) by (nonlinear_arith)
        requires capacity >= 1;
    lemma_refill_same_instant(last, capacity, now);
    if !(lock_enabled && lock_secs > 0) {
        let drained = bucket_after(capacity, lock_enabled, lock_secs, b0, now, capacity as nat + 1);
        assert(drained.credit == 0 && drained.last_ms == now && drained.lock_until_ms is None);
        assert(capacity * UNITS_PER_TOKEN >= UNITS_PER_TOKEN) by (nonlinear_arith)
            requires capacity >= 1;
        let c = refilled(drained, capacity, later);
        assert(c >= UNITS_PER_TOKEN);
        assert(c - UNITS_PER_TOKEN < UNITS_PER_TOKEN);
        assert((c - UNITS_PER_TOKEN) / (UNITS_PER_TOKEN as int) == 0);
        let b1 = bucket_after(capacity, lock_enabled, lock_secs, drained, later, 1);
        assert(b1.credit < UNITS_PER_TOKEN && b1.last_ms == later && b1.lock_until_ms is None);
        lemma_refill_same_instant(b1, capacity, later);
    }
}

#[verifier::external_type_specification]
#[verifier::external_body]
#[verifier::reject_recursive_types(K)]
#[verifier::reject_recursive_types(V)]
#[verifier::reject_recursive_types(S)]
pub struct ExDashMap<K, V, S>(dashmap::DashMap<K, V, S>);

/// A concurrent map from identity to bucket.
pub type BucketMap = DashMap<String, Bucket>;

/// The buckets a concurrent map holds, by identity.
pub uninterp spec fn bucket_table(m: BucketMap) -> Map<Seq<char>, Bucket>;

/// No bucket at all.
pub open spec fn no_buckets() -> Map<Seq<char>, Bucket> {
    Map::empty()
}

/// Relies on dashmap::DashMap::new: the map starts empty.
#[verifier::external_body]
fn empty_buckets() -> (r: BucketMap)
    ensures
        bucket_table(r) == no_buckets(),
{
    DashMap::new()
}

/// Relies on dashmap::DashMap::get: the bucket stored under the identity,
/// copied out, if there is one.
#[verifier::external_body]
fn bucket_of(m: &BucketMap, key: &str) -> (r: Option<Bucket>)
    ensures
        r == (if bucket_table(*m).contains_key(key@) {
            Some(bucket_table(*m)[key@])
        } else {
            None
        }),
{
    m.get(key).map(|b| *b)
}

/// Relies on dashmap::DashMap::insert: the bucket is stored under the
/// identity, replacing any earlier one; other entries stay.
#[verifier::external_body]
fn store_bucket(m: &mut BucketMap, key: &str, b: Bucket)
    ensures
        bucket_table(*final(m)) == bucket_table(*old(m)).insert(key@, b),
{
    m.insert(key.to_string(), b);
}

/// The limiter: its configuration and one bucket per identity.
pub struct RateLimitState {
    buckets: BucketMap,
    capacity: u32,
    lock_enabled: bool,
    lock_secs: u64,
}

impl RateLimitState {
    /// The buckets by identity.
    pub closed spec fn table(&self) -> Map<Seq<char>, Bucket> {
        bucket_table(self.buckets)
    }

    pub closed spec fn wf(&self) -> bool {
        forall|k: Seq<char>| #[trigger] bucket_table(self.buckets).contains_key(k)
            ==> bucket_table(self.buckets)[k].credit <= full_credit(self.capacity)
    }

    /// Every bucket holds at most a full bucket's credit.
    pub open spec fn credits_bounded(&self) -> bool {
        forall|k: Seq<char>| #[trigger] self.table().contains_key(k) ==> self.table()[k].credit
            <= full_credit(self.spec_capacity())
    }

    /// Requests per minute.
    pub closed spec fn spec_capacity(&self) -> u32 {
        self.capacity
    }

    pub closed spec fn spec_lock_enabled(&self) -> bool {
        self.lock_enabled
    }

    pub closed spec fn spec_lock_secs(&self) -> u64 {
        self.lock_secs
    }

    /// A limiter of `limit_per_minute` requests per minute, without lockout.
    pub fn new(limit_per_minute: u32) -> (r: Self)
        ensures
            r.wf(),
            r.credits_bounded(),
            r.table() == Map::<Seq<char>, Bucket>::empty(),
            r.spec_capacity() == limit_per_minute,
            !r.spec_lock_enabled(),
            r.spec_lock_secs() == 0,
    {
        Self::new_with_lock(limit_per_minute, false, 0)
    }

    /// A limiter of `limit_per_minute` requests per minute; when
    /// `lock_enabled` and `lock_secs > 0`, an identity that runs dry is locked
    /// out for `lock_secs` seconds.
    pub fn new_with_lock(limit_per_minute: u32, lock_enabled: bool, lock_secs: u64) -> (r: Self)
        ensures
            r.wf(),
            r.credits_bounded(),
            r.table() == Map::<Seq<char>, Bucket>::empty(),
            r.spec_capacity() == limit_per_minute,
            r.spec_lock_enabled() == lock_enabled,
            r.spec_lock_secs() == lock_secs,
    {
        RateLimitState { buckets: empty_buckets(), capacity: limit_per_minute, lock_enabled, lock_secs }
    }

    /// The one-bucket step on machine integers.
    fn step(&self, b: Bucket, now: u64) -> (r: (Bucket, TakeResult))
        requires
            b.credit <= full_credit(self.capacity),
        ensures
            r == take_step(self.capacity, self.lock_enabled, self.lock_secs, b, now),
            r.0.credit <= full_credit(self.capacity),
    {
        let cap = self.capacity;
        if let Some(t) = b.lock_until_ms {
            if t > now {
                let wait = t - now;
                let secs: u64 = wait / 1000 + if wait % 1000 != 0 { 1 } else { 0 };
                assert(secs == ceil_div(wait as int, 1000));
                return (b, TakeResult::Locked { retry_after: secs, limit: cap, remaining: 0 });
            }
        }
        let full: u64 = cap as u64 * UNITS_PER_TOKEN;
        let elapsed: u64 = if now >= b.last_ms { now - b.last_ms } else { 0 };
        assert((elapsed as u128) * (cap as u128) <= 0xffff_ffff_ffff_ffff * 0xffff_ffff)
            by (nonlinear_arith)
            requires elapsed <= 0xffff_ffff_ffff_ffffu64, cap <= 0xffff_ffffu32;
        let sum: u128 = b.credit as u128 + elapsed as u128 * cap as u128;
        let c: u64 = if sum > full as u128 { full } else { sum as u64 };
        if c >= UNITS_PER_TOKEN {
            let left = c - UNITS_PER_TOKEN;
            (
                Bucket { credit: left, last_ms: now, lock_until_ms: None },
                TakeResult::Allowed { limit: cap, remaining: (left / UNITS_PER_TOKEN) as u32 },
            )
        } else if self.lock_enabled && self.lock_secs > 0 {
            let until: u64 = if self.lock_secs > (u64::MAX - now) / 1000 {
                u64::MAX
            } else {
                now + self.lock_secs * 1000
            };
            (
                Bucket { credit: c, last_ms: now, lock_until_ms: Some(until) },
                TakeResult::Locked { retry_after: self.lock_secs, limit: cap, remaining: 0 },
            )
        } else {
            let retry: u64 = if cap == 0 {
                u64::MAX
            } else {
                let rate: u64 = cap as u64 * 1000;
                let s = (UNITS_PER_TOKEN - c + rate - 1) / rate;
                if s < 1 { 1 } else { s }
            };
            (
                Bucket { credit: c, last_ms: now, lock_until_ms: None },
                TakeResult::Limited { retry_after: retry, limit: cap, remaining: 0 },
            )
        }
    }

    /// Decides one request of identity `key` at clock reading `now_ms`
    /// (milliseconds): an identity seen for the first time starts with a full
    /// bucket; a locked identity is refused until the lock ends; otherwise the
    /// bucket refills for the time elapsed and one token is taken if there is
    /// one, else the identity is locked out (when lockout is on) or told how
    /// long to wait.
    pub fn take(&mut self, key: &str, now_ms: u64) -> (r: TakeResult)
        requires
            old(self).wf(),
        ensures
            final(self).wf(),
            final(self).credits_bounded(),
            final(self).spec_capacity() == old(self).spec_capacity(),
            final(self).spec_lock_enabled() == old(self).spec_lock_enabled(),
            final(self).spec_lock_secs() == old(self).spec_lock_secs(),
            ({
                let b = if old(self).table().contains_key(key@) {
                    old(self).table()[key@]
                } else {
                    fresh_bucket(old(self).spec_capacity(), now_ms)
                };
                let (nb, res) = take_step(
                    old(self).spec_capacity(),
                    old(self).spec_lock_enabled(),
                    old(self).spec_lock_secs(),
                    b,
                    now_ms,
                );
                r == res && final(self).table() == old(self).table().insert(key@, nb)
            }),
    {
        let cap = self.capacity;
        let b = match bucket_of(&self.buckets, key) {
            Some(b) => b,
            None => Bucket { credit: cap as u64 * UNITS_PER_TOKEN, last_ms: now_ms, lock_until_ms: None },
        };
        let (nb, res) = self.step(b, now_ms);
        store_bucket(&mut self.buckets, key, nb);
        res
    }
}

} // verus!
