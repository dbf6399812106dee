//! Rolling daily and monthly usage quotas per identity.

use vstd::prelude::*;
use chrono::Datelike;
use crate::registry::Registry;
use crate::text::{decimal, push_decimal, push_text, same_text};

verus! {

/// The limits of a subscription plan.
#[derive(Clone, Copy, Debug, PartialEq, Eq)]
pub struct PlanQuota {
    /// Units per UTC day; `None` means no daily cap.
    pub daily: Option<u64>,
    /// Units per UTC month.
    pub monthly: u64,
}

/// The limits of the plan named `plan`: "pro" and "business" have monthly
/// caps only; every other name is the free plan.
pub open spec fn plan_policy(plan: Seq<char>) -> PlanQuota {
    if plan == "pro"@ {
        PlanQuota { daily: None, monthly: 5000 }
    } else if plan == "business"@ {
        PlanQuota { daily: None, monthly: 10000 }
    } else {
        PlanQuota { daily: Some(100), monthly: 1000 }
    }
}

/// The limits of a plan by name.
pub fn plan_quota(plan: &str) -> (r: PlanQuota)
    ensures
        r == plan_policy(plan@),
{
    if same_text(plan, "pro") {
        PlanQuota { daily: None, monthly: 5_000 }
    } else if same_text(plan, "business") {
        PlanQuota { daily: None, monthly: 10_000 }
    } else {
        PlanQuota { daily: Some(100), monthly: 1_000 }
    }
}

/// A UTC calendar date.
#[derive(Clone, Copy, Debug, PartialEq, Eq)]
pub struct CivilDate {
    pub year: i32,
    /// 1 to 12.
    pub month: u32,
    /// 1 to 31.
    pub day: u32,
}

/// Relies on chrono::Utc::now and chrono::Datelike (year, month, day): the
/// current UTC date, with month and day in their calendar ranges.
#[verifier::external_body]
fn utc_today() -> (r: CivilDate)
    ensures
        1 <= r.month <= 12,
        1 <= r.day <= 31,
{
    let now = chrono::Utc::now();
    CivilDate { year: now.year(), month: now.month(), day: now.day() }
}

/// "<period> quota exceeded (limit <limit> images)".
pub open spec fn exceeded_text(period: Seq<char>, limit: nat) -> Seq<char> {
    period + " quota exceeded (limit "@ + decimal(limit) + " images)"@
}

/// The refusal message for a period and its limit.
fn exceeded_message(period: &str, limit: u64) -> (r: String)
    ensures
        r@ == exceeded_text(period@, limit as nat),
{
    let mut s = String::new();
    push_text(&mut s, period);
    push_text(&mut s, " quota exceeded (limit ");
    push_decimal(&mut s, limit);
    push_text(&mut s, " images)");
    assert(s@ =~= exceeded_text(period@, limit as nat));
    s
}

/// The characters of an optional string.
pub open spec fn text_of(o: Option<String>) -> Option<Seq<char>> {
    match o {
        Some(m) => Some(m@),
        None => None,
    }
}

/// One identity's usage in the current day and month.
#[derive(Clone, Copy, Debug, PartialEq, Eq)]
pub struct Usage {
    pub day_key: CivilDate,
    pub day_count: u64,
    pub month_key: (i32, u32),
    pub month_count: u64,
}

/// The month key is the month of the day key, and the day's count is part
/// of the month's.
pub open spec fn usage_consistent(u: Usage) -> bool {
    u.month_key == (u.day_key.year, u.day_key.month) && u.day_count <= u.month_count
}

impl Usage {
    /// A zeroed record for `today`.
    pub fn new(today: CivilDate) -> (r: Usage)
        ensures
            r == fresh_usage(today),
    {
        Usage { day_key: today, day_count: 0, month_key: (today.year, today.month), month_count: 0 }
    }

    /// Resets each counter whose calendar unit is no longer `today`'s.
    pub fn rotate_if_needed(&mut self, today: CivilDate)
        ensures
            *final(self) == rolled(*old(self), today),
    {
        if !(self.day_key.year == today.year && self.day_key.month == today.month && self.day_key.day
            == today.day) {
            self.day_key = today;
            self.day_count = 0;
        }
        if !(self.month_key.0 == today.year && self.month_key.1 == today.month) {
            self.month_key = (today.year, today.month);
            self.month_count = 0;
        }
    }
}

/// A zeroed record for `today`.
pub open spec fn fresh_usage(today: CivilDate) -> Usage {
    Usage { day_key: today, day_count: 0, month_key: (today.year, today.month), month_count: 0 }
}

/// The record with each counter reset whose calendar unit is no longer `today`'s.
pub open spec fn rolled(u: Usage, today: CivilDate) -> Usage {
    let u1 = if u.day_key != today { Usage { day_key: today, day_count: 0, ..u } } else { u };
    if u1.month_key != (today.year, today.month) {
        Usage { month_key: (today.year, today.month), month_count: 0, ..u1 }
    } else {
        u1
    }
}

/// Whether consuming `amount` more would pass the monthly cap.
pub open spec fn month_exceeded(u: Usage, amount: nat, pq: PlanQuota) -> bool {
    u.month_count + amount > pq.monthly
}

/// Whether consuming `amount` more would pass the daily cap, if there is one.
pub open spec fn day_exceeded(u: Usage, amount: nat, pq: PlanQuota) -> bool {
    pq.daily matches Some(d) && u.day_count + amount > d
}

/// Whether `amount` fits both caps.
pub open spec fn fits(u: Usage, amount: nat, pq: PlanQuota) -> bool {
    !month_exceeded(u, amount, pq) && !day_exceeded(u, amount, pq)
}

/// The record after a request of `amount` on an up-to-date record `u`:
/// counted when it fits, unchanged when refused.
pub open spec fn charged(u: Usage, amount: nat, pq: PlanQuota) -> Usage {
    if fits(u, amount, pq) {
        Usage {
            day_count: (u.day_count + amount) as u64,
            month_count: (u.month_count + amount) as u64,
            ..u
        }
    } else {
        u
    }
}

/// `a - b`, or zero.
pub open spec fn sat_sub(a: nat, b: nat) -> nat {
    if a >= b { (a - b) as nat } else { 0 }
}

/// The daily units left on record `u`; `None` without a daily cap.
pub open spec fn day_left(u: Usage, pq: PlanQuota) -> Option<u64> {
    match pq.daily {
        Some(d) => Some(sat_sub(d as nat, u.day_count as nat) as u64),
        None => None,
    }
}

/// The monthly units left on record `u`.
pub open spec fn month_left(u: Usage, pq: PlanQuota) -> u64 {
    sat_sub(pq.monthly as nat, u.month_count as nat) as u64
}

/// The units that still fit both caps of record `u`.
pub open spec fn units_left(u: Usage, pq: PlanQuota) -> nat {
    let m = sat_sub(pq.monthly as nat, u.month_count as nat);
    match pq.daily {
        Some(d) => {
            let dl = sat_sub(d as nat, u.day_count as nat);
            if dl < m { dl } else { m }
        },
        None => m,
    }
}

/// The record after `n` single-unit requests on one day.
pub open spec fn charged_times(u: Usage, pq: PlanQuota, n: nat) -> Usage
    decreases n,
{
    if n == 0 {
        u
    } else {
        charged(charged_times(u, pq, (n - 1) as nat), 1, pq)
    }
}

proof fn lemma_charged_prefix(u: Usage, pq: PlanQuota, n: nat)
    requires
        u.day_count <= u.month_count,
        n <= units_left(u, pq),
    ensures
        charged_times(u, pq, n) == (Usage {
            day_count: (u.day_count + n) as u64,
            month_count: (u.month_count + n) as u64,
            ..u
        }),
    decreases n,
{
    if n > 0 {
        lemma_charged_prefix(u, pq, (n - 1) as nat);
        let prev = charged_times(u, pq, (n - 1) as nat);
        assert(u.month_count + n <= pq.monthly);
        assert(fits(prev, 1, pq));
    }
}

proof fn lemma_charged_saturates(u: Usage, pq: PlanQuota, n: nat)
    requires
        u.day_count <= u.month_count,
        n >= units_left(u, pq),
    ensures
        charged_times(u, pq, n) == charged_times(u, pq, units_left(u, pq)),
        !fits(charged_times(u, pq, n), 1, pq),
    decreases n,
{
    lemma_charged_prefix(u, pq, units_left(u, pq));
    if n > units_left(u, pq) {
        lemma_charged_saturates(u, pq, (n - 1) as nat);
    }
}

/// Rolling a record that is already up to date changes nothing.
proof fn lemma_rolled_idempotent(u: Usage, today: CivilDate)
    ensures
        rolled(rolled(u, today), today) == rolled(u, today),
{
}

/// No over-admission: of any number of single-unit requests against one
/// up-to-date record, exactly the first `units_left` are admitted and every
/// later one is refused. Each request sees the record the previous one left,
/// as the ledger serialises requests of one identity.
pub proof fn admits_exactly_units_left(u0: Usage, today: CivilDate, pq: PlanQuota, n: nat)
    requires
        usage_consistent(u0),
    ensures
        ({
            let u = rolled(u0, today);
            &&& fits(charged_times(u, pq, n), 1, pq) <==> n < units_left(u, pq)
            &&& rolled(charged_times(u, pq, n), today) == charged_times(u, pq, n)
        }),
{
    let u = rolled(u0, today);
    lemma_rolled_idempotent(u0, today);
    if n < units_left(u, pq) {
        lemma_charged_prefix(u, pq, n);
    } else {
        lemma_charged_saturates(u, pq, n);
        lemma_charged_prefix(u, pq, units_left(u, pq));
    }
}

/// The free plan's daily cap: on one UTC day, a record with no use yet that
/// day and room in its month admits 100 single-unit requests and refuses the
/// 101st, reporting no daily units left.
pub proof fn free_plan_daily_cap(u: Usage)
    requires
        u.day_count == 0,
        u.month_count + 100 <= 1000,
    ensures
        forall|n: nat|
            n < 100 ==> fits(#[trigger] charged_times(u, plan_policy("free"@), n), 1, plan_policy("free"@)),
        !fits(charged_times(u, plan_policy("free"@), 100), 1, plan_policy("free"@)),
        day_left(charged_times(u, plan_policy("free"@), 100), plan_policy("free"@)) == Some(0u64),
{
    reveal_strlit("free");
    reveal_strlit("pro");
    reveal_strlit("business");
    assert("free"@.len() == 4 && "pro"@.len() == 3 && "business"@.len() == 8);
    let pq = plan_policy("free"@);
    assert(pq == PlanQuota { daily: Some(100), monthly: 1000 });
    assert(units_left(u, pq) == 100);
    assert forall|n: nat| n < 100 implies fits(#[trigger] charged_times(u, pq, n), 1, pq) by {
        lemma_charged_prefix(u, pq, n);
    }
    lemma_charged_saturates(u, pq, 100);
    lemma_charged_prefix(u, pq, 100);
}

/// A new UTC day in the same month resets the day's count and keeps the
/// month's.
pub proof fn day_rollover_keeps_month(u: Usage, today: CivilDate)
    requires
        usage_consistent(u),
        u.day_key != today,
        u.month_key == (today.year, today.month),
    ensures
        rolled(u, today).day_count == 0,
        rolled(u, today).month_count == u.month_count,
        rolled(u, today).day_key == today,
{
}

/// The outcome of a quota request.
#[derive(Clone, Debug)]
pub struct QuotaResult {
    pub allowed: bool,
    /// Daily units left; `None` means unlimited.
    pub remaining_day: Option<u64>,
    pub remaining_month: u64,
    /// Why the request was refused.
    pub message: Option<String>,
    pub plan: String,
}

/// The usage ledger: one record per identity.
pub struct Quota {
    inner: Registry<Usage>,
}

impl Quota {
    /// The records by identity.
    pub closed spec fn table(&self) -> Map<Seq<char>, Usage> {
        self.inner.view()
    }

    pub closed spec fn wf(&self) -> bool {
        &&& self.inner.wf()
        &&& forall|k: Seq<char>| #[trigger] self.inner.view().contains_key(k)
            ==> usage_consistent(self.inner.view()[k])
    }

    /// Every record's month key matches its day key and its day count is
    /// part of its month count.
    pub open spec fn all_consistent(&self) -> bool {
        forall|k: Seq<char>| #[trigger] self.table().contains_key(k) ==> usage_consistent(self.table()[k])
    }

    /// The record of `id` brought up to `today`, or a fresh one.
    pub open spec fn current(&self, id: Seq<char>, today: CivilDate) -> Usage {
        if self.table().contains_key(id) {
            rolled(self.table()[id], today)
        } else {
            fresh_usage(today)
        }
    }

    /// An empty ledger.
    pub fn new() -> (r: Self)
        ensures
            r.wf(),
            r.all_consistent(),
            r.table() == Map::<Seq<char>, Usage>::empty(),
    {
        Quota { inner: Registry::new() }
    }

    /// Reserves `amount` units for `user_id` on `plan`, on the UTC date
    /// `today`. The record is first rolled over to `today`; the monthly cap is
    /// checked first, then the daily one; a refusal leaves the counters as
    /// they are, an admission adds `amount` to both. The remaining units are
    /// reported after the decision.
    pub fn try_consume_on(&mut self, user_id: &str, amount: u64, plan: &str, today: CivilDate) -> (r:
        QuotaResult)
        requires
            old(self).wf(),
        ensures
            final(self).wf(),
            final(self).all_consistent(),
            ({
                let pq = plan_policy(plan@);
                let u = old(self).current(user_id@, today);
                let after = charged(u, amount as nat, pq);
                &&& r.allowed == fits(u, amount as nat, pq)
                &&& final(self).table() == old(self).table().insert(user_id@, after)
                &&& usage_consistent(after)
                &&& r.remaining_day == day_left(after, pq)
                &&& r.remaining_month == month_left(after, pq)
                &&& r.plan@ == plan@
                &&& r.message is Some == !r.allowed
                &&& month_exceeded(u, amount as nat, pq) ==> text_of(r.message) == Some(
                    exceeded_text("Monthly"@, pq.monthly as nat),
                )
                &&& !month_exceeded(u, amount as nat, pq) && day_exceeded(u, amount as nat, pq)
                    ==> text_of(r.message) == Some(exceeded_text("Daily"@, pq.daily->Some_0 as nat))
            }),
    {
        let pq = plan_quota(plan);
        let u = match self.inner.get(user_id) {
            Some(prev) => {
                let mut v = prev;
                v.rotate_if_needed(today);
                v
            },
            None => Usage::new(today),
        };
        assert(u == old(self).current(user_id@, today));
        assert(usage_consistent(u));
        let day_left_now: Option<u64> = match pq.daily {
            Some(d) => Some(if d >= u.day_count { d - u.day_count } else { 0 }),
            None => None,
        };
        let month_left_now: u64 = if pq.monthly >= u.month_count { pq.monthly - u.month_count } else { 0 };
        if u.month_count as u128 + amount as u128 > pq.monthly as u128 {
            self.inner.put(user_id, u);
            return QuotaResult {
                allowed: false,
                remaining_day: day_left_now,
                remaining_month: month_left_now,
                message: Some(exceeded_message("Monthly", pq.monthly)),
                plan: plan.to_owned(),
            };
        }
        if let Some(d) = pq.daily {
            if u.day_count as u128 + amount as u128 > d as u128 {
                self.inner.put(user_id, u);
                return QuotaResult {
                    allowed: false,
                    remaining_day: day_left_now,
                    remaining_month: month_left_now,
                    message: Some(exceeded_message("Daily", d)),
                    plan: plan.to_owned(),
                };
            }
        }
        let after = Usage {
            day_count: u.day_count + amount,
            month_count: u.month_count + amount,
            ..u
        };
        self.inner.put(user_id, after);
        QuotaResult {
            allowed: true,
            remaining_day: match pq.daily {
                Some(d) => Some(d - after.day_count),
                None => None,
            },
            remaining_month: pq.monthly - after.month_count,
            message: None,
            plan: plan.to_owned(),
        }
    }

    /// Reserves `amount` units for `user_id` on `plan` against today's UTC
    /// date (see `try_consume_on`).
    pub fn try_consume(&mut self, user_id: &str, amount: u64, plan: &str) -> (r: QuotaResult)
        requires
            old(self).wf(),
        ensures
            final(self).wf(),
            final(self).all_consistent(),
            exists|today: CivilDate|
                {
                    let pq = plan_policy(plan@);
                    let u = #[trigger] old(self).current(user_id@, today);
                    let after = charged(u, amount as nat, pq);
                    &&& r.allowed == fits(u, amount as nat, pq)
                    &&& final(self).table() == old(self).table().insert(user_id@, after)
                    &&& usage_consistent(after)
                    &&& r.remaining_day == day_left(after, pq)
                    &&& r.remaining_month == month_left(after, pq)
                    &&& r.plan@ == plan@
                },
    {
        let today = utc_today();
        self.try_consume_on(user_id, amount, plan, today)
    }
}

} // verus!
