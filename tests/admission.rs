use shopimage::quota::{plan_quota, CivilDate, PlanQuota, Quota};
use shopimage::rate_limit::{RateLimitState, TakeResult};

fn day(year: i32, month: u32, day: u32) -> CivilDate {
    CivilDate { year, month, day }
}

#[test]
fn burst_of_capacity_then_one_per_interval() {
    let mut rl = RateLimitState::new(5);
    for i in 0..5u32 {
        assert_eq!(rl.take("1.2.3.4", 1000), TakeResult::Allowed { limit: 5, remaining: 4 - i });
    }
    assert_eq!(rl.take("1.2.3.4", 1000), TakeResult::Limited { retry_after: 12, limit: 5, remaining: 0 });
    // 60 / 5 = 12 seconds later exactly one more token is there.
    assert_eq!(rl.take("1.2.3.4", 13_000), TakeResult::Allowed { limit: 5, remaining: 0 });
    assert!(matches!(rl.take("1.2.3.4", 13_000), TakeResult::Limited { .. }));
}

#[test]
fn identities_have_separate_buckets() {
    let mut rl = RateLimitState::new(1);
    assert!(matches!(rl.take("a", 0), TakeResult::Allowed { .. }));
    assert!(matches!(rl.take("a", 0), TakeResult::Limited { .. }));
    assert!(matches!(rl.take("b", 0), TakeResult::Allowed { .. }));
}

#[test]
fn limited_retry_after_rounds_up() {
    let mut rl = RateLimitState::new(60);
    for _ in 0..60 {
        assert!(matches!(rl.take("k", 0), TakeResult::Allowed { .. }));
    }
    // One token a second: half a second in, one more second is asked.
    assert_eq!(rl.take("k", 500), TakeResult::Limited { retry_after: 1, limit: 60, remaining: 0 });
}

#[test]
fn lockout_holds_then_clears() {
    let mut rl = RateLimitState::new_with_lock(2, true, 30);
    assert!(matches!(rl.take("x", 0), TakeResult::Allowed { .. }));
    assert!(matches!(rl.take("x", 0), TakeResult::Allowed { .. }));
    assert_eq!(rl.take("x", 0), TakeResult::Locked { retry_after: 30, limit: 2, remaining: 0 });
    assert_eq!(rl.take("x", 10_500), TakeResult::Locked { retry_after: 20, limit: 2, remaining: 0 });
    assert_eq!(rl.take("x", 30_000), TakeResult::Allowed { limit: 2, remaining: 0 });
}

#[test]
fn zero_capacity_never_admits() {
    let mut rl = RateLimitState::new(0);
    assert_eq!(rl.take("z", 0), TakeResult::Limited { retry_after: u64::MAX, limit: 0, remaining: 0 });
}

#[test]
fn plans_by_name() {
    assert_eq!(plan_quota("pro"), PlanQuota { daily: None, monthly: 5000 });
    assert_eq!(plan_quota("business"), PlanQuota { daily: None, monthly: 10000 });
    assert_eq!(plan_quota("free"), PlanQuota { daily: Some(100), monthly: 1000 });
    assert_eq!(plan_quota("Pro"), PlanQuota { daily: Some(100), monthly: 1000 });
}

#[test]
fn free_plan_daily_cap_and_rollover() {
    let mut q = Quota::new();
    let d1 = day(2025, 3, 10);
    for i in 0..100u64 {
        let r = q.try_consume_on("ip:1.1.1.1", 1, "free", d1);
        assert!(r.allowed);
        assert_eq!(r.remaining_day, Some(99 - i));
        assert_eq!(r.remaining_month, 999 - i);
        assert_eq!(r.message, None);
        assert_eq!(r.plan, "free");
    }
    let r = q.try_consume_on("ip:1.1.1.1", 1, "free", d1);
    assert!(!r.allowed);
    assert_eq!(r.remaining_day, Some(0));
    assert_eq!(r.remaining_month, 900);
    assert_eq!(r.message.as_deref(), Some("Daily quota exceeded (limit 100 images)"));
    // Next UTC day: the day's count restarts, the month's carries on.
    let r = q.try_consume_on("ip:1.1.1.1", 1, "free", day(2025, 3, 11));
    assert!(r.allowed);
    assert_eq!(r.remaining_day, Some(99));
    assert_eq!(r.remaining_month, 899);
}

#[test]
fn month_rollover_resets_both() {
    let mut q = Quota::new();
    assert!(q.try_consume_on("u", 40, "free", day(2025, 1, 31)).allowed);
    let r = q.try_consume_on("u", 1, "free", day(2025, 2, 1));
    assert_eq!(r.remaining_day, Some(99));
    assert_eq!(r.remaining_month, 999);
}

#[test]
fn monthly_cap_checked_first() {
    let mut q = Quota::new();
    let d = day(2025, 6, 1);
    let r = q.try_consume_on("u", 5000, "pro", d);
    assert!(r.allowed);
    assert_eq!(r.remaining_day, None);
    assert_eq!(r.remaining_month, 0);
    let r = q.try_consume_on("u", 1, "pro", d);
    assert!(!r.allowed);
    assert_eq!(r.message.as_deref(), Some("Monthly quota exceeded (limit 5000 images)"));
    let mut q = Quota::new();
    let r = q.try_consume_on("v", 1001, "free", d);
    assert!(!r.allowed);
    assert_eq!(r.message.as_deref(), Some("Monthly quota exceeded (limit 1000 images)"));
    assert_eq!(r.remaining_day, Some(100));
}

#[test]
fn no_over_admission_past_remaining() {
    let mut q = Quota::new();
    let d = day(2025, 6, 2);
    assert!(q.try_consume_on("w", 97, "free", d).allowed);
    let admitted = (0..10).filter(|_| q.try_consume_on("w", 1, "free", d).allowed).count();
    assert_eq!(admitted, 3);
}

#[test]
fn refusal_does_not_charge() {
    let mut q = Quota::new();
    let d = day(2025, 6, 3);
    assert!(!q.try_consume_on("r", 101, "free", d).allowed);
    let r = q.try_consume_on("r", 100, "free", d);
    assert!(r.allowed);
    assert_eq!(r.remaining_day, Some(0));
}

#[test]
fn business_has_no_daily_cap() {
    let mut q = Quota::new();
    let r = q.try_consume_on("b", 9000, "business", day(2025, 1, 1));
    assert!(r.allowed);
    assert_eq!(r.remaining_day, None);
    assert_eq!(r.remaining_month, 1000);
}

#[test]
fn try_consume_uses_clock() {
    let mut q = Quota::new();
    let r = q.try_consume("c", 1, "free");
    assert!(r.allowed);
    assert_eq!(r.remaining_day, Some(99));
}
