use fintally::server::models::{
    daily_sync_delay, default_budget_category, default_category, default_emi_category, default_emi_name, is_due, next_recurrence,
    plan_occurrence, session_key, RecurringFrequency, UtcTime, WarningCode,
};

fn t(secs: i64) -> UtcTime {
    UtcTime { secs, nanos: 0 }
}

#[test]
fn defaults() {
    assert_eq!(default_category(), "General");
    assert_eq!(default_budget_category(), "Overall");
    assert_eq!(default_emi_category(), "EMI");
    assert_eq!(default_emi_name(), "Loan EMI");
    assert_eq!(session_key(None), "default");
    assert_eq!(session_key(Some("s1")), "s1");
    assert_eq!(WarningCode::LimitExceeded.code(), "LIMIT_EXCEEDED");
}

#[test]
fn recurring_transactions_fall_due() {
    let jan_1 = 1_704_067_200; // 2024-01-01T00:00:00Z
    assert!(!is_due(RecurringFrequency::Daily, t(jan_1), t(jan_1 + 86_399)));
    assert!(is_due(RecurringFrequency::Daily, t(jan_1), t(jan_1 + 86_400)));
    assert!(!is_due(RecurringFrequency::Daily, UtcTime { secs: jan_1, nanos: 5 }, UtcTime { secs: jan_1 + 86_400, nanos: 4 }));
    assert!(is_due(RecurringFrequency::Weekly, t(jan_1), t(jan_1 + 7 * 86_400)));
    // 28 days later but still January: not due
    let jan_3 = jan_1 + 2 * 86_400;
    assert!(!is_due(RecurringFrequency::Monthly, t(jan_1), t(jan_1 + 30 * 86_400)));
    assert!(is_due(RecurringFrequency::Monthly, t(jan_3), t(jan_3 + 30 * 86_400)));
}

#[test]
fn tenure_counts_down() {
    let u = next_recurrence(RecurringFrequency::Monthly, Some(3));
    assert_eq!((u.tenure_months, u.is_recurring, u.frequency), (Some(2), true, Some(RecurringFrequency::Monthly)));
    let u = next_recurrence(RecurringFrequency::Weekly, Some(1));
    assert_eq!((u.tenure_months, u.is_recurring, u.frequency), (Some(0), false, None));
    let u = next_recurrence(RecurringFrequency::Weekly, Some(-2));
    assert_eq!((u.tenure_months, u.is_recurring), (Some(0), false));
    let u = next_recurrence(RecurringFrequency::Daily, None);
    assert_eq!((u.tenure_months, u.is_recurring, u.frequency), (None, true, Some(RecurringFrequency::Daily)));
}

#[test]
fn the_knowledge_sync_waits_for_half_past_two_utc() {
    assert_eq!(daily_sync_delay(UtcTime { secs: 0, nanos: 0 }), (9000, 0));
    assert_eq!(daily_sync_delay(UtcTime { secs: 9000, nanos: 0 }), (86400, 0));
    assert_eq!(daily_sync_delay(UtcTime { secs: 9000, nanos: 500_000_000 }), (86399, 500_000_000));
    assert_eq!(daily_sync_delay(UtcTime { secs: -1, nanos: 0 }), (9001, 0));
    assert_eq!(daily_sync_delay(UtcTime { secs: 1787097600 + 3600, nanos: 0 }), (5400, 0));
    assert_eq!(daily_sync_delay(UtcTime { secs: 1787097600 + 10000, nanos: 0 }), (86400 - 1000, 0));
}

#[test]
fn due_templates_generate_an_occurrence() {
    let now = UtcTime { secs: 1787097600, nanos: 0 };
    let two_days_ago = UtcTime { secs: 1787097600 - 2 * 86400, nanos: 0 };
    let hour_ago = UtcTime { secs: 1787097600 - 3600, nanos: 0 };
    let u = plan_occurrence(Some(RecurringFrequency::Daily), None, two_days_ago, now, Some(1)).unwrap();
    assert_eq!(u.tenure_months, Some(0));
    assert!(!u.is_recurring);
    assert_eq!(u.frequency, None);
    let v = plan_occurrence(Some(RecurringFrequency::Daily), Some(two_days_ago), hour_ago, now, None).unwrap();
    assert!(v.is_recurring);
    assert_eq!(v.frequency, Some(RecurringFrequency::Daily));
    assert!(plan_occurrence(Some(RecurringFrequency::Daily), Some(hour_ago), two_days_ago, now, None).is_none());
    assert!(plan_occurrence(None, None, two_days_ago, now, None).is_none());
}
