use fintally::server::api::BudgetApiError;
use fintally::server::budget::{budget_period, budget_status_label, budget_user_id};

#[test]
fn budget_routes_need_an_integer_user_id() {
    assert!(matches!(budget_user_id("17"), Ok(17)));
    match budget_user_id("abc") {
        Err(BudgetApiError::EngineError(m)) => assert_eq!(m, "Invalid User ID: invalid digit found in string"),
        _ => panic!("expected an engine error"),
    }
    match budget_user_id("") {
        Err(BudgetApiError::EngineError(m)) => assert_eq!(m, "Invalid User ID: cannot parse integer from empty string"),
        _ => panic!("expected an engine error"),
    }
}

#[test]
fn budget_states_are_labelled() {
    assert_eq!(budget_status_label(0), "healthy");
    assert_eq!(budget_status_label(1), "warning");
    assert_eq!(budget_status_label(2), "over_budget");
    assert_eq!(budget_status_label(7), "healthy");
}

#[test]
fn budget_periods_are_shown_as_dates() {
    assert_eq!(budget_period(Some(1787097600), None), "2026-08-19 - Ongoing");
    assert_eq!(budget_period(None, Some(0)), "N/A - 1970-01-01");
    assert_eq!(budget_period(Some(i64::MAX), Some(i64::MIN)), "N/A - Ongoing");
    assert_eq!(budget_period(Some(-377705116800), Some(253402300799)), "-9999-01-01 - 9999-12-31");
    assert_eq!(budget_period(Some(-377705116801), Some(253402300800)), "N/A - Ongoing");
    assert_eq!(budget_period(Some(951782400), Some(-1)), "2000-02-29 - 1969-12-31");
}
