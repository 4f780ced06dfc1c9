use fintally::server::api::parse_flexible_date;

#[test]
fn rfc3339_timestamps_are_read_as_instants() {
    let t = parse_flexible_date("2026-08-19T00:00:00Z").unwrap();
    assert_eq!((t.secs, t.nanos), (1787097600, 0));
    let shifted = parse_flexible_date("2026-08-19T05:30:00.5+05:30").unwrap();
    assert_eq!((shifted.secs, shifted.nanos), (1787097600, 500_000_000));
}

#[test]
fn plain_dates_mean_the_end_of_the_day() {
    let t = parse_flexible_date("2026-08-19").unwrap();
    assert_eq!((t.secs, t.nanos), (1787097600 + 86399, 0));
    assert_eq!(parse_flexible_date("1970-01-01").unwrap().secs, 86399);
    assert_eq!(parse_flexible_date("1969-12-31").unwrap().secs, -1);
}

#[test]
fn other_dates_are_refused() {
    assert_eq!(
        parse_flexible_date("19/08/2026").err(),
        Some("Invalid date format for '19/08/2026'. Expected 'YYYY-MM-DD' or RFC3339 string.".to_string())
    );
}

#[test]
fn analytics_user_ids_are_uuids() {
    use_parse_user_id();
}

fn use_parse_user_id() {
    let u = fintally::server::api::parse_user_id("550e8400-e29b-41d4-a716-446655440000").ok().unwrap();
    assert_eq!(u, 0x550e8400_e29b_41d4_a716_446655440000);
    assert_eq!(
        fintally::server::api::parse_user_id("00000000-0000-0000-0000-000000000001").ok(),
        Some(1)
    );
    assert!(matches!(
        fintally::server::api::parse_user_id("42"),
        Err(fintally::server::api::ApiError::InvalidUserId)
    ));
}
