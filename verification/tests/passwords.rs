use fintally::server::auth::{check_login, hash_new_password, AuthRouteError};

#[test]
fn a_signed_up_password_logs_in() {
    let stored = hash_new_password("s3cret-passphrase").unwrap();
    assert_ne!(stored, "s3cret-passphrase");
    assert!(stored.starts_with("$2b$12$"));
    assert_eq!(stored.len(), 60);
    assert!(check_login("s3cret-passphrase", Some(&stored)).is_ok());
    assert!(matches!(check_login("wrong", Some(&stored)), Err(AuthRouteError::InvalidCredentials)));
}

#[test]
fn unknown_accounts_and_unreadable_hashes_are_refused() {
    assert!(matches!(check_login("anything", None), Err(AuthRouteError::InvalidCredentials)));
    assert!(matches!(check_login("anything", Some("not-a-bcrypt-hash")), Err(AuthRouteError::DatabaseError(_))));
}
