use fintally::server::models::RecurringFrequency;
use fintally::server::transactions::{
    form_bool, form_frequency, receipt_file_name, receipt_path_of_url, receipt_url, transaction_user_id,
    TransactionForm, TransactionPatch,
};

#[test]
fn user_ids_must_be_integers() {
    assert_eq!(transaction_user_id("42"), Ok(42));
    assert_eq!(transaction_user_id("-7"), Ok(-7));
    assert_eq!(
        transaction_user_id("550e8400-e29b"),
        Err((400, "Malformed user authenticating token integer format".to_string()))
    );
}

#[test]
fn form_values_are_read_strictly() {
    assert!(form_bool("true"));
    assert!(!form_bool("True"));
    assert!(!form_bool("yes"));
    assert_eq!(form_frequency("Weekly"), Some(RecurringFrequency::Weekly));
    assert_eq!(form_frequency("weekly"), None);
}

#[test]
fn a_new_transaction_form_is_filled_field_by_field() {
    let mut f = TransactionForm::new();
    assert_eq!(f.category, "General");
    f.apply_text_field("name", "Rent".to_string());
    f.apply_text_field("price", "1200.50".to_string());
    f.apply_text_field("isRecurring", "true".to_string());
    f.apply_text_field("recurringFrequency", "Monthly".to_string());
    f.apply_text_field("category", "".to_string());
    f.apply_text_field("colour", "blue".to_string());
    f.apply_receipt(Some("rent.pdf".to_string()), vec![1, 2, 3]);
    assert_eq!(f.name, "Rent");
    assert_eq!(f.price_text, Some("1200.50".to_string()));
    assert!(f.is_recurring);
    assert_eq!(f.recurring_frequency, Some(RecurringFrequency::Monthly));
    assert_eq!(f.category, "");
    assert_eq!(f.description, "");
    assert_eq!(f.datetime_text, None);
    assert_eq!(f.receipt_name, Some("rent.pdf".to_string()));
    assert_eq!(f.receipt_bytes, Some(vec![1, 2, 3]));
}

#[test]
fn an_edit_form_skips_empty_values() {
    let mut p = TransactionPatch::new();
    p.apply_text_field("name", "".to_string());
    p.apply_text_field("category", "Food".to_string());
    p.apply_text_field("isRecurring", "nope".to_string());
    assert_eq!(p.name, None);
    assert_eq!(p.category, Some("Food".to_string()));
    assert_eq!(p.is_recurring, Some(false));
    assert_eq!(p.price_text, None);
}

#[test]
fn receipts_are_stored_under_their_upload_time() {
    let name = receipt_file_name(1714000000123, "bill.png");
    assert_eq!(name, "1714000000123_bill.png");
    let url = receipt_url(&name);
    assert_eq!(url, "/uploads/1714000000123_bill.png");
    assert_eq!(receipt_path_of_url(&url), "./uploads/1714000000123_bill.png");
}
