use fintally::errors::AppError;
use fintally::llm::prompt::Prompt;

#[test]
fn empty_prompt_is_rejected() {
    let result = Prompt::build("", None);
    assert!(matches!(result, Err(AppError::InvalidInput(_))));
}

#[test]
fn whitespace_only_prompt_is_rejected() {
    let result = Prompt::build("   \n\t  ", None);
    assert!(matches!(result, Err(AppError::InvalidInput(_))));
}

#[test]
fn calculate_emi_prompt_is_now_accepted() {
    let result = Prompt::build("calculate my emi for 5 lakh loan", None);
    assert!(result.is_ok());
}

#[test]
fn oversized_prompt_is_rejected() {
    let huge = "x".repeat(9000);
    let result = Prompt::build(&huge, None);
    assert!(matches!(result, Err(AppError::InvalidInput(_))));
}

#[test]
fn simple_prompt_without_context_passes() {
    let result = Prompt::build("Explain budgeting", None).unwrap();
    assert_eq!(result, "Explain budgeting");
}

#[test]
fn prompt_with_context_is_combined_correctly() {
    let context = "You are a financial assistant.";
    let prompt = "Explain budgeting basics.";
    let result = Prompt::build(prompt, Some(context)).unwrap();
    assert_eq!(result, "You are a financial assistant.\n\nExplain budgeting basics.");
}

#[test]
fn empty_context_is_ignored() {
    let result = Prompt::build("Hello", Some("   ")).unwrap();
    assert_eq!(result, "Hello");
}

#[test]
fn context_only_does_not_bypass_empty_prompt_check() {
    let result = Prompt::build("", Some("System context"));
    assert!(matches!(result, Err(AppError::InvalidInput(_))));
}

#[test]
fn prompt_limit_counts_bytes_not_characters() {
    // 2700 rupee signs are 2700 characters but 8100 bytes.
    let rupees = "\u{20b9}".repeat(2700);
    match Prompt::build(&rupees, None) {
        Err(AppError::InvalidInput(m)) => assert_eq!(m, "Prompt exceeds maximum allowed length."),
        _ => panic!("an over-long prompt must be refused"),
    }
    let exact = "y".repeat(8000);
    assert_eq!(Prompt::build(&exact, None).unwrap().len(), 8000);
}

#[test]
fn empty_prompt_error_message() {
    match Prompt::build(" \t", Some("ctx")) {
        Err(AppError::InvalidInput(m)) => assert_eq!(m, "Prompt cannot be empty."),
        _ => panic!("a blank prompt must be refused"),
    }
}
