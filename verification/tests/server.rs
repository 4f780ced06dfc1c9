use fintally::chat::vision::VisionAttachment;
use fintally::server::api::{cashflow_horizons, parse_horizon_list, ApiError, BudgetApiError, FeedbackRouteError, PaginationQuery};
use fintally::server::auth::{authenticate, login_outcome, token_claims, AuthError, AuthRouteError, Claims, TokenFailure};
use fintally::server::chat::{
    classify_token, default_limit, default_max_tokens, multipart_attachment, multipart_limit_error,
    collect_reply, parse_json_attachments, sse_data, ChatAttachmentPayload, ReplyCollector, StreamToken,
};

fn payload(t: &str, b: &str) -> ChatAttachmentPayload {
    ChatAttachmentPayload { file_type: t.to_string(), bytes_base64: b.to_string() }
}

#[test]
fn request_defaults() {
    assert_eq!(default_max_tokens(), 512);
    assert_eq!(default_limit(), 50);
}

#[test]
fn json_attachments_are_decoded_and_sorted() {
    let atts = parse_json_attachments(&vec![payload("PNG", "aGVsbG8="), payload("pdf", "AQI="), payload("Chart", "")]).unwrap();
    assert_eq!(atts.len(), 3);
    assert!(matches!(&atts[0], VisionAttachment::Image(b) if b == b"hello"));
    assert!(matches!(&atts[1], VisionAttachment::Pdf(b) if b == &vec![1u8, 2]));
    assert!(matches!(&atts[2], VisionAttachment::Chart(b) if b.is_empty()));
}

#[test]
fn json_attachment_errors() {
    let four = vec![payload("image", ""), payload("image", ""), payload("image", ""), payload("image", "")];
    assert_eq!(parse_json_attachments(&four).err(), Some((400, "Maximum limit of 3 attachments exceeded.")));
    assert_eq!(parse_json_attachments(&vec![payload("image", "***")]).err(), Some((400, "Invalid base64 encoding in attachment payload.")));
    assert_eq!(parse_json_attachments(&vec![payload("docx", "AQI=")]).err(), Some((400, "Unsupported attachment file_type.")));
    assert_eq!(parse_json_attachments(&vec![payload("docx", "***")]).err(), Some((400, "Invalid base64 encoding in attachment payload.")));
}

#[test]
fn multipart_files_are_sorted_by_content_type() {
    assert!(matches!(multipart_attachment(Some("application/pdf"), vec![1]), VisionAttachment::Pdf(_)));
    assert!(matches!(multipart_attachment(Some("image/x-chart"), vec![1]), VisionAttachment::Chart(_)));
    assert!(matches!(multipart_attachment(None, vec![1]), VisionAttachment::Image(_)));
    assert_eq!(multipart_limit_error(3), Some((400, "A maximum of 3 attachments are allowed per query.")));
    assert_eq!(multipart_limit_error(2), None);
}

#[test]
fn stream_tokens_are_sorted() {
    assert!(matches!(classify_token("[TOOL_CALL:calculate_emi]"), StreamToken::ToolCall(n) if n == "calculate_emi"));
    assert!(matches!(classify_token("[TOOL_RESULT:{\"a\":[1]}]"), StreamToken::ToolResult(j) if j == "{\"a\":[1]}"));
    // every trailing bracket goes, as `trim_end_matches` does
    assert!(matches!(classify_token("[TOOL_RESULT:[1,2]]"), StreamToken::ToolResult(j) if j == "[1,2"));
    assert!(matches!(classify_token("Hello"), StreamToken::Text));
    assert!(matches!(classify_token("[DONE]"), StreamToken::Marker));
    assert_eq!(sse_data("a\nb\n"), "a\\nb\\n");
}

#[test]
fn reply_streams_are_collected() {
    let tokens: Vec<String> = ["Your EMI ", "[TOOL_CALL:calculate_emi]", "[TOOL_RESULT:{\"emi\":1}]", "is ready", "[DONE]", "[TOOL_CALL:calculate_tax]"]
        .iter()
        .map(|t| t.to_string())
        .collect();
    let c = collect_reply(&tokens);
    assert_eq!(c.reply, "Your EMI is ready");
    assert_eq!(c.tool_called, Some("calculate_tax".to_string()));
    assert_eq!(c.tool_results, vec!["{\"emi\":1}".to_string()]);
    let mut one = ReplyCollector::new();
    one.take("Hi");
    assert_eq!((one.reply.as_str(), one.tool_called, one.tool_results.len()), ("Hi", None, 0));
}

#[test]
fn forecast_horizons_from_the_query_string() {
    assert_eq!(cashflow_horizons(None), vec![30, 60, 90]);
    assert_eq!(cashflow_horizons(Some("horizons=7&x=1&horizons=14")), vec![7, 14]);
    assert_eq!(cashflow_horizons(Some("horizons=abc&horizons")), vec![30, 60, 90]);
    assert_eq!(cashflow_horizons(Some("horizons=-5=9")), vec![-5]);
    assert_eq!(cashflow_horizons(Some("horizons=7,14")), vec![7, 14]);
    assert_eq!(cashflow_horizons(Some("horizons=7,14&horizons=30")), vec![7, 14, 30]);
    assert_eq!(cashflow_horizons(Some("horizons=7,x&horizons=5")), vec![5]);
    assert_eq!(parse_horizon_list(" 30, 60 ,90"), Some(vec![30, 60, 90]));
    assert_eq!(parse_horizon_list("30,,60"), None);
}

#[test]
fn pages_are_ten_rows() {
    assert_eq!(PaginationQuery { page: None }.limit_offset(), (10, 0));
    assert_eq!(PaginationQuery { page: Some(-4) }.limit_offset(), (10, 0));
    assert_eq!(PaginationQuery { page: Some(3) }.limit_offset(), (10, 20));
}

#[test]
fn error_responses() {
    let r = AuthError::ExpiredToken.response();
    assert_eq!((r.status, r.error.as_str(), r.detail.as_str()), (401, "Unauthorized", "Token has expired. Please re-authenticate."));
    let r = AuthRouteError::EmailExists.response();
    assert_eq!((r.status, r.detail.as_str()), (400, "Email already registered"));
    let r = AuthRouteError::DatabaseError("down".to_string()).response();
    assert_eq!((r.status, r.error.as_str(), r.detail.as_str()), (500, "AuthError", "down"));
    let (code, body) = ApiError::InvalidUserId.response();
    assert_eq!((code, body.error.as_str()), (400, "The User ID payload cannot be parsed into a valid UUID format."));
    assert_eq!(BudgetApiError::NotFound.response(), (404, "Budget allocation target not found.".to_string()));
    assert_eq!(BudgetApiError::EngineError("bad".to_string()).response(), (400, "bad".to_string()));
    let r = FeedbackRouteError::DatabaseError("x".to_string()).response();
    assert_eq!((r.status, r.error.as_str(), r.detail.as_str()), (500, "FeedbackError", "x"));
}

#[test]
fn authentication_outcomes() {
    let claims = token_claims("42", 1_700_000_000);
    assert_eq!((claims.user_id.as_str(), claims.iat, claims.exp), ("42", 1_700_000_000, 1_700_604_800));
    let c = Claims { user_id: "7".to_string(), exp: 2, iat: 1 };
    assert!(matches!(authenticate(false, Ok(c)), Err(AuthError::MissingToken)));
    assert!(matches!(authenticate(true, Err(TokenFailure::Expired)), Err(AuthError::ExpiredToken)));
    assert!(matches!(authenticate(true, Err(TokenFailure::Invalid)), Err(AuthError::InvalidToken)));
    let c = Claims { user_id: "7".to_string(), exp: 2, iat: 1 };
    assert_eq!(authenticate(true, Ok(c)).ok().map(|c| c.user_id), Some("7".to_string()));
    assert!(matches!(login_outcome(false, Ok(true)), Err(AuthRouteError::InvalidCredentials)));
    assert!(matches!(login_outcome(true, Ok(false)), Err(AuthRouteError::InvalidCredentials)));
    assert!(matches!(login_outcome(true, Err("hash".to_string())), Err(AuthRouteError::DatabaseError(m)) if m == "hash"));
    assert!(login_outcome(true, Ok(true)).is_ok());
}
