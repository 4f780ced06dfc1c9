use fintally::errors::AppError;
use fintally::rag::service::{
    blank_pdf_error, blank_text_error, clean_model_path, ingest_kind, objects_query, plan_asset,
    sanitize_text_for_embedding, unsupported_format_error, AssetAction, IngestKind,
};

#[test]
fn text_is_prepared_for_embedding() {
    assert_eq!(sanitize_text_for_embedding("  Tax\u{00A0}slab \u{2022} 30%\n\tﬁnal  "), "Tax slab 30% final");
    assert_eq!(sanitize_text_for_embedding("\u{1F600}"), "");
}

#[test]
fn documents_are_sorted_by_extension() {
    assert!(matches!(ingest_kind(Some("CSV")), IngestKind::Text));
    assert!(matches!(ingest_kind(Some("pdf")), IngestKind::Pdf));
    assert!(matches!(ingest_kind(Some("DOCX")), IngestKind::Unsupported(e) if e == "docx"));
    assert!(matches!(ingest_kind(None), IngestKind::Unsupported(e) if e.is_empty()));
    assert!(matches!(unsupported_format_error("docx"), AppError::InferenceError(m) if m == "Unsupported document format: .docx"));
    assert!(blank_text_error(" x ").is_none());
    assert!(matches!(blank_text_error(" \n"), Some(AppError::InferenceError(m)) if m == "Document contains no readable text layers."));
    assert!(matches!(blank_pdf_error("", "a.pdf"), Some(AppError::InferenceError(m)) if m == "PDF file contains no parseable text layers: a.pdf"));
}

#[test]
fn model_paths_are_normalized() {
    assert_eq!(clean_model_path("\\\\?\\C:\\models\\bge"), "C:/models/bge");
    assert_eq!(clean_model_path("/opt/models/bge"), "/opt/models/bge");
}

#[test]
fn remote_files_are_planned() {
    assert_eq!(objects_query("abc"), "'abc' in parents and trashed = false");
    assert!(matches!(plan_asset(Some("1"), Some("a.pdf"), true), AssetAction::UseLocal { name } if name == "a.pdf"));
    assert!(matches!(plan_asset(Some("1"), Some("a.pdf"), false), AssetAction::Download { id, name } if id == "1" && name == "a.pdf"));
    assert!(matches!(plan_asset(None, Some("a.pdf"), false), AssetAction::Skip));
}
