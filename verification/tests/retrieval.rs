use fintally::rag::documents::DocumentChunk;
use fintally::rag::retrieval::{ContextFormatter, HybridScorer};
use fintally::rag::store::ChunkStore;

fn keyword_score(query: &str, doc: &str) -> f32 {
    let (matched, total) = HybridScorer::keyword_match_counts(query, doc);
    if total == 0 {
        0.0
    } else {
        matched as f32 / total as f32
    }
}

fn approx_eq(a: f32, b: f32) -> bool {
    (a - b).abs() < 1e-5
}

fn make_mock_chunk(text: &str, source_file: Option<&str>) -> DocumentChunk {
    let mut metadata = Vec::new();
    if let Some(src) = source_file {
        metadata.push(("source_file".to_string(), src.to_string()));
    }
    DocumentChunk { id: 101, document_id: "doc_ref_101".to_string(), text: text.to_string(), sequence_index: 0, metadata }
}

fn chunk_with_id(id: u64, text: &str) -> DocumentChunk {
    DocumentChunk { id, document_id: "default_doc".to_string(), sequence_index: 0, text: text.to_string(), metadata: Vec::new() }
}

#[test]
fn test_keyword_score_empty_and_whitespace_queries() {
    assert_eq!(keyword_score("", "Valid document text block."), 0.0);
    assert_eq!(keyword_score("   ", "Valid document text block."), 0.0);
    assert_eq!(keyword_score("ledger", ""), 0.0);
}

#[test]
fn test_keyword_score_perfect_match_triggering_early_exit() {
    let query = "finance cash ledger";
    let doc = "Tracking corporate finance cash ledger balances closely.";
    assert_eq!(keyword_score(query, doc), 1.0, "Perfect word matches must instantly trigger a 1.0 early exit score.");
}

#[test]
fn test_keyword_score_partial_matches_and_fractions() {
    let query = "rust python java typescript";
    let doc = "We use rust and python pipelines across our production environment.";
    let score = keyword_score(query, doc);
    assert!(approx_eq(score, 0.5), "Partial token coverage expected 0.5, got: {score}");
}

#[test]
fn test_keyword_score_ignores_ascii_case_variants() {
    let query = "LEDGER AMORTIZATION BALANCE";
    let doc = "checking accounts ledger amortization balance sheets.";
    assert_eq!(keyword_score(query, doc), 1.0, "Token casing caused a match failure instead of resolving case-insensitively.");
}

#[test]
fn test_keyword_score_deduplicates_query_tokens() {
    let query = "cache cache cache cache";
    let doc = "System memory layer uses a fast hardware cache pipeline.";
    assert_eq!(keyword_score(query, doc), 1.0, "Query deduplication failed, skewing token total counts.");
}

#[test]
fn keyword_counts_are_exact() {
    assert_eq!(HybridScorer::keyword_match_counts("Tax tax TAX refund", "the TAX office"), (1, 2));
    assert_eq!(HybridScorer::keyword_match_counts("ledger.", "ledger"), (0, 1));
    assert_eq!(HybridScorer::keyword_match_counts("ÉCOLE fees", "école FEES"), (2, 2));
}

#[test]
fn test_format_context_returns_graceful_fallback_for_empty_matches() {
    let empty: Vec<(DocumentChunk, String)> = Vec::new();
    let result = ContextFormatter::format_context(&empty);
    assert_eq!(result, "No background reference facts found matching this query scenario.");
}

#[test]
fn test_format_context_builds_valid_unified_knowledge_block() {
    let chunk_a = make_mock_chunk("Line item asset margin tracking details.", Some("balance_sheet.csv"));
    let chunk_b = make_mock_chunk("   Whitespace padded operational rules constraint string.   ", Some("audit_log.json"));
    let matches = vec![(chunk_a, format!("{:.2}", 0.9234f32)), (chunk_b, format!("{:.2}", 0.7512f32))];
    let formatted_output = ContextFormatter::format_context(&matches);
    assert!(formatted_output.starts_with("=== EMBEDDED KNOWLEDGE BACKGROUND CONTEXT ===\n"));
    assert!(formatted_output.ends_with("============================================="));
    assert!(formatted_output.contains("[Reference Node 1 | Source: balance_sheet.csv | Match Confidence: 0.92]"));
    assert!(formatted_output.contains("Text: Line item asset margin tracking details."));
    assert!(formatted_output.contains("[Reference Node 2 | Source: audit_log.json | Match Confidence: 0.75]"));
    assert!(formatted_output.contains("Text: Whitespace padded operational rules constraint string."));
}

#[test]
fn test_format_context_defaults_gracefully_for_missing_source_metadata() {
    let blind_chunk = make_mock_chunk("Context block text without a source origin link.", None);
    let matches = vec![(blind_chunk, format!("{:.2}", 0.85f32))];
    let formatted_output = ContextFormatter::format_context(&matches);
    assert!(formatted_output.contains("Source: unknown"), "Output: {}", formatted_output);
}

#[test]
fn format_context_exact_layout() {
    let matches = vec![(make_mock_chunk(" alpha ", Some("a.txt")), "0.50".to_string())];
    assert_eq!(
        ContextFormatter::format_context(&matches),
        "=== EMBEDDED KNOWLEDGE BACKGROUND CONTEXT ===\n[Reference Node 1 | Source: a.txt | Match Confidence: 0.50]\nText: alpha\n\n============================================="
    );
}

#[test]
fn test_insertion_and_direct_chunk_lookup() {
    let mut store = ChunkStore::new();
    store.insert(chunk_with_id(42, "Direct memory allocation lookup verification."));
    let fetched = store.get_chunk(42);
    assert!(fetched.is_some());
    assert_eq!(fetched.unwrap().text, "Direct memory allocation lookup verification.".to_string());
    assert!(store.get_chunk(999).is_none());
}

#[test]
fn test_clear_wipes_all_internal_allocations() {
    let mut store = ChunkStore::new();
    store.insert(chunk_with_id(1, "Data block A"));
    store.insert(chunk_with_id(2, "Data block B"));
    assert!(store.get_chunk(1).is_some());
    store.clear();
    assert!(store.get_chunk(1).is_none());
    assert_eq!(store.len(), 0);
}

#[test]
fn store_insert_replaces_a_chunk_with_the_same_id() {
    let mut store = ChunkStore::new();
    store.insert(chunk_with_id(5, "old"));
    store.insert(chunk_with_id(6, "other"));
    store.insert(chunk_with_id(5, "new"));
    assert_eq!(store.len(), 2);
    assert_eq!(store.get_chunk(5).unwrap().text, "new");
    assert_eq!(store.get_chunk(6).unwrap().text, "other");
}
