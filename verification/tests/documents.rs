use fintally::rag::documents::{DocumentChunk, DocumentLoader, MetadataFilter, MetadataMap, RawDocument};
use fintally::rag::errors::RagError;
use fintally::rag::pipeline::{ChunkIdCounter, IngestionPipeline};

fn pairs(v: &[(&str, &str)]) -> Vec<(String, String)> {
    v.iter().map(|(k, x)| (k.to_string(), x.to_string())).collect()
}

fn map(v: &[(&str, &str)]) -> MetadataMap {
    let mut m = MetadataMap::new();
    for (k, x) in v {
        m.insert(k.to_string(), x.to_string());
    }
    m
}

fn make_chunk_with_metadata(metadata: Vec<(String, String)>) -> DocumentChunk {
    DocumentChunk {
        id: 1,
        document_id: "default_doc".to_string(),
        sequence_index: 0,
        text: "Context block for validation rules.".to_string(),
        metadata,
    }
}

#[test]
fn test_raw_document_constructor_flattens_allocations() {
    let input_id = "financial_ledger_2026.pdf".to_string();
    let input_content = "Raw accounting ledger parameters detailing asset balancing.".to_string();
    let input_metadata = map(&[("author", "Fintally Core"), ("system_tier", "production")]);
    let document = RawDocument::new(input_id, input_content, input_metadata);
    assert_eq!(document.id.as_str(), "financial_ledger_2026.pdf");
    assert_eq!(document.content.as_str(), "Raw accounting ledger parameters detailing asset balancing.");
    assert_eq!(document.metadata.len(), 2, "Flattened metadata slice lost keys during conversion.");
    let author_pair = document.metadata.iter().find(|(key, _)| key.as_str() == "author");
    let tier_pair = document.metadata.iter().find(|(key, _)| key.as_str() == "system_tier");
    assert!(author_pair.is_some(), "Metadata loop failed to locate 'author' key variant.");
    assert_eq!(author_pair.unwrap().1.as_str(), "Fintally Core");
    assert!(tier_pair.is_some(), "Metadata loop failed to locate 'system_tier' key variant.");
    assert_eq!(tier_pair.unwrap().1.as_str(), "production");
}

#[test]
fn test_empty_inputs_resolve_safely_without_panics() {
    let empty_metadata = MetadataMap::new();
    let document = RawDocument::new(String::new(), String::new(), empty_metadata);
    assert_eq!(document.id.as_str(), "");
    assert_eq!(document.content.as_str(), "");
    assert!(document.metadata.is_empty(), "Empty HashMap conversion produced an active metadata block allocation.");
}

#[test]
fn metadata_map_insert_replaces_in_place() {
    let mut m = map(&[("a", "1"), ("b", "2")]);
    m.insert("a".to_string(), "3".to_string());
    assert_eq!(m.len(), 2);
    assert_eq!(m.entries(), &pairs(&[("a", "3"), ("b", "2")]));
}

#[test]
fn test_empty_criteria_matches_everything() {
    let chunk = make_chunk_with_metadata(pairs(&[("category", "finance")]));
    let criteria = MetadataMap::new();
    assert!(MetadataFilter::matches(&chunk, &criteria), "Empty criteria failed to pass.");
}

#[test]
fn test_early_exit_when_criteria_outnumbers_metadata() {
    let chunk = make_chunk_with_metadata(pairs(&[("source", "ledger.pdf")]));
    let criteria = map(&[("source", "ledger.pdf"), ("year", "2026")]);
    assert!(!MetadataFilter::matches(&chunk, &criteria), "Length validation guardrail failed to reject query.");
}

#[test]
fn test_perfect_metadata_match() {
    let chunk = make_chunk_with_metadata(pairs(&[("department", "accounting"), ("security_level", "L2")]));
    let criteria = map(&[("department", "accounting"), ("security_level", "L2")]);
    assert!(MetadataFilter::matches(&chunk, &criteria), "Valid matching metadata tags were rejected.");
}

#[test]
fn test_key_exists_but_value_is_mismatched() {
    let chunk = make_chunk_with_metadata(pairs(&[("environment", "production")]));
    let criteria = map(&[("environment", "staging")]);
    assert!(!MetadataFilter::matches(&chunk, &criteria), "System allowed value mismatch pass.");
}

#[test]
fn test_required_filter_key_missing_entirely() {
    let chunk = make_chunk_with_metadata(pairs(&[("author", "alice")]));
    let criteria = map(&[("tenant_id", "alice")]);
    assert!(!MetadataFilter::matches(&chunk, &criteria), "System failed to detect missing filter key criteria.");
}

#[test]
fn filter_reads_the_first_occurrence_of_a_key() {
    let chunk = make_chunk_with_metadata(pairs(&[("k", "first"), ("k", "second")]));
    assert!(MetadataFilter::matches(&chunk, &map(&[("k", "first")])));
    assert!(!MetadataFilter::matches(&chunk, &map(&[("k", "second")])));
}

#[test]
fn test_load_collapses_erratic_whitespace_and_newlines() {
    let chaotic_input = "  Asset   ledger   reconciliation.\n\nNew   line tracking \t token.  ";
    let document = DocumentLoader::load_from_file("/tmp/fintally_loader_chaotic_spacing.txt", chaotic_input);
    let expected_clean_text = "Asset ledger reconciliation. New line tracking token.";
    assert_eq!(document.content.as_str(), expected_clean_text);
}

#[test]
fn test_metadata_extracts_source_name_and_extension_variants() {
    let document = DocumentLoader::load_from_file("/tmp/some/dir/financial_report.json", "Isolated data string.");
    assert_eq!(document.id.as_str(), "financial_report.json");
    assert_eq!(document.metadata.len(), 2, "Metadata box slice size misaligned.");
    let source_meta = document.metadata.iter().find(|(k, _)| k.as_str() == "source_file").unwrap();
    let type_meta = document.metadata.iter().find(|(k, _)| k.as_str() == "file_type").unwrap();
    assert_eq!(source_meta.1.as_str(), "financial_report.json");
    assert_eq!(type_meta.1.as_str(), "json");
}

#[test]
fn test_fallback_metadata_defaults_for_missing_extensions() {
    let document = DocumentLoader::load_from_file("/tmp/no_extension_file", "Extensionless document text payload.");
    let type_meta = document.metadata.iter().find(|(k, _)| k.as_str() == "file_type").unwrap();
    assert_eq!(type_meta.1.as_str(), "txt");
}

#[test]
fn loader_names_a_nameless_path_unknown_source() {
    let document = DocumentLoader::load_from_file("/", "text");
    assert_eq!(document.id.as_str(), "unknown_source");
}

#[test]
fn test_ingestion_pipeline_atomic_uniqueness_and_sequence_tracking() {
    let pipeline = IngestionPipeline::new(10, 2);
    let sample_text = "Line item ledger asset tracking rules. Capital checking validation procedures. Operational buffer matrix values.";
    let result = pipeline.process_file("/tmp/atomic_test.txt", sample_text, &mut ChunkIdCounter::new());
    assert!(result.is_ok(), "Pipeline processing failed: {:?}", result.err());
    let chunks = result.unwrap();
    assert!(chunks.len() > 1, "Text did not split into separate chunk items.");
    let mut previous_id = 0u64;
    for (idx, chunk) in chunks.iter().enumerate() {
        assert!(chunk.id > previous_id, "Atomic chunk ID assignment was not strictly monotonic.");
        previous_id = chunk.id;
        assert_eq!(chunk.sequence_index, idx, "Chunk sequence field misaligned from execution loop state.");
    }
}

#[test]
fn test_metadata_flattening_and_sequence_injection() {
    let pipeline = IngestionPipeline::new(50, 5);
    let sample_text = "Single record evaluation string token layout.";
    let chunks = pipeline.process_file("/tmp/metadata_test.txt", sample_text, &mut ChunkIdCounter::starting_at(7)).unwrap();
    assert!(!chunks.is_empty());
    let target_chunk = &chunks[0];
    let sequence_tag = target_chunk.metadata.iter().find(|(k, _)| k.as_str() == "chunk_sequence");
    assert!(sequence_tag.is_some(), "Pipeline failed to inject 'chunk_sequence' marker.");
    assert_eq!(sequence_tag.unwrap().1.as_str(), "0", "Injected index sequence value failed validation.");
}

#[test]
fn pipeline_numbers_tags_and_slices_chunks() {
    let pipeline = IngestionPipeline::new(2, 1);
    let mut ids = ChunkIdCounter::starting_at(u64::MAX);
    let chunks = pipeline.process_file("/data/notes.md", "  one\ttwo\n three  ", &mut ids).unwrap();
    assert_eq!(ids.peek(), 1);
    assert_eq!(chunks.len(), 2);
    assert_eq!(chunks[0].id, u64::MAX);
    assert_eq!(chunks[1].id, 0, "the id counter wraps around");
    assert_eq!(chunks[0].text, "one two");
    assert_eq!(chunks[1].text, "two three");
    assert_eq!(chunks[1].document_id, "notes.md");
    assert_eq!(chunks[1].metadata, pairs(&[("source_file", "notes.md"), ("file_type", "md"), ("chunk_sequence", "1")]));
}

#[test]
fn pipeline_refuses_a_file_without_words() {
    let pipeline = IngestionPipeline::new(4, 1);
    match pipeline.process_file("/tmp/blank.txt", " \n\t ", &mut ChunkIdCounter::new()) {
        Err(RagError::ChunkingError(m)) => assert_eq!(m, "Cannot partition completely empty text context structures"),
        other => panic!("expected a chunking error, got {:?}", other.map(|c| c.len())),
    }
}

#[test]
fn chunk_ids_are_never_handed_out_twice() {
    let pipeline = IngestionPipeline::new(2, 0);
    let mut ids = ChunkIdCounter::new();
    let first = pipeline.process_file("/tmp/a.txt", "a b c d e", &mut ids).unwrap();
    let second = pipeline.process_file("/tmp/b.txt", "f g h", &mut ids).unwrap();
    let all: Vec<u64> = first.iter().chain(second.iter()).map(|c| c.id).collect();
    assert_eq!(all, vec![1, 2, 3, 4, 5]);
    assert_eq!(ids.peek(), 6);
    assert!(pipeline.process_file("/tmp/c.txt", "  ", &mut ids).is_err());
    assert_eq!(ids.peek(), 6);
    ids.skip_past(40);
    assert_eq!(ids.peek(), 41);
    ids.skip_past(3);
    assert_eq!(ids.peek(), 41);
}

#[test]
fn file_names_and_extensions_follow_path_rules() {
    let meta = |p: &str| {
        let d = DocumentLoader::load_from_file(p, "x");
        let ty = d.metadata.iter().find(|(k, _)| k.as_str() == "file_type").unwrap().1.clone();
        (d.id.clone(), ty)
    };
    assert_eq!(meta("/a/b/.bashrc"), (".bashrc".to_string(), "txt".to_string()));
    assert_eq!(meta("/a/archive.tar.gz"), ("archive.tar.gz".to_string(), "gz".to_string()));
    assert_eq!(meta("/a/dir/./"), ("dir".to_string(), "txt".to_string()));
    assert_eq!(meta("/a/.."), ("unknown_source".to_string(), "txt".to_string()));
    assert_eq!(meta("notes."), ("notes.".to_string(), "".to_string()));
}
