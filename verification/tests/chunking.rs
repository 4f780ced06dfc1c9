use fintally::rag::chunking::{OverlapStrategy, TextChunker};
use fintally::rag::errors::RagError;

#[test]
fn test_compute_windows_creates_correct_overlapping_slices() {
    let strategy = OverlapStrategy::new(3, 1);
    let sample_text = "alpha beta gamma delta epsilon zeta";
    let chunks = strategy.compute_windows(sample_text);
    assert_eq!(chunks.len(), 3, "Sliding window distribution failed to capture all phrases.");
    assert_eq!(chunks[0].as_str(), "alpha beta gamma");
    assert_eq!(chunks[1].as_str(), "gamma delta epsilon");
    assert_eq!(chunks[2].as_str(), "epsilon zeta");
}

#[test]
fn test_text_shorter_than_chunk_size_produces_single_chunk() {
    let strategy = OverlapStrategy::new(10, 2);
    let sample_text = "small asset ledger";
    let chunks = strategy.compute_windows(sample_text);
    assert_eq!(chunks.len(), 1, "Short text block shouldn't split into multiple intervals.");
    assert_eq!(chunks[0].as_str(), "small asset ledger");
}

#[test]
fn test_empty_text_returns_empty_vector() {
    let strategy = OverlapStrategy::new(5, 1);
    let chunks = strategy.compute_windows("");
    assert!(chunks.is_empty(), "Passing an empty text buffer must yield an empty chunk array.");
}

#[test]
fn test_pathological_overlap_values_do_not_infinite_loop() {
    let strategy = OverlapStrategy::new(2, 2);
    let sample_text = "one two three four";
    let chunks = strategy.compute_windows(sample_text);
    assert_eq!(chunks.len(), 3, "Infinite loop safeguard step failed to calculate correctly.");
    assert_eq!(chunks[0].as_str(), "one two");
    assert_eq!(chunks[1].as_str(), "two three");
    assert_eq!(chunks[2].as_str(), "three four");
}

#[test]
fn test_chunk_text_successful_delegation_to_strategy() {
    let chunker = TextChunker::new(2, 1);
    let valid_input = "system memory buffer alignment";
    let result = chunker.chunk_text(valid_input);
    assert!(result.is_ok(), "Chunker threw error on valid text sequence.");
    let chunks = result.unwrap();
    assert_eq!(chunks.len(), 3, "Window processing delegation failed.");
    assert_eq!(chunks[0].as_str(), "system memory");
    assert_eq!(chunks[1].as_str(), "memory buffer");
    assert_eq!(chunks[2].as_str(), "buffer alignment");
}

#[test]
fn test_chunk_text_errors_on_completely_empty_input() {
    let chunker = TextChunker::new(10, 2);
    let result = chunker.chunk_text("");
    assert!(result.is_err(), "Chunker incorrectly allowed processing empty strings.");
    match result.unwrap_err() {
        RagError::ChunkingError(msg) => {
            assert!(msg.contains("Cannot partition completely empty text context structures"));
        }
        other => panic!("Expected RagError::ChunkingError, caught: {:?}", other),
    }
}

#[test]
fn test_chunk_text_errors_on_whitespace_only_input() {
    let chunker = TextChunker::new(5, 1);
    let bad_input = "   \n\t   \n   ";
    let result = chunker.chunk_text(bad_input);
    assert!(result.is_err(), "Chunker failed to trap a text block containing only whitespace characters.");
}

#[test]
fn windows_are_exact_slices_of_the_text() {
    // Words are separated by single spaces; a chunk is the exact slice of
    // the text from its first word to its last.
    let strategy = OverlapStrategy::new(2, 0);
    let chunks = strategy.compute_windows("a b c d e");
    assert_eq!(chunks, vec!["a b".to_string(), "c d".to_string(), "e".to_string()]);
}
