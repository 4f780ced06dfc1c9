use fintally::rag::errors::RagError;

#[test]
fn test_error_display_formatting() {
    let err = RagError::EmbeddingError("ONNX runtime uninitialized".into());
    assert_eq!(err.message(), "Python embedding engine failure: ONNX runtime uninitialized");
    let serialization_err = RagError::SerializationError("JSON key mismatch".into());
    assert_eq!(serialization_err.message(), "Internal serialization/deserialization failure: JSON key mismatch");
}

#[test]
fn every_error_kind_has_its_prefix() {
    assert_eq!(RagError::IngestionError("x".into()).message(), "Document ingestion failed: x");
    assert_eq!(RagError::ChunkingError("x".into()).message(), "Text chunking boundary failure: x");
    assert_eq!(RagError::VectorStoreError("x".into()).message(), "Vector store indexing anomaly: x");
    assert_eq!(RagError::QuantizationError("x".into()).message(), "GGUF-style quantization out of bounds: x");
    assert_eq!(RagError::RetrievalError("x".into()).message(), "Information retrieval timed out: x");
    let io = RagError::IoError(std::io::Error::new(std::io::ErrorKind::NotFound, "gone"));
    assert_eq!(io.message(), "Underlying System I/O error occurred: gone");
    assert!(io.has_source());
    assert!(!RagError::ChunkingError("x".into()).has_source());
}
