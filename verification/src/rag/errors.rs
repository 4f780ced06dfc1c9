//! Errors raised across the retrieval-augmented generation pipeline.
use vstd::prelude::*;
use crate::text::starts_with;

verus! {

#[verifier::external_type_specification]
#[verifier::external_body]
pub struct ExIoError(std::io::Error);

/// Failures of ingestion, chunking, embedding, storage and retrieval.
#[derive(Debug)]
pub enum RagError {
    IngestionError(String),
    ChunkingError(String),
    EmbeddingError(String),
    VectorStoreError(String),
    QuantizationError(String),
    RetrievalError(String),
    IoError(std::io::Error),
    SerializationError(String),
}

/// The text `Display` gives for an I/O error. What it says depends on the
/// operating system's error messages, so nothing is stated of it.
#[verifier::external_body]
fn io_error_text(e: &std::io::Error) -> String {
    format!("{e}")
}

pub open spec fn rag_error_prefix(e: RagError) -> Seq<char> {
    match e {
        RagError::IngestionError(_) => "Document ingestion failed: "@,
        RagError::ChunkingError(_) => "Text chunking boundary failure: "@,
        RagError::EmbeddingError(_) => "Python embedding engine failure: "@,
        RagError::VectorStoreError(_) => "Vector store indexing anomaly: "@,
        RagError::QuantizationError(_) => "GGUF-style quantization out of bounds: "@,
        RagError::RetrievalError(_) => "Information retrieval timed out: "@,
        RagError::IoError(_) => "Underlying System I/O error occurred: "@,
        RagError::SerializationError(_) => "Internal serialization/deserialization failure: "@,
    }
}

impl RagError {
    /// The user-facing description of the error (what `Display` shows):
    /// a prefix naming the kind of failure, then its message.
    pub fn message(&self) -> (s: String)
        ensures
            starts_with(s@, rag_error_prefix(*self)),
            match self {
                RagError::IngestionError(m) => s@ == rag_error_prefix(*self) + m@,
                RagError::ChunkingError(m) => s@ == rag_error_prefix(*self) + m@,
                RagError::EmbeddingError(m) => s@ == rag_error_prefix(*self) + m@,
                RagError::VectorStoreError(m) => s@ == rag_error_prefix(*self) + m@,
                RagError::QuantizationError(m) => s@ == rag_error_prefix(*self) + m@,
                RagError::RetrievalError(m) => s@ == rag_error_prefix(*self) + m@,
                RagError::IoError(_) => true,
                RagError::SerializationError(m) => s@ == rag_error_prefix(*self) + m@,
            },
    {
        let mut s = String::new();
        match self {
            RagError::IngestionError(m) => {
                s.append("Document ingestion failed: ");
                s.append(m.as_str());
            },
            RagError::ChunkingError(m) => {
                s.append("Text chunking boundary failure: ");
                s.append(m.as_str());
            },
            RagError::EmbeddingError(m) => {
                s.append("Python embedding engine failure: ");
                s.append(m.as_str());
            },
            RagError::VectorStoreError(m) => {
                s.append("Vector store indexing anomaly: ");
                s.append(m.as_str());
            },
            RagError::QuantizationError(m) => {
                s.append("GGUF-style quantization out of bounds: ");
                s.append(m.as_str());
            },
            RagError::RetrievalError(m) => {
                s.append("Information retrieval timed out: ");
                s.append(m.as_str());
            },
            RagError::IoError(e) => {
                s.append("Underlying System I/O error occurred: ");
                let t = io_error_text(e);
                s.append(t.as_str());
            },
            RagError::SerializationError(m) => {
                s.append("Internal serialization/deserialization failure: ");
                s.append(m.as_str());
            },
        }
        assert(s@.take(rag_error_prefix(*self).len() as int) =~= rag_error_prefix(*self));
        s
    }

    /// Whether the error wraps an underlying I/O error (the only source it
    /// exposes).
    pub fn has_source(&self) -> (b: bool)
        ensures
            b == (*self is IoError),
    {
        match self {
            RagError::IoError(_) => true,
            _ => false,
        }
    }
}

} // verus!
