//! Requests and answers of the ingestion interface.
use vstd::prelude::*;

verus! {

/// A request to ingest a file.
pub struct IngestionRequest {
    pub file_path: String,
    pub document_type: String,
    pub metadata: Option<Vec<(String, String)>>,
}

/// The outcome of an ingestion.
pub struct IngestionResponse {
    pub document_id: String,
    pub chunks_count: usize,
    pub success: bool,
    pub execution_time_ms: u64,
}

} // verus!
