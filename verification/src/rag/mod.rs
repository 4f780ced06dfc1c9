pub mod chunking;
pub mod documents;
pub mod errors;
pub mod pipeline;
pub mod retrieval;
pub mod service;
pub mod store;
pub mod dto;
pub mod pdf;
