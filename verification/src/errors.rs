//! Application-level errors of the chatbot and its tools.
use vstd::prelude::*;

verus! {

/// Errors surfaced by the chatbot layer.
#[derive(Debug, Clone, PartialEq, Eq)]
pub enum AppError {
    InvalidInput(String),
    ValidationError(String),
    SerializationError(String),
    InferenceError(String),
}

} // verus!
