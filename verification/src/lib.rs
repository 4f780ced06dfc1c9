pub mod chat;
pub mod errors;
pub mod llm;
pub mod rag;
pub mod server;
pub mod text;
