pub mod engine;
pub mod prompt;
pub mod tools;
