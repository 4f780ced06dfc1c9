pub mod context;
pub mod orchestrator;
pub mod vision;
