pub mod api;
pub mod auth;
pub mod chat;
pub mod model_files;
pub mod models;
pub mod provision;
pub mod hardware;
pub mod transactions;
pub mod budget;
