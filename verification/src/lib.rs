//! Verified core of the edgeflow inference platform.
pub mod common;
pub mod config;
pub mod core_model;
pub mod inference;
pub mod k8s;
pub mod orchestrator;
pub mod server_api;
pub mod server_model;
pub mod store;
pub mod text;
pub mod transforms;
