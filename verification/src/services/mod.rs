//! The registry of schemas and the ingestion of logs.

pub mod log_service;
pub mod schema_service;

pub use log_service::LogService;
pub use schema_service::SchemaService;
