//! A schema-governed event log store.
//!
//! Clients register named, versioned JSON schemas, submit log records that
//! must conform to the schema they reference, query those records, and follow
//! a live feed of creation and deletion events.  Every operation is stated
//! over a mathematical model of the stores and proved against it.

pub mod seqs;
pub mod text;
pub mod json;
pub mod middleware;
pub mod error;
pub mod filter;
pub mod guarantees;
pub mod handlers;
pub mod models;
pub mod validation;
pub mod ids;
pub mod time;
pub mod broadcast;
pub mod dto;
pub mod repositories;
pub mod services;
pub mod state;

pub use dto::{ErrorResponse, LogEvent, SchemaResponse};
pub use error::{AppError, AppResult};
pub use handlers::{
    create_log, create_schema, delete_log, delete_schema, get_log_by_id, get_logs,
    get_logs_default, get_schema_by_id, get_schema_by_name_and_version, get_schemas,
    update_schema, ws_handler,
};
pub use middleware::request_id::{RequestIdLayer, RequestIdMakeSpan};
pub use models::{Log, Schema};
pub use repositories::{
    LogRepositoryTrait, MemoryLogRepository, MemorySchemaRepository, SchemaRepositoryTrait,
};
pub use services::{LogService, SchemaService};
pub use state::AppState;
