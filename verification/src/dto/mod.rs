//! The values that cross the service boundary: requests, responses, events.

pub mod common;
pub mod log_dto;
pub mod schema_dto;

pub use common::ErrorResponse;
pub use log_dto::{CreateLogRequest, LogEvent, LogResponse};
pub use schema_dto::{
    CreateSchemaRequest, DeleteSchemaQuery, GetSchemasQuery, SchemaResponse, UpdateSchemaRequest,
};
