//! The operations that the service offers, over plain values: each checks
//! its input, calls a service and turns the outcome into a reply.

pub mod log_handlers;
pub mod reply;
pub mod schema_handlers;
pub mod ws_handlers;

pub use log_handlers::{create_log, delete_log, get_log_by_id, get_logs, get_logs_default};
pub use schema_handlers::{
    create_schema, delete_schema, get_schema_by_id, get_schema_by_name_and_version, get_schemas,
    update_schema,
};
pub use ws_handlers::{ws_handler, WebSocketQuery};
