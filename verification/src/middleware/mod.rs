//! What surrounds every request.

pub mod request_id;

pub use request_id::{RequestIdLayer, RequestIdMakeSpan};
