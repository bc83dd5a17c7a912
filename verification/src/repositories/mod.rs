//! The store contracts, and stores in memory that meet them.

pub mod log_repository;
pub mod schema_repository;

pub use log_repository::{LogRepositoryTrait, MemoryLogRepository};
pub use schema_repository::{MemorySchemaRepository, SchemaQueryParams, SchemaRepositoryTrait};
