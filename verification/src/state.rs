//! What the request handlers share: the two services, the stores they work
//! on, and the broadcaster of live events.

use crate::broadcast::EventBroadcaster;
use crate::repositories::log_repository::LogRepositoryTrait;
use crate::repositories::schema_repository::SchemaRepositoryTrait;
use crate::services::log_service::LogService;
use crate::services::schema_service::SchemaService;
use vstd::prelude::*;

verus! {

/// The state of the application.
pub struct AppState<S: SchemaRepositoryTrait, L: LogRepositoryTrait> {
    pub schema_service: SchemaService,
    pub log_service: LogService,
    pub schema_repository: S,
    pub log_repository: L,
    pub log_broadcast: EventBroadcaster,
}

impl<S: SchemaRepositoryTrait, L: LogRepositoryTrait> AppState<S, L> {
    /// The state over the given stores and broadcaster.
    pub fn new(schema_repository: S, log_repository: L, log_broadcast: EventBroadcaster) -> (r:
        AppState<S, L>)
        ensures
            r.schema_repository == schema_repository,
            r.log_repository == log_repository,
            r.log_broadcast == log_broadcast,
    {
        AppState {
            schema_service: SchemaService::new(),
            log_service: LogService::new(),
            schema_repository,
            log_repository,
            log_broadcast,
        }
    }
}

} // verus!
