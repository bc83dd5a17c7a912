//! Live subscriptions: a subscriber is admitted only where the schema it
//! asks for exists.

use crate::broadcast::{newcomer, registered, SubscriberView};
use crate::dto::common::ErrorResponse;
use crate::handlers::reply::{reads_as, refuse, refuse_with, reports_failure, Reply};
use crate::handlers::schema_handlers::no_such_id;
use crate::ids::hyphenated;
use crate::repositories::log_repository::LogRepositoryTrait;
use crate::repositories::schema_repository::{has_id, SchemaRepositoryTrait};
use crate::state::AppState;
use vstd::prelude::*;
use vstd::string::*;

verus! {

/// The optional schema filter of a subscription.
#[derive(Debug)]
pub struct WebSocketQuery {
    pub schema_id: Option<u128>,
}

/// Whether a subscription with this filter may be admitted: a filter must
/// name a schema that exists.
pub open spec fn admissible<S: SchemaRepositoryTrait>(repository: S, filter: Option<u128>) -> bool {
    match filter {
        Some(id) => has_id(repository.rows(), id),
        None => true,
    }
}

/// What admitting a subscriber does.  A subscriber is registered, as
/// connecting and under the next identifier, only where its filter names a
/// schema that exists; a refusal leaves the registry as it was, and issues
/// no identifier.  The store is asked only about a filter: a subscriber
/// without one is admitted as long as identifiers are left.
pub open spec fn admission(
    known: bool,
    reliable: bool,
    issued: u64,
    issued_after: u64,
    before: Seq<SubscriberView>,
    after: Seq<SubscriberView>,
    filter: Option<u128>,
    r: Reply<u64>,
) -> bool {
    &&& match r {
        Ok(id) => {
            &&& known
            &&& id == issued
            &&& issued_after == issued + 1
            &&& !registered(before, id)
            &&& after == before.push(newcomer(id, filter))
        },
        Err(reply) => {
            &&& after == before
            &&& issued_after == issued
            &&& {
                ||| filter is Some && !known && reads_as(
                    reply,
                    404,
                    "SCHEMA_NOT_FOUND"@,
                    no_such_id(filter->0),
                )
                ||| filter is Some && !reliable && reports_failure(reply, 500, "INTERNAL_ERROR"@)
                ||| issued == u64::MAX && reads_as(
                    reply,
                    500,
                    "INTERNAL_ERROR"@,
                    "Subscriber identifiers are used up"@,
                )
            }
        },
    }
    &&& (known && issued < u64::MAX && (filter is None || reliable) ==> r is Ok)
}

/// Refuses a subscription to a schema that is not there.
fn refuse_unknown_filter(id: u128) -> (r: (u16, ErrorResponse))
    ensures
        reads_as(r, 404, "SCHEMA_NOT_FOUND"@, no_such_id(id)),
{
    let mut m = String::from_str("Schema with id '");
    m.append(hyphenated(id).as_str());
    m.append("' not found");
    refuse(404, "SCHEMA_NOT_FOUND", m.as_str())
}

/// Admits a subscriber and returns its identifier.  It is registered as
/// connecting, with the filter it asked for.
pub fn ws_handler<S: SchemaRepositoryTrait, L: LogRepositoryTrait>(
    state: &mut AppState<S, L>,
    query: WebSocketQuery,
) -> (r: Reply<u64>)
    ensures
        final(state).schema_repository == old(state).schema_repository,
        final(state).log_repository == old(state).log_repository,
        final(state).log_broadcast.limit() == old(state).log_broadcast.limit(),
        admission(
            admissible(old(state).schema_repository, query.schema_id),
            old(state).schema_repository.reliable(),
            old(state).log_broadcast.issued(),
            final(state).log_broadcast.issued(),
            old(state).log_broadcast.subscribers(),
            final(state).log_broadcast.subscribers(),
            query.schema_id,
            r,
        ),
{
    match query.schema_id {
        Some(schema_id) => {
            match state.schema_service.get_schema_by_id(&state.schema_repository, schema_id) {
                Ok(None) => {
                    return Err(refuse_unknown_filter(schema_id));
                },
                Err(e) => {
                    return Err(refuse_with(500, "INTERNAL_ERROR", &e));
                },
                Ok(Some(found)) => {
                    proof {
                        let rows = state.schema_repository.rows();
                        let i = choose|i: int| 0 <= i < rows.len() && rows[i] == found@;
                        assert(rows[i].id == schema_id);
                    }
                },
            }
        },
        None => {},
    }
    match state.log_broadcast.connect(query.schema_id) {
        Some(id) => Ok(id),
        None => Err(refuse(500, "INTERNAL_ERROR", "Subscriber identifiers are used up")),
    }
}

} // verus!
