//! The operations on schemas.

use crate::dto::common::ErrorResponse;
use crate::dto::schema_dto::{
    schema_response_of, CreateSchemaRequest, DeleteSchemaQuery, GetSchemasQuery, SchemaResponse,
    SchemaResponseView, UpdateSchemaRequest,
};
use crate::error::{status_of, AppError, AppResult, ErrorKind};
use crate::handlers::reply::{
    reads_as, refusal, refuse, refuse_with, reported, reports_failure, Reply,
};
use crate::ids::{hyphenated, is_nil, nil, uuid_text};
use crate::json::json_model;
use crate::models::{option_text, schema_views, Schema, SchemaView};
use crate::repositories::log_repository::LogRepositoryTrait;
use crate::repositories::schema_repository::{
    has_id, has_name_version, selected, SchemaQueryParams, SchemaRepositoryTrait,
};
use crate::services::schema_service::{creation_of, removal, revision_of};
use crate::state::AppState;
use crate::text::{blank, is_blank};
use vstd::prelude::*;
use vstd::string::*;

verus! {

/// The views of a sequence of schema responses.
pub open spec fn schema_response_views(responses: Seq<SchemaResponse>) -> Seq<SchemaResponseView> {
    responses.map_values(|r: SchemaResponse| r@)
}

/// The responses that show the given schemas.
pub open spec fn schema_responses_of(rows: Seq<SchemaView>) -> Seq<SchemaResponseView> {
    rows.map_values(|s: SchemaView| schema_response_of(s))
}

/// How a failed write of a schema is reported: a conflict as 409, a bad
/// definition and a blank input as 400, and anything else under the
/// fallback code with the status of its kind, which is 500 for a store or
/// internal failure.
pub open spec fn schema_write_reply(e: (ErrorKind, Seq<char>), fallback: Seq<char>) -> (
    u16,
    Seq<char>,
) {
    match e.0 {
        ErrorKind::Conflict => (409, "SCHEMA_CONFLICT"@),
        ErrorKind::SchemaValidationError => (400, "INVALID_SCHEMA"@),
        ErrorKind::ValidationError => (400, "INVALID_INPUT"@),
        _ => (status_of(e.0), fallback),
    }
}

/// Reports a failed write of a schema.
pub fn schema_write_failure(e: &AppError, fallback: &str) -> (r: (u16, ErrorResponse))
    ensures
        reads_as(
            r,
            schema_write_reply(e@, fallback@).0,
            schema_write_reply(e@, fallback@).1,
            reported(e@),
        ),
{
    match e {
        AppError::Conflict(_) => refuse_with(409, "SCHEMA_CONFLICT", e),
        AppError::SchemaValidationError(_) => refuse_with(400, "INVALID_SCHEMA", e),
        AppError::ValidationError(_) => refuse_with(400, "INVALID_INPUT", e),
        _ => refuse_with(e.status_code(), fallback, e),
    }
}

/// The message for a schema that no row has under this identifier.
pub open spec fn no_such_id(id: u128) -> Seq<char> {
    "Schema with id '"@ + uuid_text(id) + "' not found"@
}

/// The message for a schema that no row has under this name and version.
pub open spec fn no_such_name(name: Seq<char>, version: Seq<char>) -> Seq<char> {
    "Schema with name '"@ + name + "' and version '"@ + version + "' not found"@
}

/// The locator of a schema.
pub open spec fn locator(id: u128) -> Seq<char> {
    "/schemas/"@ + uuid_text(id)
}

/// Refuses a request for a schema that is not there.
pub fn refuse_unknown_id(id: u128) -> (r: (u16, ErrorResponse))
    ensures
        reads_as(r, 404, "NOT_FOUND"@, no_such_id(id)),
{
    let mut m = String::from_str("Schema with id '");
    m.append(hyphenated(id).as_str());
    m.append("' not found");
    refuse(404, "NOT_FOUND", m.as_str())
}

/// Shows each schema as a response.
pub fn to_schema_responses(schemas: &Vec<Schema>) -> (r: Vec<SchemaResponse>)
    ensures
        schema_response_views(r@) == schema_responses_of(schema_views(schemas@)),
{
    let mut out: Vec<SchemaResponse> = Vec::new();
    let mut i: usize = 0;
    while i < schemas.len()
        invariant
            i <= schemas.len(),
            out@.len() == i,
            forall|j: int| 0 <= j < i ==> (#[trigger] out@[j])@ == schema_response_of(schemas@[j]@),
        decreases schemas.len() - i,
    {
        out.push(SchemaResponse::from(schemas[i].clone()));
        i += 1;
    }
    assert(schema_response_views(out@) =~= schema_responses_of(schema_views(schemas@)));
    out
}

/// Lists the schemas, optionally only those with a given name, a given
/// version, or both; the latest comes first.
pub fn get_schemas<S: SchemaRepositoryTrait, L: LogRepositoryTrait>(
    state: &AppState<S, L>,
    query: GetSchemasQuery,
) -> (r: Reply<Vec<SchemaResponse>>)
    ensures
        state.schema_repository.reliable() ==> r is Ok,
        match r {
            Ok(found) => schema_response_views(found@) == schema_responses_of(
                state.schema_repository.rows().filter(
                    selected(option_text(query.name), option_text(query.version)),
                ),
            ),
            Err(reply) => reports_failure(reply, 500, "INTERNAL_ERROR"@),
        },
{
    let repo_params = SchemaQueryParams::from(query);
    match state.schema_service.get_all_schemas(&state.schema_repository, Some(repo_params)) {
        Ok(schemas) => Ok(to_schema_responses(&schemas)),
        Err(e) => Err(refuse_with(500, "INTERNAL_ERROR", &e)),
    }
}

/// Shows the schema with this name and version.
pub fn get_schema_by_name_and_version<S: SchemaRepositoryTrait, L: LogRepositoryTrait>(
    state: &AppState<S, L>,
    schema_name: String,
    schema_version: String,
) -> (r: Reply<SchemaResponse>)
    ensures
        blank(schema_name@) || blank(schema_version@) ==> refusal(
            r,
            400,
            "INVALID_INPUT"@,
            "Schema name or version cannot be empty"@,
        ),
        !blank(schema_name@) && !blank(schema_version@) ==> match r {
            Ok(body) => exists|s: SchemaView| #[trigger]
                state.schema_repository.rows().contains(s) && s.name == schema_name@ && s.version
                    == schema_version@ && body@ == schema_response_of(s),
            Err(reply) => (!has_name_version(
                state.schema_repository.rows(),
                schema_name@,
                schema_version@,
            ) && reads_as(reply, 404, "NOT_FOUND"@, no_such_name(schema_name@, schema_version@)))
                || (!state.schema_repository.reliable() && reports_failure(
                reply,
                500,
                "INTERNAL_ERROR"@,
            )),
        },
{
    if is_blank(schema_name.as_str()) || is_blank(schema_version.as_str()) {
        return Err(refuse(400, "INVALID_INPUT", "Schema name or version cannot be empty"));
    }
    match state.schema_service.get_by_name_and_version(
        &state.schema_repository,
        schema_name.as_str(),
        schema_version.as_str(),
    ) {
        Ok(Some(schema)) => {
            proof {
                let rows = state.schema_repository.rows();
                assert(rows.contains(schema@));
            }
            Ok(SchemaResponse::from(schema))
        },
        Ok(None) => {
            let mut m = String::from_str("Schema with name '");
            m.append(schema_name.as_str());
            m.append("' and version '");
            m.append(schema_version.as_str());
            m.append("' not found");
            Err(refuse(404, "NOT_FOUND", m.as_str()))
        },
        Err(e) => Err(refuse_with(500, "INTERNAL_ERROR", &e)),
    }
}

/// What showing a schema by its identifier gives.  The nil identifier
/// is refused.  A row with the identifier is shown; where no row has it,
/// the answer is 404; only a store that fails gives 500.
pub open spec fn schema_shown(
    rows: Seq<SchemaView>,
    reliable: bool,
    id: u128,
    r: Reply<SchemaResponse>,
) -> bool {
    if nil(id) {
        refusal(r, 400, "INVALID_INPUT"@, "Schema ID cannot be empty"@)
    } else {
        match r {
            Ok(body) => exists|s: SchemaView| #[trigger]
                rows.contains(s) && s.id == id && body@ == schema_response_of(s),
            Err(reply) => {
                ||| !has_id(rows, id) && reads_as(reply, 404, "NOT_FOUND"@, no_such_id(id))
                ||| !reliable && reports_failure(reply, 500, "INTERNAL_ERROR"@)
            },
        }
    }
}

/// Shows the schema with this identifier.
pub fn get_schema_by_id<S: SchemaRepositoryTrait, L: LogRepositoryTrait>(
    state: &AppState<S, L>,
    id: u128,
) -> (r: Reply<SchemaResponse>)
    ensures
        schema_shown(state.schema_repository.rows(), state.schema_repository.reliable(), id, r),
{
    if is_nil(id) {
        return Err(refuse(400, "INVALID_INPUT", "Schema ID cannot be empty"));
    }
    match state.schema_service.get_schema_by_id(&state.schema_repository, id) {
        Ok(Some(schema)) => {
            proof {
                assert(state.schema_repository.rows().contains(schema@));
            }
            Ok(SchemaResponse::from(schema))
        },
        Ok(None) => Err(refuse_unknown_id(id)),
        Err(e) => Err(refuse_with(500, "INTERNAL_ERROR", &e)),
    }
}

/// How the outcome of a creation is answered: the stored schema with
/// status 201 and its locator, or the failure as a failed write.
pub open spec fn creation_answered(
    served: AppResult<Schema>,
    r: Reply<(u16, String, SchemaResponse)>,
) -> bool {
    match served {
        Ok(stored) => match r {
            Ok(answer) => answer.0 == 201 && answer.1@ == locator(stored.id) && answer.2@
                == schema_response_of(stored@),
            Err(_) => false,
        },
        Err(e) => refusal(
            r,
            schema_write_reply(e@, "CREATION_FAILED"@).0,
            schema_write_reply(e@, "CREATION_FAILED"@).1,
            reported(e@),
        ),
    }
}

/// Registers a schema.  A blank name or version is refused before anything
/// else is looked at.
pub fn create_schema<S: SchemaRepositoryTrait, L: LogRepositoryTrait>(
    state: &mut AppState<S, L>,
    payload: CreateSchemaRequest,
) -> (r: Reply<(u16, String, SchemaResponse)>)
    ensures
        final(state).log_repository == old(state).log_repository,
        final(state).log_broadcast == old(state).log_broadcast,
        final(state).schema_repository.reliable() == old(state).schema_repository.reliable(),
        blank(payload.name@) ==> {
            &&& final(state).schema_repository == old(state).schema_repository
            &&& refusal(r, 400, "INVALID_INPUT"@, "Schema name cannot be empty"@)
        },
        !blank(payload.name@) && blank(payload.version@) ==> {
            &&& final(state).schema_repository == old(state).schema_repository
            &&& refusal(r, 400, "INVALID_INPUT"@, "Schema version cannot be empty"@)
        },
        !blank(payload.name@) && !blank(payload.version@) ==> exists|served: AppResult<Schema>|
            creation_answered(served, r) && #[trigger] creation_of(
                old(state).schema_repository.rows(),
                old(state).schema_repository.reliable(),
                final(state).schema_repository.rows(),
                payload.name@,
                payload.version@,
                option_text(payload.description),
                json_model(payload.schema_definition),
                served,
            ),
{
    if is_blank(payload.name.as_str()) {
        return Err(refuse(400, "INVALID_INPUT", "Schema name cannot be empty"));
    }
    if is_blank(payload.version.as_str()) {
        return Err(refuse(400, "INVALID_INPUT", "Schema version cannot be empty"));
    }
    let served = state.schema_service.create_schema(
        &mut state.schema_repository,
        payload.name,
        payload.version,
        payload.description,
        payload.schema_definition,
    );
    let ghost outcome = served;
    let r = match served {
        Ok(schema) => {
            let mut location = String::from_str("/schemas/");
            location.append(hyphenated(schema.id).as_str());
            Ok((201u16, location, SchemaResponse::from(schema)))
        },
        Err(e) => Err(schema_write_failure(&e, "CREATION_FAILED")),
    };
    assert(creation_answered(outcome, r));
    r
}

/// How the outcome of an update is answered: the new schema, a refusal
/// with 404 where there is no such schema, or the failure as a failed
/// write.
pub open spec fn revision_answered(
    served: AppResult<Option<Schema>>,
    id: u128,
    r: Reply<SchemaResponse>,
) -> bool {
    match served {
        Ok(Some(stored)) => match r {
            Ok(body) => body@ == schema_response_of(stored@),
            Err(_) => false,
        },
        Ok(None) => refusal(r, 404, "NOT_FOUND"@, no_such_id(id)),
        Err(e) => refusal(
            r,
            schema_write_reply(e@, "UPDATE_FAILED"@).0,
            schema_write_reply(e@, "UPDATE_FAILED"@).1,
            reported(e@),
        ),
    }
}

/// Replaces a schema.  A nil identifier and a blank name or version are
/// refused before anything else is looked at.
pub fn update_schema<S: SchemaRepositoryTrait, L: LogRepositoryTrait>(
    state: &mut AppState<S, L>,
    id: u128,
    payload: UpdateSchemaRequest,
) -> (r: Reply<SchemaResponse>)
    ensures
        final(state).log_repository == old(state).log_repository,
        final(state).log_broadcast == old(state).log_broadcast,
        final(state).schema_repository.reliable() == old(state).schema_repository.reliable(),
        nil(id) ==> {
            &&& final(state).schema_repository == old(state).schema_repository
            &&& refusal(r, 400, "INVALID_INPUT"@, "Schema ID cannot be empty"@)
        },
        !nil(id) && blank(payload.name@) ==> {
            &&& final(state).schema_repository == old(state).schema_repository
            &&& refusal(r, 400, "INVALID_INPUT"@, "Schema name cannot be empty"@)
        },
        !nil(id) && !blank(payload.name@) && blank(payload.version@) ==> {
            &&& final(state).schema_repository == old(state).schema_repository
            &&& refusal(r, 400, "INVALID_INPUT"@, "Schema version cannot be empty"@)
        },
        !nil(id) && !blank(payload.name@) && !blank(payload.version@) ==> exists|
            served: AppResult<Option<Schema>>,
        |
            revision_answered(served, id, r) && #[trigger] revision_of(
                old(state).schema_repository.rows(),
                old(state).schema_repository.reliable(),
                final(state).schema_repository.rows(),
                id,
                payload.name@,
                payload.version@,
                option_text(payload.description),
                json_model(payload.schema_definition),
                served,
            ),
{
    if is_nil(id) {
        return Err(refuse(400, "INVALID_INPUT", "Schema ID cannot be empty"));
    }
    if is_blank(payload.name.as_str()) {
        return Err(refuse(400, "INVALID_INPUT", "Schema name cannot be empty"));
    }
    if is_blank(payload.version.as_str()) {
        return Err(refuse(400, "INVALID_INPUT", "Schema version cannot be empty"));
    }
    let served = state.schema_service.update_schema(
        &mut state.schema_repository,
        id,
        payload.name,
        payload.version,
        payload.description,
        payload.schema_definition,
    );
    let ghost outcome = served;
    let r = match served {
        Ok(Some(schema)) => Ok(SchemaResponse::from(schema)),
        Ok(None) => Err(refuse_unknown_id(id)),
        Err(e) => Err(schema_write_failure(&e, "UPDATE_FAILED")),
    };
    assert(revision_answered(outcome, id, r));
    r
}

/// How a failed deletion is reported: dependent logs as 409, anything
/// else as 500, without the detail of a store failure.
pub open spec fn schema_delete_reply(e: (ErrorKind, Seq<char>)) -> (u16, Seq<char>) {
    match e.0 {
        ErrorKind::Conflict => (409, "SCHEMA_HAS_LOGS"@),
        _ => (500, "DELETION_FAILED"@),
    }
}

/// Reports a failed deletion of a schema.
pub fn schema_delete_failure(e: &AppError) -> (r: (u16, ErrorResponse))
    ensures
        reads_as(r, schema_delete_reply(e@).0, schema_delete_reply(e@).1, reported(e@)),
{
    match e {
        AppError::Conflict(_) => refuse_with(409, "SCHEMA_HAS_LOGS", e),
        _ => refuse_with(500, "DELETION_FAILED", e),
    }
}

/// How the outcome of a deletion is answered: status 204, a refusal with
/// 404 where there is no such schema, or the failure.
pub open spec fn removal_answered(served: AppResult<bool>, id: u128, r: Reply<u16>) -> bool {
    match served {
        Ok(true) => match r {
            Ok(status) => status == 204,
            Err(_) => false,
        },
        Ok(false) => refusal(r, 404, "NOT_FOUND"@, no_such_id(id)),
        Err(e) => refusal(r, schema_delete_reply(e@).0, schema_delete_reply(e@).1, reported(e@)),
    }
}

/// The flag of a deletion; absent means not forced.
pub open spec fn forced(params: DeleteSchemaQuery) -> bool {
    match params.force {
        Some(f) => f,
        None => false,
    }
}

/// Removes a schema; its logs too where the deletion is forced.
pub fn delete_schema<S: SchemaRepositoryTrait, L: LogRepositoryTrait>(
    state: &mut AppState<S, L>,
    id: u128,
    params: DeleteSchemaQuery,
) -> (r: Reply<u16>)
    ensures
        final(state).log_broadcast == old(state).log_broadcast,
        final(state).schema_repository.reliable() == old(state).schema_repository.reliable(),
        final(state).log_repository.reliable() == old(state).log_repository.reliable(),
        final(state).log_repository.last_issued() == old(state).log_repository.last_issued(),
        nil(id) ==> {
            &&& final(state).schema_repository == old(state).schema_repository
            &&& final(state).log_repository == old(state).log_repository
            &&& refusal(r, 400, "INVALID_INPUT"@, "Schema ID cannot be empty"@)
        },
        !nil(id) ==> exists|served: AppResult<bool>|
            removal_answered(served, id, r) && #[trigger] removal(
                old(state).schema_repository.rows(),
                old(state).schema_repository.reliable(),
                final(state).schema_repository.rows(),
                old(state).log_repository.rows(),
                old(state).log_repository.reliable(),
                final(state).log_repository.rows(),
                id,
                forced(params),
                served,
            ),
{
    if is_nil(id) {
        return Err(refuse(400, "INVALID_INPUT", "Schema ID cannot be empty"));
    }
    let force = match params.force {
        Some(f) => f,
        None => false,
    };
    let served = state.schema_service.delete_schema(
        &mut state.schema_repository,
        &mut state.log_repository,
        id,
        force,
    );
    let ghost outcome = served;
    assert(force == forced(params));
    let r = match served {
        Ok(true) => Ok(204u16),
        Ok(false) => Err(refuse_unknown_id(id)),
        Err(e) => Err(schema_delete_failure(&e)),
    };
    assert(removal_answered(outcome, id, r));
    r
}

} // verus!
