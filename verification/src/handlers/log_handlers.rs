//! The operations on logs.  A stored or removed log is announced to the
//! live subscribers after the store has answered, never before.

use crate::broadcast::{all_after_publish, SubscriberView};
use crate::dto::common::ErrorResponse;
use crate::dto::log_dto::{
    created_event, deleted_event, log_response_of, CreateLogRequest, LogEvent, LogResponse,
    LogResponseView,
};
use crate::error::{shown_message, AppError, AppResult, ErrorKind};
use crate::filter::{filter_for, param_views, translate_filter};
use crate::handlers::reply::{
    reads_as, refusal, refuse, refuse_shown, refuse_with, reported, reports_failure, written,
    Reply,
};
use crate::ids::{is_nil, nil};
use crate::json::{is_object, json_model};
use crate::models::{log_views, Log, LogView};
use crate::repositories::log_repository::{has_log, other_log_than, LogRepositoryTrait};
use crate::repositories::schema_repository::SchemaRepositoryTrait;
use crate::services::log_service::{ingestion_of, listing, log_removal};
use crate::state::AppState;
use crate::text::{blank, int_text, int_to_string, is_blank};
use vstd::prelude::*;
use vstd::string::*;

verus! {

/// The views of a sequence of log responses.
pub open spec fn log_response_views(responses: Seq<LogResponse>) -> Seq<LogResponseView> {
    responses.map_values(|r: LogResponse| r@)
}

/// The responses that show the given logs.
pub open spec fn log_responses_of(rows: Seq<LogView>) -> Seq<LogResponseView> {
    rows.map_values(|l: LogView| log_response_of(l))
}

/// The message for a log that no row has under this identifier.
pub open spec fn no_such_log(id: i32) -> Seq<char> {
    "Log with id '"@ + int_text(id as int) + "' not found"@
}

/// Refuses a request for a log that is not there.
pub fn refuse_unknown_log(id: i32) -> (r: (u16, ErrorResponse))
    ensures
        reads_as(r, 404, "NOT_FOUND"@, no_such_log(id)),
{
    let mut m = String::from_str("Log with id '");
    m.append(int_to_string(id as i64).as_str());
    m.append("' not found");
    refuse(404, "NOT_FOUND", m.as_str())
}

/// Shows each log as a response.
pub fn to_log_responses(logs: &Vec<Log>) -> (r: Vec<LogResponse>)
    ensures
        log_response_views(r@) == log_responses_of(log_views(logs@)),
{
    let mut out: Vec<LogResponse> = Vec::new();
    let mut i: usize = 0;
    while i < logs.len()
        invariant
            i <= logs.len(),
            out@.len() == i,
            forall|j: int| 0 <= j < i ==> (#[trigger] out@[j])@ == log_response_of(logs@[j]@),
        decreases logs.len() - i,
    {
        out.push(LogResponse::from(logs[i].clone()));
        i += 1;
    }
    assert(log_response_views(out@) =~= log_responses_of(log_views(logs@)));
    out
}

/// How a failed listing is reported: an unknown schema as 404 under its
/// own code, a store failure as 500 under the code of store failures, and
/// anything else as 500 under the code of internal failures.  Of a store
/// or internal failure only a fixed sentence is shown.
pub open spec fn log_list_reply(e: (ErrorKind, Seq<char>)) -> (u16, Seq<char>, Seq<char>) {
    match e.0 {
        ErrorKind::NotFound => (404, "NOT_FOUND"@, written(e)),
        ErrorKind::DatabaseError => (500, "DATABASE_ERROR"@, shown_message(e)),
        _ => (500, "INTERNAL_ERROR"@, shown_message(e)),
    }
}

/// Reports a failed listing of logs.
pub fn log_list_failure(e: &AppError) -> (r: (u16, ErrorResponse))
    ensures
        reads_as(r, log_list_reply(e@).0, log_list_reply(e@).1, log_list_reply(e@).2),
{
    match e {
        AppError::NotFound(_) => refuse_with(404, "NOT_FOUND", e),
        AppError::DatabaseError(_) => refuse_shown(500, "DATABASE_ERROR", e),
        _ => refuse_shown(500, "INTERNAL_ERROR", e),
    }
}

/// How the outcome of a listing is answered: the logs as responses, or the
/// failure.
pub open spec fn listing_answered(served: AppResult<Vec<Log>>, r: Reply<Vec<LogResponse>>) -> bool {
    match served {
        Ok(found) => match r {
            Ok(shown) => log_response_views(shown@) == log_responses_of(log_views(found@)),
            Err(_) => false,
        },
        Err(e) => refusal(r, log_list_reply(e@).0, log_list_reply(e@).1, log_list_reply(e@).2),
    }
}

/// Lists the logs of the schema with this name and version that hold
/// every query parameter as a member; the latest comes first.
pub fn get_logs<S: SchemaRepositoryTrait, L: LogRepositoryTrait>(
    state: &AppState<S, L>,
    schema_name: String,
    schema_version: String,
    params: Vec<(String, String)>,
) -> (r: Reply<Vec<LogResponse>>)
    ensures
        blank(schema_name@) || blank(schema_version@) ==> refusal(
            r,
            400,
            "INVALID_INPUT"@,
            "Schema name or version cannot be empty"@,
        ),
        !blank(schema_name@) && !blank(schema_version@) ==> exists|served: AppResult<Vec<Log>>|
            listing_answered(served, r) && #[trigger] listing(
                state.schema_repository.rows(),
                state.schema_repository.reliable(),
                state.log_repository.rows(),
                state.log_repository.reliable(),
                schema_name@,
                schema_version@,
                filter_for(param_views(params@)),
                served,
            ),
{
    if is_blank(schema_name.as_str()) || is_blank(schema_version.as_str()) {
        return Err(refuse(400, "INVALID_INPUT", "Schema name or version cannot be empty"));
    }
    let filters = translate_filter(params);
    let served = state.log_service.get_logs_by_schema_name_and_id(
        &state.schema_repository,
        &state.log_repository,
        schema_name.as_str(),
        schema_version.as_str(),
        filters,
    );
    let ghost outcome = served;
    let r = match served {
        Ok(logs) => Ok(to_log_responses(&logs)),
        Err(e) => Err(log_list_failure(&e)),
    };
    assert(listing_answered(outcome, r));
    r
}

/// The version that a listing by name alone asks for.
pub open spec fn default_version() -> Seq<char> {
    "1.0.0"@
}

/// Lists the logs of the schema with this name and the default version.
pub fn get_logs_default<S: SchemaRepositoryTrait, L: LogRepositoryTrait>(
    state: &AppState<S, L>,
    schema_name: String,
    params: Vec<(String, String)>,
) -> (r: Reply<Vec<LogResponse>>)
    ensures
        blank(schema_name@) ==> refusal(
            r,
            400,
            "INVALID_INPUT"@,
            "Schema name or version cannot be empty"@,
        ),
        !blank(schema_name@) ==> exists|served: AppResult<Vec<Log>>|
            listing_answered(served, r) && #[trigger] listing(
                state.schema_repository.rows(),
                state.schema_repository.reliable(),
                state.log_repository.rows(),
                state.log_repository.reliable(),
                schema_name@,
                default_version(),
                filter_for(param_views(params@)),
                served,
            ),
{
    let version = String::from_str("1.0.0");
    proof {
        reveal_strlit("1.0.0");
        assert(version@[0] == '1');
        assert(!crate::text::is_whitespace(version@[0]));
        assert(!blank(version@));
        assert(version@ == default_version());
    }
    get_logs(state, schema_name, version, params)
}

/// Shows the log with this identifier.
pub fn get_log_by_id<S: SchemaRepositoryTrait, L: LogRepositoryTrait>(
    state: &AppState<S, L>,
    id: i32,
) -> (r: Reply<LogResponse>)
    ensures
        match r {
            Ok(body) => exists|l: LogView| #[trigger]
                state.log_repository.rows().contains(l) && l.id == id && body@ == log_response_of(
                    l,
                ),
            Err(reply) => (!has_log(state.log_repository.rows(), id) && reads_as(
                reply,
                404,
                "NOT_FOUND"@,
                no_such_log(id),
            )) || (!state.log_repository.reliable() && reports_failure(
                reply,
                500,
                "FETCH_FAILED"@,
            )),
        },
{
    match state.log_service.get_log_by_id(&state.log_repository, id) {
        Ok(Some(log)) => {
            proof {
                assert(state.log_repository.rows().contains(log@));
            }
            Ok(LogResponse::from(log))
        },
        Ok(None) => Err(refuse_unknown_log(id)),
        Err(e) => Err(refuse_with(500, "FETCH_FAILED", &e)),
    }
}

/// How a failed ingestion is reported: an unknown schema as 404, data that
/// breaks the schema as 400, anything else as 500, without the detail of a
/// store or internal failure.
pub open spec fn log_write_reply(e: (ErrorKind, Seq<char>)) -> (u16, Seq<char>) {
    match e.0 {
        ErrorKind::NotFound => (404, "NOT_FOUND"@),
        ErrorKind::SchemaValidationError => (400, "VALIDATION_FAILED"@),
        ErrorKind::ValidationError => (400, "VALIDATION_FAILED"@),
        _ => (500, "INTERNAL_SERVER_ERROR"@),
    }
}

/// Reports a failed ingestion.
pub fn log_write_failure(e: &AppError) -> (r: (u16, ErrorResponse))
    ensures
        reads_as(r, log_write_reply(e@).0, log_write_reply(e@).1, reported(e@)),
{
    match e {
        AppError::NotFound(_) => refuse_with(404, "NOT_FOUND", e),
        AppError::SchemaValidationError(_) => refuse_with(400, "VALIDATION_FAILED", e),
        AppError::ValidationError(_) => refuse_with(400, "VALIDATION_FAILED", e),
        _ => refuse_with(500, "INTERNAL_SERVER_ERROR", e),
    }
}

/// How the outcome of an ingestion is answered: the stored log with status
/// 201, or the failure.
pub open spec fn ingestion_answered(served: AppResult<Log>, r: Reply<(u16, LogResponse)>) -> bool {
    match served {
        Ok(stored) => match r {
            Ok(answer) => answer.0 == 201 && answer.1@ == log_response_of(stored@),
            Err(_) => false,
        },
        Err(e) => refusal(r, log_write_reply(e@).0, log_write_reply(e@).1, reported(e@)),
    }
}

/// What an ingestion announces: the stored log to every subscriber that
/// gets it, and nothing where nothing was stored.
pub open spec fn ingestion_announced(
    served: AppResult<Log>,
    before: Seq<SubscriberView>,
    limit: nat,
    after: Seq<SubscriberView>,
) -> bool {
    match served {
        Ok(stored) => after == all_after_publish(before, created_event(stored@), limit),
        Err(_) => after == before,
    }
}

/// Stores a log and announces it.  A nil schema identifier, and data that
/// is no JSON object, are refused before anything else is looked at.
pub fn create_log<S: SchemaRepositoryTrait, L: LogRepositoryTrait>(
    state: &mut AppState<S, L>,
    payload: CreateLogRequest,
) -> (r: Reply<(u16, LogResponse)>)
    ensures
        final(state).schema_repository == old(state).schema_repository,
        final(state).log_broadcast.limit() == old(state).log_broadcast.limit(),
        old(state).log_repository.last_issued() <= final(state).log_repository.last_issued(),
        r matches Ok(answer) ==> old(state).log_repository.last_issued() < answer.1.id
            <= final(state).log_repository.last_issued(),
        nil(payload.schema_id) ==> {
            &&& final(state).log_repository == old(state).log_repository
            &&& final(state).log_broadcast == old(state).log_broadcast
            &&& refusal(r, 400, "INVALID_INPUT"@, "Schema ID cannot be empty"@)
        },
        !nil(payload.schema_id) && !(json_model(payload.log_data) is Object) ==> {
            &&& final(state).log_repository == old(state).log_repository
            &&& final(state).log_broadcast == old(state).log_broadcast
            &&& refusal(r, 400, "INVALID_INPUT"@, "Log data must be a JSON object"@)
        },
        !nil(payload.schema_id) && json_model(payload.log_data) is Object ==> exists|
            served: AppResult<Log>,
        |
            ingestion_answered(served, r) && ingestion_announced(
                served,
                old(state).log_broadcast.subscribers(),
                old(state).log_broadcast.limit(),
                final(state).log_broadcast.subscribers(),
            ) && #[trigger] ingestion_of(
                old(state).schema_repository.rows(),
                old(state).schema_repository.reliable(),
                old(state).log_repository.rows(),
                old(state).log_repository.reliable(),
                final(state).log_repository.rows(),
                payload.schema_id,
                json_model(payload.log_data),
                served,
            ),
{
    if is_nil(payload.schema_id) {
        return Err(refuse(400, "INVALID_INPUT", "Schema ID cannot be empty"));
    }
    if !is_object(&payload.log_data) {
        return Err(refuse(400, "INVALID_INPUT", "Log data must be a JSON object"));
    }
    let served = state.log_service.create_log(
        &state.schema_repository,
        &mut state.log_repository,
        payload.schema_id,
        payload.log_data,
    );
    let ghost outcome = served;
    let r = match served {
        Ok(log) => {
            let event = LogEvent::created_from(log.clone());
            let _ = state.log_broadcast.publish(&event);
            Ok((201u16, LogResponse::from(log)))
        },
        Err(e) => Err(log_write_failure(&e)),
    };
    assert(ingestion_answered(outcome, r));
    assert(ingestion_of(
        old(state).schema_repository.rows(),
        old(state).schema_repository.reliable(),
        old(state).log_repository.rows(),
        old(state).log_repository.reliable(),
        state.log_repository.rows(),
        payload.schema_id,
        json_model(payload.log_data),
        outcome,
    ));
    r
}

/// How the outcome of a removal is answered: status 204, a refusal with
/// 404 where there is no such log, or the failure with 500.
pub open spec fn log_removal_answered(served: AppResult<bool>, id: i32, r: Reply<u16>) -> bool {
    match served {
        Ok(true) => match r {
            Ok(status) => status == 204,
            Err(_) => false,
        },
        Ok(false) => refusal(r, 404, "NOT_FOUND"@, no_such_log(id)),
        Err(e) => refusal(r, 500, "DELETION_FAILED"@, reported(e@)),
    }
}

/// What a removal announces: the removed log, with the schema it belonged
/// to, to every subscriber that gets it.  Nothing is announced where
/// nothing was removed.
pub open spec fn log_removal_announced(
    served: AppResult<bool>,
    rows: Seq<LogView>,
    id: i32,
    before: Seq<SubscriberView>,
    limit: nat,
    after: Seq<SubscriberView>,
) -> bool {
    match served {
        Ok(true) => exists|l: LogView| #[trigger]
            rows.contains(l) && l.id == id && after == all_after_publish(
                before,
                deleted_event(l),
                limit,
            ),
        _ => after == before,
    }
}

/// Removes a log and announces the removal.  The log is looked up first,
/// so that the announcement can name the schema it belonged to; where the
/// store cannot show it, nothing is removed.
pub fn delete_log<S: SchemaRepositoryTrait, L: LogRepositoryTrait>(
    state: &mut AppState<S, L>,
    id: i32,
) -> (r: Reply<u16>)
    ensures
        final(state).schema_repository == old(state).schema_repository,
        final(state).log_broadcast.limit() == old(state).log_broadcast.limit(),
        final(state).log_repository.reliable() == old(state).log_repository.reliable(),
        final(state).log_repository.last_issued() == old(state).log_repository.last_issued(),
        exists|served: AppResult<bool>|
            log_removal_answered(served, id, r) && log_removal_announced(
                served,
                old(state).log_repository.rows(),
                id,
                old(state).log_broadcast.subscribers(),
                old(state).log_broadcast.limit(),
                final(state).log_broadcast.subscribers(),
            ) && #[trigger] log_removal(
                old(state).log_repository.rows(),
                old(state).log_repository.reliable(),
                final(state).log_repository.rows(),
                id,
                served,
            ),
{
    let ghost rows = state.log_repository.rows();
    let ghost reliable = state.log_repository.reliable();
    let log = match state.log_service.get_log_by_id(&state.log_repository, id) {
        Err(e) => {
            let r = Err(refuse_with(500, "DELETION_FAILED", &e));
            proof {
                let outcome = Err::<bool, AppError>(e);
                assert(log_removal_answered(outcome, id, r));
                assert(log_removal(rows, reliable, rows, id, outcome));
            }
            return r;
        },
        Ok(None) => {
            let r = Err(refuse_unknown_log(id));
            proof {
                let outcome = Ok::<bool, AppError>(false);
                crate::seqs::lemma_filter_keeps_all(rows, other_log_than(id));
                assert(log_removal_answered(outcome, id, r));
                assert(log_removal(rows, reliable, rows, id, outcome));
            }
            return r;
        },
        Ok(Some(log)) => log,
    };
    proof {
        let i = choose|i: int| 0 <= i < rows.len() && rows[i] == log@;
        assert(rows[i].id == id);
    }
    let served = state.log_service.delete_log(&mut state.log_repository, id);
    let ghost outcome = served;
    let r = match served {
        Ok(true) => {
            let event = LogEvent::deleted_from(log);
            let _ = state.log_broadcast.publish(&event);
            Ok(204u16)
        },
        Ok(false) => Err(refuse_unknown_log(id)),
        Err(e) => Err(refuse_with(500, "DELETION_FAILED", &e)),
    };
    assert(log_removal_answered(outcome, id, r));
    assert(log_removal(rows, reliable, state.log_repository.rows(), id, outcome));
    r
}

} // verus!
