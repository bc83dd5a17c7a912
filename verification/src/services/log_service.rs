//! The ingestion of logs: a log is stored only if its schema exists and its
//! data conforms to the schema's current definition.

use crate::error::{fails_with, AppError, AppResult, ErrorKind};
use crate::filter::option_model;
use crate::ids::{hyphenated, uuid_text};
use crate::json::{json_model, JsonModel};
use crate::models::{log_views, Log, LogView, SchemaView};
use crate::repositories::log_repository::{
    has_log, latest_first, log_found_in, log_put_in, of_schema_passing, other_log_than,
    LogRepositoryTrait,
};
use crate::repositories::schema_repository::{has_id, has_name_version, SchemaRepositoryTrait};
use crate::time::utc_now;
use crate::validation::{
    draft7_failure, draft7_violations, instance_verdict, validate_log_against_schema,
};
use serde_json::Value;
use vstd::prelude::*;
use vstd::string::*;

verus! {

/// The failure of an ingestion whose schema is unknown.
pub open spec fn unknown_schema_notice(id: u128) -> (ErrorKind, Seq<char>) {
    (ErrorKind::NotFound, "Schema with id '"@ + uuid_text(id) + "' not found"@)
}

/// The failure of a listing whose schema is unknown.
pub open spec fn unknown_name_notice(name: Seq<char>, version: Seq<char>) -> (ErrorKind, Seq<char>) {
    (
        ErrorKind::NotFound,
        "Schema with name:version '"@ + name + ":"@ + version + "' not found"@,
    )
}

/// The verdict of the validation engine on `data` under `definition`.
pub open spec fn verdict(definition: JsonModel, data: JsonModel) -> Option<(ErrorKind, Seq<char>)> {
    instance_verdict(draft7_failure(definition), draft7_violations(definition, data))
}

/// The log that an ingestion stores under the identifier `id`.
pub open spec fn new_log(id: i32, schema_id: u128, data: JsonModel, now: i64) -> LogView {
    LogView { id, schema_id, log_data: data, created_at: now }
}

/// What the engine's verdict under `definition` means for an ingestion:
/// a failing verdict is the failure, and a passing one is success where
/// the log store answers.
pub open spec fn judged(
    definition: JsonModel,
    data: JsonModel,
    logs_reliable: bool,
    r: AppResult<Log>,
) -> bool {
    match verdict(definition, data) {
        Some(n) => fails_with(r, n),
        None => logs_reliable ==> r is Ok,
    }
}

/// What an ingestion does.  A log is stored only under a schema that
/// exists and whose definition its data satisfies; it then carries a
/// positive identifier that no other log has, the given data and the given
/// instant.  On any failure the logs stay.
pub open spec fn ingestion(
    schemas: Seq<SchemaView>,
    schemas_reliable: bool,
    logs_before: Seq<LogView>,
    logs_reliable: bool,
    logs_after: Seq<LogView>,
    schema_id: u128,
    data: JsonModel,
    now: i64,
    r: AppResult<Log>,
) -> bool {
    &&& match r {
        Ok(stored) => (exists|s: SchemaView| #[trigger]
            schemas.contains(s) && s.id == schema_id && verdict(s.schema_definition, data) is None)
            && stored@ == new_log(stored.id, schema_id, data, now) && stored.id > 0 && !has_log(
            logs_before,
            stored.id,
        ) && log_put_in(logs_before, logs_after, stored@),
        Err(e) => logs_after == logs_before,
    }
    &&& (schemas_reliable && !has_id(schemas, schema_id) ==> fails_with(
        r,
        unknown_schema_notice(schema_id),
    ))
    &&& (schemas_reliable && has_id(schemas, schema_id) ==> exists|s: SchemaView| #[trigger]
        schemas.contains(s) && s.id == schema_id && judged(
            s.schema_definition,
            data,
            logs_reliable,
            r,
        ))
}

/// Whether an ingestion issued its identifier above the mark: the mark
/// does not go back, and the identifier of a stored log lies above the old
/// mark and not above the new one.
pub open spec fn issued(mark: int, mark_after: int, r: AppResult<Log>) -> bool {
    &&& mark <= mark_after
    &&& (r matches Ok(stored) ==> mark < stored.id <= mark_after)
}

/// What an ingestion at the present instant does: what `ingestion` says,
/// for some instant.
pub open spec fn ingestion_of(
    schemas: Seq<SchemaView>,
    schemas_reliable: bool,
    logs_before: Seq<LogView>,
    logs_reliable: bool,
    logs_after: Seq<LogView>,
    schema_id: u128,
    data: JsonModel,
    r: AppResult<Log>,
) -> bool {
    exists|now: i64| #[trigger]
        ingestion(
            schemas,
            schemas_reliable,
            logs_before,
            logs_reliable,
            logs_after,
            schema_id,
            data,
            now,
            r,
        )
}

/// What a listing by schema name and version gives: the logs of a schema
/// with that name and version that pass the filter, latest first.
pub open spec fn listing(
    schemas: Seq<SchemaView>,
    schemas_reliable: bool,
    logs: Seq<LogView>,
    logs_reliable: bool,
    name: Seq<char>,
    version: Seq<char>,
    filter: Option<JsonModel>,
    r: AppResult<Vec<Log>>,
) -> bool {
    &&& (r matches Ok(found) ==> latest_first(log_views(found@)) && exists|s: SchemaView| #[trigger]
        schemas.contains(s) && s.name == name && s.version == version && log_views(found@)
            == logs.filter(of_schema_passing(s.id, filter)))
    &&& (schemas_reliable && !has_name_version(schemas, name, version) ==> fails_with(
        r,
        unknown_name_notice(name, version),
    ))
    &&& (schemas_reliable && logs_reliable && has_name_version(schemas, name, version) ==> r is Ok)
}

/// What the removal of a log does to the rows: the log with this
/// identifier leaves, and the answer says whether there was one.  On a
/// failure the rows stay.
pub open spec fn log_removal(
    before: Seq<LogView>,
    reliable: bool,
    after: Seq<LogView>,
    id: i32,
    served: AppResult<bool>,
) -> bool {
    &&& match served {
        Ok(removed) => removed == has_log(before, id) && after == before.filter(other_log_than(id)),
        Err(_) => after == before,
    }
    &&& (reliable ==> served is Ok)
}

/// The ingestion service.  It holds no state: every operation works on the
/// stores it is given.
#[derive(Debug)]
pub struct LogService {}

fn unknown_schema_error(id: u128) -> (e: AppError)
    ensures
        e@ == unknown_schema_notice(id),
{
    let mut m = String::from_str("Schema with id '");
    m.append(hyphenated(id).as_str());
    m.append("' not found");
    AppError::NotFound(m)
}

fn unknown_name_error(name: &str, version: &str) -> (e: AppError)
    ensures
        e@ == unknown_name_notice(name@, version@),
{
    let mut m = String::from_str("Schema with name:version '");
    m.append(name);
    m.append(":");
    m.append(version);
    m.append("' not found");
    AppError::NotFound(m)
}

impl LogService {
    pub fn new() -> LogService {
        LogService {  }
    }

    /// Lists the logs of the schema with this name and version.
    pub fn get_logs_by_schema_name_and_id<S: SchemaRepositoryTrait, L: LogRepositoryTrait>(
        &self,
        schema_repository: &S,
        log_repository: &L,
        name: &str,
        version: &str,
        filters: Option<Value>,
    ) -> (r: AppResult<Vec<Log>>)
        ensures
            listing(
                schema_repository.rows(),
                schema_repository.reliable(),
                log_repository.rows(),
                log_repository.reliable(),
                name@,
                version@,
                option_model(filters),
                r,
            ),
    {
        let schema = match schema_repository.get_by_name_and_version(name, version) {
            Err(e) => {
                return Err(e);
            },
            Ok(found) => found,
        };
        match schema {
            None => Err(unknown_name_error(name, version)),
            Some(s) => {
                proof {
                    let rows = schema_repository.rows();
                    let i = choose|i: int| 0 <= i < rows.len() && rows[i] == s@;
                    assert(rows[i].name == name@ && rows[i].version == version@);
                }
                log_repository.get_by_schema_id(s.id, filters)
            },
        }
    }

    /// Lists the logs of the schema identified by `schema_id`.
    pub fn get_logs_by_schema_id<L: LogRepositoryTrait>(
        &self,
        log_repository: &L,
        schema_id: u128,
        filters: Option<Value>,
    ) -> (r: AppResult<Vec<Log>>)
        ensures
            log_repository.reliable() ==> r is Ok,
            r matches Ok(found) ==> log_views(found@) == log_repository.rows().filter(
                of_schema_passing(schema_id, option_model(filters)),
            ) && latest_first(log_views(found@)),
    {
        log_repository.get_by_schema_id(schema_id, filters)
    }

    /// Looks a log up by its identifier.
    pub fn get_log_by_id<L: LogRepositoryTrait>(&self, log_repository: &L, id: i32) -> (r:
        AppResult<Option<Log>>)
        ensures
            log_repository.reliable() ==> r is Ok,
            r matches Ok(found) ==> log_found_in(log_repository.rows(), id, found),
    {
        log_repository.get_by_id(id)
    }

    /// Stores a log at the given instant, if its schema exists and its data
    /// conforms.
    pub fn create_log_at<S: SchemaRepositoryTrait, L: LogRepositoryTrait>(
        &self,
        schema_repository: &S,
        log_repository: &mut L,
        schema_id: u128,
        log_data: Value,
        now: i64,
    ) -> (r: AppResult<Log>)
        ensures
            issued(
                old(log_repository).last_issued(),
                final(log_repository).last_issued(),
                r,
            ),
            ingestion(
                schema_repository.rows(),
                schema_repository.reliable(),
                old(log_repository).rows(),
                old(log_repository).reliable(),
                final(log_repository).rows(),
                schema_id,
                json_model(log_data),
                now,
                r,
            ),
    {
        let ghost schemas = schema_repository.rows();
        let schema = match schema_repository.get_by_id(schema_id) {
            Err(e) => {
                return Err(e);
            },
            Ok(None) => {
                return Err(unknown_schema_error(schema_id));
            },
            Ok(Some(s)) => s,
        };
        proof {
            let i = choose|i: int| 0 <= i < schemas.len() && schemas[i] == schema@;
            assert(schemas[i].id == schema_id);
            assert(schemas.contains(schema@));
        }
        match validate_log_against_schema(&log_data, &schema.schema_definition) {
            Err(e) => {
                assert(judged(
                    schema@.schema_definition,
                    json_model(log_data),
                    log_repository.reliable(),
                    Err::<Log, AppError>(e),
                ));
                return Err(e);
            },
            Ok(_) => {},
        }
        let log = Log { id: 0, schema_id, log_data, created_at: now };
        let r = log_repository.create(&log);
        proof {
            assert(judged(schema@.schema_definition, log@.log_data, old(log_repository).reliable(), r));
        }
        r
    }

    /// Stores a log at the present instant, if its schema exists and its
    /// data conforms.
    pub fn create_log<S: SchemaRepositoryTrait, L: LogRepositoryTrait>(
        &self,
        schema_repository: &S,
        log_repository: &mut L,
        schema_id: u128,
        log_data: Value,
    ) -> (r: AppResult<Log>)
        ensures
            issued(
                old(log_repository).last_issued(),
                final(log_repository).last_issued(),
                r,
            ),
            ingestion_of(
                schema_repository.rows(),
                schema_repository.reliable(),
                old(log_repository).rows(),
                old(log_repository).reliable(),
                final(log_repository).rows(),
                schema_id,
                json_model(log_data),
                r,
            ),
    {
        let now = utc_now();
        self.create_log_at(schema_repository, log_repository, schema_id, log_data, now)
    }

    /// Removes the log identified by `id`, and says whether there was one.
    pub fn delete_log<L: LogRepositoryTrait>(&self, log_repository: &mut L, id: i32) -> (r:
        AppResult<bool>)
        ensures
            final(log_repository).reliable() == old(log_repository).reliable(),
            final(log_repository).last_issued() == old(log_repository).last_issued(),
            log_removal(
                old(log_repository).rows(),
                old(log_repository).reliable(),
                final(log_repository).rows(),
                id,
                r,
            ),
    {
        log_repository.delete(id)
    }
}

} // verus!
