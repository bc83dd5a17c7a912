//! The schema registry: creation and update with validation and uniqueness,
//! deletion with a guard on dependent logs.

use crate::error::{fails_with, AppError, AppResult, ErrorKind};
use crate::ids::{nil, random_id};
use crate::json::{json_model, JsonModel};
use crate::models::{option_text, schema_views, LogView, Schema, SchemaView};
use crate::repositories::log_repository::{not_of_schema, of_schema, LogRepositoryTrait};
use crate::repositories::schema_repository::{
    clashes, duplicate_notice, found_in, has_id, has_name_version, name_filter, newest_first,
    other_than, owns, put_in, replaced, selected, taken, version_filter, with_id,
    with_name_version,
    SchemaQueryParams, SchemaRepositoryTrait,
};
use crate::text::{blank, int_text, int_to_string, is_blank};
use crate::time::utc_now;
use crate::validation::{definition_verdict, draft7_failure, validate_schema_definition};
use serde_json::Value;
use vstd::prelude::*;
use vstd::string::*;

verus! {

/// Why a name, a version and a definition cannot make a schema, if they
/// cannot: name and version must not be blank, and the definition must be
/// an object that builds under Draft 7.
pub open spec fn input_refusal(name: Seq<char>, version: Seq<char>, definition: JsonModel) -> Option<
    (ErrorKind, Seq<char>),
> {
    if blank(name) {
        Some((ErrorKind::ValidationError, "Schema name cannot be empty"@))
    } else if blank(version) {
        Some((ErrorKind::ValidationError, "Schema version cannot be empty"@))
    } else {
        definition_verdict(definition is Object, draft7_failure(definition))
    }
}

/// The failure of a creation whose name and version are in use.
pub open spec fn exists_notice(name: Seq<char>, version: Seq<char>) -> (ErrorKind, Seq<char>) {
    (
        ErrorKind::Conflict,
        "Schema with name '"@ + name + "' and version '"@ + version + "' already exists"@,
    )
}

/// The failure of an update whose name and version belong to another
/// schema.
pub open spec fn other_owner_notice(name: Seq<char>, version: Seq<char>) -> (ErrorKind, Seq<char>) {
    (
        ErrorKind::Conflict,
        "Schema with name '"@ + name + "' and version '"@ + version
            + "' already exists with a different ID"@,
    )
}

/// The failure of a deletion that `count` dependent logs forbid.
pub open spec fn dependents_notice(count: int) -> (ErrorKind, Seq<char>) {
    (
        ErrorKind::Conflict,
        "Cannot delete schema: "@ + int_text(count)
            + " log(s) are associated with this schema. Use force=true to delete schema and all associated logs."@,
    )
}

/// The schema that a creation stores.
pub open spec fn new_schema(
    id: u128,
    now: i64,
    name: Seq<char>,
    version: Seq<char>,
    description: Option<Seq<char>>,
    definition: JsonModel,
) -> SchemaView {
    SchemaView {
        id,
        name,
        version,
        description,
        schema_definition: definition,
        created_at: now,
        updated_at: now,
    }
}

/// What a creation does.  Inputs that cannot make a schema are refused
/// whatever the store holds.  A name and version in use are never stored
/// again.  On success the candidate is stored and returned; on any failure
/// the rows stay.  A reliable store makes each outcome certain.
pub open spec fn creation(
    before: Seq<SchemaView>,
    reliable: bool,
    after: Seq<SchemaView>,
    candidate: SchemaView,
    r: AppResult<Schema>,
) -> bool {
    let refusal = input_refusal(candidate.name, candidate.version, candidate.schema_definition);
    let in_use = has_name_version(before, candidate.name, candidate.version);
    &&& match r {
        Ok(stored) => stored@ == candidate && refusal is None && !taken(before, candidate) && put_in(
            before,
            after,
            candidate,
        ),
        Err(e) => after == before,
    }
    &&& (refusal matches Some(n) ==> fails_with(r, n))
    &&& (reliable && refusal is None && in_use ==> fails_with(
        r,
        exists_notice(candidate.name, candidate.version),
    ))
    &&& (reliable && refusal is None && !in_use && has_id(before, candidate.id) ==> fails_with(
        r,
        duplicate_notice(),
    ))
    &&& (reliable && refusal is None && !taken(before, candidate) ==> r is Ok)
}

/// What a creation with a fresh identifier at the present instant does:
/// what `creation` says, for some identifier that is not nil and some
/// instant.
pub open spec fn creation_of(
    before: Seq<SchemaView>,
    reliable: bool,
    after: Seq<SchemaView>,
    name: Seq<char>,
    version: Seq<char>,
    description: Option<Seq<char>>,
    definition: JsonModel,
    r: AppResult<Schema>,
) -> bool {
    exists|id: u128, now: i64|
        !nil(id) && #[trigger] creation(
            before,
            reliable,
            after,
            new_schema(id, now, name, version, description, definition),
            r,
        )
}

/// Whether a result is success without a value.
pub open spec fn is_nothing<T>(r: AppResult<Option<T>>) -> bool {
    match r {
        Ok(None) => true,
        _ => false,
    }
}

/// Whether a result is success with a value.
pub open spec fn is_something<T>(r: AppResult<Option<T>>) -> bool {
    match r {
        Ok(Some(_)) => true,
        _ => false,
    }
}

/// Whether a result is success with this answer.
pub open spec fn answers(r: AppResult<bool>, answer: bool) -> bool {
    match r {
        Ok(b) => b == answer,
        Err(_) => false,
    }
}

/// What an update does.  Inputs that cannot make a schema are refused
/// whatever the store holds.  An unknown identifier changes nothing and
/// gives nothing.  The name and version of another schema are never taken
/// over; those of the schema itself may stay.  Where another schema has
/// them and the schema itself has not, the failure names them.  On success
/// the row keeps its identifier and its creation instant and takes
/// everything else from `change`.
pub open spec fn revision(
    before: Seq<SchemaView>,
    reliable: bool,
    after: Seq<SchemaView>,
    id: u128,
    change: SchemaView,
    r: AppResult<Option<Schema>>,
) -> bool {
    let refusal = input_refusal(change.name, change.version, change.schema_definition);
    let clash = clashes(before, id, change.name, change.version);
    &&& match r {
        Ok(Some(stored)) => refusal is None && !clash && replaced(
            before,
            after,
            id,
            change,
            stored@,
        ),
        Ok(None) => refusal is None && !has_id(before, id) && after == before,
        Err(e) => after == before,
    }
    &&& (refusal matches Some(n) ==> fails_with(r, n))
    &&& (reliable && refusal is None && !has_id(before, id) ==> is_nothing(r))
    &&& (reliable && refusal is None && has_id(before, id) && clash ==> fails_with(
        r,
        other_owner_notice(change.name, change.version),
    ) || fails_with(r, duplicate_notice()))
    &&& (reliable && refusal is None && has_id(before, id) && clash && !owns(
        before,
        id,
        change.name,
        change.version,
    ) ==> fails_with(r, other_owner_notice(change.name, change.version)))
    &&& (reliable && refusal is None && has_id(before, id) && !clash ==> is_something(r))
}

/// What an update at the present instant does: what `revision` says, for
/// some instant.
pub open spec fn revision_of(
    before: Seq<SchemaView>,
    reliable: bool,
    after: Seq<SchemaView>,
    id: u128,
    name: Seq<char>,
    version: Seq<char>,
    description: Option<Seq<char>>,
    definition: JsonModel,
    r: AppResult<Option<Schema>>,
) -> bool {
    exists|now: i64| #[trigger]
        revision(
            before,
            reliable,
            after,
            id,
            new_schema(id, now, name, version, description, definition),
            r,
        )
}

/// What a deletion does.  An unknown identifier changes nothing and gives
/// `false`.  Dependent logs forbid the deletion unless it is forced; a
/// forced deletion removes them first.  Where the schema cannot be removed
/// after its logs were, the logs stay removed and the failure is returned.
pub open spec fn removal(
    schemas_before: Seq<SchemaView>,
    schemas_reliable: bool,
    schemas_after: Seq<SchemaView>,
    logs_before: Seq<LogView>,
    logs_reliable: bool,
    logs_after: Seq<LogView>,
    id: u128,
    force: bool,
    r: AppResult<bool>,
) -> bool {
    let dependents = logs_before.filter(of_schema(id)).len();
    let known = has_id(schemas_before, id);
    &&& match r {
        Ok(true) => known && (force || dependents == 0) && schemas_after == schemas_before.filter(
            other_than(id),
        ) && logs_after == logs_before.filter(not_of_schema(id)),
        Ok(false) => !known && schemas_after == schemas_before && logs_after == logs_before,
        Err(e) => schemas_after == schemas_before && (logs_after == logs_before || (force
            && logs_after == logs_before.filter(not_of_schema(id)))),
    }
    &&& (schemas_reliable && !known ==> answers(r, false))
    &&& (schemas_reliable && logs_reliable && known && dependents > 0 && !force ==> fails_with(
        r,
        dependents_notice(dependents as int),
    ) && logs_after == logs_before)
    &&& (schemas_reliable && logs_reliable && known && (force || dependents == 0) ==> answers(
        r,
        true,
    ))
}

/// The schema registry.  It holds no state: every operation works on the
/// stores it is given.
#[derive(Debug)]
pub struct SchemaService {}

fn blank_name_error() -> (e: AppError)
    ensures
        e@ == (ErrorKind::ValidationError, "Schema name cannot be empty"@),
{
    AppError::ValidationError(String::from_str("Schema name cannot be empty"))
}

fn blank_version_error() -> (e: AppError)
    ensures
        e@ == (ErrorKind::ValidationError, "Schema version cannot be empty"@),
{
    AppError::ValidationError(String::from_str("Schema version cannot be empty"))
}

fn exists_error(name: &str, version: &str) -> (e: AppError)
    ensures
        e@ == exists_notice(name@, version@),
{
    let mut m = String::from_str("Schema with name '");
    m.append(name);
    m.append("' and version '");
    m.append(version);
    m.append("' already exists");
    AppError::Conflict(m)
}

fn other_owner_error(name: &str, version: &str) -> (e: AppError)
    ensures
        e@ == other_owner_notice(name@, version@),
{
    let mut m = String::from_str("Schema with name '");
    m.append(name);
    m.append("' and version '");
    m.append(version);
    m.append("' already exists with a different ID");
    AppError::Conflict(m)
}

fn dependents_error(count: i64) -> (e: AppError)
    ensures
        e@ == dependents_notice(count as int),
{
    let mut m = String::from_str("Cannot delete schema: ");
    m.append(int_to_string(count).as_str());
    m.append(
        " log(s) are associated with this schema. Use force=true to delete schema and all associated logs.",
    );
    AppError::Conflict(m)
}

/// Checks name, version and definition of a schema to be.
pub fn check_input(name: &str, version: &str, schema_definition: &Value) -> (r: AppResult<()>)
    ensures
        crate::validation::delivers(
            r,
            input_refusal(name@, version@, json_model(*schema_definition)),
        ),
{
    if is_blank(name) {
        return Err(blank_name_error());
    }
    if is_blank(version) {
        return Err(blank_version_error());
    }
    validate_schema_definition(schema_definition)
}

impl SchemaService {
    pub fn new() -> SchemaService {
        SchemaService {  }
    }

    /// Lists the schemas that pass the filters, latest first.
    pub fn get_all_schemas<S: SchemaRepositoryTrait>(
        &self,
        repository: &S,
        params: Option<SchemaQueryParams>,
    ) -> (r: AppResult<Vec<Schema>>)
        ensures
            repository.reliable() ==> r is Ok,
            r matches Ok(found) ==> schema_views(found@) == repository.rows().filter(
                selected(name_filter(params), version_filter(params)),
            ) && newest_first(schema_views(found@)),
    {
        repository.get_all(params)
    }

    /// Looks a schema up by its identifier.
    pub fn get_schema_by_id<S: SchemaRepositoryTrait>(&self, repository: &S, id: u128) -> (r:
        AppResult<Option<Schema>>)
        ensures
            repository.reliable() ==> r is Ok,
            r matches Ok(found) ==> found_in(repository.rows(), with_id(id), found),
    {
        repository.get_by_id(id)
    }

    /// Looks a schema up by its name and version.
    pub fn get_by_name_and_version<S: SchemaRepositoryTrait>(
        &self,
        repository: &S,
        name: &str,
        version: &str,
    ) -> (r: AppResult<Option<Schema>>)
        ensures
            repository.reliable() ==> r is Ok,
            r matches Ok(found) ==> found_in(
                repository.rows(),
                with_name_version(name@, version@),
                found,
            ),
    {
        repository.get_by_name_and_version(name, version)
    }

    /// Registers a schema under the given identifier at the given instant.
    pub fn create_schema_with<S: SchemaRepositoryTrait>(
        &self,
        repository: &mut S,
        id: u128,
        now: i64,
        name: String,
        version: String,
        description: Option<String>,
        schema_definition: Value,
    ) -> (r: AppResult<Schema>)
        ensures
            final(repository).reliable() == old(repository).reliable(),
            creation(
                old(repository).rows(),
                old(repository).reliable(),
                final(repository).rows(),
                new_schema(
                    id,
                    now,
                    name@,
                    version@,
                    option_text(description),
                    json_model(schema_definition),
                ),
                r,
            ),
    {
        match check_input(name.as_str(), version.as_str(), &schema_definition) {
            Err(e) => {
                return Err(e);
            },
            Ok(_) => {},
        }
        let existing = match repository.get_by_name_and_version(name.as_str(), version.as_str()) {
            Err(e) => {
                return Err(e);
            },
            Ok(found) => found,
        };
        if existing.is_some() {
            proof {
                let s = existing->0@;
                let rows = repository.rows();
                let i = choose|i: int| 0 <= i < rows.len() && rows[i] == s;
                assert(rows[i].name == name@ && rows[i].version == version@);
            }
            return Err(exists_error(name.as_str(), version.as_str()));
        }
        let schema = Schema {
            id,
            name,
            version,
            description,
            schema_definition,
            created_at: now,
            updated_at: now,
        };
        repository.create(&schema)
    }

    /// Registers a schema under a fresh identifier at the present instant.
    pub fn create_schema<S: SchemaRepositoryTrait>(
        &self,
        repository: &mut S,
        name: String,
        version: String,
        description: Option<String>,
        schema_definition: Value,
    ) -> (r: AppResult<Schema>)
        ensures
            final(repository).reliable() == old(repository).reliable(),
            creation_of(
                old(repository).rows(),
                old(repository).reliable(),
                final(repository).rows(),
                name@,
                version@,
                option_text(description),
                json_model(schema_definition),
                r,
            ),
    {
        let id = random_id();
        let now = utc_now();
        self.create_schema_with(repository, id, now, name, version, description, schema_definition)
    }

    /// Replaces the schema identified by `id` at the given instant.
    pub fn update_schema_at<S: SchemaRepositoryTrait>(
        &self,
        repository: &mut S,
        id: u128,
        now: i64,
        name: String,
        version: String,
        description: Option<String>,
        schema_definition: Value,
    ) -> (r: AppResult<Option<Schema>>)
        ensures
            final(repository).reliable() == old(repository).reliable(),
            revision(
                old(repository).rows(),
                old(repository).reliable(),
                final(repository).rows(),
                id,
                new_schema(
                    id,
                    now,
                    name@,
                    version@,
                    option_text(description),
                    json_model(schema_definition),
                ),
                r,
            ),
    {
        let ghost before = repository.rows();
        match check_input(name.as_str(), version.as_str(), &schema_definition) {
            Err(e) => {
                return Err(e);
            },
            Ok(_) => {},
        }
        let existing_schema = match repository.get_by_id(id) {
            Err(e) => {
                return Err(e);
            },
            Ok(None) => {
                return Ok(None);
            },
            Ok(Some(found)) => found,
        };
        proof {
            let i = choose|i: int| 0 <= i < before.len() && before[i] == existing_schema@;
            assert(before[i].id == id);
        }
        let new_schema = match repository.get_by_name_and_version(name.as_str(), version.as_str()) {
            Err(e) => {
                return Err(e);
            },
            Ok(found) => found,
        };
        match new_schema {
            Some(existing) => {
                if existing.id != id {
                    proof {
                        let i = choose|i: int| 0 <= i < before.len() && before[i] == existing@;
                        assert(before[i].id != id && before[i].name == name@ && before[i].version
                            == version@);
                    }
                    return Err(other_owner_error(name.as_str(), version.as_str()));
                }
                proof {
                    let i = choose|i: int| 0 <= i < before.len() && before[i] == existing@;
                    assert(before[i].id == id && before[i].name == name@ && before[i].version
                        == version@);
                    assert(owns(before, id, name@, version@));
                }
            },
            None => {
                assert(!clashes(before, id, name@, version@));
            },
        }
        assert(!clashes(before, id, name@, version@) || owns(before, id, name@, version@));
        let updated_schema = Schema {
            id,
            name,
            version,
            description,
            schema_definition,
            created_at: existing_schema.created_at,
            updated_at: now,
        };
        let r = repository.update(id, &updated_schema);
        proof {
            let change = crate::services::schema_service::new_schema(
                id,
                now,
                updated_schema@.name,
                updated_schema@.version,
                updated_schema@.description,
                updated_schema@.schema_definition,
            );
            match &r {
                Ok(Some(stored)) => {
                    let after = repository.rows();
                    let i = choose|i: int|
                        0 <= i < before.len() && (#[trigger] before[i]).id == id && stored@
                            == crate::repositories::schema_repository::revised(
                            before[i],
                            updated_schema@,
                        ) && after == before.update(i, stored@);
                    assert(stored@ == crate::repositories::schema_repository::revised(
                        before[i],
                        change,
                    ));
                    assert(replaced(before, after, id, change, stored@));
                },
                _ => {},
            }
        }
        r
    }

    /// Replaces the schema identified by `id` at the present instant.
    pub fn update_schema<S: SchemaRepositoryTrait>(
        &self,
        repository: &mut S,
        id: u128,
        name: String,
        version: String,
        description: Option<String>,
        schema_definition: Value,
    ) -> (r: AppResult<Option<Schema>>)
        ensures
            final(repository).reliable() == old(repository).reliable(),
            revision_of(
                old(repository).rows(),
                old(repository).reliable(),
                final(repository).rows(),
                id,
                name@,
                version@,
                option_text(description),
                json_model(schema_definition),
                r,
            ),
    {
        let now = utc_now();
        self.update_schema_at(repository, id, now, name, version, description, schema_definition)
    }

    /// Removes the schema identified by `id`; with `force`, its logs too.
    pub fn delete_schema<S: SchemaRepositoryTrait, L: LogRepositoryTrait>(
        &self,
        repository: &mut S,
        log_repository: &mut L,
        id: u128,
        force: bool,
    ) -> (r: AppResult<bool>)
        ensures
            final(repository).reliable() == old(repository).reliable(),
            final(log_repository).reliable() == old(log_repository).reliable(),
            final(log_repository).last_issued() == old(log_repository).last_issued(),
            removal(
                old(repository).rows(),
                old(repository).reliable(),
                final(repository).rows(),
                old(log_repository).rows(),
                old(log_repository).reliable(),
                final(log_repository).rows(),
                id,
                force,
                r,
            ),
    {
        let ghost schemas_before = repository.rows();
        let ghost logs_before = log_repository.rows();
        let schema = match repository.get_by_id(id) {
            Err(e) => {
                return Err(e);
            },
            Ok(found) => found,
        };
        if schema.is_none() {
            return Ok(false);
        }
        proof {
            let s = schema->0@;
            let i = choose|i: int| 0 <= i < schemas_before.len() && schemas_before[i] == s;
            assert(schemas_before[i].id == id);
        }
        let log_count = match log_repository.count_by_schema_id(id) {
            Err(e) => {
                return Err(e);
            },
            Ok(n) => n,
        };
        if log_count > 0 && !force {
            return Err(dependents_error(log_count));
        }
        if force && log_count > 0 {
            match log_repository.delete_by_schema_id(id) {
                Err(e) => {
                    return Err(e);
                },
                Ok(_) => {},
            }
        } else {
            proof {
                crate::seqs::lemma_filter_empty(logs_before, of_schema(id));
                crate::seqs::lemma_filter_keeps_all(logs_before, not_of_schema(id));
            }
        }
        repository.delete(id)
    }
}

} // verus!
