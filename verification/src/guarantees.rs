//! What holds of the registry, the ingestion and the broadcaster across
//! several operations, proved from the contracts of the operations.

use crate::broadcast::{
    after_publish, after_signal, all_after_publish, ends, filter_admits, moving, open_ones,
    receives, registered, registry_ok, session_next, session_run, state_in, SessionSignal,
    SessionState, SubscriberView,
};
use crate::dto::log_dto::LogEventView;
use crate::dto::schema_dto::{schema_response_of, SchemaResponse};
use crate::error::{fails_with, AppResult, ErrorKind};
use crate::handlers::reply::Reply;
use crate::handlers::schema_handlers::schema_shown;
use crate::ids::nil;
use crate::json::JsonModel;
use crate::models::{Log, LogView, Schema, SchemaView};
use crate::repositories::log_repository::{
    distinct_logs, has_log, issues_above, log_found_in, log_put_in, not_of_schema, of_schema,
    other_log_than,
};
use crate::repositories::schema_repository::{
    distinct_ids, distinct_names, found_in, has_id, has_name_version, other_than, revised, taken,
    with_id,
};
use crate::seqs::{lemma_filter_members, lemma_filter_picks};
use crate::services::log_service::{ingestion, issued, log_removal};
use crate::services::schema_service::{
    answers, creation, creation_of, dependents_notice, exists_notice, input_refusal, new_schema,
    other_owner_notice, removal, revision,
};
use crate::text::{
    holds_text, int_text, join_text, lemma_holds_between, lemma_holds_through,
    lemma_holds_within, lemma_join_holds_each,
};
use crate::validation::{draft7_failure, draft7_violations, violation_line, violation_report};
use vstd::string::*;
use vstd::prelude::*;

verus! {

/// A schema that was created is found under its identifier, with the name,
/// the version and everything else it was created with, and no other row
/// has its identifier.  Where the store is reliable, the inputs can make a
/// schema, and neither the identifier nor the name and version are in use,
/// the creation succeeds.
pub proof fn lemma_created_schema_is_found(
    before: Seq<SchemaView>,
    reliable: bool,
    after: Seq<SchemaView>,
    candidate: SchemaView,
    r: AppResult<Schema>,
    found: Option<Schema>,
)
    requires
        creation(before, reliable, after, candidate, r),
        r is Ok || (reliable && input_refusal(
            candidate.name,
            candidate.version,
            candidate.schema_definition,
        ) is None && !taken(before, candidate)),
        found_in(after, with_id(candidate.id), found),
    ensures
        r is Ok,
        found matches Some(s) && s@ == candidate,
        !has_id(before, candidate.id),
        forall|i: int|
            0 <= i < after.len() && (#[trigger] after[i]).id == candidate.id ==> after[i]
                == candidate,
        candidate.schema_definition is Object,
        draft7_failure(candidate.schema_definition) is None,
{
    let k = choose|k: int| 0 <= k <= before.len() && after == #[trigger] before.insert(k, candidate);
    assert(after[k] == candidate);
    assert forall|i: int| 0 <= i < after.len() && (#[trigger] after[i]).id == candidate.id implies after[i]
        == candidate by {
        if i < k {
            assert(after[i] == before[i]);
        } else if i > k {
            assert(after[i] == before[i - 1]);
        }
    }
    match found {
        Some(s) => {
            let i = choose|i: int| 0 <= i < after.len() && after[i] == s@;
            assert(after[i].id == candidate.id);
        },
        None => {
            assert(with_id(candidate.id)(after[k]));
        },
    }
}

/// A schema that was created under a fresh identifier is shown under that
/// identifier by a store that answers, with everything it was created
/// with: a fresh identifier is never the nil one, which is not shown.
pub proof fn lemma_created_schema_is_shown(
    before: Seq<SchemaView>,
    after: Seq<SchemaView>,
    name: Seq<char>,
    version: Seq<char>,
    description: Option<Seq<char>>,
    definition: JsonModel,
    served: AppResult<Schema>,
    r: Reply<SchemaResponse>,
)
    requires
        creation_of(before, true, after, name, version, description, definition, served),
        served is Ok,
        schema_shown(after, true, served->Ok_0.id, r),
    ensures
        r matches Ok(body) && body@ == schema_response_of(served->Ok_0@),
        served->Ok_0@.name == name,
        served->Ok_0@.version == version,
        served->Ok_0@.description == description,
        served->Ok_0@.schema_definition == definition,
        served->Ok_0@.created_at == served->Ok_0@.updated_at,
        !has_id(before, served->Ok_0.id),
{
    let stored = served->Ok_0@;
    let (id, now) = choose|id: u128, now: i64|
        !nil(id) && #[trigger] creation(
            before,
            true,
            after,
            new_schema(id, now, name, version, description, definition),
            served,
        );
    let candidate = new_schema(id, now, name, version, description, definition);
    assert(stored == candidate);
    let k = choose|k: int| 0 <= k <= before.len() && after == #[trigger] before.insert(k, candidate);
    assert(after[k] == candidate);
    assert(has_id(after, id));
    match r {
        Ok(body) => {
            let s = choose|s: SchemaView| #[trigger]
                after.contains(s) && s.id == id && body@ == schema_response_of(s);
            let i = choose|i: int| 0 <= i < after.len() && after[i] == s;
            if i < k {
                assert(after[i] == before[i]);
            } else if i > k {
                assert(after[i] == before[i - 1]);
            }
        },
        Err(_) => {},
    }
}

/// Of two creations with the same name and version, one after the other in
/// either order, the second never succeeds once the first has, and changes
/// nothing.  On a reliable store, and with inputs that can make a schema,
/// it is refused as a conflict that names the name and the version.
pub proof fn lemma_second_creation_conflicts(
    rows: Seq<SchemaView>,
    reliable: bool,
    rows_between: Seq<SchemaView>,
    first: SchemaView,
    r1: AppResult<Schema>,
    rows_after: Seq<SchemaView>,
    second: SchemaView,
    r2: AppResult<Schema>,
)
    requires
        creation(rows, reliable, rows_between, first, r1),
        creation(rows_between, reliable, rows_after, second, r2),
        r1 is Ok,
        first.name == second.name,
        first.version == second.version,
    ensures
        r2 is Err,
        rows_after == rows_between,
        reliable && input_refusal(second.name, second.version, second.schema_definition) is None
            ==> fails_with(r2, exists_notice(second.name, second.version)) && r2->Err_0@.0
            == ErrorKind::Conflict,
{
    let k = choose|k: int|
        0 <= k <= rows.len() && rows_between == #[trigger] rows.insert(k, first);
    assert(rows_between[k] == first);
    assert(has_name_version(rows_between, second.name, second.version));
}

/// The conflict of a creation names the name and the version that are in
/// use, and says that they exist already.
pub proof fn lemma_conflict_names_what_is_in_use(name: Seq<char>, version: Seq<char>)
    ensures
        exists_notice(name, version).0 == ErrorKind::Conflict,
        holds_text(exists_notice(name, version).1, name),
        holds_text(exists_notice(name, version).1, version),
        holds_text(exists_notice(name, version).1, "already exists"@),
        other_owner_notice(name, version).0 == ErrorKind::Conflict,
        holds_text(other_owner_notice(name, version).1, name),
        holds_text(other_owner_notice(name, version).1, version),
        holds_text(other_owner_notice(name, version).1, "already exists"@),
{
    let a = "Schema with name '"@;
    let b = "' and version '"@;
    let c = "' already exists"@;
    let d = "' already exists with a different ID"@;
    let empty = Seq::<char>::empty();
    let said = "already exists"@;
    reveal_strlit("' already exists");
    reveal_strlit("' already exists with a different ID");
    reveal_strlit("already exists");
    assert(c.subrange(2, 2 + said.len() as int) =~= said);
    assert(d.subrange(2, 2 + said.len() as int) =~= said);
    assert(holds_text(c, said));
    assert(holds_text(d, said));
    lemma_holds_between(a, name, b + version + c);
    assert(a + name + (b + version + c) =~= exists_notice(name, version).1);
    lemma_holds_between(a + name + b, version, c);
    lemma_holds_within(a + name + b + version, c, empty, said);
    assert(a + name + b + version + c + empty =~= exists_notice(name, version).1);
    lemma_holds_between(a, name, b + version + d);
    assert(a + name + (b + version + d) =~= other_owner_notice(name, version).1);
    lemma_holds_between(a + name + b, version, d);
    lemma_holds_within(a + name + b + version, d, empty, said);
    assert(a + name + b + version + d + empty =~= other_owner_notice(name, version).1);
}

/// The conflict of a deletion that dependent logs forbid cites their
/// number in decimal.
pub proof fn lemma_conflict_cites_the_count(count: int)
    ensures
        dependents_notice(count).0 == ErrorKind::Conflict,
        holds_text(dependents_notice(count).1, int_text(count)),
{
    lemma_holds_between(
        "Cannot delete schema: "@,
        int_text(count),
        " log(s) are associated with this schema. Use force=true to delete schema and all associated logs."@,
    );
}

/// The report of violations holds every one of them, each with its path
/// and its reason.
pub proof fn lemma_report_holds_every_violation(errors: Seq<(Seq<char>, Seq<char>)>, k: int)
    requires
        0 <= k < errors.len(),
    ensures
        holds_text(violation_report(errors), violation_line(errors[k])),
        holds_text(violation_report(errors), errors[k].0),
        holds_text(violation_report(errors), errors[k].1),
{
    let lines = errors.map_values(|e: (Seq<char>, Seq<char>)| violation_line(e));
    let head = "Schema validation failed: "@;
    let empty = Seq::<char>::empty();
    let joined = join_text(lines, "; "@);
    let report = violation_report(errors);
    let line = violation_line(errors[k]);
    lemma_join_holds_each(lines, "; "@, k);
    assert(lines[k] == line);
    lemma_holds_within(head, joined, empty, line);
    assert(head + joined + empty =~= report);
    lemma_holds_between("Validation error at '"@, errors[k].0, "': "@ + errors[k].1);
    assert("Validation error at '"@ + errors[k].0 + ("': "@ + errors[k].1) =~= line);
    lemma_holds_between("Validation error at '"@ + errors[k].0 + "': "@, errors[k].1, empty);
    assert("Validation error at '"@ + errors[k].0 + "': "@ + errors[k].1 + empty =~= line);
    lemma_holds_through(report, line, errors[k].0);
    lemma_holds_through(report, line, errors[k].1);
}

/// No creation makes two schemas share an identifier, or a name and a
/// version.
pub proof fn lemma_creation_keeps_schemas_apart(
    before: Seq<SchemaView>,
    reliable: bool,
    after: Seq<SchemaView>,
    candidate: SchemaView,
    r: AppResult<Schema>,
)
    requires
        creation(before, reliable, after, candidate, r),
        distinct_ids(before),
        distinct_names(before),
    ensures
        distinct_ids(after),
        distinct_names(after),
{
    if r is Ok {
        let k = choose|k: int|
            0 <= k <= before.len() && after == #[trigger] before.insert(k, candidate);
        assert forall|a: int, b: int| 0 <= a < b < after.len() implies (#[trigger] after[a]).id != (
        #[trigger] after[b]).id && !(after[a].name == after[b].name && after[a].version
            == after[b].version) by {
            let a0 = if a < k { a } else { a - 1 };
            let b0 = if b < k { b } else { b - 1 };
            if a != k {
                assert(after[a] == before[a0]);
            }
            if b != k {
                assert(after[b] == before[b0]);
            }
        }
    }
}

/// No update makes two schemas share an identifier, or a name and a
/// version; the updated schema keeps its identifier and its creation
/// instant, and its new definition is an object that builds.
pub proof fn lemma_revision_keeps_schemas_apart(
    before: Seq<SchemaView>,
    reliable: bool,
    after: Seq<SchemaView>,
    id: u128,
    change: SchemaView,
    r: AppResult<Option<Schema>>,
)
    requires
        revision(before, reliable, after, id, change, r),
        distinct_ids(before),
        distinct_names(before),
    ensures
        distinct_ids(after),
        distinct_names(after),
        after.len() == before.len(),
        r matches Ok(Some(stored)) ==> stored.id == id && exists|i: int|
            0 <= i < before.len() && (#[trigger] before[i]).id == id && stored.created_at
                == before[i].created_at && after[i] == stored@,
        r matches Ok(Some(stored)) ==> stored@.schema_definition is Object && draft7_failure(
            stored@.schema_definition,
        ) is None,
{
    match r {
        Ok(Some(stored)) => {
            let i = choose|i: int|
                0 <= i < before.len() && (#[trigger] before[i]).id == id && stored@ == revised(
                    before[i],
                    change,
                ) && after == before.update(i, stored@);
            assert(after[i] == stored@);
            assert forall|a: int, b: int| 0 <= a < b < after.len() implies (#[trigger] after[a]).id
                != (#[trigger] after[b]).id && !(after[a].name == after[b].name && after[a].version
                == after[b].version) by {
                assert(before[a].id != before[b].id);
                if a != i {
                    assert(after[a] == before[a]);
                }
                if b != i {
                    assert(after[b] == before[b]);
                }
            }
        },
        _ => {},
    }
}

/// No deletion makes two schemas, or two logs, share an identifier.
pub proof fn lemma_removal_keeps_rows_apart(
    schemas_before: Seq<SchemaView>,
    schemas_reliable: bool,
    schemas_after: Seq<SchemaView>,
    logs_before: Seq<LogView>,
    logs_reliable: bool,
    logs_after: Seq<LogView>,
    id: u128,
    force: bool,
    r: AppResult<bool>,
)
    requires
        removal(
            schemas_before,
            schemas_reliable,
            schemas_after,
            logs_before,
            logs_reliable,
            logs_after,
            id,
            force,
            r,
        ),
        distinct_ids(schemas_before),
        distinct_names(schemas_before),
        distinct_logs(logs_before),
    ensures
        distinct_ids(schemas_after),
        distinct_names(schemas_after),
        distinct_logs(logs_after),
{
    let at = lemma_filter_picks(schemas_before, other_than(id));
    let kept = schemas_before.filter(other_than(id));
    assert forall|a: int, b: int| 0 <= a < b < kept.len() implies (#[trigger] kept[a]).id != (
    #[trigger] kept[b]).id && !(kept[a].name == kept[b].name && kept[a].version
        == kept[b].version) by {
        assert(at[a] < at[b]);
        assert(kept[a] == schemas_before[at[a]]);
        assert(kept[b] == schemas_before[at[b]]);
    }
    let log_at = lemma_filter_picks(logs_before, not_of_schema(id));
    let kept_logs = logs_before.filter(not_of_schema(id));
    assert forall|a: int, b: int| 0 <= a < b < kept_logs.len() implies (#[trigger] kept_logs[a]).id
        != (#[trigger] kept_logs[b]).id by {
        assert(log_at[a] < log_at[b]);
        assert(kept_logs[a] == logs_before[log_at[a]]);
        assert(kept_logs[b] == logs_before[log_at[b]]);
    }
}

/// A log is stored exactly when the validation engine finds no violation
/// of the schema's definition in its data; where it finds some, the
/// failure lists every one of them, in the order in which they were found.
/// This holds on reliable stores, for a schema whose definition builds.
pub proof fn lemma_ingestion_follows_validation(
    schemas: Seq<SchemaView>,
    logs_before: Seq<LogView>,
    logs_after: Seq<LogView>,
    s: SchemaView,
    data: JsonModel,
    now: i64,
    r: AppResult<Log>,
)
    requires
        ingestion(schemas, true, logs_before, true, logs_after, s.id, data, now, r),
        distinct_ids(schemas),
        schemas.contains(s),
        draft7_failure(s.schema_definition) is None,
    ensures
        r is Ok <==> draft7_violations(s.schema_definition, data).len() == 0,
        r is Err ==> fails_with(
            r,
            (
                ErrorKind::SchemaValidationError,
                violation_report(draft7_violations(s.schema_definition, data)),
            ),
        ),
        r is Err ==> logs_after == logs_before,
{
    let i = choose|i: int| 0 <= i < schemas.len() && schemas[i] == s;
    assert(has_id(schemas, s.id));
    let t = choose|t: SchemaView| #[trigger]
        schemas.contains(t) && t.id == s.id && crate::services::log_service::judged(
            t.schema_definition,
            data,
            true,
            r,
        );
    let j = choose|j: int| 0 <= j < schemas.len() && schemas[j] == t;
    if i < j {
        assert(schemas[i].id != schemas[j].id);
    }
    if j < i {
        assert(schemas[j].id != schemas[i].id);
    }
    assert(t == s);
}

/// A schema with dependent logs is not deleted unless the deletion is
/// forced: the deletion fails as a conflict that cites their number, and
/// nothing changes.
pub proof fn lemma_dependents_forbid_removal(
    schemas_before: Seq<SchemaView>,
    schemas_after: Seq<SchemaView>,
    logs_before: Seq<LogView>,
    logs_after: Seq<LogView>,
    id: u128,
    r: AppResult<bool>,
)
    requires
        removal(schemas_before, true, schemas_after, logs_before, true, logs_after, id, false, r),
        has_id(schemas_before, id),
        logs_before.filter(of_schema(id)).len() > 0,
    ensures
        fails_with(r, dependents_notice(logs_before.filter(of_schema(id)).len() as int)),
        r->Err_0@.0 == ErrorKind::Conflict,
        schemas_after == schemas_before,
        logs_after == logs_before,
{
}

/// A forced deletion of a schema succeeds on reliable stores and removes
/// the schema and every log of it: none of them is found afterwards.
pub proof fn lemma_forced_removal_takes_logs(
    schemas_before: Seq<SchemaView>,
    schemas_after: Seq<SchemaView>,
    logs_before: Seq<LogView>,
    logs_after: Seq<LogView>,
    id: u128,
    r: AppResult<bool>,
    log: LogView,
    found: Option<Log>,
)
    requires
        removal(schemas_before, true, schemas_after, logs_before, true, logs_after, id, true, r),
        has_id(schemas_before, id),
        distinct_logs(logs_before),
        logs_before.contains(log),
        log.schema_id == id,
        log_found_in(logs_after, log.id, found),
    ensures
        answers(r, true),
        !has_id(schemas_after, id),
        found is None,
        forall|i: int| 0 <= i < logs_after.len() ==> (#[trigger] logs_after[i]).schema_id != id,
{
    assert forall|i: int| 0 <= i < schemas_after.len() implies (#[trigger] schemas_after[i]).id
        != id by {
        lemma_filter_members(schemas_before, other_than(id), schemas_after[i]);
        assert(schemas_after.contains(schemas_after[i]));
    }
    assert forall|i: int| 0 <= i < logs_after.len() implies (#[trigger] logs_after[i]).schema_id
        != id by {
        lemma_filter_members(logs_before, not_of_schema(id), logs_after[i]);
        assert(logs_after.contains(logs_after[i]));
    }
    match found {
        Some(l) => {
            lemma_filter_members(logs_before, not_of_schema(id), l@);
            let a = choose|a: int| 0 <= a < logs_before.len() && logs_before[a] == l@;
            let b = choose|b: int| 0 <= b < logs_before.len() && logs_before[b] == log;
            if a < b {
                assert(logs_before[a].id != logs_before[b].id);
            }
            if b < a {
                assert(logs_before[b].id != logs_before[a].id);
            }
        },
        None => {},
    }
}

/// A log that was removed is not found afterwards, and removing it once
/// more finds nothing to remove and changes nothing.
pub proof fn lemma_removed_log_is_gone(
    before: Seq<LogView>,
    reliable: bool,
    after: Seq<LogView>,
    id: i32,
    served: AppResult<bool>,
    found: Option<Log>,
    after_again: Seq<LogView>,
    again: AppResult<bool>,
)
    requires
        log_removal(before, reliable, after, id, served),
        served is Ok,
        log_found_in(after, id, found),
        log_removal(after, reliable, after_again, id, again),
        again is Ok,
    ensures
        !has_log(after, id),
        found is None,
        answers(again, false),
        after_again == after,
{
    assert forall|i: int| 0 <= i < after.len() implies (#[trigger] after[i]).id != id by {
        lemma_filter_members(before, other_log_than(id), after[i]);
        assert(after.contains(after[i]));
    }
    match found {
        Some(l) => {
            let i = choose|i: int| 0 <= i < after.len() && after[i] == l@;
            assert(after[i].id == id);
        },
        None => {},
    }
    crate::seqs::lemma_filter_keeps_all(after, other_log_than(id));
}

/// An ingestion issues identifiers only above the mark.
pub proof fn lemma_ingestion_issues_above(
    before: Seq<LogView>,
    mark: int,
    after: Seq<LogView>,
    mark_after: int,
    r: AppResult<Log>,
)
    requires
        issued(mark, mark_after, r),
        match r {
            Ok(stored) => log_put_in(before, after, stored@),
            Err(_) => after == before,
        },
    ensures
        issues_above(before, mark, after, mark_after),
{
    match r {
        Ok(stored) => {
            let k = choose|k: int|
                0 <= k <= before.len() && after == #[trigger] before.insert(k, stored@);
            assert forall|i: int| 0 <= i < after.len() && (#[trigger] after[i]).id <= mark implies before.contains(
                after[i],
            ) by {
                if i < k {
                    assert(before[i] == after[i]);
                } else if i > k {
                    assert(before[i - 1] == after[i]);
                }
            }
        },
        Err(_) => {
            assert forall|i: int| 0 <= i < after.len() implies before.contains(
                #[trigger] after[i],
            ) by {
                assert(before[i] == after[i]);
            }
        },
    }
}

/// A removal, of one log or of the logs of a schema, issues nothing.
pub proof fn lemma_removal_issues_nothing(
    before: Seq<LogView>,
    mark: int,
    kept: spec_fn(LogView) -> bool,
)
    ensures
        issues_above(before, mark, before.filter(kept), mark),
{
    let after = before.filter(kept);
    assert forall|i: int| 0 <= i < after.len() implies before.contains(#[trigger] after[i]) by {
        lemma_filter_members(before, kept, after[i]);
        assert(after.contains(after[i]));
    }
}

/// A log that is gone stays gone: once no row has an identifier that was
/// issued, no later ingestion or removal brings a row with it.
pub proof fn lemma_gone_stays_gone(
    before: Seq<LogView>,
    mark: int,
    after: Seq<LogView>,
    mark_after: int,
    id: i32,
)
    requires
        id <= mark,
        !has_log(before, id),
        issues_above(before, mark, after, mark_after),
    ensures
        id <= mark_after,
        !has_log(after, id),
{
    if has_log(after, id) {
        let i = choose|i: int| 0 <= i < after.len() && (#[trigger] after[i]).id == id;
        assert(before.contains(after[i]));
        let j = choose|j: int| 0 <= j < before.len() && before[j] == after[i];
        assert(before[j].id == id);
    }
}

/// The queue of a subscriber after a run of published events.
pub open spec fn pending_after(s: SubscriberView, events: Seq<LogEventView>, limit: nat) -> SubscriberView
    decreases events.len(),
{
    if events.len() == 0 {
        s
    } else {
        after_publish(pending_after(s, events.drop_last(), limit), events.last(), limit)
    }
}

/// The filter that keeps the events that a schema filter lets through.
pub open spec fn wanted(filter: Option<u128>) -> spec_fn(LogEventView) -> bool {
    |e: LogEventView| filter_admits(filter, e.schema_id())
}

/// An active subscriber gets every published event whose schema its filter
/// names, and no other; without a filter it gets every event.  As long as
/// its queue has room, the events wait in the order in which they were
/// published.
pub proof fn lemma_subscriber_gets_what_it_asked_for(
    s: SubscriberView,
    events: Seq<LogEventView>,
    limit: nat,
)
    requires
        s.state is Active,
        s.pending.len() + events.filter(wanted(s.filter)).len() <= limit,
    ensures
        pending_after(s, events, limit).pending == s.pending + events.filter(wanted(s.filter)),
        pending_after(s, events, limit).missed == s.missed,
        pending_after(s, events, limit).state is Active,
        pending_after(s, events, limit).filter == s.filter,
        forall|i: int|
            0 <= i < events.filter(wanted(s.filter)).len() ==> filter_admits(
                s.filter,
                (#[trigger] events.filter(wanted(s.filter))[i]).schema_id(),
            ),
        s.filter is None ==> events.filter(wanted(s.filter)) == events,
    decreases events.len(),
{
    reveal(Seq::filter);
    let keep = wanted(s.filter);
    if events.len() > 0 {
        let front = events.drop_last();
        lemma_subscriber_gets_what_it_asked_for(s, front, limit);
        let mid = pending_after(s, front, limit);
        if keep(events.last()) {
            assert(events.filter(keep) == front.filter(keep).push(events.last()));
            assert(mid.pending.len() < limit);
            assert(mid.pending.push(events.last()) =~= s.pending + events.filter(keep));
        } else {
            assert(events.filter(keep) == front.filter(keep));
        }
        if s.filter is None {
            assert(front.push(events.last()) =~= events);
        }
        assert forall|i: int| 0 <= i < events.filter(keep).len() implies filter_admits(
            s.filter,
            (#[trigger] events.filter(keep)[i]).schema_id(),
        ) by {
            if i < front.filter(keep).len() {
                assert(events.filter(keep)[i] == front.filter(keep)[i]);
            }
        }
    } else {
        assert(s.pending + events.filter(keep) =~= s.pending);
    }
}

/// One published event reaches an active subscriber exactly when its
/// filter lets it through: then it is the newest pending event, and else
/// the subscriber is as before.  A subscriber that is not active gets
/// nothing.
pub proof fn lemma_one_event(s: SubscriberView, e: LogEventView, limit: nat)
    requires
        limit >= 1,
    ensures
        receives(s, e) ==> after_publish(s, e, limit).pending.len() > 0 && after_publish(
            s,
            e,
            limit,
        ).pending.last() == e,
        !receives(s, e) ==> after_publish(s, e, limit) == s,
        s.state is Active && s.filter is None ==> receives(s, e),
        s.state is Active && s.filter == Some(e.schema_id()) ==> receives(s, e),
        s.filter matches Some(f) && f != e.schema_id() ==> !receives(s, e),
        after_publish(s, e, limit).pending.len() <= if s.pending.len() <= limit {
            limit
        } else {
            s.pending.len()
        },
{
}

/// Publishing changes queues only: every subscriber stays registered, in
/// its state and with its filter, and the registry keeps its rules.
pub proof fn lemma_publishing_changes_queues_only(
    subscribers: Seq<SubscriberView>,
    e: LogEventView,
    limit: nat,
    next: u64,
)
    requires
        registry_ok(subscribers, limit, next),
    ensures
        registry_ok(all_after_publish(subscribers, e, limit), limit, next),
        all_after_publish(subscribers, e, limit).len() == subscribers.len(),
        forall|i: int|
            0 <= i < subscribers.len() ==> {
                let after = #[trigger] all_after_publish(subscribers, e, limit)[i];
                &&& after.id == subscribers[i].id
                &&& after.filter == subscribers[i].filter
                &&& after.state == subscribers[i].state
            },
{
    let after = all_after_publish(subscribers, e, limit);
    assert forall|a: int, b: int| 0 <= a < b < after.len() implies (#[trigger] after[a]).id != (
    #[trigger] after[b]).id by {
        assert(subscribers[a].id != subscribers[b].id);
    }
    assert forall|a: int| 0 <= a < after.len() implies {
        &&& (#[trigger] after[a]).id < next
        &&& after[a].pending.len() <= limit
        &&& !(after[a].state is Closed)
        &&& (!(after[a].state is Active) ==> after[a].pending.len() == 0)
    } by {
        assert(subscribers[a].id < next);
    }
}

/// A subscriber that a signal closes leaves the registry, and the others
/// stay as they were: nothing is left of a closed connection.
pub proof fn lemma_closed_subscriber_is_released(
    subscribers: Seq<SubscriberView>,
    limit: nat,
    next: u64,
    id: u64,
    signal: SessionSignal,
)
    requires
        registry_ok(subscribers, limit, next),
        session_next(state_in(subscribers, id), signal).0 is Closed,
    ensures
        !registered(after_signal(subscribers, id, signal), id),
        forall|i: int|
            0 <= i < subscribers.len() && (#[trigger] subscribers[i]).id != id ==> after_signal(
                subscribers,
                id,
                signal,
            ).contains(subscribers[i]),
{
    let mapped = subscribers.map_values(moving(id, signal));
    let after = after_signal(subscribers, id, signal);
    if registered(after, id) {
        let a = choose|a: int| 0 <= a < after.len() && (#[trigger] after[a]).id == id;
        lemma_filter_members(mapped, open_ones(), after[a]);
        assert(after.contains(after[a]));
        let m = choose|m: int| 0 <= m < mapped.len() && mapped[m] == after[a];
        assert(subscribers[m].id == id);
        let k = choose|k: int| 0 <= k < subscribers.len() && (#[trigger] subscribers[k]).id == id;
        if k < m {
            assert(subscribers[k].id != subscribers[m].id);
        }
        if m < k {
            assert(subscribers[m].id != subscribers[k].id);
        }
        assert(mapped[m].state is Closed);
    }
    assert forall|i: int| 0 <= i < subscribers.len() && (#[trigger] subscribers[i]).id
        != id implies after.contains(subscribers[i]) by {
        assert(mapped[i] == subscribers[i]);
        assert(mapped.contains(subscribers[i]));
        lemma_filter_members(mapped, open_ones(), subscribers[i]);
    }
}

/// Closing is final and happens once: a closed subscriber stays closed
/// whatever follows, a closing one never becomes active again, and from
/// any state a signal that ends the connection, followed by the stop of
/// both paths, leaves the subscriber closed.
pub proof fn lemma_sessions_end_closed(
    state: SessionState,
    signal: SessionSignal,
    rest: Seq<SessionSignal>,
)
    ensures
        session_run(SessionState::Closed, rest) is Closed,
        !(session_run(SessionState::Closing, rest) is Active),
        !(session_run(SessionState::Closing, rest) is Connecting),
        ends(signal) ==> session_next(
            session_next(state, signal).0,
            SessionSignal::HalvesStopped,
        ).0 is Closed,
        session_next(state, signal).1 is Release <==> !(state is Closed) && session_next(
            state,
            signal,
        ).0 is Closed,
    decreases rest.len(),
{
    if rest.len() > 0 {
        lemma_sessions_end_closed(state, signal, rest.drop_last());
    }
}

} // verus!
