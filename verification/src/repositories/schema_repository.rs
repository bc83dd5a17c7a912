//! The schema store: its contract over the rows it holds, and a store in
//! memory that meets the contract.

use crate::error::{fails_with, AppError, AppResult, ErrorKind};
use crate::json::clone_value;
use crate::models::{clone_option_text, option_text, schema_views, Schema, SchemaView};
use crate::seqs::{
    lemma_filter_picks, lemma_filter_removes_one, lemma_insert_keeps_paired,
    lemma_remove_keeps_paired, paired, picks,
};
use crate::text::same_text;
use vstd::prelude::*;
use vstd::string::*;

verus! {

/// The optional exact-match filters of a schema listing.
#[derive(Debug)]
pub struct SchemaQueryParams {
    pub name: Option<String>,
    pub version: Option<String>,
}

impl Default for SchemaQueryParams {
    fn default() -> (r: SchemaQueryParams)
        ensures
            r.name is None,
            r.version is None,
    {
        SchemaQueryParams { name: None, version: None }
    }
}

/// The listing that a pair of filters asks for.
#[derive(Debug)]
pub enum SchemaQuery {
    /// Every schema.
    All,
    /// The schemas with this name.
    ByName(String),
    /// The schemas with this version.
    ByVersion(String),
    /// The schemas with this name and this version.
    ByNameAndVersion(String, String),
}

/// Whether a schema passes the filters: each filter that is set must match
/// exactly.
pub open spec fn passes(name: Option<Seq<char>>, version: Option<Seq<char>>, s: SchemaView) -> bool {
    &&& (name matches Some(n) ==> s.name == n)
    &&& (version matches Some(v) ==> s.version == v)
}

/// The filter that a listing applies to the rows.
pub open spec fn selected(name: Option<Seq<char>>, version: Option<Seq<char>>) -> spec_fn(
    SchemaView,
) -> bool {
    |s: SchemaView| passes(name, version, s)
}

/// The name filter of optional parameters.
pub open spec fn name_filter(params: Option<SchemaQueryParams>) -> Option<Seq<char>> {
    match params {
        Some(p) => option_text(p.name),
        None => None,
    }
}

/// The version filter of optional parameters.
pub open spec fn version_filter(params: Option<SchemaQueryParams>) -> Option<Seq<char>> {
    match params {
        Some(p) => option_text(p.version),
        None => None,
    }
}

impl SchemaQuery {
    /// The name that the listing asks for, if any.
    pub open spec fn name(self) -> Option<Seq<char>> {
        match self {
            SchemaQuery::ByName(n) => Some(n@),
            SchemaQuery::ByNameAndVersion(n, _) => Some(n@),
            _ => None,
        }
    }

    /// The version that the listing asks for, if any.
    pub open spec fn version(self) -> Option<Seq<char>> {
        match self {
            SchemaQuery::ByVersion(v) => Some(v@),
            SchemaQuery::ByNameAndVersion(_, v) => Some(v@),
            _ => None,
        }
    }

    /// Whether the listing includes `schema`.
    pub fn admits(&self, schema: &Schema) -> (r: bool)
        ensures
            r == passes(self.name(), self.version(), schema@),
    {
        match self {
            SchemaQuery::All => true,
            SchemaQuery::ByName(n) => same_text(schema.name.as_str(), n.as_str()),
            SchemaQuery::ByVersion(v) => same_text(schema.version.as_str(), v.as_str()),
            SchemaQuery::ByNameAndVersion(n, v) => same_text(schema.name.as_str(), n.as_str())
                && same_text(schema.version.as_str(), v.as_str()),
        }
    }
}

/// Chooses the listing for the given filters: none, name only, version
/// only, or both, each a query of its own.
pub fn select_query(params: Option<SchemaQueryParams>) -> (r: SchemaQuery)
    ensures
        r.name() == name_filter(params),
        r.version() == version_filter(params),
        r is All <==> name_filter(params) is None && version_filter(params) is None,
        r is ByName <==> name_filter(params) is Some && version_filter(params) is None,
        r is ByVersion <==> name_filter(params) is None && version_filter(params) is Some,
        r is ByNameAndVersion <==> name_filter(params) is Some && version_filter(params) is Some,
{
    let query_params = match params {
        Some(p) => p,
        None => SchemaQueryParams::default(),
    };
    match (query_params.name, query_params.version) {
        (Some(name), Some(version)) => SchemaQuery::ByNameAndVersion(name, version),
        (Some(name), None) => SchemaQuery::ByName(name),
        (None, Some(version)) => SchemaQuery::ByVersion(version),
        (None, None) => SchemaQuery::All,
    }
}

/// Whether a row has this identifier.
pub open spec fn has_id(rows: Seq<SchemaView>, id: u128) -> bool {
    exists|i: int| 0 <= i < rows.len() && (#[trigger] rows[i]).id == id
}

/// Whether a row has this name and this version.
pub open spec fn has_name_version(rows: Seq<SchemaView>, name: Seq<char>, version: Seq<char>) -> bool {
    exists|i: int|
        0 <= i < rows.len() && (#[trigger] rows[i]).name == name && rows[i].version == version
}

/// Whether a row other than the one identified by `id` has this name and
/// this version.
pub open spec fn clashes(rows: Seq<SchemaView>, id: u128, name: Seq<char>, version: Seq<char>) -> bool {
    exists|i: int|
        0 <= i < rows.len() && (#[trigger] rows[i]).id != id && rows[i].name == name
            && rows[i].version == version
}

/// Whether the row identified by `id` has this name and this version.
pub open spec fn owns(rows: Seq<SchemaView>, id: u128, name: Seq<char>, version: Seq<char>) -> bool {
    exists|i: int|
        0 <= i < rows.len() && (#[trigger] rows[i]).id == id && rows[i].name == name
            && rows[i].version == version
}

/// Whether a new row would break a uniqueness rule: its identifier or its
/// name and version are in use.
pub open spec fn taken(rows: Seq<SchemaView>, s: SchemaView) -> bool {
    has_id(rows, s.id) || has_name_version(rows, s.name, s.version)
}

/// Whether the rows are listed by creation instant, the latest first.
pub open spec fn newest_first(rows: Seq<SchemaView>) -> bool {
    forall|i: int, j: int|
        0 <= i < j < rows.len() ==> (#[trigger] rows[i]).created_at >= (#[trigger] rows[j]).created_at
}

/// Whether `after` is `before` with `row` put in at some place.
pub open spec fn put_in(before: Seq<SchemaView>, after: Seq<SchemaView>, row: SchemaView) -> bool {
    exists|k: int| 0 <= k <= before.len() && after == #[trigger] before.insert(k, row)
}

/// The row that replaces `row` in an update: identifier and creation
/// instant stay, everything else comes from `s`.
pub open spec fn revised(row: SchemaView, s: SchemaView) -> SchemaView {
    SchemaView {
        id: row.id,
        name: s.name,
        version: s.version,
        description: s.description,
        schema_definition: s.schema_definition,
        created_at: row.created_at,
        updated_at: s.updated_at,
    }
}

/// Whether `after` is `before` with the row identified by `id` replaced by
/// `stored`, which is that row revised by `s`.
pub open spec fn replaced(
    before: Seq<SchemaView>,
    after: Seq<SchemaView>,
    id: u128,
    s: SchemaView,
    stored: SchemaView,
) -> bool {
    exists|i: int|
        0 <= i < before.len() && (#[trigger] before[i]).id == id && stored == revised(before[i], s)
            && after == before.update(i, stored)
}

/// The filter that keeps every row but those identified by `id`.
pub open spec fn other_than(id: u128) -> spec_fn(SchemaView) -> bool {
    |s: SchemaView| s.id != id
}

/// How a store reports a broken uniqueness rule.
pub open spec fn duplicate_notice() -> (ErrorKind, Seq<char>) {
    (ErrorKind::Conflict, "A resource with these attributes already exists"@)
}

/// What a lookup may return: a row that meets the condition, or nothing
/// where no row meets it.
pub open spec fn found_in(
    rows: Seq<SchemaView>,
    wanted: spec_fn(SchemaView) -> bool,
    found: Option<Schema>,
) -> bool {
    match found {
        Some(s) => rows.contains(s@) && wanted(s@),
        None => forall|i: int| 0 <= i < rows.len() ==> !wanted(#[trigger] rows[i]),
    }
}

/// The condition of a lookup by identifier.
pub open spec fn with_id(id: u128) -> spec_fn(SchemaView) -> bool {
    |s: SchemaView| s.id == id
}

/// The condition of a lookup by name and version.
pub open spec fn with_name_version(name: Seq<char>, version: Seq<char>) -> spec_fn(SchemaView) -> bool {
    |s: SchemaView| s.name == name && s.version == version
}

/// Durable storage of schemas.  `rows` is what the store holds, in listing
/// order.  A store that is `reliable` answers every request; any other may
/// fail at any time, and then leaves its rows as they were.
pub trait SchemaRepositoryTrait {
    /// What the store holds, in listing order.  A store outside this
    /// library holds what nobody here can tell.
    open spec fn rows(&self) -> Seq<SchemaView> {
        arbitrary()
    }

    /// Whether the store answers every request.  A store outside this
    /// library may fail.
    open spec fn reliable(&self) -> bool {
        false
    }

    /// Lists the rows that pass the filters, latest first.
    fn get_all(&self, params: Option<SchemaQueryParams>) -> (r: AppResult<Vec<Schema>>)
        ensures
            self.reliable() ==> r is Ok,
            r matches Ok(found) ==> schema_views(found@) == self.rows().filter(
                selected(name_filter(params), version_filter(params)),
            ) && newest_first(schema_views(found@)),
    ;

    /// Looks a row up by its identifier.
    fn get_by_id(&self, id: u128) -> (r: AppResult<Option<Schema>>)
        ensures
            self.reliable() ==> r is Ok,
            r matches Ok(found) ==> found_in(self.rows(), with_id(id), found),
    ;

    /// Looks a row up by its name and version.
    fn get_by_name_and_version(&self, name: &str, version: &str) -> (r: AppResult<Option<Schema>>)
        ensures
            self.reliable() ==> r is Ok,
            r matches Ok(found) ==> found_in(
                self.rows(),
                with_name_version(name@, version@),
                found,
            ),
    ;

    /// Stores a new row and returns it.  A row whose identifier, or whose
    /// name and version, are in use is never stored.
    fn create(&mut self, schema: &Schema) -> (r: AppResult<Schema>)
        ensures
            final(self).reliable() == old(self).reliable(),
            match r {
                Ok(stored) => stored@ == schema@ && !taken(old(self).rows(), schema@) && put_in(
                    old(self).rows(),
                    final(self).rows(),
                    schema@,
                ),
                Err(e) => final(self).rows() == old(self).rows(),
            },
            old(self).reliable() && !taken(old(self).rows(), schema@) ==> r is Ok,
            old(self).reliable() && taken(old(self).rows(), schema@) ==> fails_with(
                r,
                duplicate_notice(),
            ),
    ;

    /// Replaces name, version, description, definition and update instant
    /// of the row identified by `id`, and returns the new row; nothing
    /// where there is no such row.  The name and version of another row
    /// are never taken over.
    fn update(&mut self, id: u128, schema: &Schema) -> (r: AppResult<Option<Schema>>)
        ensures
            final(self).reliable() == old(self).reliable(),
            match r {
                Ok(Some(stored)) => !clashes(
                    old(self).rows(),
                    id,
                    schema@.name,
                    schema@.version,
                ) && replaced(old(self).rows(), final(self).rows(), id, schema@, stored@),
                Ok(None) => !has_id(old(self).rows(), id)
                    && final(self).rows() == old(self).rows(),
                Err(e) => final(self).rows() == old(self).rows(),
            },
            old(self).reliable() && !has_id(old(self).rows(), id) ==> r matches Ok(None),
            old(self).reliable() && has_id(old(self).rows(), id) && !clashes(
                old(self).rows(),
                id,
                schema@.name,
                schema@.version,
            ) ==> r matches Ok(Some(_)),
            old(self).reliable() && has_id(old(self).rows(), id) && clashes(
                old(self).rows(),
                id,
                schema@.name,
                schema@.version,
            ) ==> fails_with(r, duplicate_notice()),
    ;

    /// Removes the row identified by `id`, and says whether there was one.
    fn delete(&mut self, id: u128) -> (r: AppResult<bool>)
        ensures
            final(self).reliable() == old(self).reliable(),
            match r {
                Ok(removed) => removed == has_id(old(self).rows(), id) && final(self).rows()
                    == old(self).rows().filter(other_than(id)),
                Err(e) => final(self).rows() == old(self).rows(),
            },
            old(self).reliable() ==> r is Ok,
    ;
}

/// Whether no two rows share an identifier.
pub open spec fn distinct_ids(rows: Seq<SchemaView>) -> bool {
    forall|i: int, j: int|
        0 <= i < j < rows.len() ==> (#[trigger] rows[i]).id != (#[trigger] rows[j]).id
}

/// Whether no two rows share both name and version.
pub open spec fn distinct_names(rows: Seq<SchemaView>) -> bool {
    forall|i: int, j: int|
        0 <= i < j < rows.len() ==> !((#[trigger] rows[i]).name == (#[trigger] rows[j]).name
            && rows[i].version == rows[j].version)
}

/// The rules that the rows of a schema store keep: identifiers are unique,
/// pairs of name and version are unique, and the latest row comes first.
pub open spec fn table_ok(rows: Seq<SchemaView>) -> bool {
    distinct_ids(rows) && distinct_names(rows) && newest_first(rows)
}

/// How two rows stand to each other where the earlier comes first in a
/// table that keeps its rules.
pub open spec fn apart() -> spec_fn(SchemaView, SchemaView) -> bool {
    |p: SchemaView, q: SchemaView|
        p.id != q.id && !(p.name == q.name && p.version == q.version) && p.created_at
            >= q.created_at
}

/// A table keeps its rules exactly when each earlier row stands apart
/// from each later one.
pub proof fn lemma_table_ok_is_paired(rows: Seq<SchemaView>)
    ensures
        table_ok(rows) <==> paired(rows, apart()),
{
    if table_ok(rows) {
        assert forall|a: int, b: int| 0 <= a < b < rows.len() implies #[trigger] apart()(
            rows[a],
            rows[b],
        ) by {
            assert(rows[a].id != rows[b].id);
            assert(rows[a].created_at >= rows[b].created_at);
        }
    }
    if paired(rows, apart()) {
        assert forall|a: int, b: int| 0 <= a < b < rows.len() implies (#[trigger] rows[a]).id != (
        #[trigger] rows[b]).id && !(rows[a].name == rows[b].name && rows[a].version
            == rows[b].version) && rows[a].created_at >= rows[b].created_at by {
            assert(apart()(rows[a], rows[b]));
        }
    }
}

/// Rows picked in order from rows that keep the rules keep them too.
pub proof fn lemma_picked_rows_ok(sub: Seq<SchemaView>, full: Seq<SchemaView>, at: Seq<int>)
    requires
        table_ok(full),
        picks(sub, full, at),
    ensures
        table_ok(sub),
{
    assert forall|i: int, j: int| 0 <= i < j < sub.len() implies (#[trigger] sub[i]).id != (
    #[trigger] sub[j]).id && !(sub[i].name == sub[j].name && sub[i].version == sub[j].version)
        && sub[i].created_at >= sub[j].created_at by {
        assert(at[i] < at[j]);
        assert(sub[i] == full[at[i]]);
        assert(sub[j] == full[at[j]]);
    }
}

/// A schema store in memory.  It answers every request.
pub struct MemorySchemaRepository {
    rows: Vec<Schema>,
}

impl MemorySchemaRepository {
    #[verifier::type_invariant]
    closed spec fn inv(&self) -> bool {
        table_ok(schema_views(self.rows@))
    }

    /// A store without rows.
    pub fn new() -> (r: MemorySchemaRepository)
        ensures
            r.rows() == Seq::<SchemaView>::empty(),
            r.reliable(),
            table_ok(r.rows()),
    {
        let r = MemorySchemaRepository { rows: Vec::new() };
        assert(schema_views(r.rows@) =~= Seq::<SchemaView>::empty());
        r
    }
}

fn duplicate_error() -> (e: AppError)
    ensures
        e@ == duplicate_notice(),
{
    AppError::Conflict(String::from_str("A resource with these attributes already exists"))
}

impl SchemaRepositoryTrait for MemorySchemaRepository {
    closed spec fn rows(&self) -> Seq<SchemaView> {
        schema_views(self.rows@)
    }

    open spec fn reliable(&self) -> bool {
        true
    }

    fn get_all(&self, params: Option<SchemaQueryParams>) -> (r: AppResult<Vec<Schema>>)
        ensures
            table_ok(self.rows()),
    {
        proof {
            use_type_invariant(self);
        }
        let ghost wanted = selected(name_filter(params), version_filter(params));
        let ghost all = schema_views(self.rows@);
        let query = select_query(params);
        let mut out: Vec<Schema> = Vec::new();
        let mut i: usize = 0;
        while i < self.rows.len()
            invariant
                table_ok(schema_views(self.rows@)),
                i <= self.rows.len(),
                all == schema_views(self.rows@),
                wanted == selected(query.name(), query.version()),
                schema_views(out@) == all.take(i as int).filter(wanted),
            decreases self.rows.len() - i,
        {
            let ghost before = schema_views(out@);
            if query.admits(&self.rows[i]) {
                out.push(self.rows[i].clone());
            }
            proof {
                reveal(Seq::filter);
                let t = all.take(i + 1);
                assert(t.drop_last() =~= all.take(i as int));
                assert(t.last() == self.rows@[i as int]@);
                assert(wanted(t.last()) == passes(query.name(), query.version(), t.last()));
                if wanted(t.last()) {
                    assert(schema_views(out@) =~= before.push(t.last()));
                } else {
                    assert(schema_views(out@) =~= before);
                }
            }
            i += 1;
        }
        proof {
            assert(all.take(self.rows.len() as int) =~= all);
            let at = lemma_filter_picks(all, wanted);
            lemma_picked_rows_ok(all.filter(wanted), all, at);
        }
        Ok(out)
    }

    fn get_by_id(&self, id: u128) -> (r: AppResult<Option<Schema>>)
        ensures
            table_ok(self.rows()),
    {
        proof {
            use_type_invariant(self);
        }
        let mut i: usize = 0;
        while i < self.rows.len()
            invariant
                table_ok(schema_views(self.rows@)),
                i <= self.rows.len(),
                forall|j: int| 0 <= j < i ==> (#[trigger] schema_views(self.rows@)[j]).id != id,
            decreases self.rows.len() - i,
        {
            if self.rows[i].id == id {
                let found = self.rows[i].clone();
                assert(schema_views(self.rows@)[i as int] == found@);
                return Ok(Some(found));
            }
            i += 1;
        }
        Ok(None)
    }

    fn get_by_name_and_version(&self, name: &str, version: &str) -> (r: AppResult<Option<Schema>>)
        ensures
            table_ok(self.rows()),
    {
        proof {
            use_type_invariant(self);
        }
        let mut i: usize = 0;
        while i < self.rows.len()
            invariant
                table_ok(schema_views(self.rows@)),
                i <= self.rows.len(),
                forall|j: int|
                    0 <= j < i ==> !((#[trigger] schema_views(self.rows@)[j]).name == name@
                        && schema_views(self.rows@)[j].version == version@),
            decreases self.rows.len() - i,
        {
            if same_text(self.rows[i].name.as_str(), name) && same_text(
                self.rows[i].version.as_str(),
                version,
            ) {
                let found = self.rows[i].clone();
                assert(schema_views(self.rows@)[i as int] == found@);
                return Ok(Some(found));
            }
            i += 1;
        }
        Ok(None)
    }

    fn create(&mut self, schema: &Schema) -> (r: AppResult<Schema>)
        ensures
            table_ok(final(self).rows()),
    {
        proof {
            use_type_invariant(&*self);
        }
        let ghost before = schema_views(self.rows@);
        let n = self.rows.len();
        let mut i: usize = 0;
        while i < n
            invariant
                table_ok(schema_views(self.rows@)),
                i <= n,
                n == self.rows.len(),
                before == schema_views(self.rows@),
                forall|j: int|
                    0 <= j < i ==> (#[trigger] before[j]).id != schema.id && !(before[j].name
                        == schema@.name && before[j].version == schema@.version),
            decreases n - i,
        {
            if self.rows[i].id == schema.id || (same_text(
                self.rows[i].name.as_str(),
                schema.name.as_str(),
            ) && same_text(self.rows[i].version.as_str(), schema.version.as_str())) {
                assert(before[i as int] == self.rows@[i as int]@);
                assert(taken(before, schema@));
                return Err(duplicate_error());
            }
            i += 1;
        }
        assert(!taken(before, schema@));
        let mut place: usize = 0;
        while place < n && self.rows[place].created_at > schema.created_at
            invariant
                table_ok(schema_views(self.rows@)),
                place <= n,
                n == self.rows.len(),
                before == schema_views(self.rows@),
                forall|j: int| 0 <= j < place ==> (#[trigger] before[j]).created_at > schema.created_at,
            decreases n - place,
        {
            place += 1;
        }
        let stored = schema.clone();
        proof {
            let after = before.insert(place as int, schema@);
            assert(schema_views(self.rows@.insert(place as int, stored)) =~= after);
            lemma_table_ok_is_paired(before);
            assert forall|b: int| place <= b < before.len() implies #[trigger] apart()(
                schema@,
                before[b],
            ) by {
                if b > place {
                    assert(before[place as int].created_at >= before[b].created_at);
                }
            }
            lemma_insert_keeps_paired(before, place as int, schema@, apart());
            lemma_table_ok_is_paired(after);
        }
        let mut rows: Vec<Schema> = Vec::new();
        core::mem::swap(&mut self.rows, &mut rows);
        rows.insert(place, stored);
        self.rows = rows;
        Ok(schema.clone())
    }

    fn update(&mut self, id: u128, schema: &Schema) -> (r: AppResult<Option<Schema>>)
        ensures
            table_ok(final(self).rows()),
    {
        proof {
            use_type_invariant(&*self);
        }
        let ghost before = schema_views(self.rows@);
        let n = self.rows.len();
        let mut at: usize = 0;
        while at < n && self.rows[at].id != id
            invariant
                table_ok(schema_views(self.rows@)),
                at <= n,
                n == self.rows.len(),
                before == schema_views(self.rows@),
                forall|j: int| 0 <= j < at ==> (#[trigger] before[j]).id != id,
            decreases n - at,
        {
            at += 1;
        }
        if at == n {
            return Ok(None);
        }
        assert(before[at as int].id == id);
        let mut i: usize = 0;
        while i < n
            invariant
                table_ok(schema_views(self.rows@)),
                i <= n,
                at < n,
                n == self.rows.len(),
                before == schema_views(self.rows@),
                before[at as int].id == id,
                distinct_ids(before),
                forall|j: int|
                    0 <= j < i && j != at ==> !((#[trigger] before[j]).name == schema@.name
                        && before[j].version == schema@.version),
            decreases n - i,
        {
            if i != at && same_text(self.rows[i].name.as_str(), schema.name.as_str()) && same_text(
                self.rows[i].version.as_str(),
                schema.version.as_str(),
            ) {
                assert(before[i as int].id != id);
                assert(clashes(before, id, schema@.name, schema@.version));
                return Err(duplicate_error());
            }
            i += 1;
        }
        assert(!clashes(before, id, schema@.name, schema@.version)) by {
            assert forall|j: int| 0 <= j < before.len() && (#[trigger] before[j]).id != id implies !(
            before[j].name == schema@.name && before[j].version == schema@.version) by {
                assert(j != at);
            }
        }
        let stored = Schema {
            id,
            name: schema.name.clone(),
            version: schema.version.clone(),
            description: clone_option_text(&schema.description),
            schema_definition: clone_value(&schema.schema_definition),
            created_at: self.rows[at].created_at,
            updated_at: schema.updated_at,
        };
        let answer = stored.clone();
        proof {
            let after = before.update(at as int, stored@);
            assert(stored@ == revised(before[at as int], schema@));
            assert(schema_views(self.rows@.update(at as int, stored)) =~= after);
            assert forall|a: int, b: int| 0 <= a < b < after.len() implies (#[trigger] after[a]).id
                != (#[trigger] after[b]).id && !(after[a].name == after[b].name && after[a].version
                == after[b].version) && after[a].created_at >= after[b].created_at by {
                assert(before[a].id != before[b].id);
                assert(before[a].created_at >= before[b].created_at);
            }
            assert(replaced(before, after, id, schema@, answer@));
        }
        let mut rows: Vec<Schema> = Vec::new();
        core::mem::swap(&mut self.rows, &mut rows);
        rows[at] = stored;
        self.rows = rows;
        Ok(Some(answer))
    }

    fn delete(&mut self, id: u128) -> (r: AppResult<bool>)
        ensures
            table_ok(final(self).rows()),
    {
        proof {
            use_type_invariant(&*self);
        }
        let ghost before = schema_views(self.rows@);
        let n = self.rows.len();
        let mut at: usize = 0;
        while at < n && self.rows[at].id != id
            invariant
                table_ok(schema_views(self.rows@)),
                at <= n,
                n == self.rows.len(),
                before == schema_views(self.rows@),
                forall|j: int| 0 <= j < at ==> (#[trigger] before[j]).id != id,
            decreases n - at,
        {
            at += 1;
        }
        if at == n {
            proof {
                crate::seqs::lemma_filter_keeps_all(before, other_than(id));
            }
            return Ok(false);
        }
        proof {
            assert(before[at as int].id == id);
            lemma_filter_removes_one(before, other_than(id), at as int);
            let after = before.remove(at as int);
            assert(schema_views(self.rows@.remove(at as int)) =~= after);
            lemma_table_ok_is_paired(before);
            lemma_remove_keeps_paired(before, at as int, apart());
            lemma_table_ok_is_paired(after);
        }
        let mut rows: Vec<Schema> = Vec::new();
        core::mem::swap(&mut self.rows, &mut rows);
        rows.remove(at);
        self.rows = rows;
        Ok(true)
    }
}

} // verus!
