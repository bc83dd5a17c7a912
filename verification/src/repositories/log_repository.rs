//! The log store: its contract over the rows it holds, and a store in
//! memory that meets the contract.

use crate::error::{AppError, AppResult, ErrorKind};
use crate::filter::{admits, option_model, passes_filter};
use crate::json::JsonModel;
use crate::models::{log_views, Log, LogView};
use crate::seqs::{
    lemma_filter_keeps_all, lemma_filter_picks, lemma_filter_removes_one,
    lemma_insert_keeps_paired, lemma_remove_keeps_paired, paired, picks,
};
use serde_json::Value;
use vstd::prelude::*;
use vstd::string::*;

verus! {

/// Whether a row has this identifier.
pub open spec fn has_log(rows: Seq<LogView>, id: i32) -> bool {
    exists|i: int| 0 <= i < rows.len() && (#[trigger] rows[i]).id == id
}

/// Whether the rows are listed by creation instant, the latest first.
pub open spec fn latest_first(rows: Seq<LogView>) -> bool {
    forall|i: int, j: int|
        0 <= i < j < rows.len() ==> (#[trigger] rows[i]).created_at >= (#[trigger] rows[j]).created_at
}

/// The filter that keeps the logs of one schema.
pub open spec fn of_schema(schema_id: u128) -> spec_fn(LogView) -> bool {
    |l: LogView| l.schema_id == schema_id
}

/// The filter that keeps the logs of every other schema.
pub open spec fn not_of_schema(schema_id: u128) -> spec_fn(LogView) -> bool {
    |l: LogView| l.schema_id != schema_id
}

/// The filter that keeps the logs of one schema that pass the structural
/// filter.
pub open spec fn of_schema_passing(schema_id: u128, filter: Option<JsonModel>) -> spec_fn(
    LogView,
) -> bool {
    |l: LogView| l.schema_id == schema_id && admits(filter, l.log_data)
}

/// The filter that keeps every row but those identified by `id`.
pub open spec fn other_log_than(id: i32) -> spec_fn(LogView) -> bool {
    |l: LogView| l.id != id
}

/// The row that is stored for `log` under the identifier `id`.
pub open spec fn stored_as(log: LogView, id: i32) -> LogView {
    LogView { id, schema_id: log.schema_id, log_data: log.log_data, created_at: log.created_at }
}

/// Whether `after` is `before` with `row` put in at some place.
pub open spec fn log_put_in(before: Seq<LogView>, after: Seq<LogView>, row: LogView) -> bool {
    exists|k: int| 0 <= k <= before.len() && after == #[trigger] before.insert(k, row)
}

/// Whether a change of the rows issues identifiers only above the mark:
/// the mark does not go back, and every row at or below the old mark was
/// there before.
pub open spec fn issues_above(
    before: Seq<LogView>,
    mark: int,
    after: Seq<LogView>,
    mark_after: int,
) -> bool {
    &&& mark <= mark_after
    &&& forall|i: int|
        0 <= i < after.len() && (#[trigger] after[i]).id <= mark ==> before.contains(after[i])
}

/// What a lookup by identifier may return: the row with it, or nothing
/// where no row has it.
pub open spec fn log_found_in(rows: Seq<LogView>, id: i32, found: Option<Log>) -> bool {
    match found {
        Some(l) => rows.contains(l@) && l@.id == id,
        None => !has_log(rows, id),
    }
}

/// Durable storage of logs.  `rows` is what the store holds, in listing
/// order.  A store that is `reliable` answers the next request; any other
/// may fail, and then leaves its rows as they were.
pub trait LogRepositoryTrait {
    /// What the store holds, in listing order.  A store outside this
    /// library holds what nobody here can tell.
    open spec fn rows(&self) -> Seq<LogView> {
        arbitrary()
    }

    /// Whether the store answers every request.  A store outside this
    /// library may fail.
    open spec fn reliable(&self) -> bool {
        false
    }

    /// The mark below which no identifier is issued any more.
    open spec fn last_issued(&self) -> int {
        arbitrary()
    }

    /// Lists the logs of a schema that pass the filter, latest first.
    fn get_by_schema_id(&self, schema_id: u128, filters: Option<Value>) -> (r: AppResult<Vec<Log>>)
        ensures
            self.reliable() ==> r is Ok,
            r matches Ok(found) ==> log_views(found@) == self.rows().filter(
                of_schema_passing(schema_id, option_model(filters)),
            ) && latest_first(log_views(found@)),
    ;

    /// Looks a log up by its identifier.
    fn get_by_id(&self, id: i32) -> (r: AppResult<Option<Log>>)
        ensures
            self.reliable() ==> r is Ok,
            r matches Ok(found) ==> log_found_in(self.rows(), id, found),
    ;

    /// Stores a log under a positive identifier that no row has, and
    /// returns the stored row.
    fn create(&mut self, log: &Log) -> (r: AppResult<Log>)
        ensures
            match r {
                Ok(stored) => {
                    &&& stored@ == stored_as(log@, stored.id)
                    &&& stored.id > 0
                    &&& !has_log(old(self).rows(), stored.id)
                    &&& log_put_in(old(self).rows(), final(self).rows(), stored@)
                    &&& old(self).last_issued() < stored.id <= final(self).last_issued()
                },
                Err(e) => final(self).rows() == old(self).rows(),
            },
            old(self).last_issued() <= final(self).last_issued(),
            old(self).reliable() ==> r is Ok,
    ;

    /// Removes the log identified by `id`, and says whether there was one.
    fn delete(&mut self, id: i32) -> (r: AppResult<bool>)
        ensures
            final(self).reliable() == old(self).reliable(),
            final(self).last_issued() == old(self).last_issued(),
            match r {
                Ok(removed) => removed == has_log(old(self).rows(), id) && final(self).rows()
                    == old(self).rows().filter(other_log_than(id)),
                Err(e) => final(self).rows() == old(self).rows(),
            },
            old(self).reliable() ==> r is Ok,
    ;

    /// Counts the logs of a schema.
    fn count_by_schema_id(&self, schema_id: u128) -> (r: AppResult<i64>)
        ensures
            self.reliable() ==> r is Ok,
            r matches Ok(n) ==> n == self.rows().filter(of_schema(schema_id)).len(),
    ;

    /// Removes every log of a schema, and says how many there were.
    fn delete_by_schema_id(&mut self, schema_id: u128) -> (r: AppResult<i64>)
        ensures
            final(self).reliable() == old(self).reliable(),
            final(self).last_issued() == old(self).last_issued(),
            match r {
                Ok(n) => n == old(self).rows().filter(of_schema(schema_id)).len()
                    && final(self).rows() == old(self).rows().filter(not_of_schema(schema_id)),
                Err(e) => final(self).rows() == old(self).rows(),
            },
            old(self).reliable() ==> r is Ok,
    ;
}

/// Whether no two rows share an identifier.
pub open spec fn distinct_logs(rows: Seq<LogView>) -> bool {
    forall|i: int, j: int|
        0 <= i < j < rows.len() ==> (#[trigger] rows[i]).id != (#[trigger] rows[j]).id
}

/// Whether every identifier is positive and below `next`.
pub open spec fn issued_below(rows: Seq<LogView>, next: i32) -> bool {
    forall|i: int| 0 <= i < rows.len() ==> 0 < (#[trigger] rows[i]).id < next
}

/// The rules that the rows of a log store in memory keep.
pub open spec fn log_table_ok(rows: Seq<LogView>, next: i32) -> bool {
    &&& distinct_logs(rows)
    &&& latest_first(rows)
    &&& issued_below(rows, next)
    &&& rows.len() < next
}

/// How two logs stand to each other where the earlier comes first in a
/// table that keeps its rules.
pub open spec fn in_order() -> spec_fn(LogView, LogView) -> bool {
    |p: LogView, q: LogView| p.id != q.id && p.created_at >= q.created_at
}

/// Identifiers are unique and the latest log comes first exactly when
/// each earlier log stands in order to each later one.
pub proof fn lemma_order_is_paired(rows: Seq<LogView>)
    ensures
        distinct_logs(rows) && latest_first(rows) <==> paired(rows, in_order()),
{
    if distinct_logs(rows) && latest_first(rows) {
        assert forall|a: int, b: int| 0 <= a < b < rows.len() implies #[trigger] in_order()(
            rows[a],
            rows[b],
        ) by {
            assert(rows[a].id != rows[b].id);
            assert(rows[a].created_at >= rows[b].created_at);
        }
    }
    if paired(rows, in_order()) {
        assert forall|a: int, b: int| 0 <= a < b < rows.len() implies (#[trigger] rows[a]).id != (
        #[trigger] rows[b]).id && rows[a].created_at >= rows[b].created_at by {
            assert(in_order()(rows[a], rows[b]));
        }
    }
}

/// Rows picked in order from rows that keep the rules keep them too.
pub proof fn lemma_picked_logs_ok(sub: Seq<LogView>, full: Seq<LogView>, at: Seq<int>, next: i32)
    requires
        log_table_ok(full, next),
        picks(sub, full, at),
    ensures
        log_table_ok(sub, next),
        sub.len() <= full.len(),
{
    assert forall|i: int, j: int| 0 <= i < j < sub.len() implies (#[trigger] sub[i]).id != (
    #[trigger] sub[j]).id && sub[i].created_at >= sub[j].created_at by {
        assert(at[i] < at[j]);
        assert(sub[i] == full[at[i]]);
        assert(sub[j] == full[at[j]]);
    }
    assert forall|i: int| 0 <= i < sub.len() implies 0 < (#[trigger] sub[i]).id < next by {
        assert(sub[i] == full[at[i]]);
    }
    lemma_rising_bound(at, full.len() as int);
}

/// Rising places below a bound are no more than the bound.
pub proof fn lemma_rising_bound(at: Seq<int>, bound: int)
    requires
        forall|j: int| 0 <= j < at.len() ==> 0 <= #[trigger] at[j] < bound,
        forall|j: int, k: int| 0 <= j < k < at.len() ==> #[trigger] at[j] < #[trigger] at[k],
    ensures
        at.len() <= bound || at.len() == 0,
        at.len() > 0 ==> at.len() - 1 <= at.last(),
    decreases at.len(),
{
    if at.len() > 1 {
        let front = at.drop_last();
        assert forall|j: int| 0 <= j < front.len() implies 0 <= #[trigger] front[j] < bound by {
            assert(front[j] == at[j]);
        }
        assert forall|j: int, k: int| 0 <= j < k < front.len() implies #[trigger] front[j]
            < #[trigger] front[k] by {
            assert(front[j] == at[j] && front[k] == at[k]);
        }
        lemma_rising_bound(front, bound);
        assert(front.last() == at[at.len() - 2]);
        assert(at[at.len() - 2] < at[at.len() - 1]);
    }
    if at.len() > 0 {
        assert(0 <= at[at.len() - 1] < bound);
    }
}

/// A log store in memory.  Identifiers are issued in sequence from 1; the
/// store answers every request until they run out.
pub struct MemoryLogRepository {
    rows: Vec<Log>,
    next_id: i32,
}

impl MemoryLogRepository {
    #[verifier::type_invariant]
    closed spec fn inv(&self) -> bool {
        log_table_ok(log_views(self.rows@), self.next_id)
    }

    /// A store without rows.
    pub fn new() -> (r: MemoryLogRepository)
        ensures
            r.rows() == Seq::<LogView>::empty(),
            r.reliable(),
            r.last_issued() == 0,
            log_table_ok(r.rows(), 1),
    {
        let r = MemoryLogRepository { rows: Vec::new(), next_id: 1 };
        assert(log_views(r.rows@) =~= Seq::<LogView>::empty());
        r
    }
}

impl LogRepositoryTrait for MemoryLogRepository {
    closed spec fn rows(&self) -> Seq<LogView> {
        log_views(self.rows@)
    }

    open spec fn reliable(&self) -> bool {
        self.last_issued() < i32::MAX - 1
    }

    closed spec fn last_issued(&self) -> int {
        self.next_id - 1
    }

    fn get_by_schema_id(&self, schema_id: u128, filters: Option<Value>) -> (r: AppResult<Vec<Log>>)
        ensures
            log_table_ok(self.rows(), (self.last_issued() + 1) as i32),
    {
        proof {
            use_type_invariant(self);
        }
        let ghost wanted = of_schema_passing(schema_id, option_model(filters));
        let ghost all = log_views(self.rows@);
        let mut out: Vec<Log> = Vec::new();
        let mut i: usize = 0;
        while i < self.rows.len()
            invariant
                log_table_ok(log_views(self.rows@), self.next_id),
                i <= self.rows.len(),
                all == log_views(self.rows@),
                wanted == of_schema_passing(schema_id, option_model(filters)),
                log_views(out@) == all.take(i as int).filter(wanted),
            decreases self.rows.len() - i,
        {
            let ghost before = log_views(out@);
            if self.rows[i].schema_id == schema_id && passes_filter(&filters, &self.rows[i].log_data) {
                out.push(self.rows[i].clone());
            }
            proof {
                reveal(Seq::filter);
                let t = all.take(i + 1);
                assert(t.drop_last() =~= all.take(i as int));
                assert(t.last() == self.rows@[i as int]@);
                if wanted(t.last()) {
                    assert(log_views(out@) =~= before.push(t.last()));
                } else {
                    assert(log_views(out@) =~= before);
                }
            }
            i += 1;
        }
        proof {
            assert(all.take(self.rows.len() as int) =~= all);
            let at = lemma_filter_picks(all, wanted);
            lemma_picked_logs_ok(all.filter(wanted), all, at, self.next_id);
        }
        Ok(out)
    }

    fn get_by_id(&self, id: i32) -> (r: AppResult<Option<Log>>)
        ensures
            log_table_ok(self.rows(), (self.last_issued() + 1) as i32),
    {
        proof {
            use_type_invariant(self);
        }
        let mut i: usize = 0;
        while i < self.rows.len()
            invariant
                log_table_ok(log_views(self.rows@), self.next_id),
                i <= self.rows.len(),
                forall|j: int| 0 <= j < i ==> (#[trigger] log_views(self.rows@)[j]).id != id,
            decreases self.rows.len() - i,
        {
            if self.rows[i].id == id {
                let found = self.rows[i].clone();
                assert(log_views(self.rows@)[i as int] == found@);
                return Ok(Some(found));
            }
            i += 1;
        }
        Ok(None)
    }

    fn create(&mut self, log: &Log) -> (r: AppResult<Log>)
        ensures
            log_table_ok(final(self).rows(), (final(self).last_issued() + 1) as i32),
            match r {
                Ok(stored) => {
                    &&& final(self).last_issued() == stored.id
                    &&& stored.id == old(self).last_issued() + 1
                },
                Err(e) => final(self).last_issued() == old(self).last_issued() && e@ == (
                    ErrorKind::DatabaseError,
                    "log identifiers are used up"@,
                ),
            },
    {
        proof {
            use_type_invariant(&*self);
        }
        if self.next_id == i32::MAX {
            return Err(AppError::DatabaseError(String::from_str("log identifiers are used up")));
        }
        let ghost before = log_views(self.rows@);
        let id = self.next_id;
        let n = self.rows.len();
        let mut place: usize = 0;
        while place < n && self.rows[place].created_at > log.created_at
            invariant
                log_table_ok(log_views(self.rows@), self.next_id),
                place <= n,
                n == self.rows.len(),
                before == log_views(self.rows@),
                forall|j: int| 0 <= j < place ==> (#[trigger] before[j]).created_at > log.created_at,
            decreases n - place,
        {
            place += 1;
        }
        let stored = Log {
            id,
            schema_id: log.schema_id,
            log_data: crate::json::clone_value(&log.log_data),
            created_at: log.created_at,
        };
        let answer = stored.clone();
        proof {
            let after = before.insert(place as int, stored@);
            assert(log_views(self.rows@.insert(place as int, stored)) =~= after);
            assert(!has_log(before, id));
            lemma_order_is_paired(before);
            assert forall|b: int| place <= b < before.len() implies #[trigger] in_order()(
                stored@,
                before[b],
            ) by {
                if b > place {
                    assert(before[place as int].created_at >= before[b].created_at);
                }
            }
            lemma_insert_keeps_paired(before, place as int, stored@, in_order());
            lemma_order_is_paired(after);
            assert forall|a: int| 0 <= a < after.len() implies 0 < (#[trigger] after[a]).id < id
                + 1 by {
                if a < place {
                    assert(after[a] == before[a]);
                } else if a > place {
                    assert(after[a] == before[a - 1]);
                }
            }
        }
        let mut rows: Vec<Log> = Vec::new();
        core::mem::swap(&mut self.rows, &mut rows);
        rows.insert(place, stored);
        self.next_id = id + 1;
        self.rows = rows;
        Ok(answer)
    }

    fn delete(&mut self, id: i32) -> (r: AppResult<bool>)
        ensures
            log_table_ok(final(self).rows(), (final(self).last_issued() + 1) as i32),
    {
        proof {
            use_type_invariant(&*self);
        }
        let ghost before = log_views(self.rows@);
        let n = self.rows.len();
        let mut at: usize = 0;
        while at < n && self.rows[at].id != id
            invariant
                log_table_ok(log_views(self.rows@), self.next_id),
                at <= n,
                n == self.rows.len(),
                before == log_views(self.rows@),
                forall|j: int| 0 <= j < at ==> (#[trigger] before[j]).id != id,
            decreases n - at,
        {
            at += 1;
        }
        if at == n {
            proof {
                lemma_filter_keeps_all(before, other_log_than(id));
            }
            return Ok(false);
        }
        proof {
            assert(before[at as int].id == id);
            lemma_filter_removes_one(before, other_log_than(id), at as int);
            let after = before.remove(at as int);
            assert(log_views(self.rows@.remove(at as int)) =~= after);
            lemma_order_is_paired(before);
            lemma_remove_keeps_paired(before, at as int, in_order());
            lemma_order_is_paired(after);
            assert forall|a: int| 0 <= a < after.len() implies 0 < (#[trigger] after[a]).id
                < self.next_id by {
                let a0 = if a < at { a } else { a + 1 };
                assert(after[a] == before[a0]);
            }
        }
        let mut rows: Vec<Log> = Vec::new();
        core::mem::swap(&mut self.rows, &mut rows);
        rows.remove(at);
        self.rows = rows;
        Ok(true)
    }

    fn count_by_schema_id(&self, schema_id: u128) -> (r: AppResult<i64>)
        ensures
            log_table_ok(self.rows(), (self.last_issued() + 1) as i32),
    {
        proof {
            use_type_invariant(self);
        }
        let ghost all = log_views(self.rows@);
        let ghost wanted = of_schema(schema_id);
        let mut count: i64 = 0;
        let mut i: usize = 0;
        while i < self.rows.len()
            invariant
                log_table_ok(log_views(self.rows@), self.next_id),
                i <= self.rows.len(),
                self.rows.len() < i32::MAX,
                all == log_views(self.rows@),
                wanted == of_schema(schema_id),
                count == all.take(i as int).filter(wanted).len(),
                count <= i,
            decreases self.rows.len() - i,
        {
            proof {
                reveal(Seq::filter);
                let t = all.take(i + 1);
                assert(t.drop_last() =~= all.take(i as int));
                assert(t.last() == self.rows@[i as int]@);
            }
            if self.rows[i].schema_id == schema_id {
                count += 1;
            }
            i += 1;
        }
        proof {
            assert(all.take(self.rows.len() as int) =~= all);
        }
        Ok(count)
    }

    fn delete_by_schema_id(&mut self, schema_id: u128) -> (r: AppResult<i64>)
        ensures
            log_table_ok(final(self).rows(), (final(self).last_issued() + 1) as i32),
    {
        proof {
            use_type_invariant(&*self);
        }
        let ghost all = log_views(self.rows@);
        let ghost gone = of_schema(schema_id);
        let ghost stay = not_of_schema(schema_id);
        let mut kept: Vec<Log> = Vec::new();
        let mut count: i64 = 0;
        let mut i: usize = 0;
        while i < self.rows.len()
            invariant
                log_table_ok(log_views(self.rows@), self.next_id),
                i <= self.rows.len(),
                self.rows.len() < i32::MAX,
                all == log_views(self.rows@),
                gone == of_schema(schema_id),
                stay == not_of_schema(schema_id),
                count == all.take(i as int).filter(gone).len(),
                count <= i,
                log_views(kept@) == all.take(i as int).filter(stay),
            decreases self.rows.len() - i,
        {
            let ghost before = log_views(kept@);
            proof {
                reveal(Seq::filter);
                let t = all.take(i + 1);
                assert(t.drop_last() =~= all.take(i as int));
                assert(t.last() == self.rows@[i as int]@);
            }
            if self.rows[i].schema_id == schema_id {
                count += 1;
                assert(log_views(kept@) =~= before);
            } else {
                kept.push(self.rows[i].clone());
                assert(log_views(kept@) =~= before.push(self.rows@[i as int]@));
            }
            i += 1;
        }
        proof {
            assert(all.take(self.rows.len() as int) =~= all);
            let at = lemma_filter_picks(all, stay);
            lemma_picked_logs_ok(all.filter(stay), all, at, self.next_id);
        }
        self.rows = kept;
        Ok(count)
    }
}

} // verus!
