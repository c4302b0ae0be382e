//! The table, as the access layer expects the storage engine to keep it.
//!
//! `TableState` states the engine's side of the contract: which stream answers
//! each statement, and what the statement does to the rows. What the data
//! operations promise together is proved here once, for every state of the
//! table.

use vstd::prelude::*;
use vstd::seq_lib::lemma_seq_contains_after_push;
use crate::error::{DbError, Fault};
use crate::schema::SCHEMA_STATEMENTS;
use crate::stream::{complete, payloads, StreamEvent};

verus! {

/// One record of the table.
#[derive(Clone, Copy, Debug, PartialEq, Eq, Structural)]
pub struct Row {
    /// The primary key, assigned by the engine on insert.
    pub id: i64,
    /// The partition key, supplied by the caller.
    pub batch_id: i64,
}

/// Every row has a greater id than the rows before it.
pub open spec fn ascending_ids(rows: Seq<Row>) -> bool {
    forall|i: int, j: int|
        0 <= i < j < rows.len() ==> (#[trigger] rows[i]).id < (#[trigger] rows[j]).id
}

/// The ids of the rows of `rows` that belong to `batch_id`, in the order of the rows.
pub open spec fn ids_in(rows: Seq<Row>, batch_id: i64) -> Seq<i64> {
    rows.filter(|row: Row| row.batch_id == batch_id).map_values(|row: Row| row.id)
}

/// The items that hand out `ids` one by one.
pub open spec fn id_items(ids: Seq<i64>) -> Seq<StreamEvent<i64>> {
    ids.map_values(|id: i64| StreamEvent::Item(id))
}

/// The stream that hands out `ids` one by one and then reports exhaustion.
pub open spec fn id_stream(ids: Seq<i64>) -> Seq<StreamEvent<i64>> {
    id_items(ids).push(StreamEvent::Exhausted)
}

/// The fault with which the engine refuses a statement: an engine error
/// without a code of its own, which stands for `StatementFailed`.
pub open spec fn refusal_fault() -> Fault {
    Fault::Engine { code: None }
}

/// The stream of a statement that the engine refuses: the fault, and then
/// the report of exhaustion.
pub open spec fn refusal<T>() -> Seq<StreamEvent<T>> {
    seq![StreamEvent::Failed(refusal_fault()), StreamEvent::Exhausted]
}

/// The table at one moment: whether the schema exists, and the rows in the
/// order in which they were inserted.
pub struct TableState {
    pub ready: bool,
    pub rows: Seq<Row>,
}

impl TableState {
    /// Ids grow with insertion, so that no id occurs twice and the order of
    /// the rows is the order of their ids; and rows exist only under the schema.
    pub open spec fn wf(self) -> bool {
        &&& ascending_ids(self.rows)
        &&& !self.ready ==> self.rows.len() == 0
    }

    /// A file that was just created: no schema, no rows.
    pub open spec fn blank() -> TableState {
        TableState { ready: false, rows: Seq::empty() }
    }

    /// The table after the schema script: the schema exists, the rows are as before.
    pub open spec fn with_schema(self) -> TableState {
        TableState { ready: true, rows: self.rows }
    }

    /// The id that the next insert is given: one more than the last.
    pub open spec fn next_id(self) -> int {
        if self.rows.len() == 0 {
            1
        } else {
            self.rows.last().id + 1
        }
    }

    /// What an insert returns: the new id, or `StatementFailed` where the
    /// schema is missing or no id above the last is left. Ids are never
    /// reused here, so no unused id below the last is looked for.
    pub open spec fn insert_outcome(self, batch_id: i64) -> Result<i64, DbError> {
        if self.ready && self.next_id() <= i64::MAX {
            Ok(self.next_id() as i64)
        } else {
            Err(DbError::StatementFailed)
        }
    }

    /// The table after an insert: one row more where it succeeds, unchanged where it fails.
    pub open spec fn after_insert(self, batch_id: i64) -> TableState {
        match self.insert_outcome(batch_id) {
            Ok(id) => TableState { ready: self.ready, rows: self.rows.push(Row { id, batch_id }) },
            Err(_) => self,
        }
    }

    /// The table after one insert for each of `batches`, in that order, each
    /// completed before the next begins.
    pub open spec fn insert_all(self, batches: Seq<i64>) -> TableState
        decreases batches.len(),
    {
        if batches.len() == 0 {
            self
        } else {
            self.insert_all(batches.drop_last()).after_insert(batches.last())
        }
    }

    /// The ids that those inserts return, in the order of the inserts; one
    /// that fails returns none.
    pub open spec fn returned_ids(self, batches: Seq<i64>) -> Seq<i64>
        decreases batches.len(),
    {
        if batches.len() == 0 {
            Seq::empty()
        } else {
            let earlier = self.returned_ids(batches.drop_last());
            match self.insert_all(batches.drop_last()).insert_outcome(batches.last()) {
                Ok(id) => earlier.push(id),
                Err(_) => earlier,
            }
        }
    }

    /// What a select returns: the ids of the rows of `batch_id` in ascending
    /// order, or `StatementFailed` where the schema is missing.
    pub open spec fn select_outcome(self, batch_id: i64) -> Result<Seq<i64>, DbError> {
        if self.ready {
            Ok(ids_in(self.rows, batch_id))
        } else {
            Err(DbError::StatementFailed)
        }
    }

    /// The stream with which the engine answers the schema script.
    pub open spec fn schema_stream() -> Seq<StreamEvent<()>> {
        Seq::new(SCHEMA_STATEMENTS as nat, |i: int| StreamEvent::Item(())).push(
            StreamEvent::Exhausted,
        )
    }

    /// The stream with which the engine answers an insert.
    pub open spec fn insert_stream(self, batch_id: i64) -> Seq<StreamEvent<i64>> {
        match self.insert_outcome(batch_id) {
            Ok(id) => id_stream(seq![id]),
            Err(_) => refusal(),
        }
    }

    /// The stream with which the engine answers a select.
    pub open spec fn select_stream(self, batch_id: i64) -> Seq<StreamEvent<i64>> {
        match self.select_outcome(batch_id) {
            Ok(ids) => id_stream(ids),
            Err(_) => refusal(),
        }
    }
}

/// A stream of ids is complete, and carries exactly those ids.
pub proof fn lemma_id_stream(ids: Seq<i64>)
    ensures
        complete(id_stream(ids)),
        payloads(id_stream(ids), ids.len() as int) == ids,
        id_stream(ids).len() == ids.len() + 1,
{
    let events = id_stream(ids);
    assert(payloads(events, ids.len() as int) =~= ids);
}

/// One more id makes one more item, at the end.
pub proof fn lemma_id_items_push(ids: Seq<i64>, id: i64)
    ensures
        id_items(ids.push(id)) == id_items(ids).push(StreamEvent::Item(id)),
{
    ids.lemma_push_map_commute(|id: i64| StreamEvent::Item(id), id);
}

/// A row appended to the table joins the ids of its own partition, at the
/// end, and of no other.
pub proof fn lemma_ids_in_push(rows: Seq<Row>, row: Row, batch_id: i64)
    ensures
        ids_in(rows.push(row), batch_id) == if row.batch_id == batch_id {
            ids_in(rows, batch_id).push(row.id)
        } else {
            ids_in(rows, batch_id)
        },
{
    rows.lemma_filter_push(row, |row: Row| row.batch_id == batch_id);
    if row.batch_id == batch_id {
        rows.filter(|row: Row| row.batch_id == batch_id).lemma_push_map_commute(
            |row: Row| row.id,
            row,
        );
    }
}

/// A select returns the ids of its partition and nothing else: an id is
/// returned exactly when the table holds a row with that id in that partition.
pub proof fn lemma_select_is_exact(rows: Seq<Row>, batch_id: i64)
    ensures
        forall|id: i64| #[trigger]
            ids_in(rows, batch_id).contains(id) <==> rows.contains(Row { id, batch_id }),
    decreases rows.len(),
{
    let ids = ids_in(rows, batch_id);
    if rows.len() == 0 {
        reveal(Seq::filter);
        assert(ids.len() == 0);
    } else {
        let earlier = rows.drop_last();
        let last = rows.last();
        assert(rows =~= earlier.push(last));
        lemma_ids_in_push(earlier, last, batch_id);
        lemma_select_is_exact(earlier, batch_id);
        assert forall|id: i64| #[trigger]
            ids.contains(id) <==> rows.contains(Row { id, batch_id }) by {
            lemma_seq_contains_after_push(earlier, last, Row { id, batch_id });
            if last.batch_id == batch_id {
                lemma_seq_contains_after_push(ids_in(earlier, batch_id), last.id, id);
            }
        }
    }
}

/// A select returns its ids in strictly ascending order, so none of them twice.
pub proof fn lemma_select_is_ascending(rows: Seq<Row>, batch_id: i64)
    requires
        ascending_ids(rows),
    ensures
        forall|k: int, l: int|
            0 <= k < l < ids_in(rows, batch_id).len() ==> (#[trigger] ids_in(rows, batch_id)[k]) < (
            #[trigger] ids_in(rows, batch_id)[l]),
    decreases rows.len(),
{
    let ids = ids_in(rows, batch_id);
    if rows.len() == 0 {
        reveal(Seq::filter);
        assert(ids.len() == 0);
    } else {
        let earlier = rows.drop_last();
        let last = rows.last();
        assert(rows =~= earlier.push(last));
        assert(ascending_ids(earlier)) by {
            assert forall|i: int, j: int| 0 <= i < j < earlier.len() implies (
            #[trigger] earlier[i]).id < (#[trigger] earlier[j]).id by {
                assert(rows[i] == earlier[i] && rows[j] == earlier[j]);
            }
        }
        lemma_ids_in_push(earlier, last, batch_id);
        lemma_select_is_ascending(earlier, batch_id);
        lemma_select_is_exact(earlier, batch_id);
        let earlier_ids = ids_in(earlier, batch_id);
        assert forall|k: int, l: int| 0 <= k < l < ids.len() implies (#[trigger] ids[k]) < (
        #[trigger] ids[l]) by {
            if l < earlier_ids.len() {
                assert(ids[k] == earlier_ids[k] && ids[l] == earlier_ids[l]);
            } else {
                assert(ids[k] == earlier_ids[k]);
                assert(earlier_ids.contains(earlier_ids[k]));
                let i = choose|i: int|
                    0 <= i < earlier.len() && earlier[i] == (Row { id: earlier_ids[k], batch_id });
                assert(rows[i] == earlier[i]);
                assert(rows[rows.len() - 1] == last);
            }
        }
    }
}

/// A select on a partition that never received an insert returns the empty
/// sequence, and no failure.
pub proof fn lemma_select_of_untouched_batch(table: TableState, batch_id: i64)
    requires
        table.ready,
        forall|i: int| 0 <= i < table.rows.len() ==> (#[trigger] table.rows[i]).batch_id != batch_id,
    ensures
        table.select_outcome(batch_id) == Ok::<Seq<i64>, DbError>(Seq::empty()),
{
    lemma_select_is_exact(table.rows, batch_id);
    let ids = ids_in(table.rows, batch_id);
    if ids.len() > 0 {
        assert(ids.contains(ids[0]));
        let i = choose|i: int|
            0 <= i < table.rows.len() && table.rows[i] == (Row { id: ids[0], batch_id });
        assert(table.rows[i].batch_id != batch_id);
    }
    assert(ids =~= Seq::<i64>::empty());
}

/// An insert keeps the table well formed, alters no row that exists, and
/// returns an id above every id in the table.
pub proof fn lemma_insert(table: TableState, batch_id: i64)
    requires
        table.wf(),
    ensures
        table.after_insert(batch_id).wf(),
        table.after_insert(batch_id).ready == table.ready,
        match table.insert_outcome(batch_id) {
            Ok(id) => {
                &&& table.after_insert(batch_id).rows == table.rows.push(Row { id, batch_id })
                &&& forall|i: int| 0 <= i < table.rows.len() ==> (#[trigger] table.rows[i]).id < id
            },
            Err(_) => table.after_insert(batch_id) == table,
        },
{
    if table.rows.len() > 0 {
        assert forall|i: int| 0 <= i < table.rows.len() implies (#[trigger] table.rows[i]).id
            <= table.rows.last().id by {
            if i < table.rows.len() - 1 {
                assert(table.rows[i].id < table.rows[table.rows.len() - 1].id);
            }
        }
    }
}

/// Any number of inserts, one after the other, keep the table well formed and
/// leave the rows that existed as they were; each id returned is that of one
/// new row, in the order of the inserts.
pub proof fn lemma_insert_all(table: TableState, batches: Seq<i64>)
    requires
        table.wf(),
    ensures
        table.insert_all(batches).wf(),
        table.insert_all(batches).ready == table.ready,
        table.insert_all(batches).rows.len() == table.rows.len() + table.returned_ids(
            batches,
        ).len(),
        table.insert_all(batches).rows.take(table.rows.len() as int) == table.rows,
        forall|k: int|
            0 <= k < table.returned_ids(batches).len() ==> table.insert_all(
                batches,
            ).rows[table.rows.len() + k].id == #[trigger] table.returned_ids(batches)[k],
    decreases batches.len(),
{
    let after = table.insert_all(batches);
    let ids = table.returned_ids(batches);
    if batches.len() == 0 {
        assert(after.rows.take(table.rows.len() as int) =~= table.rows);
    } else {
        let middle = table.insert_all(batches.drop_last());
        let earlier = table.returned_ids(batches.drop_last());
        lemma_insert_all(table, batches.drop_last());
        lemma_insert(middle, batches.last());
        assert(after.rows.take(table.rows.len() as int) =~= middle.rows.take(
            table.rows.len() as int,
        ));
        assert forall|k: int| 0 <= k < ids.len() implies after.rows[table.rows.len() + k].id
            == #[trigger] ids[k] by {
            if k < earlier.len() {
                assert(ids[k] == earlier[k]);
                assert(after.rows[table.rows.len() + k] == middle.rows[table.rows.len() + k]);
            }
        }
    }
}

/// Inserts performed one at a time against one partition are read back by a
/// select in exactly the order in which they were made, behind the ids that
/// the partition held before.
pub proof fn lemma_select_returns_insertion_order(
    table: TableState,
    batch_id: i64,
    batches: Seq<i64>,
)
    requires
        table.wf(),
        table.ready,
        forall|i: int| 0 <= i < batches.len() ==> batches[i] == batch_id,
    ensures
        table.insert_all(batches).select_outcome(batch_id) == Ok::<Seq<i64>, DbError>(
            ids_in(table.rows, batch_id) + table.returned_ids(batches),
        ),
    decreases batches.len(),
{
    let after = table.insert_all(batches);
    lemma_insert_all(table, batches);
    if batches.len() == 0 {
        assert(ids_in(table.rows, batch_id) + table.returned_ids(batches) =~= ids_in(
            table.rows,
            batch_id,
        ));
    } else {
        let middle = table.insert_all(batches.drop_last());
        lemma_select_returns_insertion_order(table, batch_id, batches.drop_last());
        lemma_insert_all(table, batches.drop_last());
        lemma_insert(middle, batches.last());
        match middle.insert_outcome(batches.last()) {
            Ok(id) => {
                lemma_ids_in_push(middle.rows, Row { id, batch_id }, batch_id);
                assert(ids_in(after.rows, batch_id) =~= ids_in(table.rows, batch_id)
                    + table.returned_ids(batches));
            },
            Err(_) => {},
        }
    }
}

/// Every id that an insert returns is strictly greater than every id that an
/// earlier insert returned, and than every id that the table held before.
pub proof fn lemma_returned_ids_grow(table: TableState, batches: Seq<i64>)
    requires
        table.wf(),
    ensures
        forall|k: int, l: int|
            0 <= k < l < table.returned_ids(batches).len() ==> (#[trigger] table.returned_ids(
                batches,
            )[k]) < (#[trigger] table.returned_ids(batches)[l]),
        forall|i: int, k: int|
            0 <= i < table.rows.len() && 0 <= k < table.returned_ids(batches).len() ==> (
            #[trigger] table.rows[i]).id < (#[trigger] table.returned_ids(batches)[k]),
{
    let after = table.insert_all(batches);
    let ids = table.returned_ids(batches);
    let held = table.rows.len() as int;
    lemma_insert_all(table, batches);
    assert forall|k: int, l: int| 0 <= k < l < ids.len() implies (#[trigger] ids[k]) < (
    #[trigger] ids[l]) by {
        assert(after.rows[held + k].id < after.rows[held + l].id);
    }
    assert forall|i: int, k: int| 0 <= i < held && 0 <= k < ids.len() implies (
    #[trigger] table.rows[i]).id < (#[trigger] ids[k]) by {
        assert(after.rows.take(held)[i] == after.rows[i]);
        assert(after.rows[i].id < after.rows[held + k].id);
    }
}

/// Two inserts into one partition and then a select: both ids come back, the
/// first before the second, behind what the partition held before. Where the
/// partition was empty, they are all that comes back.
pub proof fn lemma_insert_twice_then_select(table: TableState, batch_id: i64)
    requires
        table.wf(),
        table.ready,
        table.next_id() < i64::MAX,
    ensures
        ({
            let middle = table.after_insert(batch_id);
            let after = middle.after_insert(batch_id);
            &&& table.insert_outcome(batch_id) matches Ok(first)
            &&& middle.insert_outcome(batch_id) matches Ok(second)
            &&& first < second
            &&& after.select_outcome(batch_id) == Ok::<Seq<i64>, DbError>(
                ids_in(table.rows, batch_id).push(first).push(second),
            )
        }),
{
    let middle = table.after_insert(batch_id);
    lemma_insert(table, batch_id);
    lemma_insert(middle, batch_id);
    let first = table.insert_outcome(batch_id)->Ok_0;
    let second = middle.insert_outcome(batch_id)->Ok_0;
    lemma_ids_in_push(table.rows, Row { id: first, batch_id }, batch_id);
    lemma_ids_in_push(middle.rows, Row { id: second, batch_id }, batch_id);
}

/// Ensuring the schema a second time changes nothing, and no run of it
/// touches a row.
pub proof fn lemma_schema_is_idempotent(table: TableState)
    ensures
        table.with_schema().with_schema() == table.with_schema(),
        table.with_schema().rows == table.rows,
        table.wf() ==> table.with_schema().wf(),
{
}

} // verus!
