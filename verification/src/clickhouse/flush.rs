//! How the rows of a pass are flushed: every table is prepared before any row is inserted.
use vstd::prelude::*;

use crate::batching::TableBatch;
use crate::clickhouse::config::ClickHouseEngine;
use crate::clickhouse::rows::{
    pending_rows_values, value_models, written_row, ClickHouseValue, PendingRow,
};
use crate::error::{EtlError, EtlResult};
use crate::schema::ReplicatedTableSchema;

verus! {

/// A table that can take rows.
#[derive(Debug)]
pub struct PreparedTable {
    /// The table's name.
    pub name: String,
    /// Which of its values need a null marker.
    pub nullable: Vec<bool>,
}

/// Rows that are to be inserted into one table.
#[derive(Debug)]
pub struct TableInsert {
    /// The table.
    pub table: PreparedTable,
    /// The values of each row.
    pub rows: Vec<Vec<ClickHouseValue>>,
}

/// What is to be done next in a flush.
#[derive(Debug)]
pub enum FlushAction {
    /// Prepare the table of a batch, by its place.
    Prepare(usize),
    /// Insert the rows of all batches.
    Insert,
    /// The flush ends with an error.
    Fail(EtlError),
}

/// Where a flush stands.
#[derive(Debug)]
pub struct Flush {
    /// Rows to insert, by table.
    pub batches: Vec<TableBatch<PendingRow>>,
    /// The tables of the first batches, which are prepared.
    pub prepared: Vec<PreparedTable>,
}

/// What is to be done when so many of the batches have their tables prepared.
pub open spec fn action_at(prepared: nat, batches: nat) -> FlushAction {
    if prepared < batches {
        FlushAction::Prepare(prepared as usize)
    } else {
        FlushAction::Insert
    }
}

/// Where a flush stands after an attempt to prepare a table.
pub open spec fn flush_steps(
    before: Flush,
    result: EtlResult<PreparedTable>,
    after: Flush,
    action: FlushAction,
) -> bool {
    &&& after.batches@ == before.batches@
    &&& match result {
        Ok(table) => {
            &&& after.prepared@ == before.prepared@.push(table)
            &&& action == action_at(after.prepared@.len(), after.batches@.len())
        },
        Err(e) => after.prepared@ == before.prepared@ && action == FlushAction::Fail(e),
    }
}

/// Whether rows of a batch are to be inserted into its prepared table: all of them, in order.
pub open spec fn inserts_batch(
    insert: TableInsert,
    batch: TableBatch<PendingRow>,
    table: PreparedTable,
    engine: ClickHouseEngine,
) -> bool {
    &&& insert.table == table
    &&& insert.rows@.len() == batch.rows@.len()
    &&& forall|i: int|
        0 <= i < batch.rows@.len() ==> value_models((#[trigger] insert.rows@[i])@) == written_row(
            batch.rows@[i]@,
            engine,
        )
}

impl Flush {
    /// Begins to flush rows.
    pub fn begin(batches: Vec<TableBatch<PendingRow>>) -> (r: (Self, FlushAction))
        ensures
            r.0.batches == batches,
            r.0.prepared@ == Seq::<PreparedTable>::empty(),
            r.1 == action_at(0, batches@.len()),
    {
        let action = if batches.len() == 0 {
            FlushAction::Insert
        } else {
            FlushAction::Prepare(0)
        };
        (Flush { batches, prepared: Vec::new() }, action)
    }

    /// Returns the table of a batch, as its rows need it.
    pub fn table(&self, batch: usize) -> (r: &ReplicatedTableSchema)
        requires
            batch < self.batches@.len(),
        ensures
            *r == self.batches@[batch as int].schema,
    {
        &self.batches[batch].schema
    }

    /// Takes up how preparing the next table went. A table that cannot be prepared ends the flush.
    pub fn on_prepared(&mut self, result: EtlResult<PreparedTable>) -> (r: FlushAction)
        ensures
            flush_steps(*old(self), result, *final(self), r),
    {
        match result {
            Ok(table) => {
                self.prepared.push(table);
                if self.prepared.len() < self.batches.len() {
                    FlushAction::Prepare(self.prepared.len())
                } else {
                    FlushAction::Insert
                }
            },
            Err(e) => FlushAction::Fail(e),
        }
    }

    /// Returns what is to be inserted, in the order of the batches, once all tables are prepared.
    pub fn inserts(self, engine: ClickHouseEngine) -> (r: Vec<TableInsert>)
        requires
            self.prepared@.len() == self.batches@.len(),
        ensures
            r@.len() == self.batches@.len(),
            forall|i: int|
                0 <= i < r@.len() ==> inserts_batch(
                    #[trigger] r@[i],
                    self.batches@[i],
                    self.prepared@[i],
                    engine,
                ),
    {
        let ghost all = self.batches@;
        let ghost tables = self.prepared@;
        let mut batches = self.batches;
        let mut prepared = self.prepared;
        let mut out: Vec<TableInsert> = Vec::new();
        while batches.len() > 0
            invariant
                out@.len() + batches@.len() == all.len(),
                prepared@.len() == batches@.len(),
                tables.len() == all.len(),
                batches@ == all.skip(out@.len() as int),
                prepared@ == tables.skip(out@.len() as int),
                forall|i: int|
                    0 <= i < out@.len() ==> inserts_batch(
                        #[trigger] out@[i],
                        all[i],
                        tables[i],
                        engine,
                    ),
            decreases batches@.len(),
        {
            let ghost done = out@.len() as int;
            let batch = batches.remove(0);
            let table = prepared.remove(0);
            let rows = pending_rows_values(batch.rows, engine);
            out.push(TableInsert { table, rows });
            proof {
                assert(batches@ =~= all.skip(done + 1));
                assert(prepared@ =~= tables.skip(done + 1));
            }
        }
        out
    }
}

/// Whether a flush of batches went through these states as its tables were prepared, or not, with
/// these results.
pub open spec fn is_flush(
    batches: Seq<TableBatch<PendingRow>>,
    states: Seq<(Flush, FlushAction)>,
    results: Seq<EtlResult<PreparedTable>>,
) -> bool
    decreases results.len(),
{
    &&& states.len() == results.len() + 1
    &&& if results.len() == 0 {
        &&& states[0].0.batches@ == batches
        &&& states[0].0.prepared@ == Seq::<PreparedTable>::empty()
        &&& states[0].1 == action_at(0, batches.len())
    } else {
        let before = states.drop_last().last();
        &&& is_flush(batches, states.drop_last(), results.drop_last())
        &&& before.1 is Prepare
        &&& flush_steps(before.0, results.last(), states.last().0, states.last().1)
    }
}

proof fn lemma_prepared(
    batches: Seq<TableBatch<PendingRow>>,
    states: Seq<(Flush, FlushAction)>,
    results: Seq<EtlResult<PreparedTable>>,
)
    requires
        is_flush(batches, states, results),
        batches.len() <= usize::MAX,
    ensures
        ({
            let (flush, action) = states.last();
            let failed = results.len() > 0 && results.last() is Err;
            let n = if failed {
                results.len() - 1
            } else {
                results.len() as int
            };
            &&& flush.batches@ == batches
            &&& n <= batches.len()
            &&& flush.prepared@.len() == n
            &&& forall|i: int|
                0 <= i < n ==> #[trigger] results[i] == Ok::<PreparedTable, EtlError>(
                    flush.prepared@[i],
                )
            &&& action == if failed {
                FlushAction::Fail(results.last()->Err_0)
            } else {
                action_at(n as nat, batches.len())
            }
        }),
    decreases results.len(),
{
    if results.len() > 0 {
        lemma_prepared(batches, states.drop_last(), results.drop_last());
        assert forall|i: int| 0 <= i < results.len() - 1 implies #[trigger] results[i]
            == results.drop_last()[i] by {}
    }
}

/// A flush prepares the tables one after another, and rows are inserted exactly when all of them are
/// prepared. A table that cannot be prepared ends the flush with its error before any row is
/// inserted.
pub proof fn law_tables_are_prepared_before_rows(
    batches: Seq<TableBatch<PendingRow>>,
    states: Seq<(Flush, FlushAction)>,
    results: Seq<EtlResult<PreparedTable>>,
)
    requires
        is_flush(batches, states, results),
        batches.len() <= usize::MAX,
    ensures
        states.last().0.batches@ == batches,
        states.last().1 is Insert <==> results.len() == batches.len() && forall|i: int|
            0 <= i < results.len() ==> #[trigger] results[i] is Ok,
        states.last().1 is Insert ==> {
            &&& states.last().0.prepared@.len() == batches.len()
            &&& forall|i: int|
                0 <= i < results.len() ==> #[trigger] results[i] == Ok::<PreparedTable, EtlError>(
                    states.last().0.prepared@[i],
                )
        },
        states.last().1 matches FlushAction::Prepare(batch) ==> batch == results.len() && batch
            < batches.len(),
        states.last().1 is Fail <==> results.len() > 0 && results.last() is Err,
        states.last().1 matches FlushAction::Fail(e) ==> results.last() == Err::<
            PreparedTable,
            EtlError,
        >(e),
        forall|i: int|
            0 <= i < results.len() ==> (#[trigger] states[i]).1 == FlushAction::Prepare(i as usize),
    decreases results.len(),
{
    if results.len() > 0 {
        let earlier = states.drop_last();
        let n = results.len() - 1;
        law_tables_are_prepared_before_rows(batches, earlier, results.drop_last());
        lemma_prepared(batches, earlier, results.drop_last());
        lemma_prepared(batches, states, results);
        assert(earlier.last().1 == FlushAction::Prepare(n as usize));
        assert forall|i: int| 0 <= i < results.len() implies (#[trigger] states[i]).1
            == FlushAction::Prepare(i as usize) by {
            if i < n {
                assert(states[i] == earlier[i]);
            }
        }
    }
}

/// What is inserted into a table is its batch, row by row, into the table that was prepared for it.
pub proof fn law_inserts_hold_their_batch(
    insert: TableInsert,
    batch: TableBatch<PendingRow>,
    table: PreparedTable,
    engine: ClickHouseEngine,
)
    requires
        inserts_batch(insert, batch, table, engine),
    ensures
        insert.table == table,
        insert.rows@.len() == batch.rows@.len(),
        forall|i: int|
            0 <= i < batch.rows@.len() ==> (#[trigger] insert.rows@[i])@.len()
                == batch.rows@[i].cells@.len() + 2,
        forall|i: int|
            0 <= i < batch.rows@.len() ==> value_models((#[trigger] insert.rows@[i])@)
                == written_row(batch.rows@[i]@, engine),
{
    assert forall|i: int| 0 <= i < batch.rows@.len() implies (#[trigger] insert.rows@[i])@.len()
        == batch.rows@[i].cells@.len() + 2 by {
        assert(value_models(insert.rows@[i]@).len() == insert.rows@[i]@.len());
    }
}

/// A prepared table is put behind the others, and the next one is prepared, or all rows are inserted
/// once none is left; a table that cannot be prepared ends the flush.
pub proof fn law_tables_are_prepared_one_by_one(
    before: Flush,
    result: EtlResult<PreparedTable>,
    after: Flush,
    action: FlushAction,
)
    requires
        flush_steps(before, result, after, action),
        before.batches@.len() <= usize::MAX,
    ensures
        after.batches@ == before.batches@,
        result matches Ok(table) ==> after.prepared@ == before.prepared@.push(table),
        result matches Ok(table) ==> (before.prepared@.len() + 1 < before.batches@.len()
            ==> action == FlushAction::Prepare((before.prepared@.len() + 1) as usize)),
        result matches Ok(table) ==> (before.prepared@.len() + 1 >= before.batches@.len()
            ==> action is Insert),
        result matches Err(e) ==> action == FlushAction::Fail(e) && after.prepared@
            == before.prepared@,
{
}

} // verus!
