//! Change events as rows for channels, and the plans for schema changes and truncates.
use std::collections::VecDeque;

use vstd::prelude::*;

use crate::batching::{
    deduplicated, in_class, is_in_class, law_run_is_maximal, run_len, take_truncates, truncated,
    EventClass,
};
use crate::cell::{Cell, TableRow};
use crate::error::{error_of, ErrorKind, ErrorModel, EtlError, EtlResult};
use crate::event::{sequence_text, Event, OldTableRow, PgLsn, UpdatedTableRow};
use crate::schema::{
    is_up_to_date, up_to_date, ColumnSchema, DestinationTableMetadata, ReplicatedTableSchema,
    SchemaDiff, SnapshotId, TableId,
};
use crate::snowflake::client::{Client, TableDrop, TableSetup};
use crate::snowflake::encoding::{CdcMeta, CdcOperation};
use crate::snowflake::error::{Error, SnowflakeResult};
use crate::snowflake::schema::{
    all_column_defs, collision, first_reserved, reserved, validate_no_cdc_collisions,
};
use crate::snowflake::streaming::batch::{
    batch_models, batched, batches_for, built, encoded_row, AddedRow, RowBatch, RowBatchBuilder,
};
use crate::snowflake::streaming::channel::{ChannelHandle, ChannelStatusResponse};
use crate::snowflake::streaming::channel_map::no_channel;
use crate::snowflake::streaming::offset_token::OffsetToken;
use crate::steps::{
    failed, is_plan_run, law_failed_step_ends_the_plan, lemma_recorded, recorded_after, succeeded,
    PlanRun, PlanStep, RecordStatus,
};
use crate::table_name::{stringified, try_stringify_table_name};
use crate::text::{
    cat3, cat4, decimal, decimal_of, doubled, joined, to_unicode_uppercase, uppercased, views,
};

verus! {

/// The name of a table at Snowflake.
pub open spec fn table_text(schema: ReplicatedTableSchema) -> Seq<char> {
    uppercased(stringified(schema.name.schema@, schema.name.name@))
}

/// Returns the name of a table at Snowflake.
pub fn snowflake_table_name(schema: &ReplicatedTableSchema) -> (r: EtlResult<String>)
    ensures
        r matches Ok(name) && name@ == table_text(*schema),
{
    match try_stringify_table_name(&schema.name) {
        Ok(name) => Ok(to_unicode_uppercase(name.as_str())),
        Err(e) => Err(e),
    }
}

/// How to make a table ready for rows: set it up, then record it.
#[derive(Debug)]
pub struct Preparation {
    /// Name of the table.
    pub table: String,
    /// What is to be set up.
    pub setup: TableSetup,
    /// What is recorded about the table once it is set up.
    pub metadata: DestinationTableMetadata,
}

/// The error of a table with a column that has a reserved name.
pub open spec fn collision_error(name: Seq<char>) -> ErrorModel {
    error_of(
        ErrorKind::ConfigError,
        "Snowflake configuration error"@,
        "Configuration error: "@ + ("source column '"@ + name
            + "' collides with reserved CDC column name"@),
    )
}

/// A row to be added to a table.
pub struct RowModel {
    /// The table.
    pub table: TableId,
    /// Columns that the row is written with; `None` for those that the table was prepared with.
    pub columns: Option<Seq<ColumnSchema>>,
    /// The values.
    pub cells: Seq<Cell>,
    /// The operation.
    pub operation: CdcOperation,
    /// The position.
    pub position: Seq<char>,
}

/// An update came without the whole new row.
pub open spec fn partial_update_error() -> ErrorModel {
    error_of(
        ErrorKind::InvalidData,
        "Partial update rows not supported"@,
        "Snowflake destination requires REPLICA IDENTITY FULL for update events"@,
    )
}

/// The row that an event gives, or why it cannot be written; `None` for events that give no row.
pub open spec fn event_row(e: Event) -> Option<Result<RowModel, ErrorModel>> {
    match e {
        Event::Insert(insert) => Some(
            Ok(
                RowModel {
                    table: insert.replicated_table_schema.id,
                    columns: None,
                    cells: insert.table_row.values@,
                    operation: CdcOperation::Insert,
                    position: sequence_text(insert.commit_lsn.0 as nat, insert.tx_ordinal as nat),
                },
            ),
        ),
        Event::Update(update) => match update.updated_table_row {
            UpdatedTableRow::Partial(_) => Some(Err(partial_update_error())),
            UpdatedTableRow::Full(row) => Some(
                Ok(
                    RowModel {
                        table: update.replicated_table_schema.id,
                        columns: None,
                        cells: row.values@,
                        operation: CdcOperation::Update,
                        position: sequence_text(
                            update.commit_lsn.0 as nat,
                            update.tx_ordinal as nat,
                        ),
                    },
                ),
            ),
        },
        Event::Delete(delete) => match delete.old_table_row {
            None => None,
            Some(old_row) => Some(
                Ok(
                    RowModel {
                        table: delete.replicated_table_schema.id,
                        columns: match old_row {
                            OldTableRow::Full(_) => None,
                            OldTableRow::Key(_) => Some(
                                delete.replicated_table_schema.identity_columns@,
                            ),
                        },
                        cells: match old_row {
                            OldTableRow::Full(row) => row.values@,
                            OldTableRow::Key(row) => row.values@,
                        },
                        operation: CdcOperation::Delete,
                        position: sequence_text(
                            delete.commit_lsn.0 as nat,
                            delete.tx_ordinal as nat,
                        ),
                    },
                ),
            ),
        },
        _ => None,
    }
}

/// Rows of one table that wait to be sent.
pub struct TableRows {
    /// The table.
    pub table: TableId,
    /// Columns that the table was prepared with.
    pub columns: Vec<ColumnSchema>,
    /// The rows.
    pub builder: RowBatchBuilder,
}

/// Rows that wait to be sent, by table. Tables are prepared before their first row.
pub struct Accumulator {
    tables: Vec<TableRows>,
    taken: usize,
}

/// How an accumulation ended.
#[derive(Clone, Copy, Debug, PartialEq, Eq, Structural)]
pub enum Accumulated {
    /// All rows up to the next schema change, truncate or the end are taken.
    All,
    /// The table of the first event is to be prepared before it can be taken.
    PrepareTable,
}

/// Where a table stands among the prepared ones, or -1.
pub open spec fn place(tables: Seq<TableRows>, id: TableId) -> int
    decreases tables.len(),
{
    if tables.len() == 0 {
        -1
    } else if tables.last().table == id {
        tables.len() - 1
    } else {
        place(tables.drop_last(), id)
    }
}

proof fn lemma_place(tables: Seq<TableRows>, id: TableId)
    ensures
        -1 <= place(tables, id) < tables.len(),
        place(tables, id) >= 0 ==> tables[place(tables, id)].table == id,
        place(tables, id) == -1 ==> forall|i: int|
            0 <= i < tables.len() ==> (#[trigger] tables[i]).table != id,
    decreases tables.len(),
{
    if tables.len() > 0 && tables.last().table != id {
        lemma_place(tables.drop_last(), id);
        if place(tables, id) == -1 {
            assert forall|i: int| 0 <= i < tables.len() implies (#[trigger] tables[i]).table
                != id by {
                if i < tables.len() - 1 {
                    assert(tables.drop_last()[i] == tables[i]);
                }
            }
        }
    }
}

proof fn lemma_place_is(tables: Seq<TableRows>, id: TableId, i: int)
    requires
        0 <= i < tables.len(),
        tables[i].table == id,
        distinct(tables),
    ensures
        place(tables, id) == i,
{
    lemma_place(tables, id);
    let p = place(tables, id);
    if p == -1 {
        assert(tables[i].table != id);
    } else if p < i {
        assert(tables[p].table != tables[i].table);
    } else if i < p {
        assert(tables[i].table != tables[p].table);
    }
}

/// Whether no table stands twice.
pub open spec fn distinct(tables: Seq<TableRows>) -> bool {
    forall|i: int, j: int|
        0 <= i < j < tables.len() ==> (#[trigger] tables[i]).table != (#[trigger] tables[j]).table
}

/// The columns that a row is written with.
pub open spec fn row_columns(row: RowModel, prepared: Seq<ColumnSchema>) -> Seq<ColumnSchema> {
    match row.columns {
        Some(columns) => columns,
        None => prepared,
    }
}

/// The line of a row in bytes, or why it cannot be sent.
pub open spec fn row_bytes(row: RowModel, prepared: Seq<ColumnSchema>) -> Result<
    Seq<u8>,
    Seq<char>,
> {
    encoded_row(row_columns(row, prepared), row.cells, row.operation, row.position)
}

/// The rows that events add to a table, given the columns that it was prepared with.
pub open spec fn rows_for(
    events: Seq<Event>,
    id: TableId,
    prepared: Seq<ColumnSchema>,
) -> Seq<AddedRow>
    decreases events.len(),
{
    if events.len() == 0 {
        Seq::empty()
    } else {
        let before = rows_for(events.drop_last(), id, prepared);
        match event_row(events.last()) {
            Some(Ok(row)) => if row.table == id {
                before.push(AddedRow { line: row_bytes(row, prepared)->Ok_0, token: row.position })
            } else {
                before
            },
            _ => before,
        }
    }
}

/// Columns that tables were prepared with.
pub type PreparedColumns = Map<TableId, Seq<ColumnSchema>>;

/// Whether an event can be taken: it is no schema change or truncate, and its table is prepared.
pub open spec fn ready(e: Event, prepared: PreparedColumns) -> bool {
    in_class(e, EventClass::Data) && match event_row(e) {
        Some(Ok(row)) => prepared.dom().contains(row.table),
        _ => true,
    }
}

/// Number of events at the front that can be taken.
pub open spec fn ready_len(events: Seq<Event>, prepared: PreparedColumns) -> nat
    decreases events.len(),
{
    if events.len() == 0 || !ready(events[0], prepared) {
        0
    } else {
        1 + ready_len(events.skip(1), prepared)
    }
}

proof fn lemma_ready_len(events: Seq<Event>, prepared: PreparedColumns)
    ensures
        ready_len(events, prepared) <= events.len(),
    decreases events.len(),
{
    if events.len() > 0 && ready(events[0], prepared) {
        lemma_ready_len(events.skip(1), prepared);
    }
}

/// A row cannot be encoded.
pub open spec fn encoding_error(reason: Seq<char>) -> ErrorModel {
    error_of(
        ErrorKind::InvalidData,
        "Snowflake encoding error"@,
        "Encoding error: "@ + reason,
    )
}

/// Why an event cannot be taken, if it cannot.
pub open spec fn event_error(e: Event, prepared: PreparedColumns) -> Option<ErrorModel> {
    match event_row(e) {
        Some(Err(error)) => Some(error),
        Some(Ok(row)) => match row_bytes(row, prepared[row.table]) {
            Err(reason) => Some(encoding_error(reason)),
            Ok(_) => None,
        },
        None => None,
    }
}

/// Rows that wait to be sent, by table.
pub type WaitingRows = Map<TableId, Seq<AddedRow>>;

/// Why the row of the last event cannot be compressed after the rows before it, if it cannot.
pub open spec fn compression_error(
    events: Seq<Event>,
    prepared: PreparedColumns,
    waiting: WaitingRows,
) -> Option<ErrorModel> {
    match event_row(events.last()) {
        Some(Ok(row)) => match built(
            waiting[row.table] + rows_for(events, row.table, prepared[row.table]),
        ) {
            Err(reason) => Some(encoding_error(reason)),
            Ok(_) => None,
        },
        _ => None,
    }
}

/// The error of the first event that cannot be taken, given the rows that wait already.
pub open spec fn first_error(
    events: Seq<Event>,
    prepared: PreparedColumns,
    waiting: WaitingRows,
) -> Option<ErrorModel>
    decreases events.len(),
{
    if events.len() == 0 {
        None
    } else {
        match first_error(events.drop_last(), prepared, waiting) {
            Some(e) => Some(e),
            None => match event_error(events.last(), prepared) {
                Some(e) => Some(e),
                None => compression_error(events, prepared, waiting),
            },
        }
    }
}

proof fn lemma_error_stays(
    events: Seq<Event>,
    prepared: PreparedColumns,
    waiting: WaitingRows,
    n: int,
)
    requires
        0 <= n <= events.len(),
        first_error(events.take(n), prepared, waiting) is Some,
    ensures
        first_error(events, prepared, waiting) == first_error(events.take(n), prepared, waiting),
    decreases events.len() - n,
{
    if n < events.len() {
        assert(events.take(n + 1).drop_last() =~= events.take(n));
        lemma_error_stays(events, prepared, waiting, n + 1);
    } else {
        assert(events.take(n) =~= events);
    }
}

impl Accumulator {
    /// The columns that tables were prepared with.
    pub closed spec fn prepared(&self) -> PreparedColumns {
        Map::new(
            |id: TableId| place(self.tables@, id) >= 0,
            |id: TableId| self.tables@[place(self.tables@, id)].columns@,
        )
    }

    /// The rows of a table that wait to be sent.
    pub closed spec fn rows_of(&self, id: TableId) -> Seq<AddedRow> {
        self.tables@[place(self.tables@, id)].builder.rows()
    }

    /// The rows that wait to be sent, by prepared table.
    pub open spec fn waiting(&self) -> WaitingRows {
        Map::new(
            |id: TableId| self.prepared().dom().contains(id),
            |id: TableId| self.rows_of(id),
        )
    }

    /// The number of events that were taken.
    pub closed spec fn taken(&self) -> nat {
        self.taken as nat
    }

    /// Tables stand once each, and their builders are well-formed.
    pub closed spec fn wf(&self) -> bool {
        &&& distinct(self.tables@)
        &&& forall|i: int|
            0 <= i < self.tables@.len() ==> (#[trigger] self.tables@[i]).builder.wf()
                && self.tables@[i].builder.pending() <= self.taken
    }

    /// Creates an accumulator without tables.
    pub fn new() -> (r: Self)
        ensures
            r.wf(),
            r.prepared() == Map::<TableId, Seq<ColumnSchema>>::empty(),
            r.taken() == 0,
    {
        let r = Accumulator { tables: Vec::new(), taken: 0 };
        proof {
            assert(r.prepared() =~= Map::<TableId, Seq<ColumnSchema>>::empty());
        }
        r
    }

    fn find(&self, id: TableId) -> (r: Option<usize>)
        requires
            self.wf(),
        ensures
            match r {
                Some(i) => i < self.tables@.len() && self.tables@[i as int].table == id && place(
                    self.tables@,
                    id,
                ) == i,
                None => place(self.tables@, id) == -1,
            },
    {
        let n: usize = self.tables.len();
        let mut i: usize = 0;
        while i < n
            invariant
                i <= n,
                n == self.tables@.len(),
                self.wf(),
                forall|j: int| 0 <= j < i ==> (#[trigger] self.tables@[j]).table != id,
            decreases n - i,
        {
            if self.tables[i].table == id {
                proof {
                    lemma_place_is(self.tables@, id, i as int);
                }
                return Some(i);
            }
            i = i + 1;
        }
        proof {
            lemma_place(self.tables@, id);
        }
        None
    }

    /// Takes up that a table was prepared, with its columns. A table that is already prepared keeps
    /// those that it has.
    pub fn ensure_column_cache(&mut self, schema: &ReplicatedTableSchema)
        requires
            old(self).wf(),
        ensures
            final(self).wf(),
            final(self).taken() == old(self).taken(),
            final(self).prepared() == if old(self).prepared().dom().contains(schema.id) {
                old(self).prepared()
            } else {
                old(self).prepared().insert(schema.id, schema.columns@)
            },
            forall|id: TableId|
                old(self).prepared().dom().contains(id) ==> #[trigger] final(self).rows_of(id)
                    == old(self).rows_of(id),
            !old(self).prepared().dom().contains(schema.id) ==> final(self).rows_of(schema.id)
                == Seq::<AddedRow>::empty(),
    {
        if self.find(schema.id).is_some() {
            return ;
        }
        let mut columns: Vec<ColumnSchema> = Vec::new();
        let n: usize = schema.columns.len();
        let mut i: usize = 0;
        while i < n
            invariant
                i <= n,
                n == schema.columns@.len(),
                columns@ == schema.columns@.take(i as int),
            decreases n - i,
        {
            columns.push(schema.columns[i].clone());
            i = i + 1;
            proof {
                assert(columns@ =~= schema.columns@.take(i as int));
            }
        }
        let ghost before = self.tables@;
        self.tables.push(
            TableRows { table: schema.id, columns, builder: RowBatchBuilder::new() },
        );
        proof {
            let now = self.tables@;
            assert(schema.columns@.take(n as int) =~= schema.columns@);
            lemma_place(before, schema.id);
            assert(distinct(now));
            assert forall|id: TableId| id != schema.id implies #[trigger] place(now, id) == place(
                before,
                id,
            ) by {
                assert(now.drop_last() =~= before);
            }
            assert(place(now, schema.id) == before.len());
            assert forall|id: TableId| #[trigger] place(before, id) < before.len() by {
                lemma_place(before, id);
            }
            assert(self.prepared() =~= old(self).prepared().insert(schema.id, schema.columns@));
            assert forall|id: TableId| old(self).prepared().dom().contains(id) implies #[trigger]
            self.rows_of(id) == old(self).rows_of(id) by {
                assert(id != schema.id);
                assert(now[place(before, id)] == before[place(before, id)]);
            }
        }
    }

    /// Adds a row to a prepared table.
    fn add_row(
        &mut self,
        table: TableId,
        identity: Option<&Vec<ColumnSchema>>,
        row: &TableRow,
        operation: CdcOperation,
        commit_lsn: PgLsn,
        tx_ordinal: u64,
    ) -> (r: EtlResult<()>)
        requires
            old(self).wf(),
            old(self).prepared().dom().contains(table),
            old(self).taken() < usize::MAX,
        ensures
            ({
                let model = RowModel {
                    table,
                    columns: match identity {
                        Some(columns) => Some(columns@),
                        None => None,
                    },
                    cells: row.values@,
                    operation,
                    position: sequence_text(commit_lsn.0 as nat, tx_ordinal as nat),
                };
                match row_bytes(model, old(self).prepared()[table]) {
                    Err(reason) => r matches Err(e) && e@ == encoding_error(reason),
                    Ok(line) => {
                        let rows = old(self).rows_of(table).push(
                            AddedRow { line, token: model.position },
                        );
                        match built(rows) {
                            Err(reason) => r matches Err(e) && e@ == encoding_error(reason),
                            Ok(_) => {
                                &&& r is Ok
                                &&& final(self).wf()
                                &&& final(self).taken() == old(self).taken() + 1
                                &&& final(self).prepared() == old(self).prepared()
                                &&& forall|id: TableId|
                                    old(self).prepared().dom().contains(id) ==> #[trigger] final(
                                        self).rows_of(id) == if id == table {
                                        rows
                                    } else {
                                        old(self).rows_of(id)
                                    }
                            },
                        }
                    },
                }
            }),
    {
        let offset = OffsetToken::new(commit_lsn, tx_ordinal);
        let i: usize = match self.find(table) {
            Some(i) => i,
            None => {
                return Ok(());
            },
        };
        let ghost before = self.tables@;
        let ghost was = *self;
        let entry = &mut self.tables[i];
        let cdc = CdcMeta::new(operation, offset.as_str());
        let result = match identity {
            Some(columns) => entry.builder.push_row(columns.as_slice(), row, cdc, &offset),
            None => entry.builder.push_row(entry.columns.as_slice(), row, cdc, &offset),
        };
        match result {
            Ok(_) => {},
            Err(e) => {
                return Err(e.to_etl_error());
            },
        }
        self.taken = self.taken + 1;
        proof {
            let now = self.tables@;
            assert forall|k: int| 0 <= k < now.len() implies (#[trigger] now[k]).table
                == before[k].table && now[k].columns@ == before[k].columns@ by {}
            assert(distinct(now)) by {
                assert forall|a: int, b: int| 0 <= a < b < now.len() implies (
                #[trigger] now[a]).table != (#[trigger] now[b]).table by {
                    assert(before[a].table != before[b].table);
                }
            }
            assert forall|id: TableId| #[trigger] place(now, id) == place(before, id) by {
                lemma_same_places(before, now, id);
            }
            assert forall|id: TableId| -1 <= #[trigger] place(before, id) < before.len() by {
                lemma_place(before, id);
            }
            assert(self.prepared() =~= was.prepared());
            assert forall|id: TableId| id != table && was.prepared().dom().contains(
                id,
            ) implies #[trigger] self.rows_of(id) == was.rows_of(id) by {
                lemma_place(before, id);
                assert(place(before, id) != i);
            }
        }
        Ok(())
    }
}

proof fn lemma_same_places(a: Seq<TableRows>, b: Seq<TableRows>, id: TableId)
    requires
        a.len() == b.len(),
        forall|k: int| 0 <= k < a.len() ==> (#[trigger] b[k]).table == a[k].table,
    ensures
        place(a, id) == place(b, id),
    decreases a.len(),
{
    if a.len() > 0 {
        assert(b[a.len() - 1].table == a[a.len() - 1].table);
        assert forall|k: int| 0 <= k < a.drop_last().len() implies (
        #[trigger] b.drop_last()[k]).table == a.drop_last()[k].table by {
            assert(b[k].table == a[k].table);
        }
        lemma_same_places(a.drop_last(), b.drop_last(), id);
    }
}

/// Returns the table that an event needs to be prepared.
fn needed_table(e: &Event) -> (r: Option<TableId>)
    ensures
        match event_row(*e) {
            Some(Ok(row)) => r == Some(row.table),
            _ => r is None,
        },
{
    match e {
        Event::Insert(insert) => Some(insert.replicated_table_schema.id),
        Event::Update(update) => match update.updated_table_row {
            UpdatedTableRow::Full(_) => Some(update.replicated_table_schema.id),
            UpdatedTableRow::Partial(_) => None,
        },
        Event::Delete(delete) => match delete.old_table_row {
            Some(_) => Some(delete.replicated_table_schema.id),
            None => None,
        },
        _ => None,
    }
}

/// The schema that the table of an event is to be prepared with.
pub open spec fn schema_to_prepare(e: Event) -> Option<ReplicatedTableSchema> {
    match e {
        Event::Insert(insert) => Some(insert.replicated_table_schema),
        Event::Update(update) => Some(update.replicated_table_schema),
        Event::Delete(delete) => Some(delete.replicated_table_schema),
        _ => None,
    }
}

/// Returns the schema that the table of an event is to be prepared with.
pub fn table_to_prepare(e: &Event) -> (r: Option<&ReplicatedTableSchema>)
    ensures
        match schema_to_prepare(*e) {
            Some(schema) => r matches Some(s) && *s == schema,
            None => r is None,
        },
{
    match e {
        Event::Insert(insert) => Some(&insert.replicated_table_schema),
        Event::Update(update) => Some(&update.replicated_table_schema),
        Event::Delete(delete) => Some(&delete.replicated_table_schema),
        _ => None,
    }
}

impl Accumulator {
    fn is_ready(&self, e: &Event) -> (r: bool)
        requires
            self.wf(),
        ensures
            r == ready(*e, self.prepared()),
    {
        if !is_in_class(e, EventClass::Data) {
            return false;
        }
        match needed_table(e) {
            Some(id) => self.find(id).is_some(),
            None => true,
        }
    }

    /// Takes one event.
    fn encode_event(&mut self, event: Event) -> (r: EtlResult<()>)
        requires
            old(self).wf(),
            ready(event, old(self).prepared()),
            old(self).taken() < usize::MAX,
        ensures
            match event_error(event, old(self).prepared()) {
                Some(error) => r matches Err(e) && e@ == error,
                None => match event_row(event) {
                    Some(Ok(row)) => {
                        let rows = old(self).rows_of(row.table).push(
                            AddedRow {
                                line: row_bytes(row, old(self).prepared()[row.table])->Ok_0,
                                token: row.position,
                            },
                        );
                        match built(rows) {
                            Err(reason) => r matches Err(e) && e@ == encoding_error(reason),
                            Ok(_) => {
                                &&& r is Ok
                                &&& final(self).wf()
                                &&& final(self).taken() <= old(self).taken() + 1
                                &&& final(self).prepared() == old(self).prepared()
                                &&& forall|id: TableId|
                                    old(self).prepared().dom().contains(id) ==> #[trigger] final(
                                        self).rows_of(id) == if id == row.table {
                                        rows
                                    } else {
                                        old(self).rows_of(id)
                                    }
                            },
                        }
                    },
                    _ => r is Ok && *final(self) == *old(self),
                },
            },
    {
        match event {
            Event::Insert(insert) => self.add_row(
                insert.replicated_table_schema.id,
                None,
                &insert.table_row,
                CdcOperation::Insert,
                insert.commit_lsn,
                insert.tx_ordinal,
            ),
            Event::Update(update) => {
                let row = match update.updated_table_row {
                    UpdatedTableRow::Full(row) => row,
                    UpdatedTableRow::Partial(_) => {
                        return Err(
                            EtlError::new(
                                ErrorKind::InvalidData,
                                "Partial update rows not supported",
                                "Snowflake destination requires REPLICA IDENTITY FULL for update events".to_string(),
                            ),
                        );
                    },
                };
                self.add_row(
                    update.replicated_table_schema.id,
                    None,
                    &row,
                    CdcOperation::Update,
                    update.commit_lsn,
                    update.tx_ordinal,
                )
            },
            Event::Delete(delete) => match delete.old_table_row {
                Some(OldTableRow::Full(row)) => self.add_row(
                    delete.replicated_table_schema.id,
                    None,
                    &row,
                    CdcOperation::Delete,
                    delete.commit_lsn,
                    delete.tx_ordinal,
                ),
                Some(OldTableRow::Key(row)) => self.add_row(
                    delete.replicated_table_schema.id,
                    Some(&delete.replicated_table_schema.identity_columns),
                    &row,
                    CdcOperation::Delete,
                    delete.commit_lsn,
                    delete.tx_ordinal,
                ),
                None => Ok(()),
            },
            _ => Ok(()),
        }
    }

    /// Takes row events off the front of the stream until a schema change or a truncate comes, or
    /// an event whose table is not prepared. The first event that cannot be taken decides the
    /// error. The stream is left behind that event.
    #[verifier::rlimit(40)]
    pub fn accumulate_data_events(&mut self, events: &mut VecDeque<Event>) -> (r: EtlResult<
        Accumulated,
    >)
        requires
            old(self).wf(),
            old(self).taken() + old(events)@.len() <= usize::MAX,
        ensures
            ({
                let all = old(events)@;
                let prepared = old(self).prepared();
                let waiting = old(self).waiting();
                let n = ready_len(all, prepared) as int;
                &&& r is Ok <==> first_error(all.take(n), prepared, waiting) is None
                &&& r matches Err(e) ==> {
                    &&& first_error(all.take(n), prepared, waiting) == Some(e@)
                    &&& exists|k: int|
                        0 <= k < n && first_error(all.take(k), prepared, waiting) is None
                            && first_error(all.take(k + 1), prepared, waiting) is Some && final(
                            events)@ == #[trigger] all.skip(k + 1)
                }
                &&& r matches Ok(end) ==> {
                    &&& final(events)@ == all.skip(n)
                    &&& end == if n < all.len() && in_class(all[n], EventClass::Data) {
                        Accumulated::PrepareTable
                    } else {
                        Accumulated::All
                    }
                    &&& final(self).wf()
                    &&& final(self).taken() + final(events)@.len() <= old(self).taken() + all.len()
                    &&& final(self).prepared() == prepared
                    &&& forall|id: TableId|
                        prepared.dom().contains(id) ==> #[trigger] final(self).rows_of(id) == old(
                            self,
                        ).rows_of(id) + rows_for(all.take(n), id, prepared[id])
                }
            }),
    {
        let ghost all = events@;
        let ghost prepared = self.prepared();
        let ghost waiting = self.waiting();
        let ghost n = ready_len(all, prepared) as int;
        let ghost mut done: int = 0;
        proof {
            lemma_ready_len(all, prepared);
            assert(all.skip(0) =~= all);
            assert forall|id: TableId| #[trigger] self.rows_of(id) == old(self).rows_of(id)
                + rows_for(all.take(0), id, prepared[id]) by {
                assert(rows_for(all.take(0), id, prepared[id]) =~= Seq::<AddedRow>::empty());
                assert(self.rows_of(id) =~= self.rows_of(id) + Seq::<AddedRow>::empty());
            }
        }
        while events.len() > 0 && self.is_ready(&events[0])
            invariant
                self.wf(),
                0 <= done <= n <= all.len(),
                n == ready_len(all, prepared),
                events@ == all.skip(done),
                done + ready_len(events@, prepared) == n,
                all == old(events)@,
                prepared == old(self).prepared(),
                waiting == old(self).waiting(),
                self.prepared() == prepared,
                self.taken() + events@.len() <= old(self).taken() + all.len(),
                old(self).taken() + all.len() <= usize::MAX,
                first_error(all.take(done), prepared, waiting) is None,
                forall|id: TableId|
                    prepared.dom().contains(id) ==> #[trigger] self.rows_of(id) == old(
                        self,
                    ).rows_of(id) + rows_for(all.take(done), id, prepared[id]),
            decreases events@.len(),
        {
            let ghost before = events@;
            let ghost was = *self;
            let next = events.pop_front();
            proof {
                assert(before[0] == all[done]);
                assert(before.skip(1) =~= all.skip(done + 1));
                assert(events@ =~= before.skip(1));
                assert(all.take(done + 1).drop_last() =~= all.take(done));
                assert(all.take(done + 1).last() == all[done]);
            }
            if let Some(event) = next {
                proof {
                    if let Some(Ok(row)) = event_row(event) {
                        let base = old(self).rows_of(row.table);
                        assert(was.rows_of(row.table) == base + rows_for(
                            all.take(done),
                            row.table,
                            prepared[row.table],
                        ));
                        assert(waiting[row.table] == base);
                        assert(was.rows_of(row.table).push(
                            AddedRow {
                                line: row_bytes(row, prepared[row.table])->Ok_0,
                                token: row.position,
                            },
                        ) =~= base + rows_for(
                            all.take(done + 1),
                            row.table,
                            prepared[row.table],
                        ));
                    }
                }
                match self.encode_event(event) {
                    Ok(_) => {},
                    Err(e) => {
                        proof {
                            assert(events@ == all.skip(done + 1));
                            assert(first_error(all.take(done + 1), prepared, waiting) == Some(e@));
                            let prefix = all.take(n);
                            assert(prefix.take(done + 1) =~= all.take(done + 1));
                            lemma_error_stays(prefix, prepared, waiting, done + 1);
                        }
                        return Err(e);
                    },
                }
            }
            proof {
                assert forall|id: TableId| prepared.dom().contains(id) implies #[trigger]
                self.rows_of(id) == old(self).rows_of(id) + rows_for(
                    all.take(done + 1),
                    id,
                    prepared[id],
                ) by {
                    let base = old(self).rows_of(id);
                    let so_far = rows_for(all.take(done), id, prepared[id]);
                    assert(was.rows_of(id) == base + so_far);
                    assert(self.rows_of(id) =~= base + rows_for(
                        all.take(done + 1),
                        id,
                        prepared[id],
                    ));
                }
                done = done + 1;
            }
        }
        if events.len() > 0 && is_in_class(&events[0], EventClass::Data) {
            proof {
                assert(events@[0] == all[done]);
            }
            Ok(Accumulated::PrepareTable)
        } else {
            proof {
                if n < all.len() {
                    assert(events@[0] == all[done]);
                }
            }
            Ok(Accumulated::All)
        }
    }

    /// Takes a table's rows out, last prepared table first.
    pub fn take_table(&mut self) -> (r: Option<(TableId, RowBatchBuilder)>)
        requires
            old(self).wf(),
        ensures
            final(self).wf(),
            final(self).taken() == old(self).taken(),
            match r {
                None => {
                    &&& old(self).prepared() == Map::<TableId, Seq<ColumnSchema>>::empty()
                    &&& final(self).prepared() == old(self).prepared()
                },
                Some(t) => {
                    &&& old(self).prepared().dom().contains(t.0)
                    &&& t.1.wf()
                    &&& t.1.rows() == old(self).rows_of(t.0)
                    &&& final(self).prepared() == old(self).prepared().remove(t.0)
                    &&& forall|id: TableId|
                        final(self).prepared().dom().contains(id) ==> #[trigger] final(
                            self).rows_of(id) == old(self).rows_of(id)
                },
            },
    {
        let ghost before = self.tables@;
        match self.tables.pop() {
            None => {
                proof {
                    assert(old(self).prepared() =~= Map::<TableId, Seq<ColumnSchema>>::empty());
                }
                None
            },
            Some(entry) => {
                proof {
                    let now = self.tables@;
                    assert(now =~= before.drop_last());
                    lemma_place_is(before, entry.table, before.len() - 1);
                    assert forall|id: TableId| id != entry.table implies #[trigger] place(now, id)
                        == place(before, id) by {}
                    lemma_place(now, entry.table);
                    if place(now, entry.table) >= 0 {
                        let p = place(now, entry.table);
                        assert(before[p].table != before[before.len() - 1].table);
                    }
                    assert forall|id: TableId| -1 <= #[trigger] place(now, id) < now.len() by {
                        lemma_place(now, id);
                    }
                    assert(self.prepared() =~= old(self).prepared().remove(entry.table));
                }
                Some((entry.table, entry.builder))
            },
        }
    }
}

/// What the run of a stream does next.
#[derive(Clone, Copy, Debug, PartialEq, Eq, Structural)]
pub enum Phase {
    /// Takes row events.
    Collect,
    /// Sends the rows that it has taken.
    Flush,
    /// Follows schema changes.
    Relations,
    /// Truncates tables.
    Truncates,
}

/// What is to be done in a run.
pub enum EventStep {
    /// Prepare the table of the first event.
    PrepareTable,
    /// Send the rows of a table.
    Flush(TableId, RowBatchBuilder),
    /// Follow a schema change.
    Relation(ReplicatedTableSchema),
    /// Truncate a table.
    Truncate(ReplicatedTableSchema),
    /// The phase is over; go on with the next.
    Turn,
    /// All events are handled.
    Done,
}

/// Where the run of a stream of events stands.
pub struct EventRun {
    /// Events that are not taken yet.
    pub events: VecDeque<Event>,
    /// Rows that wait to be sent.
    pub rows: Accumulator,
    /// Tables that wait to be truncated.
    pub truncates: Vec<ReplicatedTableSchema>,
    /// What is done next.
    pub phase: Phase,
}

/// Why the row events at the front of a run cannot be taken, if they cannot.
pub open spec fn collect_error(run: EventRun) -> Option<ErrorModel> {
    if run.phase == Phase::Collect && run.events@.len() > 0 {
        let prepared = run.rows.prepared();
        first_error(
            run.events@.take(ready_len(run.events@, prepared) as int),
            prepared,
            run.rows.waiting(),
        )
    } else {
        None
    }
}

/// Where a run stands after a step.
pub open spec fn takes(before: EventRun, step: EventStep, after: EventRun) -> bool {
    let all = before.events@;
    let prepared = before.rows.prepared();
    match before.phase {
        Phase::Collect => if all.len() == 0 {
            step is Done && after == before
        } else {
            let n = ready_len(all, prepared) as int;
            &&& after.events@ == all.skip(n)
            &&& after.rows.prepared() == prepared
            &&& after.truncates == before.truncates
            &&& forall|id: TableId|
                prepared.dom().contains(id) ==> #[trigger] after.rows.rows_of(id)
                    == before.rows.rows_of(id) + rows_for(all.take(n), id, prepared[id])
            &&& if n < all.len() && in_class(all[n], EventClass::Data) {
                step is PrepareTable && after.phase == Phase::Collect
            } else {
                step is Turn && after.phase == Phase::Flush
            }
        },
        Phase::Flush => {
            &&& after.events@ == all
            &&& after.truncates == before.truncates
            &&& if prepared.dom() == Set::<TableId>::empty() {
                &&& step is Turn
                &&& after.phase == Phase::Relations
            } else {
                &&& step matches EventStep::Flush(id, builder)
                &&& after.phase == Phase::Flush
                &&& prepared.dom().contains(id)
                &&& builder.wf()
                &&& builder.rows() == before.rows.rows_of(id)
                &&& after.rows.prepared() == prepared.remove(id)
                &&& forall|other: TableId|
                    after.rows.prepared().dom().contains(other) ==> #[trigger] after.rows.rows_of(
                        other,
                    ) == before.rows.rows_of(other)
            }
        },
        Phase::Relations => {
            &&& after.rows == before.rows
            &&& if all.len() > 0 && all[0] is Relation {
                &&& step matches EventStep::Relation(schema)
                &&& all[0] matches Event::Relation(e) && schema == e.replicated_table_schema
                &&& after.events@ == all.skip(1)
                &&& after.truncates == before.truncates
                &&& after.phase == Phase::Relations
            } else {
                let n = run_len(all, EventClass::Truncate) as int;
                &&& step is Turn
                &&& after.events@ == all.skip(n)
                &&& deduplicated(after.truncates@, truncated(all.take(n)), true)
                &&& after.phase == Phase::Truncates
            }
        },
        Phase::Truncates => {
            &&& after.events@ == all
            &&& after.rows == before.rows
            &&& if before.truncates@.len() > 0 {
                &&& step matches EventStep::Truncate(schema)
                &&& schema == before.truncates@.last()
                &&& after.truncates@ == before.truncates@.drop_last()
                &&& after.phase == Phase::Truncates
            } else {
                &&& step is Turn
                &&& after.truncates@ == before.truncates@
                &&& after.phase == Phase::Collect
            }
        },
    }
}

/// Where a run stands once the table of its first event is prepared.
pub open spec fn prepares(before: EventRun, after: EventRun) -> bool {
    &&& after.events@ == before.events@
    &&& after.phase == Phase::Collect
    &&& after.truncates == before.truncates
    &&& match schema_to_prepare(before.events@[0]) {
        Some(schema) => {
            let prepared = before.rows.prepared();
            &&& after.rows.prepared() == if prepared.dom().contains(schema.id) {
                prepared
            } else {
                prepared.insert(schema.id, schema.columns@)
            }
            &&& !prepared.dom().contains(schema.id) ==> after.rows.rows_of(schema.id) == Seq::<
                AddedRow,
            >::empty()
            &&& forall|id: TableId|
                prepared.dom().contains(id) ==> #[trigger] after.rows.rows_of(id)
                    == before.rows.rows_of(id)
        },
        None => after.rows == before.rows,
    }
}

impl EventRun {
    /// Rows wait only while they are collected and sent, and truncates only while they are applied.
    pub open spec fn wf(&self) -> bool {
        &&& self.rows.wf()
        &&& self.rows.taken() + self.events@.len() <= usize::MAX
        &&& self.phase == Phase::Relations || self.phase == Phase::Truncates || (self.phase
            == Phase::Collect && self.events@.len() == 0) ==> self.rows.prepared().dom()
            == Set::<TableId>::empty()
        &&& self.phase != Phase::Truncates ==> self.truncates@.len() == 0
    }

    /// Begins to handle a stream of events.
    pub fn new(events: VecDeque<Event>) -> (r: Self)
        ensures
            r.wf(),
            r.events@ == events@,
            r.phase == Phase::Collect,
            r.rows.prepared() == Map::<TableId, Seq<ColumnSchema>>::empty(),
    {
        let count: usize = events.len();
        let run = EventRun {
            events,
            rows: Accumulator::new(),
            truncates: Vec::new(),
            phase: Phase::Collect,
        };
        proof {
            assert(count == events@.len());
            assert(run.rows.prepared().dom() =~= Set::<TableId>::empty());
        }
        run
    }

    /// Takes up that the table of the first event was prepared.
    pub fn table_prepared(&mut self)
        requires
            old(self).wf(),
            old(self).phase == Phase::Collect,
            old(self).events@.len() > 0,
        ensures
            final(self).wf(),
            prepares(*old(self), *final(self)),
    {
        if let Some(schema) = table_to_prepare(&self.events[0]) {
            self.rows.ensure_column_cache(schema);
        }
    }

    /// Says what is to be done next. Events are taken in order: rows are collected up to the next
    /// schema change or truncate and sent by table, then schema changes are followed one by one,
    /// then tables are truncated, each once and by its last schema, and so on. Nothing waits to be
    /// sent when a schema change or a truncate is applied.
    pub fn next(&mut self) -> (r: EtlResult<EventStep>)
        requires
            old(self).wf(),
        ensures
            match collect_error(*old(self)) {
                Some(error) => r matches Err(e) && e@ == error,
                None => r matches Ok(step) && takes(*old(self), step, *final(self)) && final(
                    self).wf(),
            },
            r matches Ok(step) ==> (step is Relation || step is Truncate) ==> final(
                self).rows.prepared().dom() == Set::<TableId>::empty(),
    {
        match self.phase {
            Phase::Collect => {
                if self.events.len() == 0 {
                    return Ok(EventStep::Done);
                }
                match self.rows.accumulate_data_events(&mut self.events) {
                    Ok(Accumulated::PrepareTable) => Ok(EventStep::PrepareTable),
                    Ok(Accumulated::All) => {
                        self.phase = Phase::Flush;
                        Ok(EventStep::Turn)
                    },
                    Err(e) => Err(e),
                }
            },
            Phase::Flush => match self.rows.take_table() {
                Some((id, builder)) => Ok(EventStep::Flush(id, builder)),
                None => {
                    self.phase = Phase::Relations;
                    proof {
                        assert(self.rows.prepared().dom() =~= Set::<TableId>::empty());
                    }
                    Ok(EventStep::Turn)
                },
            },
            Phase::Relations => {
                let relation = self.events.len() > 0 && is_in_class(
                    &self.events[0],
                    EventClass::Relation,
                );
                if relation {
                    let ghost all = self.events@;
                    if let Some(Event::Relation(e)) = self.events.pop_front() {
                        proof {
                            assert(self.events@ =~= all.skip(1));
                        }
                        return Ok(EventStep::Relation(e.replicated_table_schema));
                    }
                }
                proof {
                    law_run_is_maximal(self.events@, EventClass::Truncate);
                }
                self.truncates = take_truncates(&mut self.events, true);
                self.phase = Phase::Truncates;
                Ok(EventStep::Turn)
            },
            Phase::Truncates => match self.truncates.pop() {
                Some(schema) => Ok(EventStep::Truncate(schema)),
                None => {
                    self.phase = Phase::Collect;
                    Ok(EventStep::Turn)
                },
            },
        }
    }
}

/// Why a copied row cannot be sent, if it cannot.
pub open spec fn copy_error(columns: Seq<ColumnSchema>, row: TableRow) -> Option<ErrorModel> {
    match encoded_row(columns, row.values@, CdcOperation::Insert, sequence_text(0, 0)) {
        Err(reason) => Some(encoding_error(reason)),
        Ok(_) => None,
    }
}

/// The rows of a copy as they are added: inserts at position zero.
pub open spec fn copied(columns: Seq<ColumnSchema>, rows: Seq<TableRow>) -> Seq<AddedRow> {
    Seq::new(
        rows.len(),
        |i: int|
            AddedRow {
                line: encoded_row(
                    columns,
                    rows[i].values@,
                    CdcOperation::Insert,
                    sequence_text(0, 0),
                )->Ok_0,
                token: sequence_text(0, 0),
            },
    )
}

/// Why the rows of a copy cannot be taken, if they cannot: the error of the first row that cannot be
/// encoded or compressed.
pub open spec fn copy_failure(columns: Seq<ColumnSchema>, rows: Seq<TableRow>) -> Option<ErrorModel>
    decreases rows.len(),
{
    if rows.len() == 0 {
        None
    } else {
        match copy_failure(columns, rows.drop_last()) {
            Some(e) => Some(e),
            None => match copy_error(columns, rows.last()) {
                Some(e) => Some(e),
                None => match built(copied(columns, rows)) {
                    Err(reason) => Some(encoding_error(reason)),
                    Ok(_) => None,
                },
            },
        }
    }
}

proof fn lemma_copy_failure_stays(columns: Seq<ColumnSchema>, rows: Seq<TableRow>, n: int)
    requires
        0 <= n <= rows.len(),
        copy_failure(columns, rows.take(n)) is Some,
    ensures
        copy_failure(columns, rows) == copy_failure(columns, rows.take(n)),
    decreases rows.len() - n,
{
    if n < rows.len() {
        assert(rows.take(n + 1).drop_last() =~= rows.take(n));
        lemma_copy_failure_stays(columns, rows, n + 1);
    } else {
        assert(rows.take(n) =~= rows);
    }
}

/// Nothing is recorded about a table whose schema changes.
pub open spec fn missing_metadata_error(schema: ReplicatedTableSchema) -> ErrorModel {
    error_of(
        ErrorKind::CorruptedTableSchema,
        "Missing destination table metadata"@,
        "No destination table metadata found for table "@ + decimal(schema.id.0 as nat)
            + " when processing schema change"@,
    )
}

/// Checks an announced schema against what is recorded. Returns whether it differs.
pub fn relation_changes_schema(
    schema: &ReplicatedTableSchema,
    metadata: Option<&DestinationTableMetadata>,
) -> (r: EtlResult<bool>)
    ensures
        match metadata {
            None => r matches Err(e) && e@ == missing_metadata_error(*schema),
            Some(m) => r == Ok::<bool, EtlError>(!up_to_date(*m, *schema)),
        },
{
    match metadata {
        None => {
            let id = decimal_of(schema.id.0 as u128);
            Err(
                EtlError::new(
                    ErrorKind::CorruptedTableSchema,
                    "Missing destination table metadata",
                    cat3(
                        "No destination table metadata found for table ",
                        id.as_str(),
                        " when processing schema change",
                    ),
                ),
            )
        },
        Some(m) => Ok(!is_up_to_date(m, schema)),
    }
}

/// Makes the error for a schema that the store does not have.
pub fn missing_schema_failure(table_id: TableId, snapshot_id: &SnapshotId) -> (r: EtlError)
    ensures
        r@ == error_of(
            ErrorKind::InvalidState,
            "Old schema not found"@,
            "Could not find schema for table "@ + decimal(table_id.0 as nat) + " at snapshot_id "@
                + snapshot_id@,
        ),
{
    let id = decimal_of(table_id.0 as u128);
    EtlError::new(
        ErrorKind::InvalidState,
        "Old schema not found",
        cat4("Could not find schema for table ", id.as_str(), " at snapshot_id ", snapshot_id.as_str()),
    )
}

/// A step of following a schema change.
#[derive(Clone, Copy, Debug, PartialEq, Eq, Structural)]
pub enum RelationAction {
    /// Record the new schema as being applied.
    StoreApplying,
    /// Run the statement at this place.
    Execute(usize),
    /// Record the new schema as applied.
    StoreApplied,
    /// Stop with the plan's collision.
    Fail,
    /// Open the table's channel again.
    Refresh,
}

/// How to follow a schema change.
#[derive(Debug)]
pub struct RelationPlan {
    /// Name of the table.
    pub table: String,
    /// What is recorded about the table, first as being applied, then as applied.
    pub metadata: DestinationTableMetadata,
    /// Statements, in order.
    pub statements: Vec<String>,
    /// A source column now has a reserved name.
    pub collision: Option<EtlError>,
    /// The steps, in order; each is taken only if those before it succeeded.
    pub actions: Vec<RelationAction>,
}

/// The steps of a schema change with `n` statements.
pub open spec fn relation_steps(n: nat, collides: bool) -> Seq<RelationAction> {
    seq![RelationAction::StoreApplying] + Seq::new(n, |i: int| RelationAction::Execute(i as usize))
        + seq![
        RelationAction::StoreApplied,
        if collides {
            RelationAction::Fail
        } else {
            RelationAction::Refresh
        },
    ]
}

/// What a step of a schema change records about the table.
pub open spec fn relation_records() -> spec_fn(RelationAction) -> Option<RecordStatus> {
    |action: RelationAction|
        match action {
            RelationAction::StoreApplying => Some(RecordStatus::Applying),
            RelationAction::StoreApplied => Some(RecordStatus::Applied),
            _ => None,
        }
}

/// A schema change ends with the error of the first step that fails. Where that is a statement, or
/// where the end of the change cannot be recorded, the table stays recorded as being changed: no
/// record of an applied change precedes the failed step. A collision, and a channel that cannot be
/// opened again, are met once the change is recorded as applied.
pub proof fn law_failed_change_stays_applying(
    n: nat,
    collides: bool,
    states: Seq<(PlanRun, PlanStep)>,
    results: Seq<EtlResult<()>>,
    before: Option<RecordStatus>,
)
    requires
        is_plan_run(relation_steps(n, collides).len(), states, results),
    ensures
        ({
            let steps = relation_steps(n, collides);
            let k = succeeded(results) as int;
            let record = recorded_after(relation_records(), steps.take(k), before);
            &&& failed(results) ==> {
                &&& states.last().1 == PlanStep::Fail(results.last()->Err_0)
                &&& steps[k] is StoreApplying ==> record == before
                &&& steps[k] is Execute || steps[k] is StoreApplied ==> record == Some(
                    RecordStatus::Applying,
                ) && !steps.take(k).contains(RelationAction::StoreApplied)
                &&& steps[k] is Fail || steps[k] is Refresh ==> record == Some(
                    RecordStatus::Applied,
                )
            }
            &&& states.last().1 is Done ==> record == Some(RecordStatus::Applied)
        }),
{
    let steps = relation_steps(n, collides);
    let k = succeeded(results) as int;
    law_failed_step_ends_the_plan(steps.len(), states, results);
    lemma_recorded(relation_records(), steps, 0, n as int + 1, k, before);
}

/// Postgres replication to Snowflake via Snowpipe Streaming.
///
/// Translates replication events into client operations.
#[derive(Debug)]
pub struct Destination {
    /// The client.
    pub client: Client,
}

impl Destination {
    /// Create a new destination.
    pub fn new(client: Client) -> (r: Self)
        ensures
            r.client == client,
    {
        Destination { client }
    }

    /// Returns the name of this kind of destination.
    pub fn name() -> (r: &'static str)
        ensures
            r@ == "snowflake"@,
    {
        "snowflake"
    }

    /// Says how to make a table ready for rows. A table whose channel is open is ready.
    pub fn prepare_table_for_streaming(&self, schema: &ReplicatedTableSchema) -> (r: EtlResult<
        Option<Preparation>,
    >)
        ensures
            self.client.channels.channel(schema.id) is Some ==> r == Ok::<
                Option<Preparation>,
                EtlError,
            >(None),
            r is Err <==> self.client.channels.channel(schema.id) is None && exists|i: int|
                0 <= i < schema.columns@.len() && reserved(#[trigger] schema.columns@[i]),
            r matches Err(e) ==> exists|i: int| #[trigger]
                first_reserved(schema.columns@, i) && e@ == collision_error(
                    schema.columns@[i].name@,
                ),
            r matches Ok(None) ==> self.client.channels.channel(schema.id) is Some,
            r matches Ok(Some(p)) ==> {
                &&& p.table@ == table_text(*schema)
                &&& p.setup.create_table@ == "CREATE TABLE IF NOT EXISTS "@
                    + self.client.sql_client.full_name(p.table@) + " ("@ + joined(
                    all_column_defs(schema.columns@),
                    ", "@,
                ) + ") ENABLE_SCHEMA_EVOLUTION = TRUE"@
                &&& self.client.new_handle(p.setup.handle, p.table@)
                &&& p.metadata.records(p.table@, *schema)
            },
    {
        let table = match snowflake_table_name(schema) {
            Ok(table) => table,
            Err(e) => {
                return Err(e);
            },
        };
        match self.client.ensure_table(schema.id, table.as_str(), schema.columns.as_slice()) {
            Ok(Some(setup)) => {
                let metadata = DestinationTableMetadata::of(table.clone(), schema);
                Ok(Some(Preparation { table, setup, metadata }))
            },
            Ok(None) => Ok(None),
            Err(e) => Err(e.to_etl_error()),
        }
    }

    /// Encodes the rows that are written during the initial snapshot (table copy) phase.
    ///
    /// All rows are stamped as inserts with a zero offset since the table starts empty.
    pub fn write_table_rows(columns: &Vec<ColumnSchema>, rows: &Vec<TableRow>) -> (r: EtlResult<
        Vec<RowBatch>,
    >)
        ensures
            match copy_failure(columns@, rows@) {
                Some(error) => r matches Err(e) && e@ == error,
                None => match batches_for(copied(columns@, rows@)) {
                    Ok(models) => r matches Ok(batches) && batch_models(batches@) == models
                        && batched(batches@, copied(columns@, rows@)),
                    Err(reason) => r matches Err(e) && e@ == encoding_error(reason),
                },
            },
    {
        let zero = OffsetToken::zero();
        let mut builder = RowBatchBuilder::new();
        let n: usize = rows.len();
        let mut i: usize = 0;
        proof {
            assert(builder.rows() =~= copied(columns@, rows@.take(0)));
        }
        while i < n
            invariant
                i <= n,
                n == rows@.len(),
                zero.0@ == sequence_text(0, 0),
                builder.wf(),
                builder.pending() <= i,
                builder.rows() == copied(columns@, rows@.take(i as int)),
                copy_failure(columns@, rows@.take(i as int)) is None,
            decreases n - i,
        {
            let cdc = CdcMeta::new(CdcOperation::Insert, zero.as_str());
            let ghost before = builder.rows();
            proof {
                let now = rows@.take(i + 1);
                assert(now.drop_last() =~= rows@.take(i as int));
                assert(now.last() == rows@[i as int]);
                assert(copied(columns@, now) =~= before.push(copied(columns@, now).last()));
            }
            match builder.push_row(columns.as_slice(), &rows[i], cdc, &zero) {
                Ok(_) => {},
                Err(e) => {
                    let error = e.to_etl_error();
                    proof {
                        assert(copy_failure(columns@, rows@.take(i + 1)) == Some(error@));
                        lemma_copy_failure_stays(columns@, rows@, i + 1);
                    }
                    return Err(error);
                },
            }
            i = i + 1;
        }
        proof {
            assert(rows@.take(n as int) =~= rows@);
        }
        match builder.finish() {
            Ok(batches) => Ok(batches),
            Err(e) => Err(e.to_etl_error()),
        }
    }

    /// Begins to handle a stream of events.
    pub fn process_events(events: VecDeque<Event>) -> (r: EventRun)
        ensures
            r.wf(),
            r.events@ == events@,
            r.phase == Phase::Collect,
            r.rows.prepared() == Map::<TableId, Seq<ColumnSchema>>::empty(),
    {
        EventRun::new(events)
    }

    /// Returns the last offset committed by Snowflake for this table's channel, which must be
    /// open, given how asking for its status went.
    pub fn committed_offset(
        &self,
        table_id: TableId,
        status: SnowflakeResult<ChannelStatusResponse>,
    ) -> (r: EtlResult<Option<OffsetToken>>)
        ensures
            match (self.client.channels.channel(table_id), status) {
                (None, _) => r matches Err(e) && exists|inner: Error| #[trigger]
                    no_channel(inner, table_id) && e@ == inner.etl(),
                (Some(_), Err(inner)) => r matches Err(e) && e@ == inner.etl(),
                (Some(_), Ok(status)) => r == Ok::<Option<OffsetToken>, EtlError>(
                    status.offset_token,
                ),
            },
    {
        match self.client.channels.get_channel(table_id) {
            Ok(_) => match ChannelHandle::committed_offset(status) {
                Ok(token) => Ok(token),
                Err(e) => Err(e.to_etl_error()),
            },
            Err(e) => Err(e.to_etl_error()),
        }
    }

    /// Returns the statement that truncates a table, whose channel must be open.
    pub fn truncate_table(&self, schema: &ReplicatedTableSchema) -> (r: EtlResult<String>)
        ensures
            match self.client.channels.channel(schema.id) {
                Some(_) => r matches Ok(sql) && sql@ == "TRUNCATE TABLE "@
                    + self.client.sql_client.full_name(table_text(*schema)),
                None => r matches Err(e) && exists|inner: Error| #[trigger]
                    no_channel(inner, schema.id) && e@ == inner.etl(),
            },
    {
        let table = match snowflake_table_name(schema) {
            Ok(table) => table,
            Err(e) => {
                return Err(e);
            },
        };
        match self.client.truncate_table(schema.id, table.as_str()) {
            Ok(sql) => Ok(sql),
            Err(e) => Err(e.to_etl_error()),
        }
    }

    /// Says how to drop a table and its channel before a fresh copy.
    pub fn drop_table_for_copy(&mut self, schema: &ReplicatedTableSchema) -> (r: EtlResult<
        TableDrop,
    >)
        ensures
            final(self).client.same_but_channels(&old(self).client),
            forall|id: TableId| #[trigger]
                final(self).client.channels.channel(id) == if id == schema.id {
                    None
                } else {
                    old(self).client.channels.channel(id)
                },
            r matches Ok(plan) && {
                &&& match old(self).client.channels.channel(schema.id) {
                    Some(handle) => plan.handle == handle,
                    None => old(self).client.new_handle(plan.handle, table_text(*schema)),
                }
                &&& plan.drop_table@ == "DROP TABLE IF EXISTS "@ + old(
                    self,
                ).client.sql_client.full_name(table_text(*schema))
            },
    {
        match snowflake_table_name(schema) {
            Ok(table) => Ok(self.client.drop_table_for_copy(schema.id, table.as_str())),
            Err(e) => Err(e),
        }
    }

    /// Plans how to follow a schema change, given what is recorded about the table and the
    /// difference to the announced schema. Names of columns are checked only once the change is
    /// applied.
    pub fn handle_relation_event(
        &self,
        new_schema: &ReplicatedTableSchema,
        metadata: &DestinationTableMetadata,
        diff: &SchemaDiff,
    ) -> (r: EtlResult<RelationPlan>)
        ensures
            r matches Ok(plan) && {
                &&& plan.table@ == table_text(*new_schema)
                &&& plan.metadata.records_change(*metadata, *new_schema)
                &&& views(plan.statements@) == self.client.schema_statements(plan.table@, *diff)
                &&& plan.collision is Some <==> exists|i: int|
                    0 <= i < new_schema.columns@.len() && reserved(#[trigger] new_schema.columns@[i])
                &&& plan.collision matches Some(e) ==> exists|i: int| #[trigger]
                    first_reserved(new_schema.columns@, i) && e@ == collision_error(
                        new_schema.columns@[i].name@,
                    )
                &&& plan.actions@ == relation_steps(plan.statements@.len(), plan.collision is Some)
            },
    {
        let table = match snowflake_table_name(new_schema) {
            Ok(table) => table,
            Err(e) => {
                return Err(e);
            },
        };
        let recorded = metadata.with_schema_change(new_schema);
        let statements = self.client.apply_schema_diff(table.as_str(), diff);
        let collision = match validate_no_cdc_collisions(new_schema.columns.as_slice()) {
            Ok(_) => None,
            Err(e) => {
                proof {
                    let i = choose|i: int| #[trigger]
                        first_reserved(new_schema.columns@, i) && collision(
                            e,
                            new_schema.columns@[i].name@,
                        );
                    assert(reserved(new_schema.columns@[i]));
                }
                Some(e.to_etl_error())
            },
        };
        let mut actions: Vec<RelationAction> = Vec::new();
        actions.push(RelationAction::StoreApplying);
        let n: usize = statements.len();
        let mut i: usize = 0;
        while i < n
            invariant
                i <= n,
                actions@ == seq![RelationAction::StoreApplying] + Seq::new(
                    i as nat,
                    |j: int| RelationAction::Execute(j as usize),
                ),
            decreases n - i,
        {
            actions.push(RelationAction::Execute(i));
            i = i + 1;
            proof {
                assert(actions@ =~= seq![RelationAction::StoreApplying] + Seq::new(
                    i as nat,
                    |j: int| RelationAction::Execute(j as usize),
                ));
            }
        }
        actions.push(RelationAction::StoreApplied);
        actions.push(
            if collision.is_some() {
                RelationAction::Fail
            } else {
                RelationAction::Refresh
            },
        );
        proof {
            assert(actions@ =~= relation_steps(n as nat, collision is Some));
        }
        Ok(RelationPlan { table, metadata: recorded, statements, collision, actions })
    }
}

/// Every insert, every full update and every delete whose old row is known is one row with the values
/// of the event, the operation that it was, and its position. A delete of which only the key is known
/// carries the columns of the replica identity; every other row those of the table.
pub proof fn law_changes_are_rows(e: Event)
    ensures
        e matches Event::Insert(insert) ==> (event_row(e) matches Some(Ok(row)) && row.operation
            == CdcOperation::Insert && row.cells == insert.table_row.values@ && row.columns is None
            && row.table == insert.replicated_table_schema.id && row.position == sequence_text(
            insert.commit_lsn.0 as nat,
            insert.tx_ordinal as nat,
        )),
        e matches Event::Update(update) ==> (update.updated_table_row matches UpdatedTableRow::Full(
            new_row,
        ) ==> (event_row(e) matches Some(Ok(row)) && row.operation == CdcOperation::Update
            && row.cells == new_row.values@ && row.columns is None && row.table
            == update.replicated_table_schema.id && row.position == sequence_text(
            update.commit_lsn.0 as nat,
            update.tx_ordinal as nat,
        ))),
        e matches Event::Delete(delete) ==> (delete.old_table_row matches Some(old_row) ==> (
        event_row(e) matches Some(Ok(row)) && row.operation == CdcOperation::Delete && row.table
            == delete.replicated_table_schema.id && row.position == sequence_text(
            delete.commit_lsn.0 as nat,
            delete.tx_ordinal as nat,
        ) && (old_row matches OldTableRow::Full(full) ==> row.cells == full.values@ && row.columns
            is None) && (old_row matches OldTableRow::Key(image) ==> row.cells == image.values@
            && row.columns == Some(delete.replicated_table_schema.identity_columns@)))),
        e matches Event::Delete(delete) ==> (delete.old_table_row is None ==> event_row(e) is None),
        e matches Event::Update(update) ==> (update.updated_table_row is Partial ==> (event_row(e)
            matches Some(Err(error)) && error.kind == ErrorKind::InvalidData && error.description
            == "Partial update rows not supported"@)),
        e is Begin || e is Commit || e is Relation || e is Truncate || e is Unsupported ==> event_row(
            e,
        ) is None,
{
}

/// A table is called by its stringified name in uppercase.
pub proof fn law_tables_are_called_in_uppercase(schema: ReplicatedTableSchema)
    ensures
        table_text(schema) == uppercased(
            doubled(schema.name.schema@, '_') + "_"@ + doubled(schema.name.name@, '_'),
        ),
{
}

/// A row is written with its own columns where it has some, and otherwise with those that its table was
/// prepared with.
pub proof fn law_rows_are_written_with_their_columns(
    row: RowModel,
    prepared: Seq<ColumnSchema>,
    own: Seq<ColumnSchema>,
)
    ensures
        row.columns is None ==> row_bytes(row, prepared) == encoded_row(
            prepared,
            row.cells,
            row.operation,
            row.position,
        ),
        row.columns == Some(own) ==> row_bytes(row, prepared) == encoded_row(
            own,
            row.cells,
            row.operation,
            row.position,
        ),
{
}

/// The rows of a table are those of its events, in order, each with its line and its position.
pub proof fn law_rows_follow_the_events(
    events: Seq<Event>,
    e: Event,
    id: TableId,
    prepared: Seq<ColumnSchema>,
)
    ensures
        rows_for(Seq::empty(), id, prepared).len() == 0,
        event_row(e) matches Some(Ok(row)) ==> (row.table == id ==> rows_for(
            events.push(e),
            id,
            prepared,
        ).len() == rows_for(events, id, prepared).len() + 1 && rows_for(
            events.push(e),
            id,
            prepared,
        ).drop_last() == rows_for(events, id, prepared) && rows_for(
            events.push(e),
            id,
            prepared,
        ).last().token == row.position && (row_bytes(row, prepared) matches Ok(line) ==> rows_for(
            events.push(e),
            id,
            prepared,
        ).last().line == line)),
        event_row(e) matches Some(Ok(row)) ==> (row.table != id ==> rows_for(
            events.push(e),
            id,
            prepared,
        ) == rows_for(events, id, prepared)),
        !(event_row(e) matches Some(Ok(_))) ==> rows_for(events.push(e), id, prepared) == rows_for(
            events,
            id,
            prepared,
        ),
{
    assert(events.push(e).drop_last() =~= events);
    match event_row(e) {
        Some(Ok(row)) => {
            if row.table == id {
                assert(rows_for(events.push(e), id, prepared).drop_last() =~= rows_for(
                    events,
                    id,
                    prepared,
                ));
            }
        },
        _ => {},
    }
}

/// An event can be taken if and only if it is no announcement and no truncate and its table, if it
/// writes a row, is prepared; the events that are taken at once are those before the first that cannot.
pub proof fn law_events_wait_for_their_table(
    events: Seq<Event>,
    prepared: PreparedColumns,
    i: int,
)
    ensures
        forall|e: Event|
            #[trigger] ready(e, prepared) ==> !(e is Relation) && !(e is Truncate) && (event_row(e)
                matches Some(Ok(row)) ==> prepared.dom().contains(row.table)),
        forall|e: Event|
            !(e is Relation) && !(e is Truncate) && (event_row(e) matches Some(Ok(row))
                ==> prepared.dom().contains(row.table)) ==> #[trigger] ready(e, prepared),
        ready_len(events, prepared) <= events.len(),
        0 <= i < ready_len(events, prepared) ==> ready(events[i], prepared),
        ready_len(events, prepared) < events.len() ==> !ready(
            events[ready_len(events, prepared) as int],
            prepared,
        ),
    decreases events.len(),
{
    if events.len() > 0 && ready(events[0], prepared) {
        let rest = events.skip(1);
        law_events_wait_for_their_table(rest, prepared, i - 1);
        if 0 < i < ready_len(events, prepared) {
            assert(rest[i - 1] == events[i]);
        }
        if ready_len(events, prepared) < events.len() {
            assert(rest[ready_len(rest, prepared) as int] == events[ready_len(
                events,
                prepared,
            ) as int]);
        }
    }
}

/// A table is prepared as the event that writes its first row sees it.
pub proof fn law_tables_are_prepared_by_their_changes(e: Event)
    ensures
        e matches Event::Insert(insert) ==> schema_to_prepare(e) == Some(
            insert.replicated_table_schema,
        ),
        e matches Event::Update(update) ==> schema_to_prepare(e) == Some(
            update.replicated_table_schema,
        ),
        e matches Event::Delete(delete) ==> schema_to_prepare(e) == Some(
            delete.replicated_table_schema,
        ),
        !(e is Insert) && !(e is Update) && !(e is Delete) ==> schema_to_prepare(e) is None,
{
}

/// Copied rows are inserts at the very first position.
pub proof fn law_copied_rows_are_inserts(columns: Seq<ColumnSchema>, rows: Seq<TableRow>)
    ensures
        copied(columns, rows).len() == rows.len(),
        forall|i: int|
            0 <= i < rows.len() ==> (#[trigger] copied(columns, rows)[i]).token == sequence_text(
                0,
                0,
            ),
        forall|i: int|
            0 <= i < rows.len() ==> (encoded_row(
                columns,
                rows[i].values@,
                CdcOperation::Insert,
                sequence_text(0, 0),
            ) matches Ok(line) ==> (#[trigger] copied(columns, rows)[i]).line == line),
{
}

/// A schema change is recorded as begun before the first statement, runs every statement once and in
/// order, and is recorded as done behind the last; then the channel is opened anew, unless a column has
/// a reserved name, which is an error.
pub proof fn law_change_is_recorded_around_its_statements(n: usize)
    ensures
        ({
            let steps = relation_steps(n as nat, false);
            let colliding = relation_steps(n as nat, true);
            &&& steps.len() == n + 3
            &&& colliding.len() == n + 3
            &&& steps[0] == RelationAction::StoreApplying
            &&& colliding[0] == RelationAction::StoreApplying
            &&& forall|i: int|
                1 <= i <= n ==> #[trigger] steps[i] == RelationAction::Execute((i - 1) as usize)
            &&& forall|i: int|
                1 <= i <= n ==> #[trigger] colliding[i] == RelationAction::Execute((i - 1) as usize)
            &&& steps[n + 1] == RelationAction::StoreApplied
            &&& colliding[n + 1] == RelationAction::StoreApplied
            &&& steps[n + 2] == RelationAction::Refresh
            &&& colliding[n + 2] == RelationAction::Fail
        }),
        (relation_records())(RelationAction::StoreApplying) == Some(RecordStatus::Applying),
        (relation_records())(RelationAction::StoreApplied) == Some(RecordStatus::Applied),
        (relation_records())(RelationAction::Refresh) is None,
        (relation_records())(RelationAction::Fail) is None,
{
}

/// Rows are sent before schema changes are followed, and those before tables are truncated; when all is
/// done, the next events are taken.
pub proof fn law_phases_follow_each_other(before: EventRun, step: EventStep, after: EventRun)
    requires
        takes(before, step, after),
    ensures
        step is Done ==> before.phase == Phase::Collect && before.events@.len() == 0,
        step is PrepareTable ==> before.phase == Phase::Collect && after.phase == Phase::Collect,
        step is Flush ==> before.phase == Phase::Flush && after.phase == Phase::Flush,
        step is Relation ==> before.phase == Phase::Relations && after.phase == Phase::Relations,
        step is Truncate ==> before.phase == Phase::Truncates && after.phase == Phase::Truncates,
        step is Turn ==> match before.phase {
            Phase::Collect => after.phase == Phase::Flush,
            Phase::Flush => after.phase == Phase::Relations,
            Phase::Relations => after.phase == Phase::Truncates,
            Phase::Truncates => after.phase == Phase::Collect,
        },
{
}

/// A table without a record is a broken schema, and the error names the table.
pub proof fn law_missing_records_are_errors(schema: ReplicatedTableSchema)
    ensures
        missing_metadata_error(schema).kind == ErrorKind::CorruptedTableSchema,
        missing_metadata_error(schema).description == "Missing destination table metadata"@,
        missing_metadata_error(schema).detail matches Some(detail) && detail.take(
            ("No destination table metadata found for table "@ + decimal(schema.id.0 as nat)).len()
                as int,
        ) == "No destination table metadata found for table "@ + decimal(schema.id.0 as nat),
        missing_metadata_error(schema).source is None,
{
    let head = "No destination table metadata found for table "@ + decimal(schema.id.0 as nat);
    assert(missing_metadata_error(schema).detail->Some_0.take(head.len() as int) =~= head);
}

/// Reserved names are errors of the configuration, rows that cannot be encoded and partial updates are
/// invalid data.
pub proof fn law_errors_have_these_kinds(text: Seq<char>)
    ensures
        collision_error(text).kind == ErrorKind::ConfigError,
        collision_error(text).detail == Some(
            "Configuration error: "@ + ("source column '"@ + text
                + "' collides with reserved CDC column name"@),
        ),
        encoding_error(text).kind == ErrorKind::InvalidData,
        encoding_error(text).detail == Some("Encoding error: "@ + text),
        partial_update_error().kind == ErrorKind::InvalidData,
        partial_update_error().description == "Partial update rows not supported"@,
{
}

/// A copied row fails if and only if it cannot be encoded, with the reason.
pub proof fn law_copies_fail_by_encoding(columns: Seq<ColumnSchema>, row: TableRow)
    ensures
        copy_error(columns, row) is None <==> encoded_row(
            columns,
            row.values@,
            CdcOperation::Insert,
            sequence_text(0, 0),
        ) is Ok,
        encoded_row(columns, row.values@, CdcOperation::Insert, sequence_text(0, 0)) matches Err(
            reason,
        ) ==> copy_error(columns, row) == Some(encoding_error(reason)),
{
}

/// The place of a table is the last one of it, and it has none if and only if it does not occur.
pub proof fn law_places_of_tables(tables: Seq<TableRows>, id: TableId)
    ensures
        -1 <= place(tables, id) < tables.len(),
        place(tables, id) >= 0 ==> tables[place(tables, id)].table == id,
        forall|i: int|
            place(tables, id) < i < tables.len() ==> (#[trigger] tables[i]).table != id,
    decreases tables.len(),
{
    if tables.len() > 0 && tables.last().table != id {
        let rest = tables.drop_last();
        law_places_of_tables(rest, id);
        assert forall|i: int| place(tables, id) < i < tables.len() implies (
        #[trigger] tables[i]).table != id by {
            if i < rest.len() {
                assert(rest[i] == tables[i]);
            }
        }
    }
}

/// A prepared table is created under its name, with its own channel, and is recorded under its version;
/// one with a channel needs nothing.
pub proof fn law_tables_are_prepared_once(
    destination: &Destination,
    schema: &ReplicatedTableSchema,
    r: EtlResult<Option<Preparation>>,
)
    requires
        call_ensures(Destination::prepare_table_for_streaming, (destination, schema), r),
    ensures
        destination.client.channels.channel(schema.id) is Some <==> r is Ok && r->Ok_0 is None,
        r matches Err(e) ==> e@.kind == ErrorKind::ConfigError,
        r matches Ok(Some(p)) ==> {
            &&& p.table@ == table_text(*schema)
            &&& p.setup.handle.table@ == p.table@
            &&& p.metadata.destination_table_id@ == p.table@
            &&& p.metadata.snapshot_id@ == schema.snapshot_id@
            &&& p.metadata.replication_mask@ == schema.replication_mask@
            &&& p.metadata.previous_snapshot_id is None
        },
{
}

/// A changed table is recorded under the new version with the old one kept, and changed by one
/// statement for each difference; a reserved name stops the change.
pub proof fn law_changed_tables_are_recorded(
    destination: &Destination,
    schema: &ReplicatedTableSchema,
    metadata: &DestinationTableMetadata,
    diff: &SchemaDiff,
    r: EtlResult<RelationPlan>,
)
    requires
        call_ensures(
            Destination::handle_relation_event,
            (destination, schema, metadata, diff),
            r,
        ),
    ensures
        r matches Ok(plan) && {
            &&& plan.table@ == table_text(*schema)
            &&& plan.metadata.destination_table_id@ == metadata.destination_table_id@
            &&& plan.metadata.snapshot_id@ == schema.snapshot_id@
            &&& plan.metadata.replication_mask@ == schema.replication_mask@
            &&& plan.metadata.previous_snapshot_id matches Some(id) && id@
                == metadata.snapshot_id@
            &&& plan.statements@.len() == diff.columns_to_add@.len()
                + diff.columns_to_rename@.len() + diff.columns_to_remove@.len()
            &&& plan.collision is Some <==> exists|i: int|
                0 <= i < schema.columns@.len() && reserved(#[trigger] schema.columns@[i])
        },
{
    assert(views(r->Ok_0.statements@).len() == r->Ok_0.statements@.len());
}

/// A missing version is an invalid state, and the error names the table and the version.
pub proof fn law_missing_versions_are_named(table: TableId, snapshot: &SnapshotId, r: EtlError)
    requires
        call_ensures(missing_schema_failure, (table, snapshot), r),
    ensures
        r@.kind == ErrorKind::InvalidState,
        r@.description == "Old schema not found"@,
        r@.detail == Some(
            "Could not find schema for table "@ + decimal(table.0 as nat) + " at snapshot_id "@
                + snapshot@,
        ),
{
}

/// A prepared table is remembered with the columns of its first schema; no other table changes.
pub proof fn law_prepared_tables_are_remembered(
    accumulator: &mut Accumulator,
    schema: &ReplicatedTableSchema,
    other: TableId,
)
    requires
        call_ensures(Accumulator::ensure_column_cache, (accumulator, schema), ()),
        other != schema.id,
    ensures
        final(accumulator).prepared().dom().contains(schema.id),
        !old(accumulator).prepared().dom().contains(schema.id) ==> final(accumulator).prepared()[
        schema.id] == schema.columns@ && final(accumulator).rows_of(schema.id).len() == 0,
        old(accumulator).prepared().dom().contains(schema.id) ==> final(accumulator).prepared()
            == old(accumulator).prepared(),
        final(accumulator).prepared().dom().contains(other) == old(
            accumulator,
        ).prepared().dom().contains(other),
        old(accumulator).prepared().dom().contains(other) ==> final(accumulator).rows_of(other)
            == old(accumulator).rows_of(other),
{
}

/// A table that is taken out comes with its rows and is not prepared any more; none is taken out only
/// where none is prepared.
pub proof fn law_taken_tables_come_with_their_rows(
    accumulator: &mut Accumulator,
    r: Option<(TableId, RowBatchBuilder)>,
)
    requires
        call_ensures(Accumulator::take_table, (accumulator,), r),
    ensures
        r is None ==> old(accumulator).prepared() == Map::<TableId, Seq<ColumnSchema>>::empty(),
        r matches Some(t) ==> old(accumulator).prepared().dom().contains(t.0)
            && !final(accumulator).prepared().dom().contains(t.0) && t.1.rows() == old(
            accumulator,
        ).rows_of(t.0),
{
}

} // verus!
