//! Passes over change events: rows first, then schema changes, then truncates.
use std::collections::VecDeque;

use vstd::prelude::*;

use crate::batching::{
    add_rows, announced, deduplicated, grouping, in_class, is_in_class, law_pass_takes_an_event,
    law_run_is_maximal, pass_len, row_views, run_len, take_relations, take_truncates, truncated,
    Addition, EventClass, TableBatch,
};
use crate::clickhouse::config::ClickHouseEngine;
use crate::clickhouse::rows::{
    expand_key_row, expanded, law_written_row_tells_what_the_change_did, written_row, CdcOperation,
    PendingModel, PendingRow, ValueModel,
};
use crate::error::{error_of, ErrorKind, ErrorModel, EtlError, EtlResult};
use crate::event::{Event, OldTableRow, UpdatedTableRow};
use crate::schema::{ReplicatedTableSchema, TableId};
use crate::stream::{lemma_pass_is_in_order, pass_effects, Effect, Writing};
use crate::text::cat3;

verus! {

/// Work of one pass, in the order in which it is to be done.
#[derive(Debug)]
pub struct ClickHousePass {
    /// Rows to insert, by table.
    pub tables: Vec<TableBatch<PendingRow>>,
    /// Schema changes to apply after the rows.
    pub relations: Vec<ReplicatedTableSchema>,
    /// Tables to truncate after the schema changes.
    pub truncates: Vec<ReplicatedTableSchema>,
}

/// An update came without the whole new row.
pub open spec fn partial_update_error(schema: ReplicatedTableSchema) -> ErrorModel {
    error_of(
        ErrorKind::InvalidState,
        "ClickHouse update requires a full new row image"@,
        "Table '"@ + schema.name.text()
            + "' emitted a partial update row: some column values could not be reconstructed. Writing it would record NULL for the missing columns and misrepresent the source. Configuring the source so that all column values are available in the new- or old-row image (e.g. REPLICA IDENTITY FULL) prevents this."@,
    )
}

/// The row that an event adds to its table, or why it cannot be written; `None` for events that
/// write no row.
pub open spec fn event_row(e: Event) -> Option<Result<Addition<PendingModel>, ErrorModel>> {
    match e {
        Event::Insert(insert) => Some(
            Ok(
                Addition {
                    schema: insert.replicated_table_schema,
                    rows: seq![
                        PendingModel {
                            operation: CdcOperation::Insert,
                            commit_lsn: insert.commit_lsn,
                            tx_ordinal: insert.tx_ordinal,
                            cells: insert.table_row@,
                        },
                    ],
                },
            ),
        ),
        Event::Update(update) => Some(
            match update.updated_table_row {
                UpdatedTableRow::Partial(_) => Err(
                    partial_update_error(update.replicated_table_schema),
                ),
                UpdatedTableRow::Full(row) => Ok(
                    Addition {
                        schema: update.replicated_table_schema,
                        rows: seq![
                            PendingModel {
                                operation: CdcOperation::Update,
                                commit_lsn: update.commit_lsn,
                                tx_ordinal: update.tx_ordinal,
                                cells: row@,
                            },
                        ],
                    },
                ),
            },
        ),
        Event::Delete(delete) => match delete.old_table_row {
            None => None,
            Some(old_row) => Some(
                Ok(
                    Addition {
                        schema: delete.replicated_table_schema,
                        rows: seq![
                            PendingModel {
                                operation: CdcOperation::Delete,
                                commit_lsn: delete.commit_lsn,
                                tx_ordinal: delete.tx_ordinal,
                                cells: match old_row {
                                    OldTableRow::Full(row) => row@,
                                    OldTableRow::Key(row) => expanded(
                                        delete.replicated_table_schema.columns@,
                                        row@,
                                    ),
                                },
                            },
                        ],
                    },
                ),
            ),
        },
        _ => None,
    }
}

/// What the events add, in order.
pub open spec fn additions(events: Seq<Event>) -> Seq<Addition<PendingModel>>
    decreases events.len(),
{
    if events.len() == 0 {
        Seq::empty()
    } else {
        match event_row(events.last()) {
            Some(Ok(a)) => additions(events.drop_last()).push(a),
            _ => additions(events.drop_last()),
        }
    }
}

/// The error of the first event that cannot be written.
pub open spec fn first_error(events: Seq<Event>) -> Option<ErrorModel>
    decreases events.len(),
{
    if events.len() == 0 {
        None
    } else {
        match first_error(events.drop_last()) {
            Some(e) => Some(e),
            None => match event_row(events.last()) {
                Some(Err(e)) => Some(e),
                _ => None,
            },
        }
    }
}

/// Whether an event cannot be written.
pub open spec fn event_fails(e: Event) -> bool {
    event_row(e) matches Some(Err(_))
}

proof fn lemma_error_stays(events: Seq<Event>, n: int)
    requires
        0 <= n <= events.len(),
        first_error(events.take(n)) is Some,
    ensures
        first_error(events) == first_error(events.take(n)),
    decreases events.len() - n,
{
    if n < events.len() {
        assert(events.take(n + 1).drop_last() =~= events.take(n));
        lemma_error_stays(events, n + 1);
    } else {
        assert(events.take(n) =~= events);
    }
}

/// Adds one event's row.
fn write_event(
    tables: &mut Vec<TableBatch<PendingRow>>,
    event: Event,
    log: Ghost<Seq<Addition<PendingModel>>>,
) -> (r: EtlResult<()>)
    requires
        grouping(old(tables)@, log@),
    ensures
        r is Ok <==> !(event_row(event) matches Some(Err(_))),
        r matches Err(e) ==> event_row(event) == Some(
            Err::<Addition<PendingModel>, ErrorModel>(e@),
        ),
        r is Ok ==> grouping(
            final(tables)@,
            match event_row(event) {
                Some(Ok(a)) => log@.push(a),
                _ => log@,
            },
        ),
{
    match event {
        Event::Insert(insert) => {
            let row = PendingRow {
                operation: CdcOperation::Insert,
                commit_lsn: insert.commit_lsn,
                tx_ordinal: insert.tx_ordinal,
                cells: insert.table_row.values,
            };
            let rows = vec![row];
            proof {
                assert(row_views(rows@) =~= seq![row@]);
            }
            add_rows(tables, insert.replicated_table_schema, rows, log);
            Ok(())
        },
        Event::Update(update) => {
            let table_row = match update.updated_table_row {
                UpdatedTableRow::Full(row) => row,
                UpdatedTableRow::Partial(_) => {
                    let name = update.replicated_table_schema.name.to_text();
                    return Err(
                        EtlError::new(
                            ErrorKind::InvalidState,
                            "ClickHouse update requires a full new row image",
                            cat3(
                                "Table '",
                                name.as_str(),
                                "' emitted a partial update row: some column values could not be reconstructed. Writing it would record NULL for the missing columns and misrepresent the source. Configuring the source so that all column values are available in the new- or old-row image (e.g. REPLICA IDENTITY FULL) prevents this.",
                            ),
                        ),
                    );
                },
            };
            let row = PendingRow {
                operation: CdcOperation::Update,
                commit_lsn: update.commit_lsn,
                tx_ordinal: update.tx_ordinal,
                cells: table_row.values,
            };
            let rows = vec![row];
            proof {
                assert(row_views(rows@) =~= seq![row@]);
            }
            add_rows(tables, update.replicated_table_schema, rows, log);
            Ok(())
        },
        Event::Delete(delete) => {
            let old_row = match delete.old_table_row {
                Some(old_row) => old_row,
                None => {
                    return Ok(());
                },
            };
            let table_row = match old_row {
                OldTableRow::Full(row) => row,
                OldTableRow::Key(row) => expand_key_row(row, &delete.replicated_table_schema),
            };
            let row = PendingRow {
                operation: CdcOperation::Delete,
                commit_lsn: delete.commit_lsn,
                tx_ordinal: delete.tx_ordinal,
                cells: table_row.values,
            };
            let rows = vec![row];
            proof {
                assert(row_views(rows@) =~= seq![row@]);
            }
            add_rows(tables, delete.replicated_table_schema, rows, log);
            Ok(())
        },
        _ => Ok(()),
    }
}

/// Whether a pass is what the front of a stream asks for.
pub open spec fn is_pass(all: Seq<Event>, pass: ClickHousePass) -> bool {
    let d = run_len(all, EventClass::Data) as int;
    let rest = all.skip(d);
    let n = run_len(rest, EventClass::Relation) as int;
    let tail = rest.skip(n);
    let t = run_len(tail, EventClass::Truncate) as int;
    &&& grouping(pass.tables@, additions(all.take(d)))
    &&& pass.relations@ == announced(rest.take(n))
    &&& deduplicated(pass.truncates@, truncated(tail.take(t)), false)
}

/// Takes the next pass off the front of the stream. The first event of the pass that cannot be
/// written decides the error, and the stream is left behind it.
pub fn next_pass(events: &mut VecDeque<Event>) -> (r: EtlResult<ClickHousePass>)
    ensures
        ({
            let all = old(events)@;
            let d = run_len(all, EventClass::Data) as int;
            &&& r is Ok <==> first_error(all.take(d)) is None
            &&& r matches Err(e) ==> first_error(all.take(d)) == Some(e@) && exists|k: int|
                0 <= k < d && first_error(all.take(k)) is None && event_fails(all[k])
                    && final(events)@ == #[trigger] all.skip(k + 1)
            &&& r matches Ok(pass) ==> final(events)@ == all.skip(pass_len(all) as int) && is_pass(
                all,
                pass,
            )
        }),
{
    let ghost all = events@;
    let ghost d = run_len(all, EventClass::Data) as int;
    let ghost mut done: int = 0;
    let mut tables: Vec<TableBatch<PendingRow>> = Vec::new();
    proof {
        law_run_is_maximal(all, EventClass::Data);
        assert(all.skip(0) =~= all);
    }
    while events.len() > 0 && is_in_class(&events[0], EventClass::Data)
        invariant
            0 <= done <= d <= all.len(),
            d == run_len(all, EventClass::Data),
            events@ == all.skip(done),
            done + run_len(events@, EventClass::Data) == d,
            all == old(events)@,
            first_error(all.take(done)) is None,
            grouping(tables@, additions(all.take(done))),
        decreases events@.len(),
    {
        let ghost before = events@;
        let next = events.pop_front();
        proof {
            assert(before[0] == all[done]);
            assert(before.skip(1) =~= all.skip(done + 1));
            assert(events@ =~= before.skip(1));
            assert(all.take(done + 1).drop_last() =~= all.take(done));
            assert(all.take(done + 1).last() == all[done]);
        }
        if let Some(event) = next {
            let ghost log = additions(all.take(done));
            match write_event(&mut tables, event, Ghost(log)) {
                Ok(_) => {},
                Err(e) => {
                    proof {
                        let prefix = all.take(d);
                        assert(prefix.take(done + 1) =~= all.take(done + 1));
                        lemma_error_stays(prefix, done + 1);
                        assert(events@ == all.skip(done + 1));
                    }
                    return Err(e);
                },
            }
        }
        proof {
            done = done + 1;
        }
    }
    proof {
        assert(done == d);
    }
    let ghost rest = events@;
    let relations = take_relations(events);
    let ghost n = run_len(rest, EventClass::Relation) as int;
    let ghost tail = events@;
    let truncates = take_truncates(events, false);
    let ghost t = run_len(tail, EventClass::Truncate) as int;
    proof {
        law_run_is_maximal(rest, EventClass::Relation);
        law_run_is_maximal(tail, EventClass::Truncate);
        assert(tail =~= all.skip(d + n));
        assert(events@ =~= all.skip(d + n + t));
    }
    Ok(ClickHousePass { tables, relations, truncates })
}

/// How ClickHouse writes single events.
pub open spec fn writing() -> Writing<PendingModel> {
    Writing {
        adds: |e: Event|
            match event_row(e) {
                Some(Ok(a)) => Some(a),
                _ => None,
            },
        follows: true,
        last: false,
    }
}

/// Whether the passes are what a stream asks for, one after another, and leave the rest of it. A
/// pass is made only of events that can be written.
pub open spec fn passes_of(all: Seq<Event>, passes: Seq<ClickHousePass>, rest: Seq<Event>) -> bool
    decreases passes.len(),
{
    if passes.len() == 0 {
        rest == all
    } else {
        &&& all.len() > 0
        &&& first_error(all.take(run_len(all, EventClass::Data) as int)) is None
        &&& is_pass(all, passes[0])
        &&& passes_of(all.skip(pass_len(all) as int), passes.skip(1), rest)
    }
}

/// What passes do to a table, one after another.
pub open spec fn effects(passes: Seq<ClickHousePass>, id: TableId) -> Seq<Effect<PendingModel>>
    decreases passes.len(),
{
    if passes.len() == 0 {
        Seq::empty()
    } else {
        pass_effects(
            passes[0].tables@,
            passes[0].relations@,
            passes[0].truncates@,
            id,
        ) + effects(passes.skip(1), id)
    }
}

proof fn lemma_additions(events: Seq<Event>)
    ensures
        additions(events) == writing().added(events),
    decreases events.len(),
{
    if events.len() > 0 {
        lemma_additions(events.drop_last());
    }
}

proof fn lemma_none_fails(events: Seq<Event>, i: int)
    requires
        first_error(events) is None,
        0 <= i < events.len(),
    ensures
        !event_fails(events[i]),
    decreases events.len(),
{
    if i < events.len() - 1 {
        lemma_none_fails(events.drop_last(), i);
    }
}

proof fn lemma_none_written_fails(
    all: Seq<Event>,
    passes: Seq<ClickHousePass>,
    rest: Seq<Event>,
    i: int,
)
    requires
        passes_of(all, passes, rest),
        0 <= i < all.len() - rest.len(),
    ensures
        !event_fails(all[i]),
    decreases passes.len(),
{
    if passes.len() > 0 {
        let d = run_len(all, EventClass::Data) as int;
        let n = run_len(all.skip(d), EventClass::Relation) as int;
        let m = pass_len(all) as int;
        law_run_is_maximal(all, EventClass::Data);
        law_run_is_maximal(all.skip(d), EventClass::Relation);
        law_run_is_maximal(all.skip(d + n), EventClass::Truncate);
        if i < d {
            assert(all.take(d)[i] == all[i]);
            lemma_none_fails(all.take(d), i);
        } else if i < d + n {
            assert(all[i] == all.skip(d)[i - d]);
            assert(all[i] is Relation);
        } else if i < m {
            assert(all[i] == all.skip(d + n)[i - d - n]);
            assert(all[i] is Truncate);
        } else {
            assert(all[i] == all.skip(m)[i - m]);
            lemma_none_written_fails(all.skip(m), passes.skip(1), rest, i - m);
        }
    }
}

proof fn lemma_writing()
    ensures
        writing().wf(),
{
    assert forall|e: Event| #[trigger] (writing().adds)(e) is Some implies in_class(
        e,
        EventClass::Data,
    ) by {}
}

proof fn lemma_one_pass(all: Seq<Event>, pass: ClickHousePass, id: TableId)
    requires
        all.len() > 0,
        is_pass(all, pass),
    ensures
        0 < pass_len(all) <= all.len(),
        writing().in_order(all, id) == pass_effects(
            pass.tables@,
            pass.relations@,
            pass.truncates@,
            id,
        ) + writing().in_order(all.skip(pass_len(all) as int), id),
        pass_len(all) < all.len() ==> {
            let before = all[pass_len(all) - 1];
            before is Relation || before is Truncate
        },
{
    let d = run_len(all, EventClass::Data) as int;
    let n = run_len(all.skip(d), EventClass::Relation) as int;
    let m = pass_len(all) as int;
    lemma_writing();
    lemma_additions(all.take(d));
    law_pass_takes_an_event(all);
    law_run_is_maximal(all, EventClass::Data);
    law_run_is_maximal(all.skip(d), EventClass::Relation);
    law_run_is_maximal(all.skip(d + n), EventClass::Truncate);
    assert(all.skip(d).skip(n) =~= all.skip(d + n));
    lemma_pass_is_in_order(writing(), all, pass.tables@, pass.relations@, pass.truncates@, id);
    if m < all.len() {
        let at = m - 1;
        if m > d + n {
            assert(all[at] == all.skip(d + n)[at - d - n]);
        } else {
            assert(all[at] == all.skip(d)[at - d]);
        }
    }
}

/// A stream that is written pass by pass is written in its order: to every table the passes do what
/// the events before the rest do one by one, so rows stand before the schema change or truncate that
/// follows them and behind the one before them, rows of a table keep the order of their events, and
/// a table is truncated once by truncates that follow each other. Only the rest is left to be done.
/// It begins behind a schema change or truncate, and no event that cannot be written stands before
/// it: of the events between two of these either all are written or none.
pub proof fn law_stream_is_written_in_order(
    all: Seq<Event>,
    passes: Seq<ClickHousePass>,
    rest: Seq<Event>,
    id: TableId,
)
    requires
        passes_of(all, passes, rest),
    ensures
        rest.len() <= all.len(),
        rest == all.skip(all.len() - rest.len()),
        writing().in_order(all, id) == effects(passes, id) + writing().in_order(rest, id),
        rest.len() == 0 ==> effects(passes, id) == writing().in_order(all, id),
        0 < rest.len() < all.len() ==> {
            let before = all[all.len() - rest.len() - 1];
            before is Relation || before is Truncate
        },
        forall|i: int| 0 <= i < all.len() - rest.len() ==> !event_fails(#[trigger] all[i]),
    decreases passes.len(),
{
    if passes.len() == 0 {
        assert(all.skip(0) =~= all);
        assert(effects(passes, id) + writing().in_order(rest, id) =~= writing().in_order(all, id));
    } else {
        let m = pass_len(all) as int;
        let next = all.skip(m);
        lemma_one_pass(all, passes[0], id);
        law_stream_is_written_in_order(next, passes.skip(1), rest, id);
        assert(rest =~= all.skip(all.len() - rest.len()));
        assert(writing().in_order(all, id) =~= effects(passes, id) + writing().in_order(rest, id));
        if rest.len() == 0 {
            assert(effects(passes, id) =~= writing().in_order(all, id));
        }
        if 0 < rest.len() < all.len() {
            let at = all.len() - rest.len() - 1;
            if rest.len() < next.len() {
                assert(all[at] == next[next.len() - rest.len() - 1]);
            } else {
                assert(at == m - 1);
            }
        }
        assert forall|i: int| 0 <= i < all.len() - rest.len() implies !event_fails(
            #[trigger] all[i],
        ) by {
            lemma_none_written_fails(all, passes, rest, i);
        }
    }
}

/// A change that cannot be written keeps back all changes that no schema change or truncate stands
/// between: none of them is written.
pub proof fn law_faulty_changes_are_not_split(
    all: Seq<Event>,
    passes: Seq<ClickHousePass>,
    rest: Seq<Event>,
    i: int,
    k: int,
)
    requires
        passes_of(all, passes, rest),
        0 <= i <= k < all.len(),
        event_fails(all[k]),
        forall|j: int|
            i <= j <= k ==> !(#[trigger] all[j] is Relation) && !(all[j] is Truncate),
    ensures
        all.len() - rest.len() <= i,
{
    law_stream_is_written_in_order(all, passes, rest, TableId(0));
    if i < all.len() - rest.len() {
        assert(all.len() - rest.len() <= k);
        assert(i <= all.len() - rest.len() - 1 <= k);
    }
}

/// Every change but a delete without an old row adds one row; that delete is passed over. A delete
/// of which only the key is known is written as the expanded key. An update without the whole new
/// row is refused.
pub proof fn law_changes_add_one_row(e: Event)
    ensures
        event_row(e) matches Some(Ok(a)) ==> a.rows.len() == 1,
        e is Insert ==> event_row(e) matches Some(Ok(_)),
        e matches Event::Update(update) ==> (event_row(e) matches Some(Ok(_))) == (
        update.updated_table_row is Full),
        e matches Event::Update(update) && update.updated_table_row is Partial ==> (event_row(
            e,
        ) matches Some(Err(error)) && error.kind == ErrorKind::InvalidState),
        e matches Event::Delete(delete) ==> (event_row(e) is None) == (delete.old_table_row is None),
        e matches Event::Delete(delete) ==> delete.old_table_row matches Some(OldTableRow::Key(row))
            ==> (event_row(e) matches Some(Ok(a)) && a.rows[0].cells == expanded(
            delete.replicated_table_schema.columns@,
            row@,
        )),
{
}

/// Every delete whose old row is known is written, under ReplacingMergeTree, as a row that ends with
/// one; every insert and every full update as a row that ends with zero. The version is the event's
/// position, and the user values are those of the event.
pub proof fn law_deletes_are_marked_and_other_changes_are_not(e: Event)
    ensures
        e matches Event::Insert(insert) ==> (event_row(e) matches Some(Ok(a)) && {
            let row = written_row(a.rows[0], ClickHouseEngine::ReplacingMergeTree);
            let n = insert.table_row@.len() as int;
            &&& a.schema == insert.replicated_table_schema
            &&& a.rows.len() == 1
            &&& row.len() == n + 2
            &&& forall|i: int|
                0 <= i < n ==> #[trigger] row[i] == ValueModel::Cell(insert.table_row@[i])
            &&& row[n] == ValueModel::UInt128(
                0x1_0000_0000_0000_0000 * insert.commit_lsn.0 + insert.tx_ordinal,
            )
            &&& row.last() == ValueModel::UInt8(0)
        }),
        e matches Event::Update(update) ==> (update.updated_table_row matches UpdatedTableRow::Full(
            new_row,
        ) ==> (event_row(e) matches Some(Ok(a)) && {
            let row = written_row(a.rows[0], ClickHouseEngine::ReplacingMergeTree);
            let n = new_row@.len() as int;
            &&& a.schema == update.replicated_table_schema
            &&& a.rows.len() == 1
            &&& row.len() == n + 2
            &&& forall|i: int| 0 <= i < n ==> #[trigger] row[i] == ValueModel::Cell(new_row@[i])
            &&& row[n] == ValueModel::UInt128(
                0x1_0000_0000_0000_0000 * update.commit_lsn.0 + update.tx_ordinal,
            )
            &&& row.last() == ValueModel::UInt8(0)
        })),
        e matches Event::Delete(delete) ==> (delete.old_table_row matches Some(old_row) ==> (
        event_row(e) matches Some(Ok(a)) && {
            let row = written_row(a.rows[0], ClickHouseEngine::ReplacingMergeTree);
            let n = row.len() - 2;
            &&& a.schema == delete.replicated_table_schema
            &&& a.rows.len() == 1
            &&& n == match old_row {
                OldTableRow::Full(full) => full.values@.len(),
                OldTableRow::Key(_) => delete.replicated_table_schema.columns@.len(),
            }
            &&& old_row matches OldTableRow::Full(full) ==> forall|i: int|
                0 <= i < n ==> #[trigger] row[i] == ValueModel::Cell(full@[i])
            &&& row[n] == ValueModel::UInt128(
                0x1_0000_0000_0000_0000 * delete.commit_lsn.0 + delete.tx_ordinal,
            )
            &&& row.last() == ValueModel::UInt8(1)
        })),
{
    match event_row(e) {
        Some(Ok(a)) => {
            law_written_row_tells_what_the_change_did(a.rows[0]);
        },
        _ => {},
    }
}

/// Under MergeTree every written change names what it did and where its transaction was committed.
pub proof fn law_changes_are_named(e: Event)
    ensures
        event_row(e) matches Some(Ok(a)) ==> {
            let row = written_row(a.rows[0], ClickHouseEngine::MergeTree);
            let n = row.len() - 2;
            &&& n == a.rows[0].cells.len()
            &&& e matches Event::Insert(insert) ==> row[n] == ValueModel::String("INSERT"@)
                && row[n + 1] == ValueModel::UInt64(insert.commit_lsn.0 as int)
            &&& e matches Event::Update(update) ==> row[n] == ValueModel::String("UPDATE"@)
                && row[n + 1] == ValueModel::UInt64(update.commit_lsn.0 as int)
            &&& e matches Event::Delete(delete) ==> row[n] == ValueModel::String("DELETE"@)
                && row[n + 1] == ValueModel::UInt64(delete.commit_lsn.0 as int)
        },
{
    match event_row(e) {
        Some(Ok(a)) => {
            law_written_row_tells_what_the_change_did(a.rows[0]);
        },
        _ => {},
    }
}

/// Only inserts, updates and deletes write rows. An update without the whole new row is the only
/// event that cannot be written, and the error names its table.
pub proof fn law_only_changes_write_rows(e: Event)
    ensures
        e is Begin || e is Commit || e is Relation || e is Truncate || e is Unsupported ==> event_row(
            e,
        ) is None,
        event_fails(e) <==> (e matches Event::Update(update) && update.updated_table_row
            is Partial),
        event_row(e) matches Some(Err(error)) ==> error.kind == ErrorKind::InvalidState
            && error.description == "ClickHouse update requires a full new row image"@,
        writing().follows,
        !writing().last,
        event_row(e) matches Some(Ok(a)) ==> (writing().adds)(e) == Some(a),
        !(event_row(e) matches Some(Ok(_))) ==> (writing().adds)(e) is None,
{
}

/// The first event that cannot be written decides the error of a stream; without one there is none.
pub proof fn law_first_faulty_event_decides(events: Seq<Event>)
    ensures
        first_error(events) is None <==> forall|i: int|
            0 <= i < events.len() ==> !event_fails(#[trigger] events[i]),
        first_error(events) matches Some(error) ==> exists|i: int|
            0 <= i < events.len() && event_row(#[trigger] events[i]) == Some(
                Err::<Addition<PendingModel>, ErrorModel>(error),
            ) && forall|j: int| 0 <= j < i ==> !event_fails(#[trigger] events[j]),
    decreases events.len(),
{
    if events.len() > 0 {
        let rest = events.drop_last();
        law_first_faulty_event_decides(rest);
        let last = events.len() - 1;
        assert(events[last] == events.last());
        match first_error(rest) {
            Some(error) => {
                let i = choose|i: int|
                    0 <= i < rest.len() && event_row(#[trigger] rest[i]) == Some(
                        Err::<Addition<PendingModel>, ErrorModel>(error),
                    ) && forall|j: int| 0 <= j < i ==> !event_fails(#[trigger] rest[j]);
                assert(events[i] == rest[i]);
                assert forall|j: int| 0 <= j < i implies !event_fails(#[trigger] events[j]) by {
                    assert(events[j] == rest[j]);
                }
                assert(event_fails(events[i]));
            },
            None => {
                assert forall|j: int| 0 <= j < last implies !event_fails(#[trigger] events[j]) by {
                    assert(events[j] == rest[j]);
                }
            },
        }
    }
}

/// What a stream adds is what its events add, in order.
pub proof fn law_additions_follow_the_events(events: Seq<Event>, e: Event)
    ensures
        additions(Seq::empty()).len() == 0,
        event_row(e) matches Some(Ok(a)) ==> additions(events.push(e)) == additions(events).push(a),
        !(event_row(e) matches Some(Ok(_))) ==> additions(events.push(e)) == additions(events),
{
    assert(events.push(e).drop_last() =~= events);
}

/// A partial update is refused as invalid.
pub proof fn law_partial_updates_are_invalid(schema: ReplicatedTableSchema)
    ensures
        partial_update_error(schema).kind == ErrorKind::InvalidState,
        partial_update_error(schema).description == "ClickHouse update requires a full new row image"@,
        partial_update_error(schema).source is None,
{
}

/// A pass writes the changes in front, up to the first event that is none; a change that cannot be
/// written fails it.
pub proof fn law_passes_begin_with_the_changes(
    events: &mut VecDeque<Event>,
    r: EtlResult<ClickHousePass>,
)
    requires
        call_ensures(next_pass, (events,), r),
    ensures
        ({
            let all = old(events)@;
            let d = run_len(all, EventClass::Data) as int;
            &&& r is Err <==> first_error(all.take(d)) is Some
            &&& r matches Err(e) ==> first_error(all.take(d)) == Some(e@)
            &&& r matches Ok(pass) ==> grouping(pass.tables@, additions(all.take(d)))
            &&& r matches Ok(pass) ==> pass.relations@ == announced(
                all.skip(d).take(run_len(all.skip(d), EventClass::Relation) as int),
            )
        }),
{
}

} // verus!
