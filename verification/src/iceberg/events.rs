//! Passes over change events: all changes up to a truncate, then the truncates.
use std::collections::VecDeque;

use vstd::prelude::*;

use crate::batching::{
    add_rows, announced, changelog_pass_len, deduplicated, grouping, in_class, is_in_class,
    law_pass_takes_an_event, law_run_is_maximal, row_views, run_len, take_truncates, truncated,
    Addition, EventClass, TableBatch,
};
use crate::cell::{CellModel, TableRow};
use crate::error::{error_of, ErrorKind, ErrorModel, EtlError, EtlResult};
use crate::event::{sequence_text, Event, OldTableRow, UpdatedTableRow};
use crate::iceberg::columns::{
    changelog_row, iceberg_identity_error, to_changelog_row, validate_iceberg_replica_identity,
    IcebergOperationType,
};
use crate::schema::{
    is_up_to_date, up_to_date, DestinationTableMetadata, IdentityType, ReplicatedTableSchema,
    TableId,
};
use crate::stream::{lemma_pass_is_in_order, pass_effects, Effect, Writing};
use crate::text::{cat3, cat7, decimal, decimal_of};

verus! {

/// What is recorded as applied, by table.
pub type AppliedTables = Vec<(TableId, DestinationTableMetadata)>;

/// The first record of a table.
pub open spec fn applied_to(
    applied: Seq<(TableId, DestinationTableMetadata)>,
    id: TableId,
) -> Option<DestinationTableMetadata>
    decreases applied.len(),
{
    if applied.len() == 0 {
        None
    } else if applied[0].0 == id {
        Some(applied[0].1)
    } else {
        applied_to(applied.skip(1), id)
    }
}

fn find_applied(applied: &AppliedTables, id: TableId) -> (r: Option<usize>)
    ensures
        match r {
            Some(i) => i < applied@.len() && applied_to(applied@, id) == Some(applied@[i as int].1),
            None => applied_to(applied@, id) is None,
        },
{
    let n: usize = applied.len();
    let mut i: usize = 0;
    proof {
        assert(applied@.skip(0) =~= applied@);
    }
    while i < n
        invariant
            i <= n,
            n == applied@.len(),
            applied_to(applied@, id) == applied_to(applied@.skip(i as int), id),
        decreases n - i,
    {
        if applied[i].0 == id {
            return Some(i);
        }
        proof {
            assert(applied@.skip(i as int).skip(1) =~= applied@.skip(i + 1));
        }
        i = i + 1;
    }
    None
}

/// Why an announced schema cannot be followed.
pub open spec fn relation_error(
    schema: ReplicatedTableSchema,
    applied: Option<DestinationTableMetadata>,
) -> Option<ErrorModel> {
    match iceberg_identity_error(schema) {
        Some(e) => Some(e),
        None => match applied {
            Some(m) => if up_to_date(m, schema) {
                None
            } else {
                Some(
                    error_of(
                        ErrorKind::CorruptedTableSchema,
                        "Schema changes not supported"@,
                        "Iceberg destination does not support schema changes. Table "@ + decimal(
                            schema.id.0 as nat,
                        ) + " schema changed from snapshot_id "@ + m.snapshot_id@ + " to "@
                            + schema.snapshot_id@ + "."@,
                    ),
                )
            },
            None => None,
        },
    }
}

/// Checks an announced schema: schema changes are not supported.
pub fn check_relation(
    schema: &ReplicatedTableSchema,
    applied: Option<&DestinationTableMetadata>,
) -> (r: EtlResult<()>)
    ensures
        match relation_error(
            *schema,
            match applied {
                Some(m) => Some(*m),
                None => None,
            },
        ) {
            None => r is Ok,
            Some(e) => r matches Err(f) && f@ == e,
        },
{
    match validate_iceberg_replica_identity(schema) {
        Ok(_) => {},
        Err(e) => {
            return Err(e);
        },
    }
    if let Some(metadata) = applied {
        if !is_up_to_date(metadata, schema) {
            let id = decimal_of(schema.id.0 as u128);
            return Err(
                EtlError::new(
                    ErrorKind::CorruptedTableSchema,
                    "Schema changes not supported",
                    cat7(
                        "Iceberg destination does not support schema changes. Table ",
                        id.as_str(),
                        " schema changed from snapshot_id ",
                        metadata.snapshot_id.as_str(),
                        " to ",
                        schema.snapshot_id.as_str(),
                        ".",
                    ),
                ),
            );
        }
    }
    Ok(())
}

/// What a row change adds to the changelog.
pub open spec fn one_row(
    schema: ReplicatedTableSchema,
    cells: Seq<CellModel>,
    operation: IcebergOperationType,
    commit_lsn: nat,
    tx_ordinal: nat,
) -> Addition<Seq<CellModel>> {
    Addition { schema, rows: seq![changelog_row(cells, operation, commit_lsn, tx_ordinal)] }
}

/// An error about one table.
pub open spec fn table_error(
    schema: ReplicatedTableSchema,
    description: Seq<char>,
    rest: Seq<char>,
) -> ErrorModel {
    error_of(ErrorKind::InvalidState, description, "Table '"@ + schema.name.text() + rest)
}

/// The row that an event adds to its changelog, or why the event cannot be written; `None` for
/// events that write no row.
pub open spec fn event_row(
    e: Event,
    applied: Seq<(TableId, DestinationTableMetadata)>,
) -> Option<Result<Addition<Seq<CellModel>>, ErrorModel>> {
    match e {
        Event::Insert(insert) => Some(
            Ok(
                one_row(
                    insert.replicated_table_schema,
                    insert.table_row@,
                    IcebergOperationType::Insert,
                    insert.commit_lsn.0 as nat,
                    insert.tx_ordinal as nat,
                ),
            ),
        ),
        Event::Update(update) => match iceberg_identity_error(update.replicated_table_schema) {
            Some(e) => Some(Err(e)),
            None => match update.updated_table_row {
                UpdatedTableRow::Full(row) => Some(
                    Ok(
                        one_row(
                            update.replicated_table_schema,
                            row@,
                            IcebergOperationType::Update,
                            update.commit_lsn.0 as nat,
                            update.tx_ordinal as nat,
                        ),
                    ),
                ),
                UpdatedTableRow::Partial(_) => Some(
                    Err(
                        table_error(
                            update.replicated_table_schema,
                            "Iceberg update requires a full new row image"@,
                            "' emitted a partial update row. Configure replication so all updated values are available before writing to Iceberg."@,
                        ),
                    ),
                ),
            },
        },
        Event::Delete(delete) => match iceberg_identity_error(delete.replicated_table_schema) {
            Some(e) => Some(Err(e)),
            None => match delete.old_table_row {
                Some(OldTableRow::Full(row)) => Some(
                    Ok(
                        one_row(
                            delete.replicated_table_schema,
                            row@,
                            IcebergOperationType::Delete,
                            delete.commit_lsn.0 as nat,
                            delete.tx_ordinal as nat,
                        ),
                    ),
                ),
                Some(OldTableRow::Key(_)) => Some(
                    Err(
                        table_error(
                            delete.replicated_table_schema,
                            "Iceberg delete requires a full old row image"@,
                            "' emitted a key-only delete image. Configure REPLICA IDENTITY FULL for Iceberg delete support."@,
                        ),
                    ),
                ),
                None => Some(
                    Err(
                        table_error(
                            delete.replicated_table_schema,
                            "Iceberg delete requires an old row image"@,
                            "' emitted a delete without an old row image even though Iceberg requires FULL replica identity."@,
                        ),
                    ),
                ),
            },
        },
        Event::Relation(relation) => match relation_error(
            relation.replicated_table_schema,
            applied_to(applied, relation.replicated_table_schema.id),
        ) {
            Some(e) => Some(Err(e)),
            None => None,
        },
        _ => None,
    }
}

/// What the events add, in order.
pub open spec fn additions(
    events: Seq<Event>,
    applied: Seq<(TableId, DestinationTableMetadata)>,
) -> Seq<Addition<Seq<CellModel>>>
    decreases events.len(),
{
    if events.len() == 0 {
        Seq::empty()
    } else {
        match event_row(events.last(), applied) {
            Some(Ok(a)) => additions(events.drop_last(), applied).push(a),
            _ => additions(events.drop_last(), applied),
        }
    }
}

/// The error of the first event that cannot be written.
pub open spec fn first_error(
    events: Seq<Event>,
    applied: Seq<(TableId, DestinationTableMetadata)>,
) -> Option<ErrorModel>
    decreases events.len(),
{
    if events.len() == 0 {
        None
    } else {
        match first_error(events.drop_last(), applied) {
            Some(e) => Some(e),
            None => match event_row(events.last(), applied) {
                Some(Err(e)) => Some(e),
                _ => None,
            },
        }
    }
}

/// Whether an event cannot be written.
pub open spec fn event_fails(
    e: Event,
    applied: Seq<(TableId, DestinationTableMetadata)>,
) -> bool {
    event_row(e, applied) matches Some(Err(_))
}

proof fn lemma_error_stays(
    events: Seq<Event>,
    applied: Seq<(TableId, DestinationTableMetadata)>,
    n: int,
)
    requires
        0 <= n <= events.len(),
        first_error(events.take(n), applied) is Some,
    ensures
        first_error(events, applied) == first_error(events.take(n), applied),
    decreases events.len() - n,
{
    if n < events.len() {
        assert(events.take(n + 1).drop_last() =~= events.take(n));
        lemma_error_stays(events, applied, n + 1);
    } else {
        assert(events.take(n) =~= events);
    }
}

/// The tables whose schema is announced before the next truncate, in order.
pub open spec fn announced_ids(events: Seq<Event>) -> Seq<TableId>
    decreases events.len(),
{
    if events.len() == 0 {
        Seq::empty()
    } else {
        match events.last() {
            Event::Relation(relation) => announced_ids(events.drop_last()).push(
                relation.replicated_table_schema.id,
            ),
            _ => announced_ids(events.drop_last()),
        }
    }
}

/// Returns the tables whose records the next pass asks for.
pub fn announced_tables(events: &VecDeque<Event>) -> (r: Vec<TableId>)
    ensures
        r@ == announced_ids(events@.take(run_len(events@, EventClass::NonTruncate) as int)),
{
    let mut ids: Vec<TableId> = Vec::new();
    let n: usize = events.len();
    let mut i: usize = 0;
    proof {
        assert(events@.skip(0) =~= events@);
    }
    while i < n && is_in_class(&events[i], EventClass::NonTruncate)
        invariant
            i <= n,
            n == events@.len(),
            ids@ == announced_ids(events@.take(i as int)),
            i + run_len(events@.skip(i as int), EventClass::NonTruncate) == run_len(
                events@,
                EventClass::NonTruncate,
            ),
        decreases n - i,
    {
        if let Event::Relation(relation) = &events[i] {
            ids.push(relation.replicated_table_schema.id);
        }
        proof {
            let rest = events@.skip(i as int);
            assert(rest[0] == events@[i as int]);
            assert(rest.skip(1) =~= events@.skip(i + 1));
            assert(events@.take(i + 1).drop_last() =~= events@.take(i as int));
            assert(events@.take(i + 1).last() == events@[i as int]);
        }
        i = i + 1;
    }
    ids
}

fn table_failure(
    schema: &ReplicatedTableSchema,
    description: &'static str,
    rest: &'static str,
) -> (r: EtlError)
    ensures
        r@ == table_error(*schema, description@, rest@),
{
    let name = schema.name.to_text();
    EtlError::new(ErrorKind::InvalidState, description, cat3("Table '", name.as_str(), rest))
}

fn add_row(
    tables: &mut Vec<TableBatch<TableRow>>,
    schema: ReplicatedTableSchema,
    row: TableRow,
    log: Ghost<Seq<Addition<Seq<CellModel>>>>,
)
    requires
        grouping(old(tables)@, log@),
    ensures
        grouping(final(tables)@, log@.push((Addition { schema, rows: seq![row@] }))),
{
    let rows = vec![row];
    proof {
        assert(row_views(rows@) =~= seq![row@]);
    }
    add_rows(tables, schema, rows, log);
}

/// Adds one event's row, or checks the announced schema.
fn write_event(
    tables: &mut Vec<TableBatch<TableRow>>,
    event: Event,
    applied: &AppliedTables,
    log: Ghost<Seq<Addition<Seq<CellModel>>>>,
) -> (r: EtlResult<()>)
    requires
        grouping(old(tables)@, log@),
    ensures
        r is Ok <==> !(event_row(event, applied@) matches Some(Err(_))),
        r matches Err(e) ==> event_row(event, applied@) == Some(
            Err::<Addition<Seq<CellModel>>, ErrorModel>(e@),
        ),
        r is Ok ==> grouping(
            final(tables)@,
            match event_row(event, applied@) {
                Some(Ok(a)) => log@.push(a),
                _ => log@,
            },
        ),
{
    match event {
        Event::Insert(insert) => {
            let row = to_changelog_row(
                insert.table_row,
                IcebergOperationType::Insert,
                insert.commit_lsn,
                insert.tx_ordinal,
            );
            add_row(tables, insert.replicated_table_schema, row, log);
            Ok(())
        },
        Event::Update(update) => {
            match validate_iceberg_replica_identity(&update.replicated_table_schema) {
                Ok(_) => {},
                Err(e) => {
                    return Err(e);
                },
            }
            let table_row = match update.updated_table_row {
                UpdatedTableRow::Full(row) => row,
                UpdatedTableRow::Partial(_) => {
                    return Err(
                        table_failure(
                            &update.replicated_table_schema,
                            "Iceberg update requires a full new row image",
                            "' emitted a partial update row. Configure replication so all updated values are available before writing to Iceberg.",
                        ),
                    );
                },
            };
            let row = to_changelog_row(
                table_row,
                IcebergOperationType::Update,
                update.commit_lsn,
                update.tx_ordinal,
            );
            add_row(tables, update.replicated_table_schema, row, log);
            Ok(())
        },
        Event::Delete(delete) => {
            match validate_iceberg_replica_identity(&delete.replicated_table_schema) {
                Ok(_) => {},
                Err(e) => {
                    return Err(e);
                },
            }
            let old_table_row = match delete.old_table_row {
                Some(OldTableRow::Full(row)) => row,
                Some(OldTableRow::Key(_)) => {
                    return Err(
                        table_failure(
                            &delete.replicated_table_schema,
                            "Iceberg delete requires a full old row image",
                            "' emitted a key-only delete image. Configure REPLICA IDENTITY FULL for Iceberg delete support.",
                        ),
                    );
                },
                None => {
                    return Err(
                        table_failure(
                            &delete.replicated_table_schema,
                            "Iceberg delete requires an old row image",
                            "' emitted a delete without an old row image even though Iceberg requires FULL replica identity.",
                        ),
                    );
                },
            };
            let row = to_changelog_row(
                old_table_row,
                IcebergOperationType::Delete,
                delete.commit_lsn,
                delete.tx_ordinal,
            );
            add_row(tables, delete.replicated_table_schema, row, log);
            Ok(())
        },
        Event::Relation(relation) => {
            let schema = relation.replicated_table_schema;
            match find_applied(applied, schema.id) {
                Some(i) => check_relation(&schema, Some(&applied[i].1)),
                None => check_relation(&schema, None),
            }
        },
        _ => Ok(()),
    }
}

/// Work of one pass, in the order in which it is to be done.
#[derive(Debug)]
pub struct IcebergPass {
    /// Changelog rows to insert, by table.
    pub tables: Vec<TableBatch<TableRow>>,
    /// Tables to truncate after the rows.
    pub truncates: Vec<ReplicatedTableSchema>,
}

/// Whether a pass is what the front of a stream asks for.
pub open spec fn is_pass(
    all: Seq<Event>,
    applied: Seq<(TableId, DestinationTableMetadata)>,
    pass: IcebergPass,
) -> bool {
    let d = run_len(all, EventClass::NonTruncate) as int;
    let tail = all.skip(d);
    let t = run_len(tail, EventClass::Truncate) as int;
    &&& grouping(pass.tables@, additions(all.take(d), applied))
    &&& deduplicated(pass.truncates@, truncated(tail.take(t)), true)
}

/// Takes the next pass off the front of the stream, given what is recorded as applied of the
/// tables that it announces. The first event of the pass that cannot be written decides the
/// error, and the stream is left behind it.
pub fn next_pass(events: &mut VecDeque<Event>, applied: &AppliedTables) -> (r: EtlResult<
    IcebergPass,
>)
    ensures
        ({
            let all = old(events)@;
            let d = run_len(all, EventClass::NonTruncate) as int;
            &&& r is Ok <==> first_error(all.take(d), applied@) is None
            &&& r matches Err(e) ==> first_error(all.take(d), applied@) == Some(e@)
                && exists|k: int|
                0 <= k < d && first_error(all.take(k), applied@) is None && event_fails(
                    all[k],
                    applied@,
                ) && final(events)@ == #[trigger] all.skip(k + 1)
            &&& r matches Ok(pass) ==> final(events)@ == all.skip(changelog_pass_len(all) as int)
                && is_pass(all, applied@, pass)
        }),
{
    let ghost all = events@;
    let ghost d = run_len(all, EventClass::NonTruncate) as int;
    let ghost mut done: int = 0;
    let mut tables: Vec<TableBatch<TableRow>> = Vec::new();
    proof {
        law_run_is_maximal(all, EventClass::NonTruncate);
        assert(all.skip(0) =~= all);
    }
    while events.len() > 0 && is_in_class(&events[0], EventClass::NonTruncate)
        invariant
            0 <= done <= d <= all.len(),
            d == run_len(all, EventClass::NonTruncate),
            events@ == all.skip(done),
            done + run_len(events@, EventClass::NonTruncate) == d,
            all == old(events)@,
            first_error(all.take(done), applied@) is None,
            grouping(tables@, additions(all.take(done), applied@)),
        decreases events@.len(),
    {
        let ghost before = events@;
        let next = events.pop_front();
        proof {
            assert(before[0] == all[done]);
            assert(before.skip(1) =~= all.skip(done + 1));
            assert(events@ =~= before.skip(1));
            assert(all.take(done + 1).drop_last() =~= all.take(done));
            assert(all.take(done + 1).last() == all[done]);
        }
        if let Some(event) = next {
            let ghost log = additions(all.take(done), applied@);
            match write_event(&mut tables, event, applied, Ghost(log)) {
                Ok(_) => {},
                Err(e) => {
                    proof {
                        let prefix = all.take(d);
                        assert(prefix.take(done + 1) =~= all.take(done + 1));
                        lemma_error_stays(prefix, applied@, done + 1);
                        assert(events@ == all.skip(done + 1));
                    }
                    return Err(e);
                },
            }
        }
        proof {
            done = done + 1;
        }
    }
    let ghost tail = events@;
    let truncates = take_truncates(events, true);
    let ghost t = run_len(tail, EventClass::Truncate) as int;
    proof {
        law_run_is_maximal(tail, EventClass::Truncate);
        assert(events@ =~= all.skip(d + t));
    }
    Ok(IcebergPass { tables, truncates })
}

/// How Iceberg writes single events. Announced schemas are checked, not followed.
pub open spec fn writing() -> Writing<Seq<CellModel>> {
    Writing {
        adds: |e: Event|
            match event_row(e, Seq::empty()) {
                Some(Ok(a)) => Some(a),
                _ => None,
            },
        follows: false,
        last: true,
    }
}

/// Whether the passes are what a stream asks for, one after another, given for each what is
/// recorded as applied, and leave the rest of it. A pass is made only of events that can be written.
pub open spec fn passes_of(
    all: Seq<Event>,
    records: Seq<Seq<(TableId, DestinationTableMetadata)>>,
    passes: Seq<IcebergPass>,
    rest: Seq<Event>,
) -> bool
    decreases passes.len(),
{
    &&& records.len() == passes.len()
    &&& if passes.len() == 0 {
        rest == all
    } else {
        &&& all.len() > 0
        &&& first_error(all.take(run_len(all, EventClass::NonTruncate) as int), records[0]) is None
        &&& is_pass(all, records[0], passes[0])
        &&& passes_of(
            all.skip(changelog_pass_len(all) as int),
            records.skip(1),
            passes.skip(1),
            rest,
        )
    }
}

/// What passes do to a table, one after another.
pub open spec fn effects(passes: Seq<IcebergPass>, id: TableId) -> Seq<Effect<Seq<CellModel>>>
    decreases passes.len(),
{
    if passes.len() == 0 {
        Seq::empty()
    } else {
        pass_effects(
            passes[0].tables@,
            Seq::empty(),
            passes[0].truncates@,
            id,
        ) + effects(passes.skip(1), id)
    }
}

proof fn lemma_additions(events: Seq<Event>, applied: Seq<(TableId, DestinationTableMetadata)>)
    ensures
        additions(events, applied) == writing().added(events),
    decreases events.len(),
{
    if events.len() > 0 {
        lemma_additions(events.drop_last(), applied);
    }
}

proof fn lemma_none_fails(
    events: Seq<Event>,
    applied: Seq<(TableId, DestinationTableMetadata)>,
    i: int,
)
    requires
        first_error(events, applied) is None,
        0 <= i < events.len(),
    ensures
        !event_fails(events[i], applied),
    decreases events.len(),
{
    if i < events.len() - 1 {
        lemma_none_fails(events.drop_last(), applied, i);
    }
}

/// The record that is given for the pass which takes event `i` of a stream.
pub open spec fn record_for(
    all: Seq<Event>,
    records: Seq<Seq<(TableId, DestinationTableMetadata)>>,
    i: int,
) -> Seq<(TableId, DestinationTableMetadata)>
    decreases records.len(),
{
    let m = changelog_pass_len(all) as int;
    if records.len() <= 1 || i < m {
        records[0]
    } else {
        record_for(all.skip(m), records.skip(1), i - m)
    }
}

proof fn lemma_none_written_fails(
    all: Seq<Event>,
    records: Seq<Seq<(TableId, DestinationTableMetadata)>>,
    passes: Seq<IcebergPass>,
    rest: Seq<Event>,
    i: int,
)
    requires
        passes.len() <= records.len(),
        passes_of(all, records.take(passes.len() as int), passes, rest),
        0 <= i < all.len() - rest.len(),
    ensures
        !event_fails(all[i], record_for(all, records, i)),
    decreases passes.len(),
{
    if passes.len() > 0 {
        let d = run_len(all, EventClass::NonTruncate) as int;
        let m = changelog_pass_len(all) as int;
        let given = records.take(passes.len() as int);
        law_run_is_maximal(all, EventClass::NonTruncate);
        law_run_is_maximal(all.skip(d), EventClass::Truncate);
        assert(given[0] == records[0]);
        if i < d {
            assert(all.take(d)[i] == all[i]);
            lemma_none_fails(all.take(d), records[0], i);
        } else if i < m {
            assert(all[i] == all.skip(d)[i - d]);
            assert(all[i] is Truncate);
        } else {
            assert(given.skip(1) =~= records.skip(1).take(passes.skip(1).len() as int));
            assert(all[i] == all.skip(m)[i - m]);
            lemma_none_written_fails(all.skip(m), records.skip(1), passes.skip(1), rest, i - m);
        }
    }
}

proof fn lemma_writing()
    ensures
        writing().wf(),
{
    assert forall|e: Event| #[trigger] (writing().adds)(e) is Some implies in_class(
        e,
        EventClass::Data,
    ) by {}
}

proof fn lemma_one_pass(
    all: Seq<Event>,
    applied: Seq<(TableId, DestinationTableMetadata)>,
    pass: IcebergPass,
    id: TableId,
)
    requires
        all.len() > 0,
        is_pass(all, applied, pass),
    ensures
        0 < changelog_pass_len(all) <= all.len(),
        writing().in_order(all, id) == pass_effects(
            pass.tables@,
            Seq::empty(),
            pass.truncates@,
            id,
        ) + writing().in_order(all.skip(changelog_pass_len(all) as int), id),
        changelog_pass_len(all) < all.len() ==> all[changelog_pass_len(all) - 1] is Truncate,
{
    let d = run_len(all, EventClass::NonTruncate) as int;
    let m = changelog_pass_len(all) as int;
    lemma_writing();
    lemma_additions(all.take(d), applied);
    law_pass_takes_an_event(all);
    law_run_is_maximal(all, EventClass::NonTruncate);
    law_run_is_maximal(all.skip(d), EventClass::Truncate);
    assert(all.skip(d).skip(0) =~= all.skip(d));
    assert(announced(all.skip(d).take(0)) =~= Seq::<ReplicatedTableSchema>::empty());
    lemma_pass_is_in_order(writing(), all, pass.tables@, Seq::empty(), pass.truncates@, id);
    if m < all.len() {
        assert(all[m - 1] == all.skip(d)[m - 1 - d]);
    }
}

/// A stream that is written pass by pass is written in its order: to every table the passes do what
/// the events before the rest do one by one, so rows stand before the truncate that follows them and
/// behind the one before them, rows of a table keep the order of their events, and a table is
/// truncated once by truncates that follow each other. Only the rest is left to be done. It begins
/// behind a truncate, and no event stands before it that cannot be written under the record of the
/// pass that takes it: of the events between two truncates either all are written or none.
pub proof fn law_stream_is_written_in_order(
    all: Seq<Event>,
    records: Seq<Seq<(TableId, DestinationTableMetadata)>>,
    passes: Seq<IcebergPass>,
    rest: Seq<Event>,
    id: TableId,
)
    requires
        passes_of(all, records, passes, rest),
    ensures
        rest.len() <= all.len(),
        rest == all.skip(all.len() - rest.len()),
        writing().in_order(all, id) == effects(passes, id) + writing().in_order(rest, id),
        rest.len() == 0 ==> effects(passes, id) == writing().in_order(all, id),
        0 < rest.len() < all.len() ==> all[all.len() - rest.len() - 1] is Truncate,
        forall|i: int|
            0 <= i < all.len() - rest.len() ==> !event_fails(
                #[trigger] all[i],
                record_for(all, records, i),
            ),
    decreases passes.len(),
{
    if passes.len() == 0 {
        assert(all.skip(0) =~= all);
        assert(effects(passes, id) + writing().in_order(rest, id) =~= writing().in_order(all, id));
    } else {
        let m = changelog_pass_len(all) as int;
        let next = all.skip(m);
        lemma_one_pass(all, records[0], passes[0], id);
        law_stream_is_written_in_order(next, records.skip(1), passes.skip(1), rest, id);
        assert(rest =~= all.skip(all.len() - rest.len()));
        assert(writing().in_order(all, id) =~= effects(passes, id) + writing().in_order(rest, id));
        if rest.len() == 0 {
            assert(effects(passes, id) =~= writing().in_order(all, id));
        }
        if 0 < rest.len() < all.len() {
            let at = all.len() - rest.len() - 1;
            if rest.len() < next.len() {
                assert(all[at] == next[next.len() - rest.len() - 1]);
            } else {
                assert(at == m - 1);
            }
        }
        assert(records.take(passes.len() as int) =~= records);
        assert forall|i: int| 0 <= i < all.len() - rest.len() implies !event_fails(
            #[trigger] all[i],
            record_for(all, records, i),
        ) by {
            lemma_none_written_fails(all, records, passes, rest, i);
        }
    }
}

/// A change that cannot be written under the record of its pass, or an announced schema that is not
/// the applied one there, keeps back all changes that no truncate stands between: none of them is
/// written. The records are those of all passes that were asked for, failed ones too.
pub proof fn law_faulty_changes_are_not_split(
    all: Seq<Event>,
    records: Seq<Seq<(TableId, DestinationTableMetadata)>>,
    passes: Seq<IcebergPass>,
    rest: Seq<Event>,
    i: int,
    k: int,
)
    requires
        passes.len() <= records.len(),
        passes_of(all, records.take(passes.len() as int), passes, rest),
        0 <= i <= k < all.len(),
        event_fails(all[k], record_for(all, records, k)),
        forall|j: int| i <= j <= k ==> !(#[trigger] all[j] is Truncate),
    ensures
        all.len() - rest.len() <= i,
{
    let given = records.take(passes.len() as int);
    law_stream_is_written_in_order(all, given, passes, rest, TableId(0));
    if k < all.len() - rest.len() {
        lemma_none_written_fails(all, records, passes, rest, k);
    }
    if i < all.len() - rest.len() {
        assert(i <= all.len() - rest.len() - 1 <= k);
    }
}

/// Every change of a table with full replica identity adds one row: its values, or the whole old
/// row of a delete, then the operation and the position.
pub proof fn law_changes_add_one_row(
    e: Event,
    applied: Seq<(TableId, DestinationTableMetadata)>,
)
    ensures
        e matches Event::Insert(insert) ==> event_row(e, applied) == Some(
            Ok::<Addition<Seq<CellModel>>, ErrorModel>(
                Addition {
                    schema: insert.replicated_table_schema,
                    rows: seq![
                        insert.table_row@.push(CellModel::Text("INSERT"@)).push(
                            CellModel::Text(
                                sequence_text(insert.commit_lsn.0 as nat, insert.tx_ordinal as nat),
                            ),
                        ),
                    ],
                },
            ),
        ),
        e matches Event::Update(update) ==> (update.updated_table_row matches UpdatedTableRow::Full(row)
            ==> (update.replicated_table_schema.identity_type == IdentityType::Full ==> event_row(
            e,
            applied,
        ) == Some(
            Ok::<Addition<Seq<CellModel>>, ErrorModel>(
                Addition {
                    schema: update.replicated_table_schema,
                    rows: seq![
                        row@.push(CellModel::Text("UPDATE"@)).push(
                            CellModel::Text(
                                sequence_text(update.commit_lsn.0 as nat, update.tx_ordinal as nat),
                            ),
                        ),
                    ],
                },
            ),
        ))),
        e matches Event::Delete(delete) ==> (delete.old_table_row matches Some(OldTableRow::Full(row))
            ==> (delete.replicated_table_schema.identity_type == IdentityType::Full ==> event_row(
            e,
            applied,
        ) == Some(
            Ok::<Addition<Seq<CellModel>>, ErrorModel>(
                Addition {
                    schema: delete.replicated_table_schema,
                    rows: seq![
                        row@.push(CellModel::Text("DELETE"@)).push(
                            CellModel::Text(
                                sequence_text(delete.commit_lsn.0 as nat, delete.tx_ordinal as nat),
                            ),
                        ),
                    ],
                },
            ),
        ))),
{
}

/// An announced schema that differs from the applied record is refused.
pub proof fn law_schema_changes_are_refused(
    e: Event,
    applied: Seq<(TableId, DestinationTableMetadata)>,
    metadata: DestinationTableMetadata,
)
    requires
        e matches Event::Relation(relation) && relation.replicated_table_schema.identity_type
            == IdentityType::Full && applied_to(applied, relation.replicated_table_schema.id)
            == Some(metadata) && !up_to_date(metadata, relation.replicated_table_schema),
    ensures
        event_fails(e, applied),
        event_row(e, applied) matches Some(Err(error)) && error.kind
            == ErrorKind::CorruptedTableSchema,
{
}

/// The first record of a table is the one that counts; a table without a record has none.
pub proof fn law_first_record_counts(applied: Seq<(TableId, DestinationTableMetadata)>, id: TableId)
    ensures
        applied_to(applied, id) is None <==> forall|i: int|
            0 <= i < applied.len() ==> (#[trigger] applied[i]).0 != id,
        applied_to(applied, id) matches Some(m) ==> exists|i: int|
            0 <= i < applied.len() && (#[trigger] applied[i]).0 == id && applied[i].1 == m
                && forall|j: int| 0 <= j < i ==> (#[trigger] applied[j]).0 != id,
    decreases applied.len(),
{
    if applied.len() > 0 && applied[0].0 != id {
        let rest = applied.skip(1);
        law_first_record_counts(rest, id);
        match applied_to(rest, id) {
            Some(m) => {
                let i = choose|i: int|
                    0 <= i < rest.len() && (#[trigger] rest[i]).0 == id && rest[i].1 == m
                        && forall|j: int| 0 <= j < i ==> (#[trigger] rest[j]).0 != id;
                assert(applied[i + 1] == rest[i]);
                assert forall|j: int| 0 <= j < i + 1 implies (#[trigger] applied[j]).0 != id by {
                    if j > 0 {
                        assert(applied[j] == rest[j - 1]);
                    }
                }
            },
            None => {
                assert forall|i: int| 0 <= i < applied.len() implies (
                #[trigger] applied[i]).0 != id by {
                    if i > 0 {
                        assert(applied[i] == rest[i - 1]);
                    }
                }
            },
        }
    }
}

/// An announced schema is refused if and only if the table has no full identity, or has a record of
/// another version or of other replicated columns.
pub proof fn law_only_the_recorded_schema_is_taken(
    schema: ReplicatedTableSchema,
    metadata: DestinationTableMetadata,
)
    ensures
        relation_error(schema, None) is None <==> schema.identity_type == IdentityType::Full,
        relation_error(schema, Some(metadata)) is None <==> schema.identity_type
            == IdentityType::Full && metadata.snapshot_id@ == schema.snapshot_id@
            && metadata.replication_mask@ == schema.replication_mask@,
{
}

/// Only inserts, updates and deletes write rows. An update without the whole new row and a delete
/// without the whole old one cannot be written.
pub proof fn law_only_whole_rows_are_written(
    e: Event,
    applied: Seq<(TableId, DestinationTableMetadata)>,
)
    ensures
        e is Begin || e is Commit || e is Truncate || e is Unsupported ==> event_row(e, applied)
            is None,
        e is Relation ==> !(event_row(e, applied) matches Some(Ok(_))),
        e is Insert ==> !event_fails(e, applied),
        e matches Event::Update(update) ==> (event_fails(e, applied) <==> !(
        update.replicated_table_schema.identity_type == IdentityType::Full
            && update.updated_table_row is Full)),
        e matches Event::Delete(delete) ==> (event_fails(e, applied) <==> !(
        delete.replicated_table_schema.identity_type == IdentityType::Full
            && delete.old_table_row matches Some(OldTableRow::Full(_)))),
        !writing().follows,
        writing().last,
{
}

/// The tables that a stream announces, in order.
pub proof fn law_announced_tables_are_collected(events: Seq<Event>, e: Event)
    ensures
        announced_ids(Seq::empty()).len() == 0,
        e matches Event::Relation(relation) ==> announced_ids(events.push(e)) == announced_ids(
            events,
        ).push(relation.replicated_table_schema.id),
        !(e is Relation) ==> announced_ids(events.push(e)) == announced_ids(events),
{
    assert(events.push(e).drop_last() =~= events);
}

/// A table whose schema was not applied before is taken; one that changed since is refused, as is one
/// without a usable identity.
pub proof fn law_changed_tables_are_refused(
    schema: &ReplicatedTableSchema,
    applied: &DestinationTableMetadata,
    first: EtlResult<()>,
    again: EtlResult<()>,
)
    requires
        call_ensures(check_relation, (schema, None), first),
        call_ensures(check_relation, (schema, Some(applied)), again),
        iceberg_identity_error(*schema) is None,
    ensures
        again is Ok <==> applied.snapshot_id@ == schema.snapshot_id@ && applied.replication_mask@
            == schema.replication_mask@,
        again matches Err(e) ==> e@.kind == ErrorKind::CorruptedTableSchema,
{
}

} // verus!
