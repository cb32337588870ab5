//! Passes over change events: rows first, then schema changes, then truncates.
use std::collections::VecDeque;

use vstd::prelude::*;

use crate::batching::{
    add_rows, announced, deduplicated, grouping, in_class, is_in_class, law_pass_takes_an_event,
    law_run_is_maximal, pass_len, row_views, run_len, take_relations, take_truncates, truncated,
    Addition, EventClass, TableBatch,
};
use crate::bigquery::rows::{
    bigquery_delete_row, bigquery_row_views, bigquery_sequence_key, bigquery_update_rows,
    bigquery_upsert_row, delete_row, identity_error, law_deletes_carry_the_key,
    law_update_deletes_a_changed_key, law_upserts_carry_the_whole_row, sequence_key_text,
    update_rows, upsert_row,
    validate_bigquery_replica_identity, BigQueryTableRow, BIGQUERY_SEQUENCE_ORDINAL_FIRST,
};
use crate::cell::{CellModel, SameValue};
use crate::error::{error_of, ErrorKind, ErrorModel, EtlError, EtlResult};
use crate::event::{Event, EventSequenceKey, OldTableRow, UpdatedTableRow};
use crate::schema::{are_key_places, ReplicatedTableSchema, TableId};
use crate::stream::{lemma_pass_is_in_order, pass_effects, Effect, Writing};
use crate::text::cat3;

verus! {

/// Work of one pass, in the order in which it is to be done.
#[derive(Debug)]
pub struct BigQueryPass {
    /// Rows to append, by table.
    pub tables: Vec<TableBatch<BigQueryTableRow>>,
    /// Schema changes to apply after the rows.
    pub relations: Vec<ReplicatedTableSchema>,
    /// Tables to truncate after the schema changes.
    pub truncates: Vec<ReplicatedTableSchema>,
}

/// An update came without the whole new row.
pub open spec fn partial_update_error(schema: ReplicatedTableSchema) -> ErrorModel {
    error_of(
        ErrorKind::InvalidState,
        "BigQuery update requires a full new row image"@,
        "Table '"@ + schema.name.text()
            + "' emitted a partial update row. BigQuery CDC UPSERT does not preserve omitted columns."@,
    )
}

/// A delete came without the old row.
pub open spec fn bare_delete_error(schema: ReplicatedTableSchema) -> ErrorModel {
    error_of(
        ErrorKind::InvalidState,
        "BigQuery delete requires an old row image"@,
        "Table '"@ + schema.name.text()
            + "' emitted a delete without an old row image. BigQuery deletes are keyed by the source primary key and cannot be applied safely without it."@,
    )
}

/// The rows that an event adds to its table, or why it cannot be written; `None` for events that
/// write no rows.
pub open spec fn event_rows(e: Event) -> Option<
    Result<Addition<Seq<(int, CellModel)>>, ErrorModel>,
> {
    match e {
        Event::Insert(insert) => {
            let key = EventSequenceKey {
                commit_lsn: insert.commit_lsn,
                tx_ordinal: insert.tx_ordinal,
            };
            Some(
                Ok(
                    Addition {
                        schema: insert.replicated_table_schema,
                        rows: seq![upsert_row(insert.table_row@, sequence_key_text(key, 0))],
                    },
                ),
            )
        },
        Event::Update(update) => {
            let schema = update.replicated_table_schema;
            let key = EventSequenceKey {
                commit_lsn: update.commit_lsn,
                tx_ordinal: update.tx_ordinal,
            };
            Some(
                match identity_error(schema) {
                    Some(e) => Err(e),
                    None => match update.updated_table_row {
                        UpdatedTableRow::Partial(_) => Err(partial_update_error(schema)),
                        UpdatedTableRow::Full(row) => match update_rows(
                            schema,
                            row,
                            update.old_table_row,
                            key,
                        ) {
                            Err(e) => Err(e),
                            Ok(rows) => Ok(Addition { schema, rows }),
                        },
                    },
                },
            )
        },
        Event::Delete(delete) => {
            let schema = delete.replicated_table_schema;
            let key = EventSequenceKey {
                commit_lsn: delete.commit_lsn,
                tx_ordinal: delete.tx_ordinal,
            };
            Some(
                match identity_error(schema) {
                    Some(e) => Err(e),
                    None => match delete.old_table_row {
                        None => Err(bare_delete_error(schema)),
                        Some(old_row) => match delete_row(
                            schema,
                            old_row,
                            sequence_key_text(key, 0),
                        ) {
                            Err(e) => Err(e),
                            Ok(row) => Ok(Addition { schema, rows: seq![row] }),
                        },
                    },
                },
            )
        },
        _ => None,
    }
}

/// Whether the columns of an event that names its table's key can be counted.
pub open spec fn event_countable(e: Event) -> bool {
    match e {
        Event::Update(update) => update.replicated_table_schema.countable(),
        Event::Delete(delete) => delete.replicated_table_schema.countable(),
        _ => true,
    }
}

/// What the events add, in order; events before an error only.
pub open spec fn additions(events: Seq<Event>) -> Seq<Addition<Seq<(int, CellModel)>>>
    decreases events.len(),
{
    if events.len() == 0 {
        Seq::empty()
    } else {
        match event_rows(events.last()) {
            Some(Ok(a)) => additions(events.drop_last()).push(a),
            _ => additions(events.drop_last()),
        }
    }
}

/// The error of the first event that cannot be written.
pub open spec fn first_error(events: Seq<Event>) -> Option<ErrorModel>
    decreases events.len(),
{
    if events.len() == 0 {
        None
    } else {
        match first_error(events.drop_last()) {
            Some(e) => Some(e),
            None => match event_rows(events.last()) {
                Some(Err(e)) => Some(e),
                _ => None,
            },
        }
    }
}

/// Whether an event cannot be written.
pub open spec fn event_fails(e: Event) -> bool {
    event_rows(e) matches Some(Err(_))
}

proof fn lemma_error_stays(events: Seq<Event>, n: int)
    requires
        0 <= n <= events.len(),
        first_error(events.take(n)) is Some,
    ensures
        first_error(events) == first_error(events.take(n)),
    decreases events.len() - n,
{
    if n < events.len() {
        assert(events.take(n + 1).drop_last() =~= events.take(n));
        lemma_error_stays(events, n + 1);
    } else {
        assert(events.take(n) =~= events);
    }
}

/// Adds one event's rows.
fn write_event(
    tables: &mut Vec<TableBatch<BigQueryTableRow>>,
    event: Event,
    log: Ghost<Seq<Addition<Seq<(int, CellModel)>>>>,
) -> (r: EtlResult<()>)
    requires
        event_countable(event),
        grouping(old(tables)@, log@),
    ensures
        r is Ok <==> !(event_rows(event) matches Some(Err(_))),
        r matches Err(e) ==> event_rows(event) == Some(
            Err::<Addition<Seq<(int, CellModel)>>, ErrorModel>(e@),
        ),
        r is Ok ==> grouping(
            final(tables)@,
            match event_rows(event) {
                Some(Ok(a)) => log@.push(a),
                _ => log@,
            },
        ),
{
    match event {
        Event::Insert(insert) => {
            let key = bigquery_sequence_key(
                EventSequenceKey::new(insert.commit_lsn, insert.tx_ordinal),
                BIGQUERY_SEQUENCE_ORDINAL_FIRST,
            );
            let row = bigquery_upsert_row(insert.table_row, key);
            let rows = vec![row];
            proof {
                assert(row_views(rows@) =~= seq![row@]);
            }
            add_rows(tables, insert.replicated_table_schema, rows, log);
            Ok(())
        },
        Event::Update(update) => {
            match validate_bigquery_replica_identity(&update.replicated_table_schema) {
                Ok(_) => {},
                Err(e) => {
                    return Err(e);
                },
            }
            let key = EventSequenceKey::new(update.commit_lsn, update.tx_ordinal);
            let row = match update.updated_table_row {
                UpdatedTableRow::Full(row) => row,
                UpdatedTableRow::Partial(_) => {
                    let name = update.replicated_table_schema.name.to_text();
                    return Err(
                        EtlError::new(
                            ErrorKind::InvalidState,
                            "BigQuery update requires a full new row image",
                            cat3(
                                "Table '",
                                name.as_str(),
                                "' emitted a partial update row. BigQuery CDC UPSERT does not preserve omitted columns.",
                            ),
                        ),
                    );
                },
            };
            let rows = match bigquery_update_rows(
                &update.replicated_table_schema,
                row,
                update.old_table_row,
                key,
            ) {
                Ok(rows) => rows,
                Err(e) => {
                    return Err(e);
                },
            };
            proof {
                assert(row_views(rows@) =~= bigquery_row_views(rows@));
            }
            add_rows(tables, update.replicated_table_schema, rows, log);
            Ok(())
        },
        Event::Delete(delete) => {
            match validate_bigquery_replica_identity(&delete.replicated_table_schema) {
                Ok(_) => {},
                Err(e) => {
                    return Err(e);
                },
            }
            let key = bigquery_sequence_key(
                EventSequenceKey::new(delete.commit_lsn, delete.tx_ordinal),
                BIGQUERY_SEQUENCE_ORDINAL_FIRST,
            );
            let old_row = match delete.old_table_row {
                Some(old_row) => old_row,
                None => {
                    let name = delete.replicated_table_schema.name.to_text();
                    return Err(
                        EtlError::new(
                            ErrorKind::InvalidState,
                            "BigQuery delete requires an old row image",
                            cat3(
                                "Table '",
                                name.as_str(),
                                "' emitted a delete without an old row image. BigQuery deletes are keyed by the source primary key and cannot be applied safely without it.",
                            ),
                        ),
                    );
                },
            };
            let row = match bigquery_delete_row(&delete.replicated_table_schema, old_row, key) {
                Ok(row) => row,
                Err(e) => {
                    return Err(e);
                },
            };
            let rows = vec![row];
            proof {
                assert(row_views(rows@) =~= seq![row@]);
            }
            add_rows(tables, delete.replicated_table_schema, rows, log);
            Ok(())
        },
        _ => Ok(()),
    }
}

/// Whether a pass is what the front of a stream asks for.
pub open spec fn is_pass(all: Seq<Event>, pass: BigQueryPass) -> bool {
    let d = run_len(all, EventClass::Data) as int;
    let rest = all.skip(d);
    let n = run_len(rest, EventClass::Relation) as int;
    let tail = rest.skip(n);
    let t = run_len(tail, EventClass::Truncate) as int;
    &&& grouping(pass.tables@, additions(all.take(d)))
    &&& pass.relations@ == announced(rest.take(n))
    &&& deduplicated(pass.truncates@, truncated(tail.take(t)), true)
}

/// Takes the next pass off the front of the stream. The first event of the pass that cannot be
/// written decides the error, and the stream is left behind it.
pub fn next_pass(events: &mut VecDeque<Event>) -> (r: EtlResult<BigQueryPass>)
    requires
        forall|i: int|
            0 <= i < run_len(old(events)@, EventClass::Data) ==> event_countable(
                #[trigger] old(events)@[i],
            ),
    ensures
        ({
            let all = old(events)@;
            let d = run_len(all, EventClass::Data) as int;
            &&& r is Ok <==> first_error(all.take(d)) is None
            &&& r matches Err(e) ==> first_error(all.take(d)) == Some(e@) && exists|k: int|
                0 <= k < d && first_error(all.take(k)) is None && event_fails(all[k])
                    && final(events)@ == #[trigger] all.skip(k + 1)
            &&& r matches Ok(pass) ==> final(events)@ == all.skip(pass_len(all) as int) && is_pass(
                all,
                pass,
            )
        }),
{
    let ghost all = events@;
    let ghost d = run_len(all, EventClass::Data) as int;
    let ghost mut done: int = 0;
    let mut tables: Vec<TableBatch<BigQueryTableRow>> = Vec::new();
    proof {
        law_run_is_maximal(all, EventClass::Data);
        assert(all.skip(0) =~= all);
    }
    while events.len() > 0 && is_in_class(&events[0], EventClass::Data)
        invariant
            0 <= done <= d <= all.len(),
            d == run_len(all, EventClass::Data),
            events@ == all.skip(done),
            done + run_len(events@, EventClass::Data) == d,
            all == old(events)@,
            forall|i: int| 0 <= i < d ==> event_countable(#[trigger] all[i]),
            first_error(all.take(done)) is None,
            grouping(tables@, additions(all.take(done))),
        decreases events@.len(),
    {
        let ghost before = events@;
        let next = events.pop_front();
        proof {
            assert(before[0] == all[done]);
            assert(before.skip(1) =~= all.skip(done + 1));
            assert(events@ =~= before.skip(1));
            assert(all.take(done + 1).drop_last() =~= all.take(done));
            assert(all.take(done + 1).last() == all[done]);
        }
        if let Some(event) = next {
            let ghost log = additions(all.take(done));
            match write_event(&mut tables, event, Ghost(log)) {
                Ok(_) => {},
                Err(e) => {
                    proof {
                        let prefix = all.take(d);
                        assert(prefix.take(done + 1) =~= all.take(done + 1));
                        lemma_error_stays(prefix, done + 1);
                        assert(events@ == all.skip(done + 1));
                    }
                    return Err(e);
                },
            }
        }
        proof {
            done = done + 1;
        }
    }
    proof {
        assert(done == d);
    }
    let ghost rest = events@;
    let relations = take_relations(events);
    let ghost n = run_len(rest, EventClass::Relation) as int;
    let ghost tail = events@;
    let truncates = take_truncates(events, true);
    let ghost t = run_len(tail, EventClass::Truncate) as int;
    proof {
        law_run_is_maximal(rest, EventClass::Relation);
        law_run_is_maximal(tail, EventClass::Truncate);
        assert(tail =~= all.skip(d + n));
        assert(events@ =~= all.skip(d + n + t));
    }
    Ok(BigQueryPass { tables, relations, truncates })
}

/// How BigQuery writes single events.
pub open spec fn writing() -> Writing<Seq<(int, CellModel)>> {
    Writing {
        adds: |e: Event|
            match event_rows(e) {
                Some(Ok(a)) => Some(a),
                _ => None,
            },
        follows: true,
        last: true,
    }
}

/// Whether the passes are what a stream asks for, one after another, and leave the rest of it. A
/// pass is made only of events that can be written.
pub open spec fn passes_of(all: Seq<Event>, passes: Seq<BigQueryPass>, rest: Seq<Event>) -> bool
    decreases passes.len(),
{
    if passes.len() == 0 {
        rest == all
    } else {
        &&& all.len() > 0
        &&& first_error(all.take(run_len(all, EventClass::Data) as int)) is None
        &&& is_pass(all, passes[0])
        &&& passes_of(all.skip(pass_len(all) as int), passes.skip(1), rest)
    }
}

/// What passes do to a table, one after another.
pub open spec fn effects(passes: Seq<BigQueryPass>, id: TableId) -> Seq<
    Effect<Seq<(int, CellModel)>>,
>
    decreases passes.len(),
{
    if passes.len() == 0 {
        Seq::empty()
    } else {
        pass_effects(
            passes[0].tables@,
            passes[0].relations@,
            passes[0].truncates@,
            id,
        ) + effects(passes.skip(1), id)
    }
}

proof fn lemma_additions(events: Seq<Event>)
    ensures
        additions(events) == writing().added(events),
    decreases events.len(),
{
    if events.len() > 0 {
        lemma_additions(events.drop_last());
    }
}

proof fn lemma_none_fails(events: Seq<Event>, i: int)
    requires
        first_error(events) is None,
        0 <= i < events.len(),
    ensures
        !event_fails(events[i]),
    decreases events.len(),
{
    if i < events.len() - 1 {
        lemma_none_fails(events.drop_last(), i);
    }
}

proof fn lemma_none_written_fails(
    all: Seq<Event>,
    passes: Seq<BigQueryPass>,
    rest: Seq<Event>,
    i: int,
)
    requires
        passes_of(all, passes, rest),
        0 <= i < all.len() - rest.len(),
    ensures
        !event_fails(all[i]),
    decreases passes.len(),
{
    if passes.len() > 0 {
        let d = run_len(all, EventClass::Data) as int;
        let n = run_len(all.skip(d), EventClass::Relation) as int;
        let m = pass_len(all) as int;
        law_run_is_maximal(all, EventClass::Data);
        law_run_is_maximal(all.skip(d), EventClass::Relation);
        law_run_is_maximal(all.skip(d + n), EventClass::Truncate);
        if i < d {
            assert(all.take(d)[i] == all[i]);
            lemma_none_fails(all.take(d), i);
        } else if i < d + n {
            assert(all[i] == all.skip(d)[i - d]);
            assert(all[i] is Relation);
        } else if i < m {
            assert(all[i] == all.skip(d + n)[i - d - n]);
            assert(all[i] is Truncate);
        } else {
            assert(all[i] == all.skip(m)[i - m]);
            lemma_none_written_fails(all.skip(m), passes.skip(1), rest, i - m);
        }
    }
}

proof fn lemma_writing()
    ensures
        writing().wf(),
{
    assert forall|e: Event| #[trigger] (writing().adds)(e) is Some implies in_class(
        e,
        EventClass::Data,
    ) by {}
}

proof fn lemma_one_pass(all: Seq<Event>, pass: BigQueryPass, id: TableId)
    requires
        all.len() > 0,
        is_pass(all, pass),
    ensures
        0 < pass_len(all) <= all.len(),
        writing().in_order(all, id) == pass_effects(
            pass.tables@,
            pass.relations@,
            pass.truncates@,
            id,
        ) + writing().in_order(all.skip(pass_len(all) as int), id),
        pass_len(all) < all.len() ==> {
            let before = all[pass_len(all) - 1];
            before is Relation || before is Truncate
        },
{
    let d = run_len(all, EventClass::Data) as int;
    let n = run_len(all.skip(d), EventClass::Relation) as int;
    let m = pass_len(all) as int;
    lemma_writing();
    lemma_additions(all.take(d));
    law_pass_takes_an_event(all);
    law_run_is_maximal(all, EventClass::Data);
    law_run_is_maximal(all.skip(d), EventClass::Relation);
    law_run_is_maximal(all.skip(d + n), EventClass::Truncate);
    assert(all.skip(d).skip(n) =~= all.skip(d + n));
    lemma_pass_is_in_order(writing(), all, pass.tables@, pass.relations@, pass.truncates@, id);
    if m < all.len() {
        let at = m - 1;
        if m > d + n {
            assert(all[at] == all.skip(d + n)[at - d - n]);
        } else {
            assert(all[at] == all.skip(d)[at - d]);
        }
    }
}

/// A stream that is written pass by pass is written in its order: to every table the passes do what
/// the events before the rest do one by one, so rows stand before the schema change or truncate that
/// follows them and behind the one before them, rows of a table keep the order of their events, and
/// a table is truncated once by truncates that follow each other. Only the rest is left to be done.
/// It begins behind a schema change or truncate, and no event that cannot be written stands before
/// it: of the events between two of these either all are written or none.
pub proof fn law_stream_is_written_in_order(
    all: Seq<Event>,
    passes: Seq<BigQueryPass>,
    rest: Seq<Event>,
    id: TableId,
)
    requires
        passes_of(all, passes, rest),
    ensures
        rest.len() <= all.len(),
        rest == all.skip(all.len() - rest.len()),
        writing().in_order(all, id) == effects(passes, id) + writing().in_order(rest, id),
        rest.len() == 0 ==> effects(passes, id) == writing().in_order(all, id),
        0 < rest.len() < all.len() ==> {
            let before = all[all.len() - rest.len() - 1];
            before is Relation || before is Truncate
        },
        forall|i: int| 0 <= i < all.len() - rest.len() ==> !event_fails(#[trigger] all[i]),
    decreases passes.len(),
{
    if passes.len() == 0 {
        assert(all.skip(0) =~= all);
        assert(effects(passes, id) + writing().in_order(rest, id) =~= writing().in_order(all, id));
    } else {
        let m = pass_len(all) as int;
        let next = all.skip(m);
        lemma_one_pass(all, passes[0], id);
        law_stream_is_written_in_order(next, passes.skip(1), rest, id);
        assert(rest =~= all.skip(all.len() - rest.len()));
        assert(writing().in_order(all, id) =~= effects(passes, id) + writing().in_order(rest, id));
        if rest.len() == 0 {
            assert(effects(passes, id) =~= writing().in_order(all, id));
        }
        if 0 < rest.len() < all.len() {
            let at = all.len() - rest.len() - 1;
            if rest.len() < next.len() {
                assert(all[at] == next[next.len() - rest.len() - 1]);
            } else {
                assert(at == m - 1);
            }
        }
        assert forall|i: int| 0 <= i < all.len() - rest.len() implies !event_fails(
            #[trigger] all[i],
        ) by {
            lemma_none_written_fails(all, passes, rest, i);
        }
    }
}

/// A change that cannot be written keeps back all changes that no schema change or truncate stands
/// between: none of them is written.
pub proof fn law_faulty_changes_are_not_split(
    all: Seq<Event>,
    passes: Seq<BigQueryPass>,
    rest: Seq<Event>,
    i: int,
    k: int,
)
    requires
        passes_of(all, passes, rest),
        0 <= i <= k < all.len(),
        event_fails(all[k]),
        forall|j: int|
            i <= j <= k ==> !(#[trigger] all[j] is Relation) && !(all[j] is Truncate),
    ensures
        all.len() - rest.len() <= i,
{
    law_stream_is_written_in_order(all, passes, rest, TableId(0));
    if i < all.len() - rest.len() {
        assert(all.len() - rest.len() <= k);
        assert(i <= all.len() - rest.len() - 1 <= k);
    }
}

/// An update without the whole new row and a delete without an old row are refused.
pub proof fn law_faulty_events_are_refused(e: Event)
    ensures
        e matches Event::Update(update) && identity_error(update.replicated_table_schema) is None
            && update.updated_table_row is Partial ==> (event_rows(e) matches Some(Err(error))
            && error.kind == ErrorKind::InvalidState),
        e matches Event::Delete(delete) && identity_error(delete.replicated_table_schema) is None
            && delete.old_table_row is None ==> (event_rows(e) matches Some(Err(error))
            && error.kind == ErrorKind::InvalidState),
{
}

/// An insert is one upsert of its row, ordered by its position.
pub proof fn law_inserts_are_upserts(e: Event)
    ensures
        e matches Event::Insert(insert) ==> (event_rows(e) matches Some(Ok(a)) && {
            let n = insert.table_row@.len() as int;
            let key = EventSequenceKey {
                commit_lsn: insert.commit_lsn,
                tx_ordinal: insert.tx_ordinal,
            };
            &&& a.schema == insert.replicated_table_schema
            &&& a.rows.len() == 1
            &&& a.rows[0].len() == n + 2
            &&& forall|i: int|
                0 <= i < n ==> #[trigger] a.rows[0][i] == (i + 1, insert.table_row@[i])
            &&& a.rows[0][n] == (n + 1, CellModel::Text("UPSERT"@))
            &&& a.rows[0][n + 1] == (n + 2, CellModel::Text(sequence_key_text(key, 0)))
        }),
{
    match e {
        Event::Insert(insert) => {
            let key = EventSequenceKey {
                commit_lsn: insert.commit_lsn,
                tx_ordinal: insert.tx_ordinal,
            };
            law_upserts_carry_the_whole_row(insert.table_row@, sequence_key_text(key, 0));
        },
        _ => {},
    }
}

/// A delete whose key image fits is one row that carries the key and the word DELETE, ordered by its
/// position.
pub proof fn law_deletes_are_deletes(e: Event, places: Seq<int>)
    ensures
        e matches Event::Delete(delete) ==> (delete.old_table_row matches Some(OldTableRow::Key(row))
            ==> ({
            let schema = delete.replicated_table_schema;
            &&& are_key_places(schema.columns@, places)
            &&& identity_error(schema) is None
            &&& schema.identity_matches_primary_key
            &&& row.values@.len() == places.len()
        } ==> (event_rows(e) matches Some(Ok(a)) && {
            let n = delete.replicated_table_schema.columns@.len() as int;
            let p = places.len() as int;
            let key = EventSequenceKey {
                commit_lsn: delete.commit_lsn,
                tx_ordinal: delete.tx_ordinal,
            };
            &&& a.schema == delete.replicated_table_schema
            &&& a.rows.len() == 1
            &&& a.rows[0].len() == p + 2
            &&& forall|k: int|
                0 <= k < p ==> #[trigger] a.rows[0][k] == (places[k] + 1, row.values@[k]@)
            &&& a.rows[0][p] == (n + 1, CellModel::Text("DELETE"@))
            &&& a.rows[0][p + 1] == (n + 2, CellModel::Text(sequence_key_text(key, 0)))
        }))),
{
    match e {
        Event::Delete(delete) => match delete.old_table_row {
            Some(OldTableRow::Key(row)) => {
                let schema = delete.replicated_table_schema;
                let key = EventSequenceKey {
                    commit_lsn: delete.commit_lsn,
                    tx_ordinal: delete.tx_ordinal,
                };
                if are_key_places(schema.columns@, places) {
                    law_deletes_carry_the_key(schema, row, sequence_key_text(key, 0), places);
                }
            },
            _ => {},
        },
        _ => {},
    }
}

/// A full update whose key image fits is one upsert if no key value changes; otherwise it is a delete
/// of the old key and an upsert of the new row behind it.
pub proof fn law_updates_follow_the_key(e: Event, places: Seq<int>)
    ensures
        e matches Event::Update(update) ==> (update.updated_table_row matches UpdatedTableRow::Full(
            new_row,
        ) ==> (update.old_table_row matches Some(OldTableRow::Key(image)) ==> ({
            let schema = update.replicated_table_schema;
            &&& are_key_places(schema.columns@, places)
            &&& identity_error(schema) is None
            &&& schema.identity_matches_primary_key
            &&& image.values@.len() == places.len()
            &&& new_row.values@.len() == schema.columns@.len()
        } ==> (event_rows(e) matches Some(Ok(a)) && {
            let n = update.replicated_table_schema.columns@.len() as int;
            let p = places.len() as int;
            &&& a.schema == update.replicated_table_schema
            &&& a.rows.len() == 1 <==> forall|k: int|
                0 <= k < p ==> (#[trigger] image.values@[k]).same(&new_row.values@[places[k]])
            &&& a.rows.len() == 1 || a.rows.len() == 2
            &&& a.rows.last()[n] == (n + 1, CellModel::Text("UPSERT"@))
            &&& forall|i: int|
                0 <= i < n ==> #[trigger] a.rows.last()[i] == (i + 1, new_row.values@[i]@)
            &&& a.rows.len() == 2 ==> a.rows[0][p] == (n + 1, CellModel::Text("DELETE"@))
        })))),
{
    match e {
        Event::Update(update) => match update.updated_table_row {
            UpdatedTableRow::Full(new_row) => match update.old_table_row {
                Some(OldTableRow::Key(image)) => {
                    let schema = update.replicated_table_schema;
                    let key = EventSequenceKey {
                        commit_lsn: update.commit_lsn,
                        tx_ordinal: update.tx_ordinal,
                    };
                    if are_key_places(schema.columns@, places)
                        && schema.identity_matches_primary_key && image.values@.len()
                        == places.len() && new_row.values@.len() == schema.columns@.len() {
                        law_update_deletes_a_changed_key(schema, image, new_row, key, places);
                    }
                },
                _ => {},
            },
            _ => {},
        },
        _ => {},
    }
}

/// Only inserts, updates and deletes write rows; an insert is always written; an update or a delete
/// of a table without a usable key is refused.
pub proof fn law_only_changes_write_rows(e: Event)
    ensures
        e is Begin || e is Commit || e is Relation || e is Truncate || e is Unsupported ==> event_rows(
            e,
        ) is None,
        e is Insert ==> !event_fails(e),
        e matches Event::Update(update) ==> (identity_error(update.replicated_table_schema) matches
            Some(error) ==> event_rows(e) == Some(
            Err::<Addition<Seq<(int, CellModel)>>, ErrorModel>(error),
        )),
        e matches Event::Delete(delete) ==> (identity_error(delete.replicated_table_schema) matches
            Some(error) ==> event_rows(e) == Some(
            Err::<Addition<Seq<(int, CellModel)>>, ErrorModel>(error),
        )),
        e matches Event::Delete(delete) ==> (delete.old_table_row is None ==> event_fails(e)),
        e matches Event::Update(update) ==> (update.updated_table_row is Partial ==> event_fails(e)),
        writing().follows,
        writing().last,
        event_rows(e) matches Some(Ok(a)) ==> (writing().adds)(e) == Some(a),
        !(event_rows(e) matches Some(Ok(_))) ==> (writing().adds)(e) is None,
{
}

/// The first event that cannot be written decides the error of a stream; without one there is none.
pub proof fn law_first_faulty_event_decides(events: Seq<Event>)
    ensures
        first_error(events) is None <==> forall|i: int|
            0 <= i < events.len() ==> !event_fails(#[trigger] events[i]),
        first_error(events) matches Some(error) ==> exists|i: int|
            0 <= i < events.len() && event_rows(#[trigger] events[i]) == Some(
                Err::<Addition<Seq<(int, CellModel)>>, ErrorModel>(error),
            ) && forall|j: int| 0 <= j < i ==> !event_fails(#[trigger] events[j]),
    decreases events.len(),
{
    if events.len() > 0 {
        let rest = events.drop_last();
        law_first_faulty_event_decides(rest);
        let last = events.len() - 1;
        assert(events[last] == events.last());
        match first_error(rest) {
            Some(error) => {
                let i = choose|i: int|
                    0 <= i < rest.len() && event_rows(#[trigger] rest[i]) == Some(
                        Err::<Addition<Seq<(int, CellModel)>>, ErrorModel>(error),
                    ) && forall|j: int| 0 <= j < i ==> !event_fails(#[trigger] rest[j]);
                assert(events[i] == rest[i]);
                assert forall|j: int| 0 <= j < i implies !event_fails(#[trigger] events[j]) by {
                    assert(events[j] == rest[j]);
                }
                assert(event_fails(events[i]));
            },
            None => {
                assert forall|j: int| 0 <= j < last implies !event_fails(#[trigger] events[j]) by {
                    assert(events[j] == rest[j]);
                }
            },
        }
    }
}

/// What a stream adds is what its events add, in order.
pub proof fn law_additions_follow_the_events(events: Seq<Event>, e: Event)
    ensures
        additions(Seq::empty()).len() == 0,
        event_rows(e) matches Some(Ok(a)) ==> additions(events.push(e)) == additions(events).push(a),
        !(event_rows(e) matches Some(Ok(_))) ==> additions(events.push(e)) == additions(events),
{
    assert(events.push(e).drop_last() =~= events);
}

/// A partial update is refused as invalid.
pub proof fn law_partial_updates_are_invalid(schema: ReplicatedTableSchema)
    ensures
        partial_update_error(schema).kind == ErrorKind::InvalidState,
        partial_update_error(schema).description == "BigQuery update requires a full new row image"@,
        partial_update_error(schema).source is None,
{
}

/// A pass writes the changes in front, up to the first event that is none; a change that cannot be
/// written fails it.
pub proof fn law_passes_begin_with_the_changes(
    events: &mut VecDeque<Event>,
    r: EtlResult<BigQueryPass>,
)
    requires
        call_ensures(next_pass, (events,), r),
    ensures
        ({
            let all = old(events)@;
            let d = run_len(all, EventClass::Data) as int;
            &&& r is Err <==> first_error(all.take(d)) is Some
            &&& r matches Err(e) ==> first_error(all.take(d)) == Some(e@)
            &&& r matches Ok(pass) ==> grouping(pass.tables@, additions(all.take(d)))
            &&& r matches Ok(pass) ==> pass.relations@ == announced(
                all.skip(d).take(run_len(all.skip(d), EventClass::Relation) as int),
            )
        }),
{
}

/// A delete without an old row is invalid.
pub proof fn law_bare_deletes_are_invalid(schema: ReplicatedTableSchema)
    ensures
        bare_delete_error(schema).kind == ErrorKind::InvalidState,
        bare_delete_error(schema).description == "BigQuery delete requires an old row image"@,
        bare_delete_error(schema).source is None,
{
}

} // verus!
