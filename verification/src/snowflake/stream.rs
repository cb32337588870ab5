//! What a whole stream of events does to a table when it is run step by step.
use vstd::prelude::*;

use crate::batching::{in_class, law_run_is_maximal, run_len, truncated, EventClass};
use crate::event::Event;
use crate::schema::{ColumnSchema, ReplicatedTableSchema, TableId};
use crate::snowflake::destination::{
    event_row, prepares, ready, ready_len, row_bytes, rows_for, schema_to_prepare, takes,
    EventRun, EventStep, Phase, PreparedColumns,
};
use crate::snowflake::streaming::batch::AddedRow;
use crate::stream::{
    lemma_deduplicated, lemma_no_truncate, row_effects, truncate_effects, truncated_once, Effect,
};

verus! {

/// What a stream of events does to a table, event by event in the order of the stream. Rows between
/// two schema changes or truncates are written with the columns that the table has in the first of
/// them; `columns` are those if there was one already. Truncates that follow each other truncate the
/// table once, by its last schema.
pub open spec fn in_order(
    events: Seq<Event>,
    columns: Option<Seq<ColumnSchema>>,
    id: TableId,
) -> Seq<Effect<AddedRow>>
    decreases events.len(),
{
    if events.len() == 0 {
        Seq::empty()
    } else {
        match events[0] {
            Event::Truncate(_) => {
                let t = run_len(events, EventClass::Truncate) as int;
                proof {
                    law_run_is_maximal(events, EventClass::Truncate);
                }
                truncated_once(truncated(events.take(t)), id, true) + in_order(
                    events.skip(t),
                    None,
                    id,
                )
            },
            Event::Relation(relation) => (if relation.replicated_table_schema.id == id {
                seq![Effect::Change(relation.replicated_table_schema)]
            } else {
                Seq::empty()
            }) + in_order(events.skip(1), None, id),
            _ => match row_of(events[0], columns, id) {
                Some((row, used)) => seq![Effect::Row(row)] + in_order(
                    events.skip(1),
                    Some(used),
                    id,
                ),
                None => in_order(events.skip(1), columns, id),
            },
        }
    }
}

/// The row that an event adds to a table, and the columns that it is written with.
pub open spec fn row_of(
    e: Event,
    columns: Option<Seq<ColumnSchema>>,
    id: TableId,
) -> Option<(AddedRow, Seq<ColumnSchema>)> {
    match event_row(e) {
        Some(Ok(row)) => if row.table == id {
            let used = match columns {
                Some(columns) => columns,
                None => schema_to_prepare(e)->Some_0.columns@,
            };
            Some((AddedRow { line: row_bytes(row, used)->Ok_0, token: row.position }, used))
        } else {
            None
        },
        _ => None,
    }
}

/// The columns that a table was prepared with.
pub open spec fn columns_of(run: EventRun, id: TableId) -> Option<Seq<ColumnSchema>> {
    if run.rows.prepared().dom().contains(id) {
        Some(run.rows.prepared()[id])
    } else {
        None
    }
}

/// The rows of a table that wait to be sent.
pub open spec fn waiting_rows(run: EventRun, id: TableId) -> Seq<AddedRow> {
    if run.rows.prepared().dom().contains(id) {
        run.rows.rows_of(id)
    } else {
        Seq::empty()
    }
}

/// What a run has still to do to a table.
pub open spec fn left_to_do(run: EventRun, id: TableId) -> Seq<Effect<AddedRow>> {
    match run.phase {
        Phase::Collect => row_effects(waiting_rows(run, id)) + in_order(
            run.events@,
            columns_of(run, id),
            id,
        ),
        Phase::Flush => row_effects(waiting_rows(run, id)) + in_order(run.events@, None, id),
        Phase::Relations => in_order(run.events@, None, id),
        Phase::Truncates => truncate_effects(run.truncates@, id) + in_order(
            run.events@,
            None,
            id,
        ),
    }
}

/// A move of a run.
pub enum Move {
    /// The run said what is to be done, and it was done.
    Next(EventStep),
    /// The table of the first event was prepared.
    Prepared,
}

/// What a move does to a table.
pub open spec fn move_effects(m: Move, id: TableId) -> Seq<Effect<AddedRow>> {
    match m {
        Move::Next(EventStep::Flush(table, builder)) => if table == id {
            row_effects(builder.rows())
        } else {
            Seq::empty()
        },
        Move::Next(EventStep::Relation(schema)) => if schema.id == id {
            seq![Effect::Change(schema)]
        } else {
            Seq::empty()
        },
        Move::Next(EventStep::Truncate(schema)) => if schema.id == id {
            seq![Effect::Truncate(schema)]
        } else {
            Seq::empty()
        },
        _ => Seq::empty(),
    }
}

/// What moves do to a table, one after another.
pub open spec fn effects(moves: Seq<Move>, id: TableId) -> Seq<Effect<AddedRow>>
    decreases moves.len(),
{
    if moves.len() == 0 {
        Seq::empty()
    } else {
        effects(moves.drop_last(), id) + move_effects(moves.last(), id)
    }
}

/// Whether the table of the first event is to be prepared before the event can be taken.
pub open spec fn needs_table(run: EventRun) -> bool {
    &&& run.phase == Phase::Collect
    &&& run.events@.len() > 0
    &&& in_class(run.events@[0], EventClass::Data)
    &&& !ready(run.events@[0], run.rows.prepared())
}

/// Whether a run of events went through these states by these moves. A table is prepared only when
/// the first event needs it.
pub open spec fn is_event_run(
    events: Seq<Event>,
    states: Seq<EventRun>,
    moves: Seq<Move>,
) -> bool
    decreases moves.len(),
{
    &&& states.len() == moves.len() + 1
    &&& states.last().wf()
    &&& if moves.len() == 0 {
        &&& states[0].events@ == events
        &&& states[0].phase == Phase::Collect
        &&& states[0].rows.prepared() == Map::<TableId, Seq<ColumnSchema>>::empty()
    } else {
        let before = states.drop_last().last();
        &&& is_event_run(events, states.drop_last(), moves.drop_last())
        &&& match moves.last() {
            Move::Next(step) => takes(before, step, states.last()),
            Move::Prepared => needs_table(before) && prepares(before, states.last()),
        }
    }
}

/// Whether tables that wait to be truncated differ, and the events left when rows are sent begin
/// with a schema change or truncate.
spec fn sound(run: EventRun) -> bool {
    &&& run.wf()
    &&& forall|i: int, j: int|
        0 <= i < j < run.truncates@.len() ==> (#[trigger] run.truncates@[i]).id != (
        #[trigger] run.truncates@[j]).id
    &&& run.phase == Phase::Flush && run.events@.len() > 0 ==> !in_class(
        run.events@[0],
        EventClass::Data,
    )
}

proof fn lemma_taken(events: Seq<Event>, prepared: PreparedColumns, n: int, id: TableId)
    requires
        0 <= n <= ready_len(events, prepared),
    ensures
        n <= events.len(),
        prepared.dom().contains(id) ==> in_order(events, Some(prepared[id]), id) == row_effects(
            rows_for(events.take(n), id, prepared[id]),
        ) + in_order(events.skip(n), Some(prepared[id]), id),
        !prepared.dom().contains(id) ==> in_order(events, None, id) == in_order(
            events.skip(n),
            None,
            id,
        ),
        n == ready_len(events, prepared) && n < events.len() ==> !ready(events[n], prepared),
    decreases n,
{
    if n == 0 {
        assert(events.skip(0) =~= events);
        if prepared.dom().contains(id) {
            assert(in_order(events, Some(prepared[id]), id) =~= row_effects(
                rows_for(events.take(0), id, prepared[id]),
            ) + in_order(events, Some(prepared[id]), id));
        }
    } else {
        let rest = events.skip(1);
        lemma_taken(rest, prepared, n - 1, id);
        assert(rest.skip(n - 1) =~= events.skip(n));
        if n == ready_len(events, prepared) && n < events.len() {
            assert(rest[n - 1] == events[n]);
        }
        if prepared.dom().contains(id) {
            lemma_rows_of_front(events.take(n), id, prepared[id]);
            assert(events.take(n).skip(1) =~= rest.take(n - 1));
            assert(in_order(events, Some(prepared[id]), id) =~= row_effects(
                rows_for(events.take(n), id, prepared[id]),
            ) + in_order(events.skip(n), Some(prepared[id]), id));
        }
    }
}

proof fn lemma_rows_of_front(events: Seq<Event>, id: TableId, columns: Seq<ColumnSchema>)
    requires
        events.len() > 0,
    ensures
        rows_for(events, id, columns) == (match row_of(events[0], Some(columns), id) {
            Some((row, _)) => seq![row],
            None => Seq::empty(),
        }) + rows_for(events.skip(1), id, columns),
    decreases events.len(),
{
    let head = match row_of(events[0], Some(columns), id) {
        Some((row, _)) => seq![row],
        None => Seq::empty(),
    };
    if events.len() == 1 {
        assert(events.drop_last() =~= Seq::<Event>::empty());
        assert(events.skip(1) =~= Seq::<Event>::empty());
        assert(rows_for(events, id, columns) =~= head + rows_for(events.skip(1), id, columns));
    } else {
        lemma_rows_of_front(events.drop_last(), id, columns);
        assert(events.drop_last().skip(1) =~= events.skip(1).drop_last());
        assert(events.skip(1).last() == events.last());
        assert(rows_for(events, id, columns) =~= head + rows_for(events.skip(1), id, columns));
    }
}

proof fn lemma_collect(before: EventRun, step: EventStep, after: EventRun, id: TableId)
    requires
        sound(before),
        after.wf(),
        before.phase == Phase::Collect,
        takes(before, step, after),
    ensures
        sound(after),
        left_to_do(before, id) == move_effects(Move::Next(step), id) + left_to_do(after, id),
{
    if before.events@.len() > 0 {
        let all = before.events@;
        let prepared = before.rows.prepared();
        let n = ready_len(all, prepared) as int;
        lemma_taken(all, prepared, n, id);
        let rest = all.skip(n);
        if n < all.len() {
            assert(rest[0] == all[n]);
        }
        if after.phase == Phase::Flush {
            assert(in_order(rest, columns_of(before, id), id) == in_order(rest, None, id));
        }
        let added = rows_for(all.take(n), id, prepared[id]);
        if prepared.dom().contains(id) {
            assert(after.rows.rows_of(id) == before.rows.rows_of(id) + added);
            assert(row_effects(waiting_rows(after, id)) =~= row_effects(waiting_rows(before, id))
                + row_effects(added));
        }
        assert(left_to_do(before, id) =~= left_to_do(after, id));
    }
    assert(left_to_do(before, id) =~= move_effects(Move::Next(step), id) + left_to_do(after, id));
}

proof fn lemma_step(before: EventRun, step: EventStep, after: EventRun, id: TableId)
    requires
        sound(before),
        after.wf(),
        takes(before, step, after),
    ensures
        sound(after),
        left_to_do(before, id) == move_effects(Move::Next(step), id) + left_to_do(after, id),
{
    let all = before.events@;
    match before.phase {
        Phase::Collect => {
            lemma_collect(before, step, after, id);
        },
        Phase::Flush => {
            if let EventStep::Flush(table, builder) = step {
                if id != table && before.rows.prepared().dom().contains(id) {
                    assert(after.rows.prepared().dom().contains(id));
                    assert(after.rows.rows_of(id) == before.rows.rows_of(id));
                }
            }
            assert(left_to_do(before, id) =~= move_effects(Move::Next(step), id) + left_to_do(
                after,
                id,
            ));
        },
        Phase::Relations => {
            if !(step is Relation) {
                let n = run_len(all, EventClass::Truncate) as int;
                law_run_is_maximal(all, EventClass::Truncate);
                lemma_deduplicated::<AddedRow>(after.truncates@, truncated(all.take(n)), true, id);
                if n == 0 {
                    assert(all.skip(0) =~= all);
                    assert(truncated(all.take(0)) =~= Seq::<ReplicatedTableSchema>::empty());
                }
            }
            assert(left_to_do(before, id) =~= move_effects(Move::Next(step), id) + left_to_do(
                after,
                id,
            ));
        },
        Phase::Truncates => {
            let waiting = before.truncates@;
            if waiting.len() > 0 {
                let head = waiting.drop_last();
                if waiting.last().id == id {
                    assert forall|i: int| 0 <= i < head.len() implies (#[trigger] head[i]).id
                        != id by {
                        assert(waiting[i].id != waiting[waiting.len() - 1].id);
                    }
                    lemma_no_truncate::<AddedRow>(head, id);
                }
                assert forall|i: int, j: int| 0 <= i < j < head.len() implies (
                #[trigger] head[i]).id != (#[trigger] head[j]).id by {
                    assert(waiting[i].id != waiting[j].id);
                }
            }
            assert(left_to_do(before, id) =~= move_effects(Move::Next(step), id) + left_to_do(
                after,
                id,
            ));
        },
    }
}

proof fn lemma_prepared(before: EventRun, after: EventRun, id: TableId)
    requires
        sound(before),
        after.wf(),
        needs_table(before),
        prepares(before, after),
    ensures
        sound(after),
        left_to_do(before, id) == left_to_do(after, id),
{
    let e = before.events@[0];
    let schema = schema_to_prepare(e)->Some_0;
    if id == schema.id {
        assert(!before.rows.prepared().dom().contains(id));
        assert(in_order(before.events@, None, id) == in_order(
            before.events@,
            Some(schema.columns@),
            id,
        ));
    }
    assert(left_to_do(before, id) =~= left_to_do(after, id));
}

/// A stream of events is written in its order: to every table a run has done, and has still to do,
/// what the events of the stream do one by one. So rows are sent before the schema change or truncate
/// that follows them and behind the one before them, rows of a table keep the order of their events,
/// every row is sent once, every schema change is followed once, and a table is truncated once by
/// truncates that follow each other. A run that has taken all events has done all of it.
pub proof fn law_stream_is_written_in_order(
    events: Seq<Event>,
    states: Seq<EventRun>,
    moves: Seq<Move>,
    id: TableId,
)
    requires
        is_event_run(events, states, moves),
    ensures
        in_order(events, None, id) == effects(moves, id) + left_to_do(states.last(), id),
        states.last().phase == Phase::Collect && states.last().events@.len() == 0 ==> effects(
            moves,
            id,
        ) == in_order(events, None, id),
{
    lemma_run(events, states, moves, id);
    let last = states.last();
    if last.phase == Phase::Collect && last.events@.len() == 0 {
        assert(effects(moves, id) =~= effects(moves, id) + left_to_do(last, id));
    }
}

proof fn lemma_run(events: Seq<Event>, states: Seq<EventRun>, moves: Seq<Move>, id: TableId)
    requires
        is_event_run(events, states, moves),
    ensures
        sound(states.last()),
        in_order(events, None, id) == effects(moves, id) + left_to_do(states.last(), id),
    decreases moves.len(),
{
    if moves.len() == 0 {
        assert(in_order(events, None, id) =~= effects(moves, id) + left_to_do(states.last(), id));
    } else {
        let before = states.drop_last().last();
        lemma_run(events, states.drop_last(), moves.drop_last(), id);
        match moves.last() {
            Move::Next(step) => {
                lemma_step(before, step, states.last(), id);
            },
            Move::Prepared => {
                lemma_prepared(before, states.last(), id);
            },
        }
        assert(effects(moves.drop_last(), id) + left_to_do(before, id) =~= effects(moves, id)
            + left_to_do(states.last(), id));
    }
}

/// Where the row events begin that stand directly before event `at`.
pub open spec fn segment_start(events: Seq<Event>, at: int) -> int
    decreases at,
{
    if at <= 0 || !in_class(events[at - 1], EventClass::Data) {
        at
    } else {
        segment_start(events, at - 1)
    }
}

/// Where a run stands in its stream: rows are sent only before a schema change, a truncate or the
/// end, and while rows are collected nothing is done of those that stand together with them.
spec fn placed(events: Seq<Event>, run: EventRun, id: TableId) -> bool {
    let rest = run.events@;
    let at = events.len() - rest.len();
    let behind = at > 0 && !in_class(events[at - 1], EventClass::Data);
    &&& 0 <= at
    &&& rest == events.skip(at)
    &&& match run.phase {
        Phase::Collect => rest.len() > 0 ==> left_to_do(run, id) == in_order(
            events.skip(segment_start(events, at)),
            None,
            id,
        ),
        Phase::Flush => true,
        Phase::Relations => rest.len() == 0 || !in_class(rest[0], EventClass::Data) || behind,
        Phase::Truncates => rest.len() == 0 || behind,
    }
}

proof fn lemma_same_segment(events: Seq<Event>, at: int, n: int)
    requires
        0 <= at <= at + n <= events.len(),
        forall|i: int| at <= i < at + n ==> in_class(#[trigger] events[i], EventClass::Data),
    ensures
        segment_start(events, at + n) == segment_start(events, at),
    decreases n,
{
    if n > 0 {
        assert(in_class(events[at + n - 1], EventClass::Data));
        lemma_same_segment(events, at, n - 1);
    }
}

proof fn lemma_ready_events(events: Seq<Event>, prepared: PreparedColumns, i: int)
    requires
        0 <= i < ready_len(events, prepared),
    ensures
        i < events.len(),
        in_class(events[i], EventClass::Data),
    decreases events.len(),
{
    if i > 0 {
        lemma_ready_events(events.skip(1), prepared, i - 1);
    }
}

proof fn lemma_placed_collect(
    events: Seq<Event>,
    before: EventRun,
    step: EventStep,
    after: EventRun,
    id: TableId,
)
    requires
        sound(before),
        after.wf(),
        before.phase == Phase::Collect,
        takes(before, step, after),
        placed(events, before, id),
    ensures
        placed(events, after, id),
{
    let all = before.events@;
    let at = events.len() - all.len();
    if all.len() > 0 {
        let prepared = before.rows.prepared();
        let n = ready_len(all, prepared) as int;
        if n > 0 {
            lemma_ready_events(all, prepared, n - 1);
        }
        assert(all.skip(n) =~= events.skip(at + n));
        assert forall|i: int| at <= i < at + n implies in_class(
            #[trigger] events[i],
            EventClass::Data,
        ) by {
            lemma_ready_events(all, prepared, i - at);
            assert(events[i] == all[i - at]);
        }
        lemma_same_segment(events, at, n);
        lemma_collect(before, step, after, id);
        assert(move_effects(Move::Next(step), id) =~= Seq::<Effect<AddedRow>>::empty());
        assert(left_to_do(before, id) =~= left_to_do(after, id));
    }
}

proof fn lemma_placed_barrier(
    events: Seq<Event>,
    before: EventRun,
    step: EventStep,
    after: EventRun,
    id: TableId,
)
    requires
        sound(before),
        after.wf(),
        before.phase != Phase::Collect,
        takes(before, step, after),
        placed(events, before, id),
    ensures
        placed(events, after, id),
{
    let all = before.events@;
    let at = events.len() - all.len();
    match before.phase {
        Phase::Relations => {
            if step is Relation {
                assert(all.skip(1) =~= events.skip(at + 1));
                assert(events[at] == all[0]);
            } else {
                let n = run_len(all, EventClass::Truncate) as int;
                law_run_is_maximal(all, EventClass::Truncate);
                assert(all.skip(n) =~= events.skip(at + n));
                if n > 0 {
                    assert(events[at + n - 1] == all[n - 1]);
                    assert(in_class(all[n - 1], EventClass::Truncate));
                }
            }
        },
        Phase::Truncates => {
            if step is Turn && all.len() > 0 {
                assert(segment_start(events, at) == at);
                assert(left_to_do(after, id) =~= in_order(all, None, id));
            }
        },
        _ => {},
    }
}

proof fn lemma_run_is_placed(
    events: Seq<Event>,
    states: Seq<EventRun>,
    moves: Seq<Move>,
    id: TableId,
)
    requires
        is_event_run(events, states, moves),
    ensures
        placed(events, states.last(), id),
    decreases moves.len(),
{
    if moves.len() == 0 {
        let run = states[0];
        assert(events.skip(0) =~= events);
        assert(left_to_do(run, id) =~= in_order(events, None, id));
    } else {
        let before = states.drop_last().last();
        lemma_run(events, states.drop_last(), moves.drop_last(), id);
        lemma_run_is_placed(events, states.drop_last(), moves.drop_last(), id);
        match moves.last() {
            Move::Next(step) => {
                if before.phase == Phase::Collect {
                    lemma_placed_collect(events, before, step, states.last(), id);
                } else {
                    lemma_placed_barrier(events, before, step, states.last(), id);
                }
            },
            Move::Prepared => {
                lemma_prepared(before, states.last(), id);
            },
        }
    }
}

/// While rows are collected, so too when one of them cannot be taken, nothing is done of the row
/// events that no schema change or truncate stands between: what was done are the events before
/// them.
pub proof fn law_faulty_changes_are_not_split(
    events: Seq<Event>,
    states: Seq<EventRun>,
    moves: Seq<Move>,
    id: TableId,
)
    requires
        is_event_run(events, states, moves),
        states.last().phase == Phase::Collect,
        states.last().events@.len() > 0,
    ensures
        ({
            let at = events.len() - states.last().events@.len();
            let from = segment_start(events, at);
            &&& states.last().events@ == events.skip(at)
            &&& 0 <= from <= at
            &&& from == 0 || events[from - 1] is Relation || events[from - 1] is Truncate
            &&& in_order(events, None, id) == effects(moves, id) + in_order(
                events.skip(from),
                None,
                id,
            )
        }),
{
    let at = events.len() - states.last().events@.len();
    lemma_run(events, states, moves, id);
    lemma_run_is_placed(events, states, moves, id);
    lemma_segment_start(events, at);
}

proof fn lemma_segment_start(events: Seq<Event>, at: int)
    requires
        0 <= at <= events.len(),
    ensures
        0 <= segment_start(events, at) <= at,
        segment_start(events, at) == 0 || !in_class(
            events[segment_start(events, at) - 1],
            EventClass::Data,
        ),
    decreases at,
{
    if at > 0 && in_class(events[at - 1], EventClass::Data) {
        lemma_segment_start(events, at - 1);
    }
}

} // verus!
