//! Cutting a stream of events into passes, and grouping what a pass writes by table.
use std::collections::VecDeque;

use vstd::prelude::*;

use crate::event::Event;
use crate::schema::{ReplicatedTableSchema, TableId};

verus! {

/// Rows bound for one table.
#[derive(Debug)]
pub struct TableBatch<R> {
    /// The table, as the first of the rows' events saw it.
    pub schema: ReplicatedTableSchema,
    /// The rows, in the order of their events.
    pub rows: Vec<R>,
}

/// Rows that one event adds for a table.
pub struct Addition<V> {
    /// The table, as the event sees it.
    pub schema: ReplicatedTableSchema,
    /// The rows.
    pub rows: Seq<V>,
}

/// What a vector of rows holds.
pub open spec fn row_views<R: View>(rows: Seq<R>) -> Seq<R::V> {
    Seq::new(rows.len(), |i: int| rows[i]@)
}

/// Whether some addition is for table `id`.
pub open spec fn adds_to<V>(log: Seq<Addition<V>>, id: TableId) -> bool {
    exists|k: int| 0 <= k < log.len() && (#[trigger] log[k]).schema.id == id
}

/// All rows that `log` adds for table `id`, in order.
pub open spec fn rows_of<V>(log: Seq<Addition<V>>, id: TableId) -> Seq<V>
    decreases log.len(),
{
    if log.len() == 0 {
        Seq::empty()
    } else if log.last().schema.id == id {
        rows_of(log.drop_last(), id) + log.last().rows
    } else {
        rows_of(log.drop_last(), id)
    }
}

/// The schema of the first addition for table `id`.
pub open spec fn first_schema<V>(log: Seq<Addition<V>>, id: TableId) -> ReplicatedTableSchema
    decreases log.len(),
{
    if log.len() == 0 || !adds_to(log.drop_last(), id) {
        log.last().schema
    } else {
        first_schema(log.drop_last(), id)
    }
}

/// Whether `batches` holds exactly what `log` adds: one batch per table, with the table's first
/// schema and all its rows in order. The order of the batches is left open.
pub open spec fn grouping<R: View>(batches: Seq<TableBatch<R>>, log: Seq<Addition<R::V>>) -> bool {
    &&& forall|i: int, j: int|
        0 <= i < j < batches.len() ==> (#[trigger] batches[i]).schema.id != (
        #[trigger] batches[j]).schema.id
    &&& forall|i: int|
        0 <= i < batches.len() ==> {
            let id = (#[trigger] batches[i]).schema.id;
            &&& adds_to(log, id)
            &&& batches[i].schema == first_schema(log, id)
            &&& row_views(batches[i].rows@) == rows_of(log, id)
        }
    &&& forall|k: int|
        0 <= k < log.len() ==> exists|i: int|
            0 <= i < batches.len() && (#[trigger] batches[i]).schema.id == (
            #[trigger] log[k]).schema.id
}

/// Rows for a table without additions are none.
proof fn lemma_no_rows<V>(log: Seq<Addition<V>>, id: TableId)
    requires
        !adds_to(log, id),
    ensures
        rows_of(log, id) == Seq::<V>::empty(),
    decreases log.len(),
{
    if log.len() > 0 {
        assert(log[log.len() - 1].schema.id != id);
        assert forall|k: int| 0 <= k < log.drop_last().len() implies (
        #[trigger] log.drop_last()[k]).schema.id != id by {
            assert(log[k].schema.id != id);
        }
        lemma_no_rows(log.drop_last(), id);
    }
}

/// How one more addition changes what is recorded for a table.
proof fn lemma_push_addition<V>(log: Seq<Addition<V>>, a: Addition<V>, id: TableId)
    ensures
        adds_to(log.push(a), id) <==> adds_to(log, id) || a.schema.id == id,
        rows_of(log.push(a), id) == if a.schema.id == id {
            rows_of(log, id) + a.rows
        } else {
            rows_of(log, id)
        },
        first_schema(log.push(a), id) == if adds_to(log, id) {
            first_schema(log, id)
        } else {
            a.schema
        },
{
    let next = log.push(a);
    assert(next.drop_last() =~= log);
    if adds_to(log, id) {
        let k = choose|k: int| 0 <= k < log.len() && (#[trigger] log[k]).schema.id == id;
        assert(next[k].schema.id == id);
    }
    if a.schema.id == id {
        assert(next[log.len() as int].schema.id == id);
    }
    if adds_to(next, id) {
        let k = choose|k: int| 0 <= k < next.len() && (#[trigger] next[k]).schema.id == id;
        if k < log.len() {
            assert(log[k].schema.id == id);
        }
    }
}

/// Adds an event's rows to the batches of a pass.
pub(crate) fn add_rows<R: View>(
    batches: &mut Vec<TableBatch<R>>,
    schema: ReplicatedTableSchema,
    rows: Vec<R>,
    log: Ghost<Seq<Addition<R::V>>>,
)
    requires
        grouping(old(batches)@, log@),
    ensures
        grouping(
            final(batches)@,
            log@.push((Addition { schema, rows: row_views(rows@) })),
        ),
{
    let ghost a = Addition { schema, rows: row_views(rows@) };
    let ghost before = batches@;
    let ghost next = log@.push(a);
    let mut pending = rows;
    let mut i: usize = 0;
    while i < batches.len()
        invariant
            i <= batches@.len(),
            batches@ == before,
            grouping(before, log@),
            a == (Addition { schema, rows: row_views(rows@) }),
            pending@ == rows@,
            next == log@.push(a),
            forall|j: int| 0 <= j < i ==> (#[trigger] before[j]).schema.id != schema.id,
        decreases batches@.len() - i,
    {
        if batches[i].schema.id.0 == schema.id.0 {
            let ghost old_rows = before[i as int].rows@;
            let ghost new_rows = pending@;
            batches[i].rows.append(&mut pending);
            proof {
                let now = batches@;
                assert(now.len() == before.len());
                assert(now[i as int].rows@ == old_rows + new_rows);
                assert(row_views(now[i as int].rows@) =~= row_views(old_rows) + a.rows);
                assert forall|j: int| 0 <= j < now.len() implies {
                    let id = (#[trigger] now[j]).schema.id;
                    &&& adds_to(next, id)
                    &&& now[j].schema == first_schema(next, id)
                    &&& row_views(now[j].rows@) == rows_of(next, id)
                } by {
                    assert(now[j].schema == before[j].schema);
                    if j != i {
                        assert(now[j] == before[j]);
                        if j < i {
                            assert(before[j].schema.id != schema.id);
                        } else {
                            assert(before[i as int].schema.id != before[j].schema.id);
                        }
                    }
                    lemma_push_addition(log@, a, before[j].schema.id);
                }
                assert forall|k: int| 0 <= k < next.len() implies exists|j: int|
                    0 <= j < now.len() && (#[trigger] now[j]).schema.id == (
                    #[trigger] next[k]).schema.id by {
                    if k < log@.len() {
                        assert(next[k] == log@[k]);
                        let j = choose|j: int|
                            0 <= j < before.len() && (#[trigger] before[j]).schema.id
                                == log@[k].schema.id;
                        assert(now[j].schema == before[j].schema);
                    } else {
                        assert(now[i as int].schema.id == next[k].schema.id);
                    }
                }
                assert forall|p: int, q: int| 0 <= p < q < now.len() implies (
                #[trigger] now[p]).schema.id != (#[trigger] now[q]).schema.id by {
                    assert(now[p].schema == before[p].schema);
                    assert(now[q].schema == before[q].schema);
                }
            }
            return ;
        }
        i = i + 1;
    }
    batches.push(TableBatch { schema, rows: pending });
    proof {
        let now = batches@;
        let n = before.len() as int;
        if adds_to(log@, schema.id) {
            let k = choose|k: int|
                0 <= k < log@.len() && (#[trigger] log@[k]).schema.id == schema.id;
            let j = choose|j: int|
                0 <= j < before.len() && (#[trigger] before[j]).schema.id == log@[k].schema.id;
            assert(before[j].schema.id != schema.id);
            assert(false);
        }
        lemma_no_rows(log@, schema.id);
        lemma_push_addition(log@, a, schema.id);
        assert(Seq::<R::V>::empty() + a.rows =~= a.rows);
        assert forall|j: int| 0 <= j < now.len() implies {
            let id = (#[trigger] now[j]).schema.id;
            &&& adds_to(next, id)
            &&& now[j].schema == first_schema(next, id)
            &&& row_views(now[j].rows@) == rows_of(next, id)
        } by {
            if j < n {
                assert(now[j] == before[j]);
                lemma_push_addition(log@, a, before[j].schema.id);
            }
        }
        assert forall|k: int| 0 <= k < next.len() implies exists|j: int|
            0 <= j < now.len() && (#[trigger] now[j]).schema.id == (
            #[trigger] next[k]).schema.id by {
            if k < log@.len() {
                assert(next[k] == log@[k]);
                let j = choose|j: int|
                    0 <= j < before.len() && (#[trigger] before[j]).schema.id
                        == log@[k].schema.id;
                assert(now[j] == before[j]);
            } else {
                assert(now[n].schema.id == next[k].schema.id);
            }
        }
        assert forall|p: int, q: int| 0 <= p < q < now.len() implies (
        #[trigger] now[p]).schema.id != (#[trigger] now[q]).schema.id by {
            assert(now[p] == before[p]);
            if q < n {
                assert(now[q] == before[q]);
            }
        }
    }
}

/// Classes of events that a pass takes in a row.
#[derive(Clone, Copy, Debug, PartialEq, Eq, Structural)]
pub enum EventClass {
    /// Everything but schema announcements and truncates.
    Data,
    /// Everything but truncates.
    NonTruncate,
    /// Schema announcements.
    Relation,
    /// Truncates.
    Truncate,
}

/// Whether an event is of a class.
pub open spec fn in_class(e: Event, class: EventClass) -> bool {
    match class {
        EventClass::Data => !(e is Truncate) && !(e is Relation),
        EventClass::NonTruncate => !(e is Truncate),
        EventClass::Relation => e is Relation,
        EventClass::Truncate => e is Truncate,
    }
}

/// Returns whether an event is of a class.
pub fn is_in_class(e: &Event, class: EventClass) -> (r: bool)
    ensures
        r == in_class(*e, class),
{
    let truncate = match e {
        Event::Truncate(_) => true,
        _ => false,
    };
    let relation = match e {
        Event::Relation(_) => true,
        _ => false,
    };
    match class {
        EventClass::Data => !truncate && !relation,
        EventClass::NonTruncate => !truncate,
        EventClass::Relation => relation,
        EventClass::Truncate => truncate,
    }
}

/// How many events at the front are of a class.
pub open spec fn run_len(events: Seq<Event>, class: EventClass) -> nat
    decreases events.len(),
{
    if events.len() == 0 || !in_class(events[0], class) {
        0
    } else {
        1 + run_len(events.skip(1), class)
    }
}

/// A run ends before the first event of another class, or with the last event.
pub proof fn law_run_is_maximal(events: Seq<Event>, class: EventClass)
    ensures
        run_len(events, class) <= events.len(),
        forall|i: int| 0 <= i < run_len(events, class) ==> in_class(#[trigger] events[i], class),
        run_len(events, class) < events.len() ==> !in_class(
            events[run_len(events, class) as int],
            class,
        ),
    decreases events.len(),
{
    if events.len() > 0 && in_class(events[0], class) {
        let rest = events.skip(1);
        law_run_is_maximal(rest, class);
        assert forall|i: int| 0 <= i < run_len(events, class) implies in_class(
            #[trigger] events[i],
            class,
        ) by {
            if i > 0 {
                assert(events[i] == rest[i - 1]);
            }
        }
        if run_len(events, class) < events.len() {
            assert(events[run_len(events, class) as int] == rest[run_len(rest, class) as int]);
        }
    }
}

/// Number of events that one pass over `events` takes: data, then announcements, then truncates.
pub open spec fn pass_len(events: Seq<Event>) -> nat {
    let d = run_len(events, EventClass::Data);
    let r = run_len(events.skip(d as int), EventClass::Relation);
    let t = run_len(events.skip((d + r) as int), EventClass::Truncate);
    d + r + t
}

/// Number of events that one pass over `events` takes where announcements count as data.
pub open spec fn changelog_pass_len(events: Seq<Event>) -> nat {
    let d = run_len(events, EventClass::NonTruncate);
    d + run_len(events.skip(d as int), EventClass::Truncate)
}

/// Every pass over a nonempty stream takes at least one event, so the passes come to an end.
pub proof fn law_pass_takes_an_event(events: Seq<Event>)
    requires
        events.len() > 0,
    ensures
        0 < pass_len(events) <= events.len(),
        0 < changelog_pass_len(events) <= events.len(),
{
    let d = run_len(events, EventClass::Data);
    law_run_is_maximal(events, EventClass::Data);
    let e1 = events.skip(d as int);
    let r = run_len(e1, EventClass::Relation);
    law_run_is_maximal(e1, EventClass::Relation);
    let e2 = events.skip((d + r) as int);
    law_run_is_maximal(e2, EventClass::Truncate);
    if d == 0 {
        assert(e1 =~= events);
        if r == 0 {
            assert(e2 =~= events);
            assert(run_len(e2, EventClass::Truncate) >= 1);
        }
    }
    let n = run_len(events, EventClass::NonTruncate);
    law_run_is_maximal(events, EventClass::NonTruncate);
    law_run_is_maximal(events.skip(n as int), EventClass::Truncate);
    if n == 0 {
        assert(events.skip(0) =~= events);
        assert(run_len(events, EventClass::Truncate) >= 1);
    }
}

/// Schemas of the announcements among `events`, in order.
pub open spec fn announced(events: Seq<Event>) -> Seq<ReplicatedTableSchema>
    decreases events.len(),
{
    if events.len() == 0 {
        Seq::empty()
    } else {
        match events.last() {
            Event::Relation(r) => announced(events.drop_last()).push(r.replicated_table_schema),
            _ => announced(events.drop_last()),
        }
    }
}

/// Takes the schema announcements at the front of the stream.
pub fn take_relations(events: &mut VecDeque<Event>) -> (r: Vec<ReplicatedTableSchema>)
    ensures
        ({
            let n = run_len(old(events)@, EventClass::Relation) as int;
            &&& final(events)@ == old(events)@.skip(n)
            &&& r@ == announced(old(events)@.take(n))
        }),
{
    let ghost all = events@;
    let ghost total = run_len(all, EventClass::Relation) as int;
    let ghost mut done: int = 0;
    let mut out: Vec<ReplicatedTableSchema> = Vec::new();
    proof {
        assert(all.skip(0) =~= all);
    }
    while events.len() > 0 && is_in_class(&events[0], EventClass::Relation)
        invariant
            0 <= done <= all.len(),
            events@ == all.skip(done),
            done + run_len(events@, EventClass::Relation) == total,
            out@ == announced(all.take(done)),
        decreases events@.len(),
    {
        let ghost before = events@;
        let next = events.pop_front();
        proof {
            assert(before.skip(1) =~= all.skip(done + 1));
            assert(events@ =~= before.skip(1));
            assert(all.take(done + 1).drop_last() =~= all.take(done));
            assert(all.take(done + 1).last() == before[0]);
        }
        if let Some(Event::Relation(relation)) = next {
            out.push(relation.replicated_table_schema);
        }
        proof {
            done = done + 1;
        }
    }
    out
}

/// The tables that `events` truncates, in order and with repetitions.
pub open spec fn truncated(events: Seq<Event>) -> Seq<ReplicatedTableSchema>
    decreases events.len(),
{
    if events.len() == 0 {
        Seq::empty()
    } else {
        match events.last() {
            Event::Truncate(t) => truncated(events.drop_last()) + t.truncated_tables@,
            _ => truncated(events.drop_last()),
        }
    }
}

/// Whether `log` mentions table `id`.
pub open spec fn mentions(log: Seq<ReplicatedTableSchema>, id: TableId) -> bool {
    exists|k: int| 0 <= k < log.len() && (#[trigger] log[k]).id == id
}

/// The schema that stands for table `id`: its last in `log`, or its first.
pub open spec fn chosen(
    log: Seq<ReplicatedTableSchema>,
    id: TableId,
    last: bool,
) -> ReplicatedTableSchema
    decreases log.len(),
{
    if log.len() == 0 {
        arbitrary()
    } else if log.last().id == id && (last || !mentions(log.drop_last(), id)) {
        log.last()
    } else {
        chosen(log.drop_last(), id, last)
    }
}

/// Whether `out` holds each table of `log` once, with the schema that is chosen for it. The
/// order is left open.
pub open spec fn deduplicated(
    out: Seq<ReplicatedTableSchema>,
    log: Seq<ReplicatedTableSchema>,
    last: bool,
) -> bool {
    &&& forall|i: int, j: int|
        0 <= i < j < out.len() ==> (#[trigger] out[i]).id != (#[trigger] out[j]).id
    &&& forall|i: int|
        0 <= i < out.len() ==> mentions(log, (#[trigger] out[i]).id) && out[i] == chosen(
            log,
            out[i].id,
            last,
        )
    &&& forall|k: int|
        0 <= k < log.len() ==> exists|i: int|
            0 <= i < out.len() && (#[trigger] out[i]).id == (#[trigger] log[k]).id
}

proof fn lemma_push_mention(
    log: Seq<ReplicatedTableSchema>,
    s: ReplicatedTableSchema,
    id: TableId,
    last: bool,
)
    ensures
        mentions(log.push(s), id) <==> mentions(log, id) || s.id == id,
        mentions(log.push(s), id) ==> chosen(log.push(s), id, last) == if s.id == id && (last
            || !mentions(log, id)) {
            s
        } else {
            chosen(log, id, last)
        },
{
    let next = log.push(s);
    assert(next.drop_last() =~= log);
    if mentions(log, id) {
        let k = choose|k: int| 0 <= k < log.len() && (#[trigger] log[k]).id == id;
        assert(next[k].id == id);
    }
    if s.id == id {
        assert(next[log.len() as int].id == id);
    }
    if mentions(next, id) {
        let k = choose|k: int| 0 <= k < next.len() && (#[trigger] next[k]).id == id;
        if k < log.len() {
            assert(log[k].id == id);
        }
    }
}

/// Records one truncated table.
fn record(
    out: &mut Vec<ReplicatedTableSchema>,
    schema: ReplicatedTableSchema,
    last: bool,
    log: Ghost<Seq<ReplicatedTableSchema>>,
)
    requires
        deduplicated(old(out)@, log@, last),
    ensures
        deduplicated(final(out)@, log@.push(schema), last),
{
    let ghost before = out@;
    let ghost next = log@.push(schema);
    let mut found: Option<usize> = None;
    let mut i: usize = 0;
    while i < out.len()
        invariant
            i <= out@.len(),
            out@ == before,
            found is None ==> forall|j: int|
                0 <= j < i ==> (#[trigger] before[j]).id != schema.id,
            found matches Some(f) ==> f < before.len() && before[f as int].id == schema.id,
        decreases out@.len() - i,
    {
        if out[i].id.0 == schema.id.0 {
            found = Some(i);
        }
        i = i + 1;
    }
    match found {
        Some(f) => {
            if last {
                out.set(f, schema);
            }
            proof {
                assert(before[f as int].id == schema.id);
                let now = out@;
                assert forall|j: int| 0 <= j < now.len() implies now[j].id == before[j].id by {}
                assert forall|j: int| 0 <= j < now.len() implies mentions(
                    next,
                    (#[trigger] now[j]).id,
                ) && now[j] == chosen(next, now[j].id, last) by {
                    lemma_push_mention(log@, schema, before[j].id, last);
                    assert(before[j].id == now[j].id);
                    if j != f {
                        if j < f {
                            assert(before[j].id != before[f as int].id);
                        } else {
                            assert(before[f as int].id != before[j].id);
                        }
                    }
                }
                assert forall|k: int| 0 <= k < next.len() implies exists|j: int|
                    0 <= j < now.len() && (#[trigger] now[j]).id == (#[trigger] next[k]).id by {
                    if k < log@.len() {
                        assert(next[k] == log@[k]);
                        let j = choose|j: int|
                            0 <= j < before.len() && (#[trigger] before[j]).id == log@[k].id;
                        assert(now[j].id == before[j].id);
                    } else {
                        assert(now[f as int].id == schema.id);
                    }
                }
                assert forall|p: int, q: int| 0 <= p < q < now.len() implies (
                #[trigger] now[p]).id != (#[trigger] now[q]).id by {
                    assert(before[p].id != before[q].id);
                }
            }
        },
        None => {
            out.push(schema);
            proof {
                let now = out@;
                let n = before.len() as int;
                if mentions(log@, schema.id) {
                    let k = choose|k: int|
                        0 <= k < log@.len() && (#[trigger] log@[k]).id == schema.id;
                    let j = choose|j: int|
                        0 <= j < before.len() && (#[trigger] before[j]).id == log@[k].id;
                    assert(before[j].id != schema.id);
                }
                assert forall|j: int| 0 <= j < now.len() implies mentions(
                    next,
                    (#[trigger] now[j]).id,
                ) && now[j] == chosen(next, now[j].id, last) by {
                    lemma_push_mention(log@, schema, now[j].id, last);
                    if j < n {
                        assert(now[j] == before[j]);
                    }
                }
                assert forall|k: int| 0 <= k < next.len() implies exists|j: int|
                    0 <= j < now.len() && (#[trigger] now[j]).id == (#[trigger] next[k]).id by {
                    if k < log@.len() {
                        assert(next[k] == log@[k]);
                        let j = choose|j: int|
                            0 <= j < before.len() && (#[trigger] before[j]).id == log@[k].id;
                        assert(now[j] == before[j]);
                    } else {
                        assert(now[n].id == schema.id);
                    }
                }
                assert forall|p: int, q: int| 0 <= p < q < now.len() implies (
                #[trigger] now[p]).id != (#[trigger] now[q]).id by {
                    assert(now[p] == before[p]);
                    if q < n {
                        assert(now[q] == before[q]);
                    }
                }
            }
        },
    }
}

/// Takes the truncates at the front of the stream, each table once: with its last schema if
/// `last`, else with its first.
pub fn take_truncates(events: &mut VecDeque<Event>, last: bool) -> (r: Vec<ReplicatedTableSchema>)
    ensures
        ({
            let n = run_len(old(events)@, EventClass::Truncate) as int;
            &&& final(events)@ == old(events)@.skip(n)
            &&& deduplicated(r@, truncated(old(events)@.take(n)), last)
        }),
{
    let ghost all = events@;
    let ghost total = run_len(all, EventClass::Truncate) as int;
    let ghost mut done: int = 0;
    let mut out: Vec<ReplicatedTableSchema> = Vec::new();
    proof {
        assert(all.skip(0) =~= all);
    }
    while events.len() > 0 && is_in_class(&events[0], EventClass::Truncate)
        invariant
            0 <= done <= all.len(),
            events@ == all.skip(done),
            done + run_len(events@, EventClass::Truncate) == total,
            deduplicated(out@, truncated(all.take(done)), last),
        decreases events@.len(),
    {
        let ghost before = events@;
        let next = events.pop_front();
        proof {
            assert(before.skip(1) =~= all.skip(done + 1));
            assert(events@ =~= before.skip(1));
            assert(all.take(done + 1).drop_last() =~= all.take(done));
            assert(all.take(done + 1).last() == before[0]);
        }
        if let Some(Event::Truncate(truncate)) = next {
            let ghost base = truncated(all.take(done));
            let ghost tables = truncate.truncated_tables@;
            let ghost mut log = base;
            proof {
                assert(base + tables.take(0) =~= base);
            }
            for schema in it: truncate.truncated_tables
                invariant
                    it.seq() == tables,
                    log == base + tables.take(it.index()),
                    deduplicated(out@, log, last),
            {
                record(&mut out, schema, last, Ghost(log));
                proof {
                    log = log.push(schema);
                    assert(log =~= base + tables.take(it.index() + 1));
                }
            }
            proof {
                assert(tables.take(tables.len() as int) =~= tables);
            }
        }
        proof {
            done = done + 1;
        }
    }
    out
}

/// Only truncates are truncates and only announcements are announcements; every other event is data.
pub proof fn law_events_have_one_class(e: Event)
    ensures
        in_class(e, EventClass::Truncate) <==> e is Truncate,
        in_class(e, EventClass::Relation) <==> e is Relation,
        in_class(e, EventClass::Data) <==> (e is Begin || e is Commit || e is Insert || e is Update
            || e is Delete || e is Unsupported),
        in_class(e, EventClass::NonTruncate) <==> in_class(e, EventClass::Data) || in_class(
            e,
            EventClass::Relation,
        ),
{
}

/// The rows of a table are those of its additions, one after another; additions for other tables add
/// none. The first addition for a table decides its schema.
pub proof fn law_additions_are_collected_by_table<V>(
    log: Seq<Addition<V>>,
    next: Addition<V>,
    id: TableId,
)
    ensures
        rows_of(Seq::<Addition<V>>::empty(), id).len() == 0,
        next.schema.id == id ==> rows_of(log.push(next), id) == rows_of(log, id) + next.rows,
        next.schema.id != id ==> rows_of(log.push(next), id) == rows_of(log, id),
        next.schema.id == id && !adds_to(log, id) ==> first_schema(log.push(next), id)
            == next.schema,
        adds_to(log, id) ==> first_schema(log.push(next), id) == first_schema(log, id),
        adds_to(log.push(next), id) <==> adds_to(log, id) || next.schema.id == id,
{
    lemma_push_addition(log, next, id);
}

/// The schemas that a stream announces, and the tables that it truncates, come in the order of the
/// stream.
pub proof fn law_announcements_and_truncates_are_collected(events: Seq<Event>, e: Event)
    ensures
        announced(Seq::empty()).len() == 0,
        truncated(Seq::empty()).len() == 0,
        e matches Event::Relation(relation) ==> announced(events.push(e)) == announced(events).push(
            relation.replicated_table_schema,
        ),
        !(e is Relation) ==> announced(events.push(e)) == announced(events),
        e matches Event::Truncate(truncate) ==> truncated(events.push(e)) == truncated(events)
            + truncate.truncated_tables@,
        !(e is Truncate) ==> truncated(events.push(e)) == truncated(events),
{
    assert(events.push(e).drop_last() =~= events);
}

/// Of several schemas of a table the last one stands for it, or else the first.
pub proof fn law_last_or_first_schema_is_chosen(log: Seq<ReplicatedTableSchema>, id: TableId, k: int)
    requires
        0 <= k < log.len(),
        log[k].id == id,
    ensures
        (forall|j: int| k < j < log.len() ==> (#[trigger] log[j]).id != id) ==> chosen(
            log,
            id,
            true,
        ) == log[k],
        (forall|j: int| 0 <= j < k ==> (#[trigger] log[j]).id != id) ==> chosen(log, id, false)
            == log[k],
    decreases log.len(),
{
    let rest = log.drop_last();
    if k < log.len() - 1 {
        assert(rest[k] == log[k]);
        law_last_or_first_schema_is_chosen(rest, id, k);
        if forall|j: int| k < j < log.len() ==> (#[trigger] log[j]).id != id {
            assert(log[log.len() - 1].id != id);
            assert forall|j: int| k < j < rest.len() implies (#[trigger] rest[j]).id != id by {
                assert(rest[j] == log[j]);
            }
        }
        if forall|j: int| 0 <= j < k ==> (#[trigger] log[j]).id != id {
            assert(mentions(rest, id));
            assert forall|j: int| 0 <= j < k implies (#[trigger] rest[j]).id != id by {
                assert(rest[j] == log[j]);
            }
        }
    } else {
        if forall|j: int| 0 <= j < k ==> (#[trigger] log[j]).id != id {
            assert(!mentions(rest, id)) by {
                if mentions(rest, id) {
                    let j = choose|j: int| 0 <= j < rest.len() && (#[trigger] rest[j]).id == id;
                    assert(rest[j] == log[j]);
                }
            }
        }
    }
}

/// A list without duplicates names exactly the tables of the log, each once and with the schema that
/// stands for it.
pub proof fn law_every_table_is_listed_once(
    out: Seq<ReplicatedTableSchema>,
    log: Seq<ReplicatedTableSchema>,
    last: bool,
    id: TableId,
)
    requires
        deduplicated(out, log, last),
    ensures
        mentions(out, id) <==> mentions(log, id),
        forall|i: int, j: int|
            0 <= i < out.len() && 0 <= j < out.len() && (#[trigger] out[i]).id == (
            #[trigger] out[j]).id ==> i == j,
        forall|i: int|
            0 <= i < out.len() ==> #[trigger] out[i] == chosen(log, out[i].id, last),
{
    if mentions(out, id) {
        let i = choose|i: int| 0 <= i < out.len() && (#[trigger] out[i]).id == id;
        assert(mentions(log, out[i].id));
    }
    if mentions(log, id) {
        let k = choose|k: int| 0 <= k < log.len() && (#[trigger] log[k]).id == id;
        let i = choose|i: int| 0 <= i < out.len() && (#[trigger] out[i]).id == log[k].id;
        assert(out[i].id == id);
    }
}

/// A pass takes data, then announcements, then truncates; where announcements count as data it takes
/// all but truncates, then truncates.
pub proof fn law_passes_are_cut_in_this_order(events: Seq<Event>)
    ensures
        ({
            let d = run_len(events, EventClass::Data) as int;
            let r = run_len(events.skip(d), EventClass::Relation) as int;
            let t = run_len(events.skip(d + r), EventClass::Truncate) as int;
            &&& pass_len(events) == d + r + t
            &&& forall|i: int| 0 <= i < d ==> in_class(#[trigger] events[i], EventClass::Data)
            &&& forall|i: int| d <= i < d + r ==> (#[trigger] events[i] is Relation)
            &&& forall|i: int| d + r <= i < d + r + t ==> (#[trigger] events[i] is Truncate)
            &&& d + r + t < events.len() ==> !(events[d + r + t] is Truncate)
        }),
        ({
            let d = run_len(events, EventClass::NonTruncate) as int;
            let t = run_len(events.skip(d), EventClass::Truncate) as int;
            &&& changelog_pass_len(events) == d + t
            &&& forall|i: int| 0 <= i < d ==> !(#[trigger] events[i] is Truncate)
            &&& forall|i: int| d <= i < d + t ==> (#[trigger] events[i] is Truncate)
            &&& d + t < events.len() ==> !(events[d + t] is Truncate)
        }),
{
    let d = run_len(events, EventClass::Data) as int;
    law_run_is_maximal(events, EventClass::Data);
    let e1 = events.skip(d);
    let r = run_len(e1, EventClass::Relation) as int;
    law_run_is_maximal(e1, EventClass::Relation);
    let e2 = events.skip(d + r);
    let t = run_len(e2, EventClass::Truncate) as int;
    law_run_is_maximal(e2, EventClass::Truncate);
    assert forall|i: int| d <= i < d + r implies (#[trigger] events[i] is Relation) by {
        assert(e1[i - d] == events[i]);
    }
    assert forall|i: int| d + r <= i < d + r + t implies (#[trigger] events[i] is Truncate) by {
        assert(e2[i - d - r] == events[i]);
    }
    if d + r + t < events.len() {
        assert(e2[t] == events[d + r + t]);
    }
    let n = run_len(events, EventClass::NonTruncate) as int;
    law_run_is_maximal(events, EventClass::NonTruncate);
    let e3 = events.skip(n);
    let u = run_len(e3, EventClass::Truncate) as int;
    law_run_is_maximal(e3, EventClass::Truncate);
    assert forall|i: int| 0 <= i < n implies !(#[trigger] events[i] is Truncate) by {
        assert(in_class(events[i], EventClass::NonTruncate));
    }
    assert forall|i: int| n <= i < n + u implies (#[trigger] events[i] is Truncate) by {
        assert(e3[i - n] == events[i]);
    }
    if n + u < events.len() {
        assert(e3[u] == events[n + u]);
    }
}

/// Grouped rows stand under their table, each table once, in the order in which they were added and under
/// the first schema that was added; no added table is left out.
pub proof fn law_groups_hold_all_rows_of_their_table<R: View>(
    batches: Seq<TableBatch<R>>,
    log: Seq<Addition<R::V>>,
    i: int,
    j: int,
    k: int,
)
    requires
        grouping(batches, log),
        0 <= i < batches.len(),
        0 <= j < batches.len(),
        0 <= k < log.len(),
    ensures
        batches[i].schema.id == batches[j].schema.id ==> i == j,
        batches[i].rows@.len() == rows_of(log, batches[i].schema.id).len(),
        forall|n: int|
            0 <= n < batches[i].rows@.len() ==> (#[trigger] batches[i].rows@[n])@ == rows_of(
                log,
                batches[i].schema.id,
            )[n],
        batches[i].schema == first_schema(log, batches[i].schema.id),
        exists|n: int|
            0 <= n < batches.len() && (#[trigger] batches[n]).schema.id == log[k].schema.id,
{
    let id = batches[i].schema.id;
    assert(row_views(batches[i].rows@) == rows_of(log, id));
    assert(row_views(batches[i].rows@).len() == batches[i].rows@.len());
    assert forall|n: int| 0 <= n < batches[i].rows@.len() implies (
    #[trigger] batches[i].rows@[n])@ == rows_of(log, id)[n] by {
        assert(row_views(batches[i].rows@)[n] == batches[i].rows@[n]@);
    }
    let n = choose|n: int|
        0 <= n < batches.len() && (#[trigger] batches[n]).schema.id == (#[trigger] log[k]).schema.id;
    assert(batches[n].schema.id == log[k].schema.id);
}

} // verus!
