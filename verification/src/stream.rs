//! What a whole stream of events does to a table when it is written pass by pass.
use vstd::prelude::*;

use crate::batching::{
    announced, chosen, deduplicated, grouping, in_class, law_run_is_maximal, mentions,
    row_views, rows_of, run_len, truncated, Addition, EventClass, TableBatch,
};
use crate::event::Event;
use crate::schema::{ReplicatedTableSchema, TableId};

verus! {

/// What is done to a table.
pub enum Effect<V> {
    /// A row is written.
    Row(V),
    /// The table follows a schema change.
    Change(ReplicatedTableSchema),
    /// The table is truncated.
    Truncate(ReplicatedTableSchema),
}

/// Rows are written one after another.
pub open spec fn row_effects<V>(rows: Seq<V>) -> Seq<Effect<V>> {
    Seq::new(rows.len(), |i: int| Effect::Row(rows[i]))
}

/// The schema changes of a table are followed one after another.
pub open spec fn change_effects<V>(schemas: Seq<ReplicatedTableSchema>, id: TableId) -> Seq<
    Effect<V>,
>
    decreases schemas.len(),
{
    if schemas.len() == 0 {
        Seq::empty()
    } else {
        let before = change_effects(schemas.drop_last(), id);
        if schemas.last().id == id {
            before.push(Effect::Change(schemas.last()))
        } else {
            before
        }
    }
}

/// Tables are truncated one after another.
pub open spec fn truncate_effects<V>(schemas: Seq<ReplicatedTableSchema>, id: TableId) -> Seq<
    Effect<V>,
>
    decreases schemas.len(),
{
    if schemas.len() == 0 {
        Seq::empty()
    } else {
        let before = truncate_effects(schemas.drop_last(), id);
        if schemas.last().id == id {
            before.push(Effect::Truncate(schemas.last()))
        } else {
            before
        }
    }
}

/// What truncates that follow each other do to a table: it is truncated once, by its last schema or
/// else by its first.
pub open spec fn truncated_once<V>(log: Seq<ReplicatedTableSchema>, id: TableId, last: bool) -> Seq<
    Effect<V>,
> {
    if mentions(log, id) {
        seq![Effect::Truncate(chosen(log, id, last))]
    } else {
        Seq::empty()
    }
}

/// How a destination writes single events.
pub struct Writing<V> {
    /// The rows that an event adds, if it adds any.
    pub adds: spec_fn(Event) -> Option<Addition<V>>,
    /// Whether announced schemas are followed.
    pub follows: bool,
    /// Whether a table that is truncated several times in a row is truncated by its last schema,
    /// rather than by its first.
    pub last: bool,
}

impl<V> Writing<V> {
    /// Whether only row events add rows.
    pub open spec fn wf(&self) -> bool {
        forall|e: Event| #[trigger] (self.adds)(e) is Some ==> in_class(e, EventClass::Data)
    }

    /// What an event other than a truncate does to a table.
    pub open spec fn event_effects(&self, e: Event, id: TableId) -> Seq<Effect<V>> {
        match e {
            Event::Relation(relation) => if self.follows && relation.replicated_table_schema.id
                == id {
                seq![Effect::Change(relation.replicated_table_schema)]
            } else {
                Seq::empty()
            },
            _ => match (self.adds)(e) {
                Some(a) => if a.schema.id == id {
                    row_effects(a.rows)
                } else {
                    Seq::empty()
                },
                None => Seq::empty(),
            },
        }
    }

    /// What a stream of events does to a table, event by event in the order of the stream.
    pub open spec fn in_order(&self, events: Seq<Event>, id: TableId) -> Seq<Effect<V>>
        decreases events.len(),
    {
        if events.len() == 0 {
            Seq::empty()
        } else if events[0] is Truncate {
            let t = run_len(events, EventClass::Truncate) as int;
            proof {
                law_run_is_maximal(events, EventClass::Truncate);
            }
            truncated_once(truncated(events.take(t)), id, self.last) + self.in_order(
                events.skip(t),
                id,
            )
        } else {
            self.event_effects(events[0], id) + self.in_order(events.skip(1), id)
        }
    }

    /// What events other than truncates do to a table.
    pub open spec fn front(&self, events: Seq<Event>, id: TableId) -> Seq<Effect<V>>
        decreases events.len(),
    {
        if events.len() == 0 {
            Seq::empty()
        } else {
            self.front(events.drop_last(), id) + self.event_effects(events.last(), id)
        }
    }

    /// What the events add, in order.
    pub open spec fn added(&self, events: Seq<Event>) -> Seq<Addition<V>>
        decreases events.len(),
    {
        if events.len() == 0 {
            Seq::empty()
        } else {
            match (self.adds)(events.last()) {
                Some(a) => self.added(events.drop_last()).push(a),
                None => self.added(events.drop_last()),
            }
        }
    }

    proof fn lemma_front(&self, events: Seq<Event>, n: int, id: TableId)
        requires
            0 <= n <= events.len(),
            forall|i: int| 0 <= i < n ==> !((#[trigger] events[i]) is Truncate),
        ensures
            self.in_order(events, id) == self.front(events.take(n), id) + self.in_order(
                events.skip(n),
                id,
            ),
        decreases n,
    {
        if n == 0 {
            assert(events.skip(0) =~= events);
            assert(self.in_order(events, id) =~= self.front(events.take(0), id) + self.in_order(
                events.skip(0),
                id,
            ));
        } else {
            self.lemma_front(events, n - 1, id);
            let rest = events.skip(n - 1);
            assert(rest[0] == events[n - 1]);
            assert(rest.skip(1) =~= events.skip(n));
            assert(events.take(n).drop_last() =~= events.take(n - 1));
            assert(events.take(n).last() == events[n - 1]);
            assert(self.in_order(events, id) =~= self.front(events.take(n), id) + self.in_order(
                events.skip(n),
                id,
            ));
        }
    }

    proof fn lemma_front_rows(&self, events: Seq<Event>, id: TableId)
        requires
            self.wf(),
            forall|i: int|
                0 <= i < events.len() ==> !((#[trigger] events[i]) is Truncate) && !(self.follows
                    && events[i] is Relation),
        ensures
            self.front(events, id) == row_effects(rows_of(self.added(events), id)),
        decreases events.len(),
    {
        if events.len() == 0 {
            assert(self.front(events, id) =~= row_effects(rows_of(self.added(events), id)));
        } else {
            let (head, e) = (events.drop_last(), events.last());
            assert forall|i: int| 0 <= i < head.len() implies !((#[trigger] head[i]) is Truncate)
                && !(self.follows && head[i] is Relation) by {
                assert(head[i] == events[i]);
            }
            self.lemma_front_rows(head, id);
            assert(events[events.len() - 1] == e);
            match (self.adds)(e) {
                Some(a) => {
                    let log = self.added(head);
                    assert(log.push(a).drop_last() =~= log);
                },
                None => {},
            }
            assert(self.front(events, id) =~= row_effects(rows_of(self.added(events), id)));
        }
    }

    proof fn lemma_front_changes(&self, events: Seq<Event>, id: TableId)
        requires
            self.follows,
            forall|i: int| 0 <= i < events.len() ==> (#[trigger] events[i]) is Relation,
        ensures
            self.front(events, id) == change_effects::<V>(announced(events), id),
        decreases events.len(),
    {
        if events.len() == 0 {
            assert(self.front(events, id) =~= change_effects::<V>(announced(events), id));
        } else {
            let (head, e) = (events.drop_last(), events.last());
            assert forall|i: int| 0 <= i < head.len() implies (#[trigger] head[i]) is Relation by {
                assert(head[i] == events[i]);
            }
            self.lemma_front_changes(head, id);
            assert(events[events.len() - 1] == e);
            if let Event::Relation(relation) = e {
                let log = announced(head);
                assert(log.push(relation.replicated_table_schema).drop_last() =~= log);
            }
            assert(self.front(events, id) =~= change_effects::<V>(announced(events), id));
        }
    }

    proof fn lemma_truncates(&self, events: Seq<Event>, id: TableId)
        ensures
            ({
                let t = run_len(events, EventClass::Truncate) as int;
                &&& 0 <= t <= events.len()
                &&& self.in_order(events, id) == truncated_once::<V>(
                    truncated(events.take(t)),
                    id,
                    self.last,
                ) + self.in_order(events.skip(t), id)
            }),
    {
        law_run_is_maximal(events, EventClass::Truncate);
        let t = run_len(events, EventClass::Truncate) as int;
        if t == 0 {
            assert(events.skip(0) =~= events);
            assert(truncated(events.take(0)) =~= Seq::<ReplicatedTableSchema>::empty());
            assert(self.in_order(events, id) =~= truncated_once::<V>(
                truncated(events.take(0)),
                id,
                self.last,
            ) + self.in_order(events.skip(0), id));
        }
    }
}

/// The rows that batches hold for a table.
pub open spec fn batch_rows<R: View>(tables: Seq<TableBatch<R>>, id: TableId) -> Seq<R::V>
    decreases tables.len(),
{
    if tables.len() == 0 {
        Seq::empty()
    } else {
        let before = batch_rows(tables.drop_last(), id);
        if tables.last().schema.id == id {
            before + row_views(tables.last().rows@)
        } else {
            before
        }
    }
}

/// What a pass does to a table: its rows are written, then its schema changes are followed, then it
/// is truncated.
pub open spec fn pass_effects<R: View>(
    tables: Seq<TableBatch<R>>,
    relations: Seq<ReplicatedTableSchema>,
    truncates: Seq<ReplicatedTableSchema>,
    id: TableId,
) -> Seq<Effect<R::V>> {
    row_effects(batch_rows(tables, id)) + change_effects(relations, id) + truncate_effects(
        truncates,
        id,
    )
}

proof fn lemma_rows_of_none<V>(log: Seq<Addition<V>>, id: TableId)
    requires
        forall|k: int| 0 <= k < log.len() ==> (#[trigger] log[k]).schema.id != id,
    ensures
        rows_of(log, id) == Seq::<V>::empty(),
    decreases log.len(),
{
    if log.len() > 0 {
        assert(log[log.len() - 1].schema.id != id);
        assert forall|k: int| 0 <= k < log.drop_last().len() implies (
        #[trigger] log.drop_last()[k]).schema.id != id by {
            assert(log[k].schema.id != id);
        }
        lemma_rows_of_none(log.drop_last(), id);
    }
}

proof fn lemma_no_batch<R: View>(tables: Seq<TableBatch<R>>, id: TableId)
    requires
        forall|i: int| 0 <= i < tables.len() ==> (#[trigger] tables[i]).schema.id != id,
    ensures
        batch_rows(tables, id) == Seq::<R::V>::empty(),
    decreases tables.len(),
{
    if tables.len() > 0 {
        assert(tables[tables.len() - 1].schema.id != id);
        assert forall|i: int| 0 <= i < tables.drop_last().len() implies (
        #[trigger] tables.drop_last()[i]).schema.id != id by {
            assert(tables[i].schema.id != id);
        }
        lemma_no_batch(tables.drop_last(), id);
    }
}

proof fn lemma_one_batch<R: View>(tables: Seq<TableBatch<R>>, at: int)
    requires
        0 <= at < tables.len(),
        forall|i: int, j: int|
            0 <= i < j < tables.len() ==> (#[trigger] tables[i]).schema.id != (
            #[trigger] tables[j]).schema.id,
    ensures
        batch_rows(tables, tables[at].schema.id) == row_views(tables[at].rows@),
    decreases tables.len(),
{
    let id = tables[at].schema.id;
    let head = tables.drop_last();
    let n = tables.len() - 1;
    if at == n {
        assert forall|i: int| 0 <= i < head.len() implies (#[trigger] head[i]).schema.id != id by {
            assert(tables[i].schema.id != tables[n].schema.id);
        }
        lemma_no_batch(head, id);
        assert(batch_rows(tables, id) =~= row_views(tables[at].rows@));
    } else {
        assert(tables[at].schema.id != tables[n].schema.id);
        assert(head[at] == tables[at]);
        assert forall|i: int, j: int| 0 <= i < j < head.len() implies (
        #[trigger] head[i]).schema.id != (#[trigger] head[j]).schema.id by {
            assert(tables[i].schema.id != tables[j].schema.id);
        }
        lemma_one_batch(head, at);
    }
}

/// Grouped rows of a table are the rows that were added for it.
pub proof fn lemma_grouped_rows<R: View>(
    tables: Seq<TableBatch<R>>,
    log: Seq<Addition<R::V>>,
    id: TableId,
)
    requires
        grouping(tables, log),
    ensures
        batch_rows(tables, id) == rows_of(log, id),
{
    if exists|i: int| 0 <= i < tables.len() && (#[trigger] tables[i]).schema.id == id {
        let i = choose|i: int| 0 <= i < tables.len() && (#[trigger] tables[i]).schema.id == id;
        lemma_one_batch(tables, i);
    } else {
        lemma_no_batch(tables, id);
        assert forall|k: int| 0 <= k < log.len() implies (#[trigger] log[k]).schema.id != id by {
            if log[k].schema.id == id {
                let i = choose|i: int|
                    0 <= i < tables.len() && (#[trigger] tables[i]).schema.id == log[k].schema.id;
                assert(tables[i].schema.id == id);
            }
        }
        lemma_rows_of_none(log, id);
    }
}

/// A table that is not among the truncated ones is not truncated.
pub proof fn lemma_no_truncate<V>(out: Seq<ReplicatedTableSchema>, id: TableId)
    requires
        forall|i: int| 0 <= i < out.len() ==> (#[trigger] out[i]).id != id,
    ensures
        truncate_effects::<V>(out, id) == Seq::<Effect<V>>::empty(),
    decreases out.len(),
{
    if out.len() > 0 {
        assert(out[out.len() - 1].id != id);
        assert forall|i: int| 0 <= i < out.drop_last().len() implies (
        #[trigger] out.drop_last()[i]).id != id by {
            assert(out[i].id != id);
        }
        lemma_no_truncate::<V>(out.drop_last(), id);
    }
}

proof fn lemma_one_truncate<V>(out: Seq<ReplicatedTableSchema>, at: int)
    requires
        0 <= at < out.len(),
        forall|i: int, j: int|
            0 <= i < j < out.len() ==> (#[trigger] out[i]).id != (#[trigger] out[j]).id,
    ensures
        truncate_effects::<V>(out, out[at].id) == seq![Effect::<V>::Truncate(out[at])],
    decreases out.len(),
{
    let id = out[at].id;
    let head = out.drop_last();
    let n = out.len() - 1;
    if at == n {
        assert forall|i: int| 0 <= i < head.len() implies (#[trigger] head[i]).id != id by {
            assert(out[i].id != out[n].id);
        }
        lemma_no_truncate::<V>(head, id);
        assert(truncate_effects::<V>(out, id) =~= seq![Effect::<V>::Truncate(out[at])]);
    } else {
        assert(out[at].id != out[n].id);
        assert(head[at] == out[at]);
        assert forall|i: int, j: int| 0 <= i < j < head.len() implies (#[trigger] head[i]).id != (
        #[trigger] head[j]).id by {
            assert(out[i].id != out[j].id);
        }
        lemma_one_truncate::<V>(head, at);
    }
}

/// Truncates without repetitions truncate every table once.
pub proof fn lemma_deduplicated<V>(
    out: Seq<ReplicatedTableSchema>,
    log: Seq<ReplicatedTableSchema>,
    last: bool,
    id: TableId,
)
    requires
        deduplicated(out, log, last),
    ensures
        truncate_effects::<V>(out, id) == truncated_once::<V>(log, id, last),
{
    if mentions(log, id) {
        let k = choose|k: int| 0 <= k < log.len() && (#[trigger] log[k]).id == id;
        let i = choose|i: int| 0 <= i < out.len() && (#[trigger] out[i]).id == log[k].id;
        lemma_one_truncate::<V>(out, i);
    } else {
        assert forall|i: int| 0 <= i < out.len() implies (#[trigger] out[i]).id != id by {
            assert(mentions(log, out[i].id));
        }
        lemma_no_truncate::<V>(out, id);
    }
}

/// A pass that takes rows, then schema changes, then truncates does to every table what its events
/// do in the order of the stream, and leaves the rest of the stream to be done.
pub proof fn lemma_pass_is_in_order<R: View>(
    writing: Writing<R::V>,
    all: Seq<Event>,
    tables: Seq<TableBatch<R>>,
    relations: Seq<ReplicatedTableSchema>,
    truncates: Seq<ReplicatedTableSchema>,
    id: TableId,
)
    requires
        writing.wf(),
        ({
            let class = if writing.follows {
                EventClass::Data
            } else {
                EventClass::NonTruncate
            };
            let d = run_len(all, class) as int;
            let rest = all.skip(d);
            let n = if writing.follows {
                run_len(rest, EventClass::Relation) as int
            } else {
                0
            };
            let tail = rest.skip(n);
            let t = run_len(tail, EventClass::Truncate) as int;
            &&& grouping(tables, writing.added(all.take(d)))
            &&& relations == announced(rest.take(n))
            &&& deduplicated(truncates, truncated(tail.take(t)), writing.last)
        }),
    ensures
        ({
            let class = if writing.follows {
                EventClass::Data
            } else {
                EventClass::NonTruncate
            };
            let d = run_len(all, class) as int;
            let n = if writing.follows {
                run_len(all.skip(d), EventClass::Relation) as int
            } else {
                0
            };
            let t = run_len(all.skip(d + n), EventClass::Truncate) as int;
            &&& 0 <= d + n + t <= all.len()
            &&& writing.in_order(all, id) == pass_effects(tables, relations, truncates, id)
                + writing.in_order(all.skip(d + n + t), id)
            &&& d + n + t < all.len() ==> n + t > 0
        }),
{
    let class = if writing.follows {
        EventClass::Data
    } else {
        EventClass::NonTruncate
    };
    let d = run_len(all, class) as int;
    let rest = all.skip(d);
    let n = if writing.follows {
        run_len(rest, EventClass::Relation) as int
    } else {
        0
    };
    let tail = rest.skip(n);
    let t = run_len(tail, EventClass::Truncate) as int;
    law_run_is_maximal(all, class);
    law_run_is_maximal(rest, EventClass::Relation);
    law_run_is_maximal(tail, EventClass::Truncate);
    assert(tail =~= all.skip(d + n));
    assert(tail.skip(t) =~= all.skip(d + n + t));
    assert forall|i: int| 0 <= i < d implies !((#[trigger] all[i]) is Truncate) && !(writing.follows
        && all[i] is Relation) by {
        assert(in_class(all[i], class));
    }
    writing.lemma_front(all, d, id);
    assert forall|i: int| 0 <= i < d implies !((#[trigger] all.take(d)[i]) is Truncate) && !(
    writing.follows && all.take(d)[i] is Relation) by {
        assert(all.take(d)[i] == all[i]);
    }
    writing.lemma_front_rows(all.take(d), id);
    lemma_grouped_rows(tables, writing.added(all.take(d)), id);
    if writing.follows {
        assert forall|i: int| 0 <= i < n implies !((#[trigger] rest[i]) is Truncate) by {
            assert(in_class(rest[i], EventClass::Relation));
        }
        writing.lemma_front(rest, n, id);
        assert forall|i: int| 0 <= i < n implies (#[trigger] rest.take(n)[i]) is Relation by {
            assert(in_class(rest[i], EventClass::Relation));
        }
        writing.lemma_front_changes(rest.take(n), id);
    } else {
        assert(rest.skip(0) =~= rest);
        assert(announced(rest.take(0)) =~= Seq::<ReplicatedTableSchema>::empty());
        assert(change_effects::<R::V>(relations, id) =~= Seq::<Effect<R::V>>::empty());
    }
    writing.lemma_truncates(tail, id);
    lemma_deduplicated::<R::V>(truncates, truncated(tail.take(t)), writing.last, id);
    assert(writing.in_order(all, id) =~= pass_effects(tables, relations, truncates, id)
        + writing.in_order(all.skip(d + n + t), id));
    if d + n + t < all.len() && n + t == 0 {
        assert(all[d] == rest[0]);
        assert(all[d] == tail[0]);
    }
}

/// What single events do to a table: its announced schemas are followed where the destination follows
/// any, its rows are written, and events of other tables do nothing to it.
pub proof fn law_events_do_this_to_a_table<V>(w: Writing<V>, e: Event, id: TableId)
    ensures
        e matches Event::Relation(relation) ==> (w.follows && relation.replicated_table_schema.id
            == id ==> w.event_effects(e, id) == seq![
            Effect::<V>::Change(relation.replicated_table_schema),
        ]),
        e matches Event::Relation(relation) ==> (!w.follows || relation.replicated_table_schema.id
            != id ==> w.event_effects(e, id).len() == 0),
        !(e is Relation) ==> ((w.adds)(e) is None ==> w.event_effects(e, id).len() == 0),
        !(e is Relation) ==> ((w.adds)(e) matches Some(a) ==> (a.schema.id != id ==> w.event_effects(
            e,
            id,
        ).len() == 0)),
        !(e is Relation) ==> ((w.adds)(e) matches Some(a) ==> (a.schema.id == id ==> w.event_effects(
            e,
            id,
        ).len() == a.rows.len() && forall|i: int|
            0 <= i < a.rows.len() ==> #[trigger] w.event_effects(e, id)[i] == Effect::Row(
                a.rows[i],
            ))),
{
}

/// A stream does to a table what its events do, one after another; truncates that follow each other
/// count once.
pub proof fn law_stream_goes_event_by_event<V>(w: Writing<V>, events: Seq<Event>, id: TableId)
    ensures
        w.in_order(Seq::empty(), id).len() == 0,
        events.len() > 0 && !(events[0] is Truncate) ==> w.in_order(events, id) == w.event_effects(
            events[0],
            id,
        ) + w.in_order(events.skip(1), id),
        events.len() == 1 && events[0] is Truncate ==> {
            let tables = events[0]->Truncate_0.truncated_tables@;
            &&& mentions(tables, id) ==> w.in_order(events, id) == seq![
                Effect::<V>::Truncate(chosen(tables, id, w.last)),
            ]
            &&& !mentions(tables, id) ==> w.in_order(events, id).len() == 0
        },
{
    if events.len() == 1 && events[0] is Truncate {
        assert(run_len(events.skip(1), EventClass::Truncate) == 0);
        assert(run_len(events, EventClass::Truncate) == 1);
        assert(events.take(1) =~= events);
        assert(events.skip(1) =~= Seq::<Event>::empty());
        reveal_with_fuel(truncated, 2);
        assert(events.drop_last() =~= Seq::<Event>::empty());
        assert(truncated(events) =~= events[0]->Truncate_0.truncated_tables@);
        let once = truncated_once::<V>(truncated(events), id, w.last);
        assert(w.in_order(events.skip(1), id) =~= Seq::<Effect<V>>::empty());
        assert(once + w.in_order(events.skip(1), id) =~= once);
    }
}

/// Within a pass the rows of a table come first, then its schema changes, then its truncate.
pub proof fn law_pass_goes_in_this_order<R: View>(
    tables: Seq<TableBatch<R>>,
    relations: Seq<ReplicatedTableSchema>,
    truncates: Seq<ReplicatedTableSchema>,
    id: TableId,
)
    ensures
        ({
            let all = pass_effects(tables, relations, truncates, id);
            let r = batch_rows(tables, id).len() as int;
            let c = change_effects::<R::V>(relations, id).len() as int;
            &&& forall|i: int| 0 <= i < r ==> (#[trigger] all[i] is Row)
            &&& forall|i: int| r <= i < r + c ==> (#[trigger] all[i] is Change)
            &&& forall|i: int| r + c <= i < all.len() ==> (#[trigger] all[i] is Truncate)
        }),
{
    lemma_changes_are_changes::<R::V>(relations, id);
    lemma_truncates_are_truncates::<R::V>(truncates, id);
}

proof fn lemma_changes_are_changes<V>(schemas: Seq<ReplicatedTableSchema>, id: TableId)
    ensures
        forall|i: int|
            0 <= i < change_effects::<V>(schemas, id).len() ==> (#[trigger] change_effects::<V>(
                schemas,
                id,
            )[i] is Change),
    decreases schemas.len(),
{
    if schemas.len() > 0 {
        lemma_changes_are_changes::<V>(schemas.drop_last(), id);
    }
}

proof fn lemma_truncates_are_truncates<V>(schemas: Seq<ReplicatedTableSchema>, id: TableId)
    ensures
        forall|i: int|
            0 <= i < truncate_effects::<V>(schemas, id).len() ==> (#[trigger] truncate_effects::<V>(
                schemas,
                id,
            )[i] is Truncate),
    decreases schemas.len(),
{
    if schemas.len() > 0 {
        lemma_truncates_are_truncates::<V>(schemas.drop_last(), id);
    }
}

} // verus!
