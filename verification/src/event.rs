//! Changes as the source publishes them.
use vstd::prelude::*;

use crate::cell::TableRow;
use crate::schema::ReplicatedTableSchema;
use crate::text::{
    cat3, hex, hex_limit, hex_of, law_hex_keeps_order, law_hex_stands_for_its_number,
    law_sorted_texts_differ, lemma_hex_len, lemma_sorts_before_back, lemma_sorts_before_front,
    positional, sorts_before,
};

verus! {

/// A position in the source's write-ahead log.
#[derive(Clone, Copy, Debug, PartialEq, Eq, Structural)]
pub struct PgLsn(pub u64);

/// Where an event stands in the order of changes.
#[derive(Clone, Copy, Debug, PartialEq, Eq, Structural)]
pub struct EventSequenceKey {
    /// Commit position of the event's transaction.
    pub commit_lsn: PgLsn,
    /// Position of the event within its transaction, counted from zero.
    pub tx_ordinal: u64,
}

/// Text of a sequence key: both numbers as sixteen hexadecimal digits.
pub open spec fn sequence_text(commit_lsn: nat, tx_ordinal: nat) -> Seq<char> {
    hex(commit_lsn, 16) + "/"@ + hex(tx_ordinal, 16)
}

impl EventSequenceKey {
    /// Creates a sequence key.
    pub fn new(commit_lsn: PgLsn, tx_ordinal: u64) -> (r: Self)
        ensures
            r.commit_lsn == commit_lsn,
            r.tx_ordinal == tx_ordinal,
    {
        EventSequenceKey { commit_lsn, tx_ordinal }
    }

    /// The key's text.
    pub open spec fn text(&self) -> Seq<char> {
        sequence_text(self.commit_lsn.0 as nat, self.tx_ordinal as nat)
    }

    /// Returns the key's text.
    pub fn to_text(&self) -> (r: String)
        ensures
            r@ == self.text(),
    {
        let high = hex_of(self.commit_lsn.0 as u128, 16);
        let low = hex_of(self.tx_ordinal as u128, 16);
        cat3(high.as_str(), "/", low.as_str())
    }

    /// Returns the key as one number: the commit position in the high half, the ordinal in the
    /// low half.
    pub fn as_u128(&self) -> (r: u128)
        ensures
            r == self.commit_lsn.0 * 0x1_0000_0000_0000_0000 + self.tx_ordinal,
    {
        (self.commit_lsn.0 as u128) * 0x1_0000_0000_0000_0000 + (self.tx_ordinal as u128)
    }
}

/// Orders two keys: first by commit position, then by ordinal.
pub open spec fn key_before(a: EventSequenceKey, b: EventSequenceKey) -> bool {
    a.commit_lsn.0 < b.commit_lsn.0 || (a.commit_lsn.0 == b.commit_lsn.0 && a.tx_ordinal
        < b.tx_ordinal)
}

/// The packed number orders events as their positions do.
pub proof fn law_packed_key_keeps_order(a: EventSequenceKey, b: EventSequenceKey)
    ensures
        key_before(a, b) <==> a.commit_lsn.0 * 0x1_0000_0000_0000_0000 + a.tx_ordinal
            < b.commit_lsn.0 * 0x1_0000_0000_0000_0000 + b.tx_ordinal,
{
}

/// The row after an update.
#[derive(Debug)]
pub enum UpdatedTableRow {
    /// All values are known.
    Full(TableRow),
    /// Some values are not known.
    Partial(TableRow),
}

/// The row before an update or a delete.
#[derive(Debug)]
pub enum OldTableRow {
    /// All values are known.
    Full(TableRow),
    /// Only the values of the replica-identity columns are known.
    Key(TableRow),
}

/// A row was inserted.
#[derive(Debug)]
pub struct InsertEvent {
    /// Commit position of the transaction.
    pub commit_lsn: PgLsn,
    /// Position within the transaction.
    pub tx_ordinal: u64,
    /// The table.
    pub replicated_table_schema: ReplicatedTableSchema,
    /// The new row.
    pub table_row: TableRow,
}

/// A row was updated.
#[derive(Debug)]
pub struct UpdateEvent {
    /// Commit position of the transaction.
    pub commit_lsn: PgLsn,
    /// Position within the transaction.
    pub tx_ordinal: u64,
    /// The table.
    pub replicated_table_schema: ReplicatedTableSchema,
    /// The row after the update.
    pub updated_table_row: UpdatedTableRow,
    /// The row before the update, where the source sent it.
    pub old_table_row: Option<OldTableRow>,
}

/// A row was deleted.
#[derive(Debug)]
pub struct DeleteEvent {
    /// Commit position of the transaction.
    pub commit_lsn: PgLsn,
    /// Position within the transaction.
    pub tx_ordinal: u64,
    /// The table.
    pub replicated_table_schema: ReplicatedTableSchema,
    /// The row before the delete, where the source sent it.
    pub old_table_row: Option<OldTableRow>,
}

/// A table's schema was announced.
#[derive(Debug)]
pub struct RelationEvent {
    /// The table as it is from here on.
    pub replicated_table_schema: ReplicatedTableSchema,
}

/// Tables were truncated.
#[derive(Debug)]
pub struct TruncateEvent {
    /// The tables.
    pub truncated_tables: Vec<ReplicatedTableSchema>,
}

/// A change of the source.
#[derive(Debug)]
pub enum Event {
    /// A transaction began.
    Begin,
    /// A transaction was committed.
    Commit,
    /// A row was inserted.
    Insert(InsertEvent),
    /// A row was updated.
    Update(UpdateEvent),
    /// A row was deleted.
    Delete(DeleteEvent),
    /// A table's schema was announced.
    Relation(RelationEvent),
    /// Tables were truncated.
    Truncate(TruncateEvent),
    /// Anything else.
    Unsupported,
}

/// The text of a key orders events as their positions do, and different positions have different
/// texts.
pub proof fn law_key_texts_keep_order(a: EventSequenceKey, b: EventSequenceKey)
    requires
        key_before(a, b),
    ensures
        sorts_before(a.text(), b.text()),
        a.text().len() == 33,
        a.text() != b.text(),
        !key_before(b, a),
{
    reveal_with_fuel(hex_limit, 17);
    reveal_strlit("/");
    let (x, y) = (a.commit_lsn.0 as nat, b.commit_lsn.0 as nat);
    let (p, q) = (a.tx_ordinal as nat, b.tx_ordinal as nat);
    lemma_hex_len(x, 16);
    lemma_hex_len(y, 16);
    lemma_hex_len(p, 16);
    lemma_hex_len(q, 16);
    if x == y {
        law_hex_keeps_order(p, q, 16);
        lemma_sorts_before_front(hex(x, 16) + "/"@, hex(p, 16), hex(q, 16));
    } else {
        law_hex_keeps_order(x, y, 16);
        lemma_sorts_before_back(hex(x, 16), hex(y, 16), "/"@ + hex(p, 16), "/"@ + hex(q, 16));
        assert(a.text() =~= hex(x, 16) + ("/"@ + hex(p, 16)));
        assert(b.text() =~= hex(y, 16) + ("/"@ + hex(q, 16)));
    }
    law_sorted_texts_differ(a.text(), b.text());
}

/// The text of a key is the commit position, a slash and the ordinal, both as sixteen hexadecimal
/// digits that stand for the numbers.
pub proof fn law_key_text_tells_the_position(key: EventSequenceKey)
    ensures
        key.text().len() == 33,
        key.text()[16] == '/',
        positional(key.text().take(16), 16) == key.commit_lsn.0,
        positional(key.text().skip(17), 16) == key.tx_ordinal,
{
    reveal_with_fuel(hex_limit, 17);
    reveal_strlit("/");
    law_hex_stands_for_its_number(key.commit_lsn.0 as nat, 16);
    law_hex_stands_for_its_number(key.tx_ordinal as nat, 16);
    assert(key.text().take(16) =~= hex(key.commit_lsn.0 as nat, 16));
    assert(key.text().skip(17) =~= hex(key.tx_ordinal as nat, 16));
}

/// Events come in one order: of two different positions one is before the other, and never both.
pub proof fn law_positions_are_ordered(
    a: EventSequenceKey,
    b: EventSequenceKey,
    c: EventSequenceKey,
)
    ensures
        !key_before(a, a),
        a == b || key_before(a, b) || key_before(b, a),
        key_before(a, b) ==> !key_before(b, a),
        key_before(a, b) && key_before(b, c) ==> key_before(a, c),
        a.commit_lsn.0 < b.commit_lsn.0 ==> key_before(a, b),
{
}

/// As numbers, keys are ordered by commit position, and within a commit by ordinal; keys of different
/// positions are different numbers.
pub proof fn law_key_numbers_keep_order(
    a: &EventSequenceKey,
    b: &EventSequenceKey,
    x: u128,
    y: u128,
)
    requires
        call_ensures(EventSequenceKey::as_u128, (a,), x),
        call_ensures(EventSequenceKey::as_u128, (b,), y),
    ensures
        a.commit_lsn.0 < b.commit_lsn.0 ==> x < y,
        a.commit_lsn == b.commit_lsn ==> (a.tx_ordinal < b.tx_ordinal <==> x < y),
        x == y <==> a.commit_lsn == b.commit_lsn && a.tx_ordinal == b.tx_ordinal,
{
}

} // verus!
