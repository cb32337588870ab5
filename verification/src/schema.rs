//! Source tables: names, columns, and what of them is replicated.
use vstd::prelude::*;

use crate::cell::SameValue;
use crate::text::cat3;

verus! {

/// Identifier of a source table.
#[derive(Clone, Copy, Debug, PartialEq, Eq, Structural)]
pub struct TableId(pub u32);

/// Schema-qualified name of a source table.
#[derive(Debug)]
pub struct TableName {
    /// Schema that holds the table.
    pub schema: String,
    /// Name of the table within its schema.
    pub name: String,
}

impl TableName {
    /// The name as messages show it: `schema.name`.
    pub open spec fn text(&self) -> Seq<char> {
        self.schema@ + "."@ + self.name@
    }

    /// Creates a table name.
    pub fn new(schema: String, name: String) -> (r: Self)
        ensures
            r.schema == schema,
            r.name == name,
    {
        TableName { schema, name }
    }

    /// Returns the name as messages show it.
    pub fn to_text(&self) -> (r: String)
        ensures
            r@ == self.text(),
    {
        cat3(self.schema.as_str(), ".", self.name.as_str())
    }
}

/// A Postgres column type.
#[allow(non_camel_case_types)]
#[derive(Clone, Copy, Debug, PartialEq, Eq, Structural)]
pub enum Type {
    BOOL,
    CHAR,
    BPCHAR,
    VARCHAR,
    NAME,
    TEXT,
    INT2,
    INT4,
    INT8,
    OID,
    FLOAT4,
    FLOAT8,
    NUMERIC,
    MONEY,
    DATE,
    TIME,
    TIMESTAMP,
    TIMESTAMPTZ,
    UUID,
    JSON,
    JSONB,
    BYTEA,
    INTERVAL,
    INET,
    BIT,
    BOOL_ARRAY,
    CHAR_ARRAY,
    BPCHAR_ARRAY,
    VARCHAR_ARRAY,
    NAME_ARRAY,
    TEXT_ARRAY,
    INT2_ARRAY,
    INT4_ARRAY,
    INT8_ARRAY,
    OID_ARRAY,
    FLOAT4_ARRAY,
    FLOAT8_ARRAY,
    NUMERIC_ARRAY,
    MONEY_ARRAY,
    DATE_ARRAY,
    TIME_ARRAY,
    TIMESTAMP_ARRAY,
    TIMESTAMPTZ_ARRAY,
    UUID_ARRAY,
    JSON_ARRAY,
    JSONB_ARRAY,
    BYTEA_ARRAY,
    INTERVAL_ARRAY,
    INET_ARRAY,
    INT4_RANGE_ARRAY,
    /// Any other type, by its object id, and whether it is an array type.
    Other { oid: u32, array: bool },
}

impl Type {
    /// Whether values of the type are arrays.
    pub open spec fn array(self) -> bool {
        match self {
            Type::BOOL_ARRAY | Type::CHAR_ARRAY | Type::BPCHAR_ARRAY | Type::VARCHAR_ARRAY
            | Type::NAME_ARRAY | Type::TEXT_ARRAY | Type::INT2_ARRAY | Type::INT4_ARRAY
            | Type::INT8_ARRAY | Type::OID_ARRAY | Type::FLOAT4_ARRAY | Type::FLOAT8_ARRAY
            | Type::NUMERIC_ARRAY | Type::MONEY_ARRAY | Type::DATE_ARRAY | Type::TIME_ARRAY
            | Type::TIMESTAMP_ARRAY | Type::TIMESTAMPTZ_ARRAY | Type::UUID_ARRAY
            | Type::JSON_ARRAY | Type::JSONB_ARRAY | Type::BYTEA_ARRAY | Type::INTERVAL_ARRAY
            | Type::INET_ARRAY | Type::INT4_RANGE_ARRAY => true,
            Type::Other { oid, array } => array,
            _ => false,
        }
    }
}

/// Returns whether values of `typ` are arrays.
pub fn is_array_type(typ: &Type) -> (r: bool)
    ensures
        r == typ.array(),
{
    match *typ {
        Type::BOOL_ARRAY | Type::CHAR_ARRAY | Type::BPCHAR_ARRAY | Type::VARCHAR_ARRAY
        | Type::NAME_ARRAY | Type::TEXT_ARRAY | Type::INT2_ARRAY | Type::INT4_ARRAY
        | Type::INT8_ARRAY | Type::OID_ARRAY | Type::FLOAT4_ARRAY | Type::FLOAT8_ARRAY
        | Type::NUMERIC_ARRAY | Type::MONEY_ARRAY | Type::DATE_ARRAY | Type::TIME_ARRAY
        | Type::TIMESTAMP_ARRAY | Type::TIMESTAMPTZ_ARRAY | Type::UUID_ARRAY | Type::JSON_ARRAY
        | Type::JSONB_ARRAY | Type::BYTEA_ARRAY | Type::INTERVAL_ARRAY | Type::INET_ARRAY
        | Type::INT4_RANGE_ARRAY => true,
        Type::Other { oid: _, array } => array,
        _ => false,
    }
}

/// A column of a source table.
#[derive(Debug)]
pub struct ColumnSchema {
    /// Name of the column.
    pub name: String,
    /// Type of its values.
    pub typ: Type,
    /// Type modifier, or -1.
    pub modifier: i32,
    /// Position in the table, counted from one.
    pub ordinal_position: i32,
    /// Position in the primary key, counted from one, for a key column.
    pub primary_key_ordinal_position: Option<i32>,
    /// Whether the column accepts NULL.
    pub nullable: bool,
}

impl ColumnSchema {
    /// Whether the column is part of the primary key.
    pub open spec fn is_key(&self) -> bool {
        self.primary_key_ordinal_position is Some
    }

    /// Creates a column.
    pub fn new(
        name: String,
        typ: Type,
        modifier: i32,
        ordinal_position: i32,
        primary_key_ordinal_position: Option<i32>,
        nullable: bool,
    ) -> (r: Self)
        ensures
            r == (ColumnSchema {
                name,
                typ,
                modifier,
                ordinal_position,
                primary_key_ordinal_position,
                nullable,
            }),
    {
        ColumnSchema {
            name,
            typ,
            modifier,
            ordinal_position,
            primary_key_ordinal_position,
            nullable,
        }
    }

    /// Returns whether the column is part of the primary key.
    pub fn primary_key(&self) -> (r: bool)
        ensures
            r == self.is_key(),
    {
        self.primary_key_ordinal_position.is_some()
    }
}

impl Clone for ColumnSchema {
    fn clone(&self) -> (r: Self)
        ensures
            r == *self,
    {
        ColumnSchema {
            name: self.name.clone(),
            typ: self.typ,
            modifier: self.modifier,
            ordinal_position: self.ordinal_position,
            primary_key_ordinal_position: self.primary_key_ordinal_position,
            nullable: self.nullable,
        }
    }
}

/// Which old values the source publishes for updates and deletes.
#[derive(Clone, Copy, Debug, PartialEq, Eq, Structural)]
pub enum IdentityType {
    /// The primary-key columns.
    PrimaryKey,
    /// All columns.
    Full,
    /// The columns of another unique index.
    AlternativeKey,
    /// None.
    Missing,
}

impl IdentityType {
    /// The name of the variant.
    pub open spec fn text(self) -> Seq<char> {
        match self {
            IdentityType::PrimaryKey => "PrimaryKey"@,
            IdentityType::Full => "Full"@,
            IdentityType::AlternativeKey => "AlternativeKey"@,
            IdentityType::Missing => "Missing"@,
        }
    }

    /// Returns the name of the variant.
    pub fn as_str(&self) -> (r: &'static str)
        ensures
            r@ == self.text(),
    {
        match self {
            IdentityType::PrimaryKey => "PrimaryKey",
            IdentityType::Full => "Full",
            IdentityType::AlternativeKey => "AlternativeKey",
            IdentityType::Missing => "Missing",
        }
    }
}

/// Identifier of a version of a table's schema, as the schema store prints it.
pub type SnapshotId = String;

/// A source table together with what of it is replicated.
#[derive(Debug)]
pub struct ReplicatedTableSchema {
    /// Identifier of the table.
    pub id: TableId,
    /// Name of the table.
    pub name: TableName,
    /// Version of the schema.
    pub snapshot_id: SnapshotId,
    /// One byte per table column, nonzero for replicated ones.
    pub replication_mask: Vec<u8>,
    /// The replicated columns in table order.
    pub columns: Vec<ColumnSchema>,
    /// The replicated columns whose old values the source publishes, in table order.
    pub identity_columns: Vec<ColumnSchema>,
    /// Names of the primary-key columns that are not replicated, in table order.
    pub omitted_primary_key: Vec<String>,
    /// Which old values the source publishes.
    pub identity_type: IdentityType,
    /// Whether the published key values are those of the primary key.
    pub identity_matches_primary_key: bool,
}

/// How many of `columns` are part of the primary key.
pub open spec fn key_count(columns: Seq<ColumnSchema>) -> nat
    decreases columns.len(),
{
    if columns.len() == 0 {
        0
    } else {
        key_count(columns.drop_last()) + if columns.last().is_key() {
            1nat
        } else {
            0nat
        }
    }
}

/// Key columns of a prefix are no more than those of the whole, and no more than its length.
pub proof fn lemma_key_count_prefix(columns: Seq<ColumnSchema>, n: int)
    requires
        0 <= n <= columns.len(),
    ensures
        key_count(columns.take(n)) <= key_count(columns),
        key_count(columns.take(n)) <= n,
    decreases columns.len(),
{
    if n == columns.len() {
        assert(columns.take(n) =~= columns);
        if n > 0 {
            lemma_key_count_prefix(columns.drop_last(), n - 1);
            assert(columns.drop_last().take(n - 1) =~= columns.drop_last());
        }
    } else {
        lemma_key_count_prefix(columns.drop_last(), n);
        assert(columns.drop_last().take(n) =~= columns.take(n));
    }
}

/// One more column adds one key column if it is one.
pub proof fn lemma_key_count_step(columns: Seq<ColumnSchema>, i: int)
    requires
        0 <= i < columns.len(),
    ensures
        key_count(columns.take(i + 1)) == key_count(columns.take(i)) + if columns[i].is_key() {
            1nat
        } else {
            0nat
        },
{
    assert(columns.take(i + 1).drop_last() =~= columns.take(i));
}

impl ReplicatedTableSchema {
    /// Whether the replicated columns, and two more, can be numbered with 32 bits.
    pub open spec fn numberable(&self) -> bool {
        self.columns@.len() + 2 <= u32::MAX
    }

    /// Whether the columns and two more can be counted.
    pub open spec fn countable(&self) -> bool {
        self.columns@.len() + 2 <= usize::MAX
    }

    /// Number of replicated primary-key columns.
    pub open spec fn keys(&self) -> nat {
        key_count(self.columns@)
    }

    /// Returns the number of replicated primary-key columns.
    pub fn primary_key_count(&self) -> (r: usize)
        ensures
            r == self.keys(),
    {
        let mut n: usize = 0;
        let mut i: usize = 0;
        while i < self.columns.len()
            invariant
                i <= self.columns@.len(),
                n == key_count(self.columns@.take(i as int)),
                n <= i,
            decreases self.columns@.len() - i,
        {
            proof {
                lemma_key_count_step(self.columns@, i as int);
            }
            if self.columns[i].primary_key() {
                n = n + 1;
            }
            i = i + 1;
        }
        proof {
            assert(self.columns@.take(self.columns@.len() as int) =~= self.columns@);
        }
        n
    }
}

/// A column that changes its name.
#[derive(Debug)]
pub struct ColumnRename {
    /// Name before the change.
    pub old_name: String,
    /// Name after the change.
    pub new_name: String,
    /// Position of the column in the table.
    pub ordinal_position: i32,
}

/// What turns one version of a table's columns into another.
#[derive(Debug)]
pub struct SchemaDiff {
    /// Columns that only the new version has.
    pub columns_to_add: Vec<ColumnSchema>,
    /// Columns that only the old version has.
    pub columns_to_remove: Vec<ColumnSchema>,
    /// Columns that keep their place under another name.
    pub columns_to_rename: Vec<ColumnRename>,
}

impl SchemaDiff {
    /// Whether nothing changes.
    pub open spec fn empty(&self) -> bool {
        self.columns_to_add@.len() == 0 && self.columns_to_remove@.len() == 0
            && self.columns_to_rename@.len() == 0
    }

    /// Returns whether nothing changes.
    pub fn is_empty(&self) -> (r: bool)
        ensures
            r == self.empty(),
    {
        self.columns_to_add.len() == 0 && self.columns_to_remove.len() == 0
            && self.columns_to_rename.len() == 0
    }
}

/// One step of a schema change.
#[derive(Debug)]
pub enum ColumnChange {
    /// Add a column.
    Add(ColumnSchema),
    /// Rename a column.
    Rename { old_name: String, new_name: String },
    /// Drop a column.
    Drop(String),
}

/// What a step of a schema change does.
pub enum ChangeModel {
    /// Add a column.
    Add(ColumnSchema),
    /// Rename a column.
    Rename(Seq<char>, Seq<char>),
    /// Drop a column.
    Drop(Seq<char>),
}

impl View for ColumnChange {
    type V = ChangeModel;

    open spec fn view(&self) -> ChangeModel {
        match *self {
            ColumnChange::Add(column) => ChangeModel::Add(column),
            ColumnChange::Rename { old_name, new_name } => ChangeModel::Rename(
                old_name@,
                new_name@,
            ),
            ColumnChange::Drop(name) => ChangeModel::Drop(name@),
        }
    }
}

/// What the steps of a schema change do.
pub open spec fn change_models(changes: Seq<ColumnChange>) -> Seq<ChangeModel> {
    Seq::new(changes.len(), |i: int| changes[i]@)
}

/// The steps of a diff: additions, then renames, then removals.
pub open spec fn diff_steps(diff: SchemaDiff) -> Seq<ChangeModel> {
    Seq::new(diff.columns_to_add@.len(), |i: int| ChangeModel::Add(diff.columns_to_add@[i]))
        + Seq::new(
        diff.columns_to_rename@.len(),
        |i: int|
            ChangeModel::Rename(
                diff.columns_to_rename@[i].old_name@,
                diff.columns_to_rename@[i].new_name@,
            ),
    ) + Seq::new(
        diff.columns_to_remove@.len(),
        |i: int| ChangeModel::Drop(diff.columns_to_remove@[i].name@),
    )
}

/// Returns the steps of a diff in the order in which they are to be taken.
pub fn schema_changes(diff: &SchemaDiff) -> (r: Vec<ColumnChange>)
    ensures
        change_models(r@) == diff_steps(*diff),
{
    let mut out: Vec<ColumnChange> = Vec::new();
    let (a, b, c) = (
        diff.columns_to_add.len(),
        diff.columns_to_rename.len(),
        diff.columns_to_remove.len(),
    );
    let mut i: usize = 0;
    while i < a
        invariant
            i <= a,
            a == diff.columns_to_add@.len(),
            change_models(out@) == Seq::new(
                i as nat,
                |j: int| ChangeModel::Add(diff.columns_to_add@[j]),
            ),
        decreases a - i,
    {
        let ghost had = out@;
        out.push(ColumnChange::Add(diff.columns_to_add[i].clone()));
        i = i + 1;
        proof {
            assert(change_models(out@) =~= change_models(had).push(
                ChangeModel::Add(diff.columns_to_add@[i - 1]),
            ));
            assert(change_models(out@) =~= Seq::new(
                i as nat,
                |j: int| ChangeModel::Add(diff.columns_to_add@[j]),
            ));
        }
    }
    let ghost first = change_models(out@);
    let mut j: usize = 0;
    proof {
        assert(change_models(out@) =~= first + Seq::new(
            0,
            |k: int|
                ChangeModel::Rename(
                    diff.columns_to_rename@[k].old_name@,
                    diff.columns_to_rename@[k].new_name@,
                ),
        ));
    }
    while j < b
        invariant
            j <= b,
            b == diff.columns_to_rename@.len(),
            change_models(out@) == first + Seq::new(
                j as nat,
                |k: int|
                    ChangeModel::Rename(
                        diff.columns_to_rename@[k].old_name@,
                        diff.columns_to_rename@[k].new_name@,
                    ),
            ),
        decreases b - j,
    {
        let ghost had = out@;
        out.push(
            ColumnChange::Rename {
                old_name: diff.columns_to_rename[j].old_name.clone(),
                new_name: diff.columns_to_rename[j].new_name.clone(),
            },
        );
        j = j + 1;
        proof {
            assert(change_models(out@) =~= change_models(had).push(
                ChangeModel::Rename(
                    diff.columns_to_rename@[j - 1].old_name@,
                    diff.columns_to_rename@[j - 1].new_name@,
                ),
            ));
            assert(change_models(out@) =~= first + Seq::new(
                j as nat,
                |k: int|
                    ChangeModel::Rename(
                        diff.columns_to_rename@[k].old_name@,
                        diff.columns_to_rename@[k].new_name@,
                    ),
            ));
        }
    }
    let ghost second = change_models(out@);
    let mut k: usize = 0;
    proof {
        assert(change_models(out@) =~= second + Seq::new(
            0,
            |m: int| ChangeModel::Drop(diff.columns_to_remove@[m].name@),
        ));
    }
    while k < c
        invariant
            k <= c,
            c == diff.columns_to_remove@.len(),
            change_models(out@) == second + Seq::new(
                k as nat,
                |m: int| ChangeModel::Drop(diff.columns_to_remove@[m].name@),
            ),
        decreases c - k,
    {
        let ghost had = out@;
        out.push(ColumnChange::Drop(diff.columns_to_remove[k].name.clone()));
        k = k + 1;
        proof {
            assert(change_models(out@) =~= change_models(had).push(
                ChangeModel::Drop(diff.columns_to_remove@[k - 1].name@),
            ));
            assert(change_models(out@) =~= second + Seq::new(
                k as nat,
                |m: int| ChangeModel::Drop(diff.columns_to_remove@[m].name@),
            ));
        }
    }
    out
}

/// What the pipeline has recorded about a table at the destination.
#[derive(Debug)]
pub struct DestinationTableMetadata {
    /// Name of the table at the destination.
    pub destination_table_id: String,
    /// Version of the schema that the destination has.
    pub snapshot_id: SnapshotId,
    /// Replicated columns that the destination has.
    pub replication_mask: Vec<u8>,
    /// Version of the schema that the table had before, if a schema change led to this record. A
    /// change that was interrupted is taken up again from there.
    pub previous_snapshot_id: Option<SnapshotId>,
}

impl DestinationTableMetadata {
    /// Whether this records a table of the destination as having a schema from the start.
    pub open spec fn records(&self, table: Seq<char>, schema: ReplicatedTableSchema) -> bool {
        &&& self.destination_table_id@ == table
        &&& self.snapshot_id@ == schema.snapshot_id@
        &&& self.replication_mask@ == schema.replication_mask@
        &&& self.previous_snapshot_id is None
    }

    /// Whether this records that the table of another record changes to a schema.
    pub open spec fn records_change(
        &self,
        before: DestinationTableMetadata,
        schema: ReplicatedTableSchema,
    ) -> bool {
        &&& self.destination_table_id@ == before.destination_table_id@
        &&& self.snapshot_id@ == schema.snapshot_id@
        &&& self.replication_mask@ == schema.replication_mask@
        &&& self.previous_snapshot_id matches Some(id) && id@ == before.snapshot_id@
    }

    /// Records that the table changes to a schema; the version that it had is kept.
    pub fn with_schema_change(&self, schema: &ReplicatedTableSchema) -> (r: Self)
        ensures
            r.records_change(*self, *schema),
    {
        let mut changed = Self::of(self.destination_table_id.clone(), schema);
        changed.previous_snapshot_id = Some(self.snapshot_id.clone());
        changed
    }

    /// Records a table of the destination as having a schema from the start.
    pub fn of(destination_table_id: String, schema: &ReplicatedTableSchema) -> (r: Self)
        ensures
            r.records(destination_table_id@, *schema),
    {
        let mut replication_mask: Vec<u8> = Vec::new();
        let mut i: usize = 0;
        while i < schema.replication_mask.len()
            invariant
                i <= schema.replication_mask@.len(),
                replication_mask@ == schema.replication_mask@.take(i as int),
            decreases schema.replication_mask@.len() - i,
        {
            replication_mask.push(schema.replication_mask[i]);
            i = i + 1;
            proof {
                assert(replication_mask@ =~= schema.replication_mask@.take(i as int));
            }
        }
        proof {
            assert(replication_mask@ =~= schema.replication_mask@);
        }
        DestinationTableMetadata {
            destination_table_id,
            snapshot_id: schema.snapshot_id.clone(),
            replication_mask,
            previous_snapshot_id: None,
        }
    }
}

/// Once a schema is recorded, announcing it again changes nothing.
pub proof fn law_recorded_schema_is_up_to_date(
    metadata: DestinationTableMetadata,
    table: Seq<char>,
    schema: ReplicatedTableSchema,
)
    requires
        metadata.records(table, schema),
    ensures
        up_to_date(metadata, schema),
{
}

/// Once a schema change is recorded, announcing the new schema again changes nothing.
pub proof fn law_recorded_change_is_up_to_date(
    metadata: DestinationTableMetadata,
    before: DestinationTableMetadata,
    schema: ReplicatedTableSchema,
)
    requires
        metadata.records_change(before, schema),
    ensures
        up_to_date(metadata, schema),
{
}

/// Whether the destination already has the announced schema.
pub open spec fn up_to_date(
    metadata: DestinationTableMetadata,
    schema: ReplicatedTableSchema,
) -> bool {
    metadata.snapshot_id@ == schema.snapshot_id@ && metadata.replication_mask@
        == schema.replication_mask@
}

/// Returns whether the destination already has the announced schema.
pub fn is_up_to_date(
    metadata: &DestinationTableMetadata,
    schema: &ReplicatedTableSchema,
) -> (r: bool)
    ensures
        r == up_to_date(*metadata, *schema),
{
    let same_mask = metadata.replication_mask.is_same(&schema.replication_mask);
    proof {
        if same_mask {
            assert(metadata.replication_mask@ =~= schema.replication_mask@);
        } else if metadata.replication_mask@ == schema.replication_mask@ {
            assert(forall|i: int|
                0 <= i < metadata.replication_mask@.len() ==> (
                #[trigger] metadata.replication_mask@[i]).same(&schema.replication_mask@[i]));
        }
    }
    metadata.snapshot_id == schema.snapshot_id && same_mask
}

/// Whether `places` are the places of the primary-key columns of a table, in table order.
pub open spec fn are_key_places(columns: Seq<ColumnSchema>, places: Seq<int>) -> bool {
    &&& forall|j: int, k: int|
        0 <= j < k < places.len() ==> #[trigger] places[j] < #[trigger] places[k]
    &&& forall|k: int|
        0 <= k < places.len() ==> 0 <= #[trigger] places[k] < columns.len()
            && columns[places[k]].primary_key_ordinal_position is Some
    &&& forall|i: int|
        0 <= i < columns.len() && (#[trigger] columns[i]).primary_key_ordinal_position is Some
            ==> places.contains(i)
}

/// In front of column `n` stand as many key columns as there are key places below `n`.
pub proof fn law_key_columns_are_counted(
    columns: Seq<ColumnSchema>,
    places: Seq<int>,
    n: int,
    k: int,
)
    requires
        are_key_places(columns, places),
        0 <= n <= columns.len(),
        0 <= k <= places.len(),
        k > 0 ==> places[k - 1] < n,
        k < places.len() ==> places[k] >= n,
    ensures
        key_count(columns.take(n)) == k,
    decreases n,
{
    if n == 0 {
        assert(k == 0) by {
            if k > 0 {
                assert(places[k - 1] >= 0);
            }
        }
    } else {
        lemma_key_count_step(columns, n - 1);
        if columns[n - 1].primary_key_ordinal_position is Some {
            assert(places.contains(n - 1));
            let j = choose|j: int| 0 <= j < places.len() && places[j] == n - 1;
            assert(j < k) by {
                if j >= k {
                    assert(places[k] >= n);
                    if k < j {
                        assert(places[k] < places[j]);
                    }
                }
            }
            assert(j == k - 1) by {
                if j < k - 1 {
                    assert(places[j] < places[k - 1]);
                }
            }
            if k > 1 {
                assert(places[k - 2] < places[k - 1]);
            }
            law_key_columns_are_counted(columns, places, n - 1, k - 1);
        } else {
            if k > 0 {
                assert(columns[places[k - 1]].primary_key_ordinal_position is Some);
            }
            law_key_columns_are_counted(columns, places, n - 1, k);
        }
    }
}

/// A table has as many key columns as there are columns with a place in the primary key, and the
/// `k`-th of them has `k` of them in front.
pub proof fn law_key_columns_are_all_counted(schema: ReplicatedTableSchema, places: Seq<int>)
    requires
        are_key_places(schema.columns@, places),
    ensures
        schema.keys() == places.len(),
        forall|k: int|
            0 <= k < places.len() ==> key_count(schema.columns@.take(#[trigger] places[k])) == k,
{
    let columns = schema.columns@;
    let n = columns.len() as int;
    assert(columns.take(n) =~= columns);
    law_key_columns_are_counted(columns, places, n, places.len() as int);
    assert forall|k: int| 0 <= k < places.len() implies key_count(
        columns.take(#[trigger] places[k]),
    ) == k by {
        if k > 0 {
            assert(places[k - 1] < places[k]);
        }
        law_key_columns_are_counted(columns, places, places[k], k);
    }
}

/// A column is part of the key if and only if it has a place in the primary key.
pub proof fn law_key_columns_have_a_place(column: ColumnSchema)
    ensures
        column.is_key() <==> exists|p: i32| column.primary_key_ordinal_position == Some(p),
{
    if let Some(p) = column.primary_key_ordinal_position {
        assert(column.primary_key_ordinal_position == Some(p));
    }
}

/// The scalar types are no arrays.
pub proof fn law_scalar_types_are_no_arrays()
    ensures
        !Type::BOOL.array(),
        !Type::CHAR.array(),
        !Type::BPCHAR.array(),
        !Type::VARCHAR.array(),
        !Type::NAME.array(),
        !Type::TEXT.array(),
        !Type::INT2.array(),
        !Type::INT4.array(),
        !Type::INT8.array(),
        !Type::OID.array(),
        !Type::FLOAT4.array(),
        !Type::FLOAT8.array(),
        !Type::NUMERIC.array(),
        !Type::MONEY.array(),
        !Type::DATE.array(),
        !Type::TIME.array(),
        !Type::TIMESTAMP.array(),
        !Type::TIMESTAMPTZ.array(),
        !Type::UUID.array(),
        !Type::JSON.array(),
        !Type::JSONB.array(),
        !Type::BYTEA.array(),
        !Type::INTERVAL.array(),
        !Type::INET.array(),
        !Type::BIT.array(),
        forall|oid: u32| !(#[trigger] (Type::Other { oid, array: false }).array()),
{
}

/// The array types are arrays.
pub proof fn law_array_types_are_arrays()
    ensures
        Type::BOOL_ARRAY.array(),
        Type::CHAR_ARRAY.array(),
        Type::BPCHAR_ARRAY.array(),
        Type::VARCHAR_ARRAY.array(),
        Type::NAME_ARRAY.array(),
        Type::TEXT_ARRAY.array(),
        Type::INT2_ARRAY.array(),
        Type::INT4_ARRAY.array(),
        Type::INT8_ARRAY.array(),
        Type::OID_ARRAY.array(),
        Type::FLOAT4_ARRAY.array(),
        Type::FLOAT8_ARRAY.array(),
        Type::NUMERIC_ARRAY.array(),
        Type::MONEY_ARRAY.array(),
        Type::DATE_ARRAY.array(),
        Type::TIME_ARRAY.array(),
        Type::TIMESTAMP_ARRAY.array(),
        Type::TIMESTAMPTZ_ARRAY.array(),
        Type::UUID_ARRAY.array(),
        Type::JSON_ARRAY.array(),
        Type::JSONB_ARRAY.array(),
        Type::BYTEA_ARRAY.array(),
        Type::INTERVAL_ARRAY.array(),
        Type::INET_ARRAY.array(),
        Type::INT4_RANGE_ARRAY.array(),
        forall|oid: u32| #[trigger] (Type::Other { oid, array: true }).array(),
{
}

/// Messages show a table by its schema and its name, and a replica identity by its own name.
pub proof fn law_messages_name_tables_and_identities(name: TableName)
    ensures
        name.text() == name.schema@ + "."@ + name.name@,
        IdentityType::PrimaryKey.text() == "PrimaryKey"@,
        IdentityType::Full.text() == "Full"@,
        IdentityType::AlternativeKey.text() == "AlternativeKey"@,
        IdentityType::Missing.text() == "Missing"@,
{
}

/// Every column of a diff is changed by exactly one step: first every column that only the new
/// version has is added, then every rename is made, then every column that only the old version has
/// is dropped. A diff without steps changes nothing.
pub proof fn law_every_difference_is_one_step(diff: SchemaDiff)
    ensures
        ({
            let steps = diff_steps(diff);
            let a = diff.columns_to_add@.len() as int;
            let b = diff.columns_to_rename@.len() as int;
            let c = diff.columns_to_remove@.len() as int;
            &&& steps.len() == a + b + c
            &&& diff.empty() <==> steps.len() == 0
            &&& forall|i: int|
                0 <= i < a ==> #[trigger] steps[i] == ChangeModel::Add(diff.columns_to_add@[i])
            &&& forall|i: int|
                a <= i < a + b ==> #[trigger] steps[i] == ChangeModel::Rename(
                    diff.columns_to_rename@[i - a].old_name@,
                    diff.columns_to_rename@[i - a].new_name@,
                )
            &&& forall|i: int|
                a + b <= i < a + b + c ==> #[trigger] steps[i] == ChangeModel::Drop(
                    diff.columns_to_remove@[i - a - b].name@,
                )
        }),
{
}

/// A destination is up to date if and only if it has the announced version and the announced
/// replicated columns: another version, or another choice of columns, is a change.
pub proof fn law_other_versions_are_changes(
    metadata: DestinationTableMetadata,
    schema: ReplicatedTableSchema,
)
    ensures
        metadata.snapshot_id@ != schema.snapshot_id@ ==> !up_to_date(metadata, schema),
        metadata.replication_mask@ != schema.replication_mask@ ==> !up_to_date(metadata, schema),
        metadata.snapshot_id@ == schema.snapshot_id@ && metadata.replication_mask@
            == schema.replication_mask@ ==> up_to_date(metadata, schema),
{
}

/// What is recorded of a table names the table, and a recorded change names the version before it.
pub proof fn law_records_name_the_table(
    metadata: DestinationTableMetadata,
    before: DestinationTableMetadata,
    table: Seq<char>,
    schema: ReplicatedTableSchema,
)
    ensures
        metadata.records(table, schema) <==> metadata.destination_table_id@ == table
            && metadata.snapshot_id@ == schema.snapshot_id@ && metadata.replication_mask@
            == schema.replication_mask@ && metadata.previous_snapshot_id is None,
        metadata.records_change(before, schema) ==> metadata.destination_table_id@
            == before.destination_table_id@ && metadata.previous_snapshot_id is Some
            && metadata.previous_snapshot_id->Some_0@ == before.snapshot_id@,
{
}

/// The steps that are returned for a diff do what its steps are, in order.
pub proof fn law_steps_are_viewed_in_order(changes: Seq<ColumnChange>)
    ensures
        change_models(changes).len() == changes.len(),
        forall|i: int|
            0 <= i < changes.len() ==> match #[trigger] changes[i] {
                ColumnChange::Add(column) => change_models(changes)[i] == ChangeModel::Add(column),
                ColumnChange::Rename { old_name, new_name } => change_models(changes)[i]
                    == ChangeModel::Rename(old_name@, new_name@),
                ColumnChange::Drop(name) => change_models(changes)[i] == ChangeModel::Drop(name@),
            },
{
}

} // verus!
