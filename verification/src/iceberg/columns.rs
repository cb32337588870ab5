//! The columns that a changelog table has beside those of its source.
use vstd::prelude::*;

use crate::cell::{Cell, CellModel, TableRow};
use crate::error::{error_of, ErrorKind, ErrorModel, EtlError, EtlResult};
use crate::event::{
    law_key_text_tells_the_position, sequence_text, EventSequenceKey, PgLsn,
};
use crate::schema::{ColumnSchema, IdentityType, ReplicatedTableSchema, Type};
use crate::text::{cat3, cat5, decimal, decimal_of, law_decimal_reads_back, positional};

verus! {

/// CDC operation column name
pub const CDC_OPERATION_COLUMN_NAME: &'static str = "cdc_operation";

/// Sequence number column name
pub const SEQUENCE_NUMBER_COLUMN_NAME: &'static str = "sequence_number";

/// CDC operation types for Iceberg changelog tables.
///
/// Represents the type of change operation that occurred in the source
/// database. These values are stored in the `cdc_operation` column of changelog
/// tables to distinguish between data modifications and deletions.
#[derive(Clone, Copy, Debug, PartialEq, Eq, Structural)]
pub enum IcebergOperationType {
    /// Represents insert operations from the source database.
    Insert,
    /// Represents update operations from the source database.
    Update,
    /// Represents delete operations from the source database.
    Delete,
}

impl IcebergOperationType {
    /// The operation as it is stored.
    pub open spec fn text(self) -> Seq<char> {
        match self {
            IcebergOperationType::Insert => "INSERT"@,
            IcebergOperationType::Update => "UPDATE"@,
            IcebergOperationType::Delete => "DELETE"@,
        }
    }

    /// Returns the operation as it is stored.
    pub fn as_str(&self) -> (r: &'static str)
        ensures
            r@ == self.text(),
    {
        match self {
            IcebergOperationType::Insert => "INSERT",
            IcebergOperationType::Update => "UPDATE",
            IcebergOperationType::Delete => "DELETE",
        }
    }

    /// Returns the value of the operation column.
    pub fn to_cell(&self) -> (r: Cell)
        ensures
            r@ == CellModel::Text(self.text()),
    {
        Cell::String(self.as_str().to_string())
    }
}

/// A row as it stands in the changelog: the source values, the operation, the position.
pub open spec fn changelog_row(
    cells: Seq<CellModel>,
    operation: IcebergOperationType,
    commit_lsn: nat,
    tx_ordinal: nat,
) -> Seq<CellModel> {
    cells.push(CellModel::Text(operation.text())).push(
        CellModel::Text(sequence_text(commit_lsn, tx_ordinal)),
    )
}

/// Returns a row as it stands in the changelog.
pub fn to_changelog_row(
    row: TableRow,
    operation: IcebergOperationType,
    commit_lsn: PgLsn,
    tx_ordinal: u64,
) -> (r: TableRow)
    ensures
        r@ == changelog_row(row@, operation, commit_lsn.0 as nat, tx_ordinal as nat),
{
    let ghost before = row@;
    let key = EventSequenceKey::new(commit_lsn, tx_ordinal);
    let mut values = row.values;
    values.push(operation.to_cell());
    values.push(Cell::String(key.to_text()));
    let r = TableRow { values };
    proof {
        assert(r@ =~= changelog_row(before, operation, commit_lsn.0 as nat, tx_ordinal as nat));
    }
    r
}

/// Returns the rows of a table copy as they stand in the changelog: inserts at position zero.
pub fn copied_rows(table_rows: Vec<TableRow>) -> (r: Vec<TableRow>)
    ensures
        r@.len() == table_rows@.len(),
        forall|i: int|
            0 <= i < r@.len() ==> (#[trigger] r@[i])@ == changelog_row(
                table_rows@[i]@,
                IcebergOperationType::Insert,
                0,
                0,
            ),
{
    let mut out: Vec<TableRow> = Vec::new();
    for row in it: table_rows
        invariant
            it.seq() == table_rows@,
            out@.len() == it.index(),
            forall|i: int|
                0 <= i < out@.len() ==> (#[trigger] out@[i])@ == changelog_row(
                    table_rows@[i]@,
                    IcebergOperationType::Insert,
                    0,
                    0,
                ),
    {
        out.push(to_changelog_row(row, IcebergOperationType::Insert, PgLsn(0), 0));
    }
    out
}

/// Why a table cannot be replicated to Iceberg.
pub open spec fn iceberg_identity_error(schema: ReplicatedTableSchema) -> Option<ErrorModel> {
    if schema.identity_type == IdentityType::Full {
        None
    } else {
        Some(
            error_of(
                ErrorKind::SourceSchemaError,
                "Iceberg requires full replica identity"@,
                "Table '"@ + schema.name.text() + "' uses replica identity "@
                    + schema.identity_type.text()
                    + ", but Iceberg only supports source tables with FULL replica identity."@,
            ),
        )
    }
}

/// Validates that a replicated table schema can be applied in Iceberg.
///
/// Iceberg changelog replay requires full old-row images so deletes can be
/// represented correctly. That means source tables must use
/// `REPLICA IDENTITY FULL`.
pub fn validate_iceberg_replica_identity(
    replicated_table_schema: &ReplicatedTableSchema,
) -> (r: EtlResult<()>)
    ensures
        match iceberg_identity_error(*replicated_table_schema) {
            None => r is Ok,
            Some(e) => r matches Err(f) && f@ == e,
        },
{
    if replicated_table_schema.identity_type == IdentityType::Full {
        return Ok(());
    }
    let name = replicated_table_schema.name.to_text();
    Err(
        EtlError::new(
            ErrorKind::SourceSchemaError,
            "Iceberg requires full replica identity",
            cat5(
                "Table '",
                name.as_str(),
                "' uses replica identity ",
                replicated_table_schema.identity_type.as_str(),
                ", but Iceberg only supports source tables with FULL replica identity.",
            ),
        ),
    )
}

/// Whether a column has the name.
pub open spec fn taken(columns: Seq<ColumnSchema>, name: Seq<char>) -> bool {
    exists|i: int| 0 <= i < columns.len() && (#[trigger] columns[i]).name@ == name
}

/// The names that are tried, in order: the name itself, then with a number behind it.
pub open spec fn candidate(base: Seq<char>, k: nat) -> Seq<char> {
    if k == 0 {
        base
    } else {
        base + "_"@ + decimal(k)
    }
}

/// The first name that is free.
pub open spec fn first_free(columns: Seq<ColumnSchema>, base: Seq<char>, k: nat) -> bool {
    &&& !taken(columns, candidate(base, k))
    &&& forall|j: nat| j < k ==> taken(columns, #[trigger] candidate(base, j))
}

proof fn lemma_candidates_differ(base: Seq<char>, i: nat, j: nat)
    requires
        candidate(base, i) == candidate(base, j),
    ensures
        i == j,
{
    reveal_strlit("_");
    law_decimal_reads_back(i, (i + j) as int);
    law_decimal_reads_back(j, (i + j) as int);
    let a = candidate(base, i);
    let b = candidate(base, j);
    if i > 0 && j > 0 {
        assert(a.skip((base.len() + 1) as int) =~= decimal(i));
        assert(b.skip((base.len() + 1) as int) =~= decimal(j));
    } else if i != j {
        assert(a.len() != b.len());
    }
}

/// Each taken candidate is another column, so there are no more of them than columns.
proof fn lemma_candidates_run_out(columns: Seq<ColumnSchema>, base: Seq<char>, k: nat)
    requires
        forall|j: nat| j < k ==> taken(columns, #[trigger] candidate(base, j)),
    ensures
        k <= columns.len(),
{
    let names = Seq::new(columns.len(), |i: int| columns[i].name@);
    let tried = Seq::new(k, |j: int| candidate(base, j as nat));
    assert(tried.no_duplicates()) by {
        assert forall|i: int, j: int|
            0 <= i < tried.len() && 0 <= j < tried.len() && i != j implies tried[i] != tried[j] by {
            if tried[i] == tried[j] {
                lemma_candidates_differ(base, i as nat, j as nat);
            }
        }
    }
    tried.unique_seq_to_set();
    names.lemma_cardinality_of_set();
    assert(tried.to_set().subset_of(names.to_set())) by {
        assert forall|s: Seq<char>| tried.to_set().contains(s) implies names.to_set().contains(
            s,
        ) by {
            let j = choose|j: int| 0 <= j < tried.len() && tried[j] == s;
            assert(taken(columns, candidate(base, j as nat)));
            let i = choose|i: int| 0 <= i < columns.len() && (#[trigger] columns[i]).name@ == s;
            assert(names[i] == s);
        }
    }
    vstd::seq_lib::seq_to_set_is_finite(names);
    vstd::set_lib::lemma_len_subset(tried.to_set(), names.to_set());
}

fn is_taken(columns: &[ColumnSchema], name: &String) -> (r: bool)
    ensures
        r == taken(columns@, name@),
{
    let n: usize = columns.len();
    let mut i: usize = 0;
    while i < n
        invariant
            i <= n,
            n == columns@.len(),
            forall|j: int| 0 <= j < i ==> (#[trigger] columns@[j]).name@ != name@,
        decreases n - i,
    {
        if columns[i].name == *name {
            return true;
        }
        i = i + 1;
    }
    false
}

/// Creates a column name with prefix `new_column_name` that no column in
/// `column_schemas` has, by adding a numeric suffix.
pub fn find_unique_column_name(column_schemas: &[ColumnSchema], new_column_name: &str) -> (r:
    String)
    ensures
        exists|k: nat| #[trigger]
            first_free(column_schemas@, new_column_name@, k) && r@ == candidate(
                new_column_name@,
                k,
            ),
{
    let mut suffix: usize = 0;
    let mut final_name = new_column_name.to_string();
    let n: usize = column_schemas.len();
    while is_taken(column_schemas, &final_name)
        invariant
            n == column_schemas@.len(),
            suffix <= n,
            final_name@ == candidate(new_column_name@, suffix as nat),
            forall|j: nat|
                j < suffix ==> taken(column_schemas@, #[trigger] candidate(new_column_name@, j)),
        decreases n - suffix,
    {
        proof {
            assert forall|j: nat| j < suffix + 1 implies taken(
                column_schemas@,
                #[trigger] candidate(new_column_name@, j),
            ) by {
                if j == suffix {
                    assert(final_name@ == candidate(new_column_name@, j));
                }
            }
            lemma_candidates_run_out(column_schemas@, new_column_name@, (suffix + 1) as nat);
        }
        suffix = suffix + 1;
        let number = decimal_of(suffix as u128);
        final_name = cat3(new_column_name, "_", number.as_str());
    }
    proof {
        assert(first_free(column_schemas@, new_column_name@, suffix as nat));
    }
    final_name
}

/// Whether a column is a text column that the pipeline adds, named after `base`.
pub open spec fn added_column(
    column: ColumnSchema,
    columns: Seq<ColumnSchema>,
    base: Seq<char>,
) -> bool {
    &&& column.typ == Type::TEXT
    &&& column.modifier == -1
    &&& column.ordinal_position == 0
    &&& column.primary_key_ordinal_position is None
    &&& !column.nullable
    &&& exists|k: nat| #[trigger]
        first_free(columns, base, k) && column.name@ == candidate(base, k)
}

/// Builds column schemas with CDC-specific columns added.
///
/// Takes the replicated columns from the schema and adds two additional
/// columns for CDC operations:
/// - `cdc_operation`: Tracks whether the row represents an insert, update,
///   or delete
/// - `sequence_number`: Provides ordering information based on WAL LSN
pub fn build_cdc_column_schemas(replicated_table_schema: &ReplicatedTableSchema) -> (r: Vec<
    ColumnSchema,
>)
    ensures
        ({
            let columns = replicated_table_schema.columns@;
            &&& r@.len() == columns.len() + 2
            &&& r@.take(columns.len() as int) == columns
            &&& added_column(r@[columns.len() as int], columns, CDC_OPERATION_COLUMN_NAME@)
            &&& added_column(r@[(columns.len() + 1) as int], columns, SEQUENCE_NUMBER_COLUMN_NAME@)
        }),
{
    let columns = &replicated_table_schema.columns;
    let mut column_schemas: Vec<ColumnSchema> = Vec::new();
    let n: usize = columns.len();
    let mut i: usize = 0;
    while i < n
        invariant
            i <= n,
            n == columns@.len(),
            column_schemas@ == columns@.take(i as int),
        decreases n - i,
    {
        column_schemas.push(columns[i].clone());
        i = i + 1;
        proof {
            assert(column_schemas@ =~= columns@.take(i as int));
        }
    }
    proof {
        assert(columns@.take(n as int) =~= columns@);
    }
    let cdc_operation_col = find_unique_column_name(
        column_schemas.as_slice(),
        CDC_OPERATION_COLUMN_NAME,
    );
    let sequence_number_col = find_unique_column_name(
        column_schemas.as_slice(),
        SEQUENCE_NUMBER_COLUMN_NAME,
    );
    column_schemas.push(ColumnSchema::new(cdc_operation_col, Type::TEXT, -1, 0, None, false));
    column_schemas.push(ColumnSchema::new(sequence_number_col, Type::TEXT, -1, 0, None, false));
    proof {
        assert(column_schemas@.take(n as int) =~= columns@);
    }
    column_schemas
}

/// The added columns collide neither with the source columns nor with each other.
pub proof fn law_added_columns_do_not_collide(
    columns: Seq<ColumnSchema>,
    operation: ColumnSchema,
    sequence: ColumnSchema,
)
    requires
        added_column(operation, columns, CDC_OPERATION_COLUMN_NAME@),
        added_column(sequence, columns, SEQUENCE_NUMBER_COLUMN_NAME@),
    ensures
        !taken(columns, operation.name@),
        !taken(columns, sequence.name@),
        operation.name@ != sequence.name@,
{
    reveal_strlit("cdc_operation");
    reveal_strlit("sequence_number");
    assert(operation.name@[0] == 'c');
    assert(sequence.name@[0] == 's');
}

/// A changelog row is the row, then the name of the change and the position as text.
pub proof fn law_changelog_rows_tell_the_change(
    cells: Seq<CellModel>,
    operation: IcebergOperationType,
    commit_lsn: u64,
    tx_ordinal: u64,
)
    ensures
        ({
            let row = changelog_row(cells, operation, commit_lsn as nat, tx_ordinal as nat);
            let n = cells.len() as int;
            &&& row.len() == n + 2
            &&& forall|i: int| 0 <= i < n ==> #[trigger] row[i] == cells[i]
            &&& operation == IcebergOperationType::Insert ==> row[n] == CellModel::Text("INSERT"@)
            &&& operation == IcebergOperationType::Update ==> row[n] == CellModel::Text("UPDATE"@)
            &&& operation == IcebergOperationType::Delete ==> row[n] == CellModel::Text("DELETE"@)
            &&& row[n + 1] matches CellModel::Text(text) && text.len() == 33 && text[16] == '/'
                && positional(text.take(16), 16) == commit_lsn && positional(text.skip(17), 16)
                == tx_ordinal
        }),
{
    let key = EventSequenceKey { commit_lsn: PgLsn(commit_lsn), tx_ordinal };
    law_key_text_tells_the_position(key);
    assert(key.text() == sequence_text(commit_lsn as nat, tx_ordinal as nat));
}

/// A table is refused if and only if its source does not publish whole old rows.
pub proof fn law_only_full_identities_are_taken(schema: ReplicatedTableSchema)
    ensures
        iceberg_identity_error(schema) is None <==> schema.identity_type == IdentityType::Full,
        iceberg_identity_error(schema) matches Some(e) ==> e.kind == ErrorKind::SourceSchemaError,
{
}

/// The name of an added column is its plain name, or that with the first number behind an underscore
/// that makes it free.
pub proof fn law_candidates_are_numbered(base: Seq<char>, k: nat)
    ensures
        candidate(base, 0) == base,
        k > 0 ==> candidate(base, k) == base + "_"@ + decimal(k),
{
}

/// The two added columns are texts that are never NULL and are no part of the key. They have their
/// plain names unless a column of the table has taken them.
pub proof fn law_added_columns_are_plain_texts(
    columns: Seq<ColumnSchema>,
    operation: ColumnSchema,
    sequence: ColumnSchema,
)
    requires
        added_column(operation, columns, CDC_OPERATION_COLUMN_NAME@),
        added_column(sequence, columns, SEQUENCE_NUMBER_COLUMN_NAME@),
    ensures
        operation.typ == Type::TEXT,
        sequence.typ == Type::TEXT,
        !operation.nullable,
        !sequence.nullable,
        operation.primary_key_ordinal_position is None,
        sequence.primary_key_ordinal_position is None,
        (forall|i: int|
            0 <= i < columns.len() ==> (#[trigger] columns[i]).name@ != "cdc_operation"@)
            ==> operation.name@ == "cdc_operation"@,
        (forall|i: int|
            0 <= i < columns.len() ==> (#[trigger] columns[i]).name@ != "sequence_number"@)
            ==> sequence.name@ == "sequence_number"@,
{
    if forall|i: int|
        0 <= i < columns.len() ==> (#[trigger] columns[i]).name@ != "cdc_operation"@ {
        let k = choose|k: nat| #[trigger]
            first_free(columns, CDC_OPERATION_COLUMN_NAME@, k) && operation.name@ == candidate(
                CDC_OPERATION_COLUMN_NAME@,
                k,
            );
        if k > 0 {
            assert(taken(columns, candidate(CDC_OPERATION_COLUMN_NAME@, 0)));
        }
    }
    if forall|i: int|
        0 <= i < columns.len() ==> (#[trigger] columns[i]).name@ != "sequence_number"@ {
        let k = choose|k: nat| #[trigger]
            first_free(columns, SEQUENCE_NUMBER_COLUMN_NAME@, k) && sequence.name@ == candidate(
                SEQUENCE_NUMBER_COLUMN_NAME@,
                k,
            );
        if k > 0 {
            assert(taken(columns, candidate(SEQUENCE_NUMBER_COLUMN_NAME@, 0)));
        }
    }
}

/// A name is taken if and only if some column has it, at whatever place.
pub proof fn law_names_of_columns_are_taken(columns: Seq<ColumnSchema>, i: int, name: Seq<char>)
    requires
        0 <= i < columns.len(),
    ensures
        taken(columns, columns[i].name@),
        !taken(columns, name) ==> columns[i].name@ != name,
{
}

} // verus!
