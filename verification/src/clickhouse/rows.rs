//! Rows of ClickHouse tables: user columns, then the engine's change columns.
use vstd::prelude::*;

use crate::cell::{
    models, ArrayCell, ArrayKind, Cell, CellModel, Date, Float, FloatModel, TableRow, Time,
    Timestamp, Uuid,
};
use crate::clickhouse::config::ClickHouseEngine;
use crate::error::{error_of, ErrorKind, ErrorModel, EtlError, EtlResult};
use crate::event::{EventSequenceKey, PgLsn};
use crate::schema::{
    is_array_type, key_count, lemma_key_count_step, ColumnSchema, IdentityType,
    ReplicatedTableSchema, SchemaDiff, Type,
};
use crate::text::{
    cat3, cat4, cat5, cat7, decimal, decimal_of, join, joined, starts, starts_with, views,
};

verus! {

/// Column that holds the operation, under MergeTree.
pub const CDC_OPERATION_COLUMN_NAME: &'static str = "cdc_operation";

/// Column that holds the commit position, under MergeTree.
pub const CDC_LSN_COLUMN_NAME: &'static str = "cdc_lsn";

/// Column that holds the version of a row, under ReplacingMergeTree.
pub const ETL_VERSION_COLUMN_NAME: &'static str = "_etl_version";

/// Column that marks deleted rows, under ReplacingMergeTree.
pub const ETL_DELETED_COLUMN_NAME: &'static str = "_etl_deleted";

/// What a change did to its row.
#[derive(Clone, Copy, Debug, PartialEq, Eq, Structural)]
pub enum CdcOperation {
    /// The row is new.
    Insert,
    /// The row has new values.
    Update,
    /// The row is gone.
    Delete,
}

impl CdcOperation {
    /// The operation's text.
    pub open spec fn text(self) -> Seq<char> {
        match self {
            CdcOperation::Insert => "INSERT"@,
            CdcOperation::Update => "UPDATE"@,
            CdcOperation::Delete => "DELETE"@,
        }
    }

    /// Returns the operation's text.
    pub fn as_str(&self) -> (r: &'static str)
        ensures
            r@ == self.text(),
    {
        match self {
            CdcOperation::Insert => "INSERT",
            CdcOperation::Update => "UPDATE",
            CdcOperation::Delete => "DELETE",
        }
    }
}

/// A change that waits to be written.
#[derive(Debug)]
pub struct PendingRow {
    /// What the change did.
    pub operation: CdcOperation,
    /// Commit position of its transaction.
    pub commit_lsn: PgLsn,
    /// Position within its transaction.
    pub tx_ordinal: u64,
    /// Values of the user columns.
    pub cells: Vec<Cell>,
}

/// What a waiting change holds.
pub struct PendingModel {
    pub operation: CdcOperation,
    pub commit_lsn: PgLsn,
    pub tx_ordinal: u64,
    pub cells: Seq<CellModel>,
}

impl View for PendingRow {
    type V = PendingModel;

    open spec fn view(&self) -> PendingModel {
        PendingModel {
            operation: self.operation,
            commit_lsn: self.commit_lsn,
            tx_ordinal: self.tx_ordinal,
            cells: models(self.cells@),
        }
    }
}

/// A value of a row.
#[derive(Debug)]
pub enum ClickHouseValue {
    /// A value of a user column.
    Cell(Cell),
    /// A text.
    String(String),
    /// An 8-bit number.
    UInt8(u8),
    /// A 64-bit number.
    UInt64(u64),
    /// A 128-bit number.
    UInt128(u128),
}

/// What a value holds.
pub enum ValueModel {
    Cell(CellModel),
    String(Seq<char>),
    UInt8(int),
    UInt64(int),
    UInt128(int),
}

impl View for ClickHouseValue {
    type V = ValueModel;

    open spec fn view(&self) -> ValueModel {
        match *self {
            ClickHouseValue::Cell(c) => ValueModel::Cell(c@),
            ClickHouseValue::String(s) => ValueModel::String(s@),
            ClickHouseValue::UInt8(n) => ValueModel::UInt8(n as int),
            ClickHouseValue::UInt64(n) => ValueModel::UInt64(n as int),
            ClickHouseValue::UInt128(n) => ValueModel::UInt128(n as int),
        }
    }
}

/// What the values of a row hold.
pub open spec fn value_models(values: Seq<ClickHouseValue>) -> Seq<ValueModel> {
    Seq::new(values.len(), |i: int| values[i]@)
}

/// Returns a commit position as a value.
pub fn cdc_lsn_to_clickhouse_value(lsn: PgLsn) -> (r: ClickHouseValue)
    ensures
        r == ClickHouseValue::UInt64(lsn.0),
{
    ClickHouseValue::UInt64(lsn.0)
}

/// The change columns of a row. MergeTree: the operation and the commit position.
/// ReplacingMergeTree: the position as one number, and whether the row is deleted.
pub open spec fn cdc_columns(
    operation: CdcOperation,
    commit_lsn: PgLsn,
    tx_ordinal: u64,
    engine: ClickHouseEngine,
) -> Seq<ValueModel> {
    match engine {
        ClickHouseEngine::MergeTree => seq![
            ValueModel::String(operation.text()),
            ValueModel::UInt64(commit_lsn.0 as int),
        ],
        ClickHouseEngine::ReplacingMergeTree => seq![
            ValueModel::UInt128(commit_lsn.0 * 0x1_0000_0000_0000_0000 + tx_ordinal),
            ValueModel::UInt8(
                if operation == CdcOperation::Delete {
                    1
                } else {
                    0
                },
            ),
        ],
    }
}

/// Appends the engine's change columns to a row.
pub fn append_cdc_columns(
    values: &mut Vec<ClickHouseValue>,
    operation: CdcOperation,
    commit_lsn: PgLsn,
    tx_ordinal: u64,
    engine: ClickHouseEngine,
)
    ensures
        value_models(final(values)@) == value_models(old(values)@) + cdc_columns(
            operation,
            commit_lsn,
            tx_ordinal,
            engine,
        ),
{
    let ghost before = value_models(values@);
    match engine {
        ClickHouseEngine::MergeTree => {
            values.push(ClickHouseValue::String(operation.as_str().to_owned()));
            values.push(cdc_lsn_to_clickhouse_value(commit_lsn));
        },
        ClickHouseEngine::ReplacingMergeTree => {
            let version = EventSequenceKey::new(commit_lsn, tx_ordinal).as_u128();
            let deleted: u8 = match operation {
                CdcOperation::Delete => 1,
                _ => 0,
            };
            values.push(ClickHouseValue::UInt128(version));
            values.push(ClickHouseValue::UInt8(deleted));
        },
    }
    proof {
        assert(value_models(values@) =~= before + cdc_columns(
            operation,
            commit_lsn,
            tx_ordinal,
            engine,
        ));
    }
}

/// A row as it is written: the user values, then the change columns.
pub open spec fn written_row(row: PendingModel, engine: ClickHouseEngine) -> Seq<ValueModel> {
    Seq::new(row.cells.len(), |i: int| ValueModel::Cell(row.cells[i])) + cdc_columns(
        row.operation,
        row.commit_lsn,
        row.tx_ordinal,
        engine,
    )
}

/// Turns a waiting change into the values of its row.
pub fn pending_row_values(row: PendingRow, engine: ClickHouseEngine) -> (r: Vec<ClickHouseValue>)
    ensures
        value_models(r@) == written_row(row@, engine),
{
    let ghost all = row.cells@;
    let mut values: Vec<ClickHouseValue> = Vec::new();
    for cell in it: row.cells
        invariant
            it.seq() == all,
            value_models(values@) == Seq::new(
                it.index() as nat,
                |i: int| ValueModel::Cell(models(all)[i]),
            ),
    {
        let ghost had = values@;
        proof {
            assert(cell == all[it.index()]);
        }
        values.push(ClickHouseValue::Cell(cell));
        proof {
            assert(value_models(values@) =~= value_models(had).push(ValueModel::Cell(cell@)));
            assert(value_models(values@) =~= Seq::new(
                (it.index() + 1) as nat,
                |i: int| ValueModel::Cell(models(all)[i]),
            ));
        }
    }
    append_cdc_columns(&mut values, row.operation, row.commit_lsn, row.tx_ordinal, engine);
    values
}

/// Turns waiting changes into the values of their rows, in order.
pub fn pending_rows_values(rows: Vec<PendingRow>, engine: ClickHouseEngine) -> (r: Vec<
    Vec<ClickHouseValue>,
>)
    ensures
        r@.len() == rows@.len(),
        forall|i: int|
            0 <= i < r@.len() ==> value_models((#[trigger] r@[i])@) == written_row(
                rows@[i]@,
                engine,
            ),
{
    let ghost all = rows@;
    let mut out: Vec<Vec<ClickHouseValue>> = Vec::new();
    for row in it: rows
        invariant
            it.seq() == all,
            out@.len() == it.index(),
            forall|i: int|
                0 <= i < out@.len() ==> value_models((#[trigger] out@[i])@) == written_row(
                    all[i]@,
                    engine,
                ),
    {
        proof {
            assert(row == all[it.index()]);
        }
        out.push(pending_row_values(row, engine));
    }
    out
}

/// Turns copied rows into the values that are written for them, in order.
pub fn copied_rows_values(rows: Vec<TableRow>, engine: ClickHouseEngine) -> (r: Vec<
    Vec<ClickHouseValue>,
>)
    ensures
        r@.len() == rows@.len(),
        forall|i: int|
            0 <= i < r@.len() ==> value_models((#[trigger] r@[i])@) == written_row(
                copied_model(rows@[i]@),
                engine,
            ),
{
    let ghost all = rows@;
    let mut out: Vec<Vec<ClickHouseValue>> = Vec::new();
    for row in it: rows
        invariant
            it.seq() == all,
            out@.len() == it.index(),
            forall|i: int|
                0 <= i < out@.len() ==> value_models((#[trigger] out@[i])@) == written_row(
                    copied_model(all[i]@),
                    engine,
                ),
    {
        proof {
            assert(row == all[it.index()]);
        }
        out.push(pending_row_values(copied_row(row), engine));
    }
    out
}

/// A copied row as a change.
pub open spec fn copied_model(cells: Seq<CellModel>) -> PendingModel {
    PendingModel {
        operation: CdcOperation::Insert,
        commit_lsn: PgLsn(0),
        tx_ordinal: 0,
        cells,
    }
}

/// Turns a copied row into a change: an insert at position zero, which every streamed change of
/// the row supersedes.
pub fn copied_row(row: TableRow) -> (r: PendingRow)
    ensures
        r@ == copied_model(row@),
{
    PendingRow {
        operation: CdcOperation::Insert,
        commit_lsn: PgLsn(0),
        tx_ordinal: 0,
        cells: row.values,
    }
}

/// Returns whether a column type has an outer `Nullable`.
pub fn clickhouse_type_expects_nullable_marker(type_text: &str) -> (r: bool)
    ensures
        r == starts(type_text@, "Nullable("@),
{
    starts_with(type_text, "Nullable(")
}

/// The engine's trailing columns.
pub open spec fn trailing_columns(engine: ClickHouseEngine) -> Seq<Seq<char>> {
    match engine {
        ClickHouseEngine::MergeTree => seq![CDC_OPERATION_COLUMN_NAME@, CDC_LSN_COLUMN_NAME@],
        ClickHouseEngine::ReplacingMergeTree => seq![
            ETL_VERSION_COLUMN_NAME@,
            ETL_DELETED_COLUMN_NAME@,
        ],
    }
}

/// Returns the columns that a table should have: the replicated ones, then the engine's.
pub fn expected_clickhouse_column_names(
    schema: &ReplicatedTableSchema,
    engine: ClickHouseEngine,
) -> (r: Vec<String>)
    ensures
        views(r@) == Seq::new(schema.columns@.len(), |i: int| schema.columns@[i].name@)
            + trailing_columns(engine),
{
    let mut names: Vec<String> = Vec::new();
    let mut i: usize = 0;
    while i < schema.columns.len()
        invariant
            i <= schema.columns@.len(),
            views(names@) == Seq::new(i as nat, |j: int| schema.columns@[j].name@),
        decreases schema.columns@.len() - i,
    {
        let ghost had = names@;
        names.push(schema.columns[i].name.clone());
        i = i + 1;
        proof {
            assert(views(names@) =~= views(had).push(schema.columns@[i - 1].name@));
            assert(views(names@) =~= Seq::new(i as nat, |j: int| schema.columns@[j].name@));
        }
    }
    let ghost had = views(names@);
    match engine {
        ClickHouseEngine::MergeTree => {
            names.push(CDC_OPERATION_COLUMN_NAME.to_owned());
            names.push(CDC_LSN_COLUMN_NAME.to_owned());
        },
        ClickHouseEngine::ReplacingMergeTree => {
            names.push(ETL_VERSION_COLUMN_NAME.to_owned());
            names.push(ETL_DELETED_COLUMN_NAME.to_owned());
        },
    }
    proof {
        assert(views(names@) =~= had + trailing_columns(engine));
    }
    names
}

/// A column as the server reports it.
#[derive(Debug)]
pub struct ClickHouseTableColumn {
    /// Name of the column.
    pub name: String,
    /// Type of the column.
    pub type_text: String,
}

/// Why a table cannot take rows of a schema, by its number of columns.
pub open spec fn column_count_error(table: Seq<char>, actual: nat, expected: nat) -> ErrorModel {
    error_of(
        ErrorKind::CorruptedTableSchema,
        "ClickHouse table schema does not match replicated schema"@,
        "table '"@ + table + "' has "@ + decimal(actual) + " columns, but "@ + decimal(expected)
            + " were expected"@,
    )
}

/// Why a table cannot take rows of a schema, by one of its columns.
pub open spec fn column_name_error(
    table: Seq<char>,
    place: nat,
    actual: Seq<char>,
    expected: Seq<char>,
) -> ErrorModel {
    error_of(
        ErrorKind::CorruptedTableSchema,
        "ClickHouse table schema does not match replicated schema"@,
        "table '"@ + table + "' column "@ + decimal(place) + " is named '"@ + actual + "', but '"@
            + (expected + "' was expected"@),
    )
}

/// Whether `i` is the first place at which the names differ.
pub open spec fn first_mismatch(
    expected: Seq<String>,
    actual: Seq<ClickHouseTableColumn>,
    i: int,
) -> bool {
    &&& 0 <= i < actual.len()
    &&& actual[i].name@ != expected[i]@
    &&& forall|j: int| 0 <= j < i ==> (#[trigger] actual[j]).name@ == expected[j]@
}

/// Derives, from the columns that a table has, which values need a null marker. A table that
/// has other columns than expected takes no rows.
pub fn nullable_flags_from_clickhouse_columns(
    clickhouse_table_name: &str,
    expected_column_names: &Vec<String>,
    actual_columns: &Vec<ClickHouseTableColumn>,
) -> (r: EtlResult<Vec<bool>>)
    ensures
        match r {
            Ok(flags) => {
                &&& flags@.len() == actual_columns@.len() == expected_column_names@.len()
                &&& forall|i: int|
                    0 <= i < flags@.len() ==> (#[trigger] actual_columns@[i]).name@
                        == expected_column_names@[i]@
                &&& forall|i: int|
                    0 <= i < flags@.len() ==> #[trigger] flags@[i] == starts(
                        actual_columns@[i].type_text@,
                        "Nullable("@,
                    )
            },
            Err(e) => if actual_columns@.len() != expected_column_names@.len() {
                e@ == column_count_error(
                    clickhouse_table_name@,
                    actual_columns@.len(),
                    expected_column_names@.len(),
                )
            } else {
                exists|i: int| #[trigger]
                    first_mismatch(expected_column_names@, actual_columns@, i) && e@
                        == column_name_error(
                        clickhouse_table_name@,
                        (i + 1) as nat,
                        actual_columns@[i].name@,
                        expected_column_names@[i]@,
                    )
            },
        },
{
    let n: usize = actual_columns.len();
    if n != expected_column_names.len() {
        let actual = decimal_of(n as u128);
        let expected = decimal_of(expected_column_names.len() as u128);
        return Err(
            EtlError::new(
                ErrorKind::CorruptedTableSchema,
                "ClickHouse table schema does not match replicated schema",
                cat7(
                    "table '",
                    clickhouse_table_name,
                    "' has ",
                    actual.as_str(),
                    " columns, but ",
                    expected.as_str(),
                    " were expected",
                ),
            ),
        );
    }
    let mut flags: Vec<bool> = Vec::new();
    let mut i: usize = 0;
    while i < n
        invariant
            i <= n,
            n == actual_columns@.len(),
            n == expected_column_names@.len(),
            flags@.len() == i,
            forall|j: int|
                0 <= j < i ==> (#[trigger] actual_columns@[j]).name@
                    == expected_column_names@[j]@,
            forall|j: int|
                0 <= j < i ==> #[trigger] flags@[j] == starts(
                    actual_columns@[j].type_text@,
                    "Nullable("@,
                ),
        decreases n - i,
    {
        if actual_columns[i].name != expected_column_names[i] {
            let place = decimal_of((i as u128) + 1);
            let mut detail = cat7(
                "table '",
                clickhouse_table_name,
                "' column ",
                place.as_str(),
                " is named '",
                actual_columns[i].name.as_str(),
                "', but '",
            );
            let tail = crate::text::cat2(
                expected_column_names[i].as_str(),
                "' was expected",
            );
            detail.append(tail.as_str());
            proof {
                assert(first_mismatch(expected_column_names@, actual_columns@, i as int));
            }
            return Err(
                EtlError::new(
                    ErrorKind::CorruptedTableSchema,
                    "ClickHouse table schema does not match replicated schema",
                    detail,
                ),
            );
        }
        flags.push(clickhouse_type_expects_nullable_marker(actual_columns[i].type_text.as_str()));
        i = i + 1;
    }
    Ok(flags)
}

/// Why the destination cannot take the table's changes, if it cannot.
pub open spec fn identity_error(
    schema: ReplicatedTableSchema,
    engine: ClickHouseEngine,
) -> Option<ErrorModel> {
    if schema.omitted_primary_key@.len() > 0 {
        Some(
            error_of(
                ErrorKind::SourceSchemaError,
                "ClickHouse requires all source primary-key columns to be replicated"@,
                "Table '"@ + schema.name.text()
                    + "' omits source primary-key columns from replication: "@ + joined(
                    views(schema.omitted_primary_key@),
                    ","@,
                ),
            ),
        )
    } else if engine == ClickHouseEngine::ReplacingMergeTree && schema.keys() == 0 {
        Some(
            error_of(
                ErrorKind::SourceSchemaError,
                "ClickHouse ReplacingMergeTree requires a primary key"@,
                "Table '"@ + schema.name.text()
                    + "' has no primary-key columns; set `engine: merge_tree` or define a PK on the source table."@,
            ),
        )
    } else if schema.identity_type == IdentityType::PrimaryKey || schema.identity_type
        == IdentityType::Full {
        None
    } else {
        Some(
            error_of(
                ErrorKind::SourceSchemaError,
                "ClickHouse requires primary-key or full replica identity"@,
                "Table '"@ + schema.name.text() + "' uses replica identity "@
                    + schema.identity_type.text()
                    + ". ClickHouse needs the source row identity to match the primary key (so DELETE tombstones land in the right PK slots) or to carry the full row image. Configure REPLICA IDENTITY DEFAULT (when the PK is the natural identity) or REPLICA IDENTITY FULL."@,
            ),
        )
    }
}

/// Checks that the destination can take the table's changes under an engine.
pub fn validate_replica_identity_for_clickhouse(
    schema: &ReplicatedTableSchema,
    engine: ClickHouseEngine,
) -> (r: EtlResult<()>)
    ensures
        r is Ok <==> identity_error(*schema, engine) is None,
        r matches Err(e) ==> identity_error(*schema, engine) == Some(e@),
{
    if schema.omitted_primary_key.len() > 0 {
        let name = schema.name.to_text();
        let omitted = join(schema.omitted_primary_key.as_slice(), ",");
        return Err(
            EtlError::new(
                ErrorKind::SourceSchemaError,
                "ClickHouse requires all source primary-key columns to be replicated",
                cat4(
                    "Table '",
                    name.as_str(),
                    "' omits source primary-key columns from replication: ",
                    omitted.as_str(),
                ),
            ),
        );
    }
    if engine == ClickHouseEngine::ReplacingMergeTree && schema.primary_key_count() == 0 {
        let name = schema.name.to_text();
        return Err(
            EtlError::new(
                ErrorKind::SourceSchemaError,
                "ClickHouse ReplacingMergeTree requires a primary key",
                cat3(
                    "Table '",
                    name.as_str(),
                    "' has no primary-key columns; set `engine: merge_tree` or define a PK on the source table.",
                ),
            ),
        );
    }
    match schema.identity_type {
        IdentityType::PrimaryKey | IdentityType::Full => Ok(()),
        _ => {
            let name = schema.name.to_text();
            Err(
                EtlError::new(
                    ErrorKind::SourceSchemaError,
                    "ClickHouse requires primary-key or full replica identity",
                    cat5(
                        "Table '",
                        name.as_str(),
                        "' uses replica identity ",
                        schema.identity_type.as_str(),
                        ". ClickHouse needs the source row identity to match the primary key (so DELETE tombstones land in the right PK slots) or to carry the full row image. Configure REPLICA IDENTITY DEFAULT (when the PK is the natural identity) or REPLICA IDENTITY FULL.",
                    ),
                ),
            )
        },
    }
}

/// The value that stands for a column of a deleted row whose value is not known.
pub open spec fn default_model(typ: Type) -> CellModel {
    match typ {
        Type::BOOL => CellModel::Value(Cell::Bool(false)),
        Type::INT2 => CellModel::Value(Cell::I16(0)),
        Type::INT4 => CellModel::Value(Cell::I32(0)),
        Type::INT8 => CellModel::Value(Cell::I64(0)),
        Type::OID => CellModel::Value(Cell::U32(0)),
        Type::FLOAT4 => CellModel::F32(FloatModel::Finite("0.0"@)),
        Type::FLOAT8 => CellModel::F64(FloatModel::Finite("0.0"@)),
        Type::DATE => CellModel::Value(Cell::Date(Date::epoch_spec())),
        Type::TIMESTAMP => CellModel::Value(
            Cell::Timestamp(
                Timestamp { date: Date::epoch_spec(), time: Time::midnight_spec() },
            ),
        ),
        Type::TIMESTAMPTZ => CellModel::Value(
            Cell::TimestampTz(
                Timestamp { date: Date::epoch_spec(), time: Time::midnight_spec() },
            ),
        ),
        Type::UUID => CellModel::Value(Cell::Uuid(Uuid(0))),
        Type::BOOL_ARRAY => CellModel::EmptyArray(ArrayKind::Bool),
        Type::INT2_ARRAY => CellModel::EmptyArray(ArrayKind::I16),
        Type::INT4_ARRAY => CellModel::EmptyArray(ArrayKind::I32),
        Type::INT8_ARRAY => CellModel::EmptyArray(ArrayKind::I64),
        Type::OID_ARRAY => CellModel::EmptyArray(ArrayKind::U32),
        Type::FLOAT4_ARRAY => CellModel::EmptyArray(ArrayKind::F32),
        Type::FLOAT8_ARRAY => CellModel::EmptyArray(ArrayKind::F64),
        Type::NUMERIC_ARRAY => CellModel::EmptyArray(ArrayKind::Numeric),
        Type::DATE_ARRAY => CellModel::EmptyArray(ArrayKind::Date),
        Type::TIME_ARRAY => CellModel::EmptyArray(ArrayKind::Time),
        Type::TIMESTAMP_ARRAY => CellModel::EmptyArray(ArrayKind::Timestamp),
        Type::TIMESTAMPTZ_ARRAY => CellModel::EmptyArray(ArrayKind::TimestampTz),
        Type::UUID_ARRAY => CellModel::EmptyArray(ArrayKind::Uuid),
        Type::JSON_ARRAY | Type::JSONB_ARRAY => CellModel::EmptyArray(ArrayKind::Json),
        Type::BYTEA_ARRAY => CellModel::EmptyArray(ArrayKind::Bytes),
        _ => if typ.array() {
            CellModel::EmptyArray(ArrayKind::String)
        } else {
            CellModel::Text(""@)
        },
    }
}

/// Returns the value that stands for a column of a deleted row whose value is not known.
pub fn default_cell(typ: &Type) -> (r: Cell)
    ensures
        r@ == default_model(*typ),
{
    match *typ {
        Type::BOOL => Cell::Bool(false),
        Type::INT2 => Cell::I16(0),
        Type::INT4 => Cell::I32(0),
        Type::INT8 => Cell::I64(0),
        Type::OID => Cell::U32(0),
        Type::FLOAT4 => Cell::F32(Float::Finite("0.0".to_owned())),
        Type::FLOAT8 => Cell::F64(Float::Finite("0.0".to_owned())),
        Type::DATE => Cell::Date(Date::epoch()),
        Type::TIMESTAMP => Cell::Timestamp(
            Timestamp { date: Date::epoch(), time: Time::midnight() },
        ),
        Type::TIMESTAMPTZ => Cell::TimestampTz(
            Timestamp { date: Date::epoch(), time: Time::midnight() },
        ),
        Type::UUID => Cell::Uuid(Uuid(0)),
        Type::BOOL_ARRAY => Cell::Array(ArrayCell::Bool(Vec::new())),
        Type::INT2_ARRAY => Cell::Array(ArrayCell::I16(Vec::new())),
        Type::INT4_ARRAY => Cell::Array(ArrayCell::I32(Vec::new())),
        Type::INT8_ARRAY => Cell::Array(ArrayCell::I64(Vec::new())),
        Type::OID_ARRAY => Cell::Array(ArrayCell::U32(Vec::new())),
        Type::FLOAT4_ARRAY => Cell::Array(ArrayCell::F32(Vec::new())),
        Type::FLOAT8_ARRAY => Cell::Array(ArrayCell::F64(Vec::new())),
        Type::NUMERIC_ARRAY => Cell::Array(ArrayCell::Numeric(Vec::new())),
        Type::DATE_ARRAY => Cell::Array(ArrayCell::Date(Vec::new())),
        Type::TIME_ARRAY => Cell::Array(ArrayCell::Time(Vec::new())),
        Type::TIMESTAMP_ARRAY => Cell::Array(ArrayCell::Timestamp(Vec::new())),
        Type::TIMESTAMPTZ_ARRAY => Cell::Array(ArrayCell::TimestampTz(Vec::new())),
        Type::UUID_ARRAY => Cell::Array(ArrayCell::Uuid(Vec::new())),
        Type::JSON_ARRAY | Type::JSONB_ARRAY => Cell::Array(ArrayCell::Json(Vec::new())),
        Type::BYTEA_ARRAY => Cell::Array(ArrayCell::Bytes(Vec::new())),
        _ => {
            if is_array_type(typ) {
                Cell::Array(ArrayCell::String(Vec::new()))
            } else {
                Cell::String("".to_owned())
            }
        },
    }
}

/// One value of a deleted row of which only the key is known.
pub open spec fn expanded_value(
    columns: Seq<ColumnSchema>,
    keys: Seq<CellModel>,
    i: int,
) -> CellModel {
    let k = key_count(columns.take(i)) as int;
    if columns[i].is_key() {
        if k < keys.len() {
            keys[k]
        } else {
            CellModel::Value(Cell::Null)
        }
    } else if columns[i].nullable && !columns[i].typ.array() {
        CellModel::Value(Cell::Null)
    } else {
        default_model(columns[i].typ)
    }
}

/// A deleted row of which only the key is known: key columns have their values, the others NULL
/// or, where a column takes none, a default.
pub open spec fn expanded(columns: Seq<ColumnSchema>, keys: Seq<CellModel>) -> Seq<CellModel> {
    Seq::new(columns.len(), |i: int| expanded_value(columns, keys, i))
}

/// Fills a key image up to the width of the table.
pub fn expand_key_row(key_row: TableRow, schema: &ReplicatedTableSchema) -> (r: TableRow)
    ensures
        r@ == expanded(schema.columns@, key_row@),
{
    let ghost keys = key_row.values@;
    let ghost columns = schema.columns@;
    let mut left = key_row.values;
    let mut cells: Vec<Cell> = Vec::new();
    let mut i: usize = 0;
    proof {
        assert(left@ =~= remaining_keys(columns, keys, 0));
        assert(models(cells@) =~= expanded(columns, models(keys)).take(0));
    }
    while i < schema.columns.len()
        invariant
            i <= columns.len(),
            columns == schema.columns@,
            left@ == remaining_keys(columns, keys, i as int),
            models(cells@) == expanded(columns, models(keys)).take(i as int),
        decreases columns.len() - i,
    {
        let ghost had = cells@;
        let ghost k = key_count(columns.take(i as int)) as int;
        proof {
            lemma_key_count_step(columns, i as int);
        }
        let column = &schema.columns[i];
        let cell = if column.primary_key() {
            if left.len() > 0 {
                let value = left.remove(0);
                proof {
                    assert(value == keys[k]);
                    assert(models(keys)[k] == value@);
                }
                value
            } else {
                Cell::Null
            }
        } else if column.nullable && !is_array_type(&column.typ) {
            Cell::Null
        } else {
            default_cell(&column.typ)
        };
        cells.push(cell);
        i = i + 1;
        proof {
            assert(left@ =~= remaining_keys(columns, keys, i as int));
            assert(cell@ == expanded_value(columns, models(keys), i - 1));
            assert(models(cells@) =~= models(had).push(cell@));
            assert(models(cells@) =~= expanded(columns, models(keys)).take(i as int));
        }
    }
    proof {
        assert(expanded(columns, models(keys)).take(columns.len() as int) =~= expanded(
            columns,
            models(keys),
        ));
    }
    TableRow { values: cells }
}

/// The key values that the first `i` columns have not used.
spec fn remaining_keys(columns: Seq<ColumnSchema>, keys: Seq<Cell>, i: int) -> Seq<Cell> {
    let k = key_count(columns.take(i)) as int;
    if k <= keys.len() {
        keys.skip(k)
    } else {
        Seq::empty()
    }
}

/// A filled-up row has exactly one value per column, so rows stay aligned with the table.
pub proof fn law_expanded_row_is_aligned(columns: Seq<ColumnSchema>, keys: Seq<CellModel>)
    ensures
        expanded(columns, keys).len() == columns.len(),
        forall|i: int|
            0 <= i < columns.len() && !(#[trigger] columns[i]).is_key() && !columns[i].nullable
                ==> expanded(columns, keys)[i] == default_model(columns[i].typ),
        forall|i: int|
            0 <= i < columns.len() && (#[trigger] columns[i]).is_key() && key_count(
                columns.take(i),
            ) < keys.len() ==> expanded(columns, keys)[i] == keys[key_count(
                columns.take(i),
            ) as int],
{
}

/// Under ReplacingMergeTree a streamed change outranks the copied row, and a later change an
/// earlier one.
pub proof fn law_versions_follow_the_log(a: EventSequenceKey, b: EventSequenceKey)
    requires
        crate::event::key_before(a, b),
    ensures
        ({
            let va = cdc_columns(
                CdcOperation::Insert,
                a.commit_lsn,
                a.tx_ordinal,
                ClickHouseEngine::ReplacingMergeTree,
            )[0];
            let vb = cdc_columns(
                CdcOperation::Insert,
                b.commit_lsn,
                b.tx_ordinal,
                ClickHouseEngine::ReplacingMergeTree,
            )[0];
            va->UInt128_0 < vb->UInt128_0
        }),
{
    crate::event::law_packed_key_keeps_order(a, b);
}

/// Whether the first column called `name` is part of the key.
pub open spec fn names_key_column(columns: Seq<ColumnSchema>, name: Seq<char>) -> bool
    decreases columns.len(),
{
    if columns.len() == 0 {
        false
    } else if columns[0].name@ == name {
        columns[0].is_key()
    } else {
        names_key_column(columns.skip(1), name)
    }
}

fn column_is_key(columns: &Vec<ColumnSchema>, name: &String) -> (r: bool)
    ensures
        r == names_key_column(columns@, name@),
{
    let mut i: usize = 0;
    proof {
        assert(columns@.skip(0) =~= columns@);
    }
    while i < columns.len()
        invariant
            i <= columns@.len(),
            names_key_column(columns@, name@) == names_key_column(
                columns@.skip(i as int),
                name@,
            ),
        decreases columns@.len() - i,
    {
        proof {
            assert(columns@.skip(i as int).skip(1) =~= columns@.skip(i + 1));
            assert(columns@.skip(i as int)[0] == columns@[i as int]);
        }
        if columns[i].name == *name {
            return columns[i].primary_key();
        }
        i = i + 1;
    }
    false
}

/// The table would lose a key column.
pub open spec fn dropped_key_error(table: Seq<char>, column: Seq<char>) -> ErrorModel {
    error_of(
        ErrorKind::SourceSchemaError,
        "ReplacingMergeTree does not support dropping a primary-key column"@,
        "Table '"@ + table + "': DROP COLUMN '"@ + column
            + "' would invalidate the ReplacingMergeTree ORDER BY / dedup key. Switch this table to `engine: merge_tree` or restore the column on the source."@,
    )
}

/// A key column would get another name.
pub open spec fn renamed_key_error(
    table: Seq<char>,
    old_name: Seq<char>,
    new_name: Seq<char>,
) -> ErrorModel {
    error_of(
        ErrorKind::SourceSchemaError,
        "ReplacingMergeTree does not support renaming a primary-key column"@,
        "Table '"@ + table + "': RENAME COLUMN '"@ + old_name + "' -> '"@ + new_name
            + "' would invalidate the ReplacingMergeTree ORDER BY / dedup key. Switch this table to `engine: merge_tree` or revert the rename on the source."@,
    )
}

/// Whether `i` is the first removed column that is part of the key.
pub open spec fn first_dropped_key(removed: Seq<ColumnSchema>, i: int) -> bool {
    0 <= i < removed.len() && removed[i].is_key() && forall|j: int|
        0 <= j < i ==> !(#[trigger] removed[j]).is_key()
}

/// Whether `i` is the first rename of a key column.
pub open spec fn first_renamed_key(diff: SchemaDiff, columns: Seq<ColumnSchema>, i: int) -> bool {
    0 <= i < diff.columns_to_rename@.len() && names_key_column(
        columns,
        diff.columns_to_rename@[i].old_name@,
    ) && forall|j: int|
        0 <= j < i ==> !names_key_column(
            columns,
            (#[trigger] diff.columns_to_rename@[j]).old_name@,
        )
}

/// Whether a diff leaves the key columns of a table alone.
pub open spec fn keeps_key(diff: SchemaDiff, columns: Seq<ColumnSchema>) -> bool {
    &&& forall|i: int|
        0 <= i < diff.columns_to_remove@.len() ==> !(
        #[trigger] diff.columns_to_remove@[i]).is_key()
    &&& forall|i: int|
        0 <= i < diff.columns_to_rename@.len() ==> !names_key_column(
            columns,
            (#[trigger] diff.columns_to_rename@[i]).old_name@,
        )
}

/// Whether `e` is the error of a diff that drops or renames a key column: the first removal of
/// one decides, then the first rename.
pub open spec fn key_alter_error(
    table: Seq<char>,
    diff: SchemaDiff,
    columns: Seq<ColumnSchema>,
    e: ErrorModel,
) -> bool {
    ||| exists|i: int| #[trigger]
        first_dropped_key(diff.columns_to_remove@, i) && e == dropped_key_error(
            table,
            diff.columns_to_remove@[i].name@,
        )
    ||| (forall|i: int|
        0 <= i < diff.columns_to_remove@.len() ==> !(
        #[trigger] diff.columns_to_remove@[i]).is_key()) && exists|i: int| #[trigger]
        first_renamed_key(diff, columns, i) && e == renamed_key_error(
            table,
            diff.columns_to_rename@[i].old_name@,
            diff.columns_to_rename@[i].new_name@,
        )
}

/// Refuses diffs that drop or rename a key column: the table's order, by which rows are merged,
/// could not follow.
pub fn reject_pk_alters_under_replacing_merge_tree(
    clickhouse_table_name: &str,
    diff: &SchemaDiff,
    current_schema: &ReplicatedTableSchema,
) -> (r: EtlResult<()>)
    ensures
        r is Ok <==> keeps_key(*diff, current_schema.columns@),
        r matches Err(e) ==> key_alter_error(
            clickhouse_table_name@,
            *diff,
            current_schema.columns@,
            e@,
        ),
{
    let mut i: usize = 0;
    while i < diff.columns_to_remove.len()
        invariant
            i <= diff.columns_to_remove@.len(),
            forall|j: int| 0 <= j < i ==> !(#[trigger] diff.columns_to_remove@[j]).is_key(),
        decreases diff.columns_to_remove@.len() - i,
    {
        if diff.columns_to_remove[i].primary_key() {
            proof {
                assert(first_dropped_key(diff.columns_to_remove@, i as int));
            }
            return Err(
                EtlError::new(
                    ErrorKind::SourceSchemaError,
                    "ReplacingMergeTree does not support dropping a primary-key column",
                    cat5(
                        "Table '",
                        clickhouse_table_name,
                        "': DROP COLUMN '",
                        diff.columns_to_remove[i].name.as_str(),
                        "' would invalidate the ReplacingMergeTree ORDER BY / dedup key. Switch this table to `engine: merge_tree` or restore the column on the source.",
                    ),
                ),
            );
        }
        i = i + 1;
    }
    let mut k: usize = 0;
    while k < diff.columns_to_rename.len()
        invariant
            k <= diff.columns_to_rename@.len(),
            forall|j: int|
                0 <= j < diff.columns_to_remove@.len() ==> !(
                #[trigger] diff.columns_to_remove@[j]).is_key(),
            forall|j: int|
                0 <= j < k ==> !names_key_column(
                    current_schema.columns@,
                    (#[trigger] diff.columns_to_rename@[j]).old_name@,
                ),
        decreases diff.columns_to_rename@.len() - k,
    {
        if column_is_key(&current_schema.columns, &diff.columns_to_rename[k].old_name) {
            proof {
                assert(first_renamed_key(*diff, current_schema.columns@, k as int));
            }
            return Err(
                EtlError::new(
                    ErrorKind::SourceSchemaError,
                    "ReplacingMergeTree does not support renaming a primary-key column",
                    cat7(
                        "Table '",
                        clickhouse_table_name,
                        "': RENAME COLUMN '",
                        diff.columns_to_rename[k].old_name.as_str(),
                        "' -> '",
                        diff.columns_to_rename[k].new_name.as_str(),
                        "' would invalidate the ReplacingMergeTree ORDER BY / dedup key. Switch this table to `engine: merge_tree` or revert the rename on the source.",
                    ),
                ),
            );
        }
        k = k + 1;
    }
    Ok(())
}

/// A written row holds the user values in order, then two change columns. Under ReplacingMergeTree
/// the last value is one if and only if the change is a delete, and zero for every other change;
/// in front of it stands the position in the log as one number. Under MergeTree the last value is
/// the commit position, and in front of it stands the name of the change.
pub proof fn law_written_row_tells_what_the_change_did(row: PendingModel)
    ensures
        ({
            let replacing = written_row(row, ClickHouseEngine::ReplacingMergeTree);
            let plain = written_row(row, ClickHouseEngine::MergeTree);
            let n = row.cells.len() as int;
            &&& replacing.len() == n + 2
            &&& plain.len() == n + 2
            &&& forall|i: int|
                0 <= i < n ==> #[trigger] replacing[i] == ValueModel::Cell(row.cells[i])
            &&& forall|i: int| 0 <= i < n ==> #[trigger] plain[i] == ValueModel::Cell(row.cells[i])
            &&& replacing[n] == ValueModel::UInt128(
                0x1_0000_0000_0000_0000 * row.commit_lsn.0 + row.tx_ordinal,
            )
            &&& replacing.last() == ValueModel::UInt8(1) <==> row.operation == CdcOperation::Delete
            &&& row.operation == CdcOperation::Insert ==> replacing.last() == ValueModel::UInt8(0)
                && plain[n] == ValueModel::String("INSERT"@)
            &&& row.operation == CdcOperation::Update ==> replacing.last() == ValueModel::UInt8(0)
                && plain[n] == ValueModel::String("UPDATE"@)
            &&& row.operation == CdcOperation::Delete ==> plain[n] == ValueModel::String("DELETE"@)
            &&& plain.last() == ValueModel::UInt64(row.commit_lsn.0 as int)
        }),
{
}

/// A copied row is written as a live row with the lowest version, so every streamed change replaces
/// it.
pub proof fn law_copied_rows_are_live_and_oldest(cells: Seq<CellModel>)
    ensures
        ({
            let replacing = written_row(copied_model(cells), ClickHouseEngine::ReplacingMergeTree);
            let plain = written_row(copied_model(cells), ClickHouseEngine::MergeTree);
            let n = cells.len() as int;
            &&& replacing.len() == n + 2
            &&& plain.len() == n + 2
            &&& forall|i: int| 0 <= i < n ==> #[trigger] replacing[i] == ValueModel::Cell(cells[i])
            &&& forall|i: int| 0 <= i < n ==> #[trigger] plain[i] == ValueModel::Cell(cells[i])
            &&& replacing[n] == ValueModel::UInt128(0)
            &&& replacing[n + 1] == ValueModel::UInt8(0)
            &&& plain[n] == ValueModel::String("INSERT"@)
            &&& plain[n + 1] == ValueModel::UInt64(0)
        }),
{
}

/// A table has one trailing column for each change value of a row, and the columns have these names.
pub proof fn law_trailing_columns_fit_the_change_values(row: PendingModel, engine: ClickHouseEngine)
    ensures
        written_row(row, engine).len() == row.cells.len() + trailing_columns(engine).len(),
        trailing_columns(ClickHouseEngine::MergeTree) == seq!["cdc_operation"@, "cdc_lsn"@],
        trailing_columns(ClickHouseEngine::ReplacingMergeTree) == seq![
            "_etl_version"@,
            "_etl_deleted"@,
        ],
{
}

/// A table is refused if and only if a key column is not replicated, or a ReplacingMergeTree would
/// have no key, or the source publishes neither the key nor the whole row.
pub proof fn law_refused_tables_have_no_usable_identity(
    schema: ReplicatedTableSchema,
    places: Seq<int>,
)
    requires
        crate::schema::are_key_places(schema.columns@, places),
    ensures
        identity_error(schema, ClickHouseEngine::MergeTree) is None <==> (
        schema.omitted_primary_key@.len() == 0 && (schema.identity_type == IdentityType::PrimaryKey
            || schema.identity_type == IdentityType::Full)),
        identity_error(schema, ClickHouseEngine::ReplacingMergeTree) is None <==> (
        schema.omitted_primary_key@.len() == 0 && places.len() > 0 && (schema.identity_type
            == IdentityType::PrimaryKey || schema.identity_type == IdentityType::Full)),
        forall|engine: ClickHouseEngine|
            (#[trigger] identity_error(schema, engine)) matches Some(e) ==> e.kind
                == ErrorKind::SourceSchemaError,
{
    crate::schema::law_key_columns_are_all_counted(schema, places);
}

/// A deleted row of which only the key is known carries the `k`-th key value in the `k`-th key
/// column, NULL in every other column that takes one, and a default in the rest.
pub proof fn law_expanded_row_carries_the_key(
    schema: ReplicatedTableSchema,
    keys: Seq<CellModel>,
    places: Seq<int>,
)
    requires
        crate::schema::are_key_places(schema.columns@, places),
        keys.len() == places.len(),
    ensures
        ({
            let columns = schema.columns@;
            let row = expanded(columns, keys);
            &&& row.len() == columns.len()
            &&& forall|k: int| 0 <= k < places.len() ==> row[#[trigger] places[k]] == keys[k]
            &&& forall|i: int|
                0 <= i < columns.len() && (#[trigger] columns[i]).primary_key_ordinal_position
                    is None && columns[i].nullable && !columns[i].typ.array() ==> row[i]
                    == CellModel::Value(Cell::Null)
            &&& forall|i: int|
                0 <= i < columns.len() && (#[trigger] columns[i]).primary_key_ordinal_position
                    is None && (!columns[i].nullable || columns[i].typ.array()) ==> row[i]
                    == default_model(columns[i].typ)
        }),
{
    crate::schema::law_key_columns_are_all_counted(schema, places);
}

/// The value that stands for an unknown one is the zero of the column's type: false, zero, the first
/// day of 1970, midnight, the empty text.
pub proof fn law_scalar_defaults_are_zeros()
    ensures
        default_model(Type::BOOL) == CellModel::Value(Cell::Bool(false)),
        default_model(Type::INT2) == CellModel::Value(Cell::I16(0)),
        default_model(Type::INT4) == CellModel::Value(Cell::I32(0)),
        default_model(Type::INT8) == CellModel::Value(Cell::I64(0)),
        default_model(Type::OID) == CellModel::Value(Cell::U32(0)),
        default_model(Type::FLOAT4) == CellModel::F32(FloatModel::Finite("0.0"@)),
        default_model(Type::FLOAT8) == CellModel::F64(FloatModel::Finite("0.0"@)),
        default_model(Type::UUID) == CellModel::Value(Cell::Uuid(Uuid(0))),
        default_model(Type::DATE) matches CellModel::Value(Cell::Date(d)) && d.ymd() == (
            1970int,
            1int,
            1int,
        ),
        default_model(Type::TIMESTAMP) matches CellModel::Value(Cell::Timestamp(t))
            && t.date.ymd() == (1970int, 1int, 1int) && t.time.hmsn() == (0int, 0int, 0int, 0int),
        default_model(Type::TIMESTAMPTZ) matches CellModel::Value(Cell::TimestampTz(t))
            && t.date.ymd() == (1970int, 1int, 1int) && t.time.hmsn() == (0int, 0int, 0int, 0int),
        default_model(Type::CHAR) == CellModel::Text(""@),
        default_model(Type::BPCHAR) == CellModel::Text(""@),
        default_model(Type::VARCHAR) == CellModel::Text(""@),
        default_model(Type::NAME) == CellModel::Text(""@),
        default_model(Type::TEXT) == CellModel::Text(""@),
        default_model(Type::NUMERIC) == CellModel::Text(""@),
        default_model(Type::MONEY) == CellModel::Text(""@),
        default_model(Type::TIME) == CellModel::Text(""@),
        default_model(Type::JSON) == CellModel::Text(""@),
        default_model(Type::JSONB) == CellModel::Text(""@),
        default_model(Type::BYTEA) == CellModel::Text(""@),
        default_model(Type::INTERVAL) == CellModel::Text(""@),
        default_model(Type::INET) == CellModel::Text(""@),
        default_model(Type::BIT) == CellModel::Text(""@),
        forall|oid: u32|
            #[trigger] default_model((Type::Other { oid, array: false })) == CellModel::Text(""@),
{
    crate::cell::law_the_first_day_and_hour();
}

/// The value that stands for an unknown array is the empty array of the column's element type.
pub proof fn law_array_defaults_are_empty()
    ensures
        forall|typ: Type|
            typ.array() ==> (#[trigger] default_model(typ)) is EmptyArray,
        default_model(Type::BOOL_ARRAY) == CellModel::EmptyArray(ArrayKind::Bool),
        default_model(Type::INT2_ARRAY) == CellModel::EmptyArray(ArrayKind::I16),
        default_model(Type::INT4_ARRAY) == CellModel::EmptyArray(ArrayKind::I32),
        default_model(Type::INT8_ARRAY) == CellModel::EmptyArray(ArrayKind::I64),
        default_model(Type::OID_ARRAY) == CellModel::EmptyArray(ArrayKind::U32),
        default_model(Type::FLOAT4_ARRAY) == CellModel::EmptyArray(ArrayKind::F32),
        default_model(Type::FLOAT8_ARRAY) == CellModel::EmptyArray(ArrayKind::F64),
        default_model(Type::NUMERIC_ARRAY) == CellModel::EmptyArray(ArrayKind::Numeric),
        default_model(Type::DATE_ARRAY) == CellModel::EmptyArray(ArrayKind::Date),
        default_model(Type::TIME_ARRAY) == CellModel::EmptyArray(ArrayKind::Time),
        default_model(Type::TIMESTAMP_ARRAY) == CellModel::EmptyArray(ArrayKind::Timestamp),
        default_model(Type::TIMESTAMPTZ_ARRAY) == CellModel::EmptyArray(ArrayKind::TimestampTz),
        default_model(Type::UUID_ARRAY) == CellModel::EmptyArray(ArrayKind::Uuid),
        default_model(Type::JSON_ARRAY) == CellModel::EmptyArray(ArrayKind::Json),
        default_model(Type::JSONB_ARRAY) == CellModel::EmptyArray(ArrayKind::Json),
        default_model(Type::BYTEA_ARRAY) == CellModel::EmptyArray(ArrayKind::Bytes),
        default_model(Type::TEXT_ARRAY) == CellModel::EmptyArray(ArrayKind::String),
        default_model(Type::CHAR_ARRAY) == CellModel::EmptyArray(ArrayKind::String),
        default_model(Type::BPCHAR_ARRAY) == CellModel::EmptyArray(ArrayKind::String),
        default_model(Type::VARCHAR_ARRAY) == CellModel::EmptyArray(ArrayKind::String),
        default_model(Type::NAME_ARRAY) == CellModel::EmptyArray(ArrayKind::String),
        default_model(Type::MONEY_ARRAY) == CellModel::EmptyArray(ArrayKind::String),
        default_model(Type::INTERVAL_ARRAY) == CellModel::EmptyArray(ArrayKind::String),
        default_model(Type::INET_ARRAY) == CellModel::EmptyArray(ArrayKind::String),
        default_model(Type::INT4_RANGE_ARRAY) == CellModel::EmptyArray(ArrayKind::String),
        forall|oid: u32|
            #[trigger] default_model((Type::Other { oid, array: true })) == CellModel::EmptyArray(
                ArrayKind::String,
            ),
{
}

/// A name is that of a key column if and only if the first column of that name has a place in the
/// primary key.
pub proof fn law_first_column_of_a_name_decides(columns: Seq<ColumnSchema>, name: Seq<char>)
    ensures
        names_key_column(columns, name) <==> exists|i: int|
            0 <= i < columns.len() && (#[trigger] columns[i]).name@ == name
                && columns[i].primary_key_ordinal_position is Some && forall|j: int|
                0 <= j < i ==> (#[trigger] columns[j]).name@ != name,
    decreases columns.len(),
{
    if columns.len() > 0 {
        let rest = columns.skip(1);
        law_first_column_of_a_name_decides(rest, name);
        if columns[0].name@ == name {
            if columns[0].is_key() {
                assert(columns[0].primary_key_ordinal_position is Some);
            }
        } else {
            if names_key_column(rest, name) {
                let i = choose|i: int|
                    0 <= i < rest.len() && (#[trigger] rest[i]).name@ == name
                        && rest[i].primary_key_ordinal_position is Some && forall|j: int|
                        0 <= j < i ==> (#[trigger] rest[j]).name@ != name;
                assert(columns[i + 1] == rest[i]);
                assert forall|j: int| 0 <= j < i + 1 implies (
                #[trigger] columns[j]).name@ != name by {
                    if j > 0 {
                        assert(columns[j] == rest[j - 1]);
                    }
                }
            }
            if exists|i: int|
                0 <= i < columns.len() && (#[trigger] columns[i]).name@ == name
                    && columns[i].primary_key_ordinal_position is Some && forall|j: int|
                    0 <= j < i ==> (#[trigger] columns[j]).name@ != name {
                let i = choose|i: int|
                    0 <= i < columns.len() && (#[trigger] columns[i]).name@ == name
                        && columns[i].primary_key_ordinal_position is Some && forall|j: int|
                        0 <= j < i ==> (#[trigger] columns[j]).name@ != name;
                assert(rest[i - 1] == columns[i]);
                assert forall|j: int| 0 <= j < i - 1 implies (
                #[trigger] rest[j]).name@ != name by {
                    assert(rest[j] == columns[j + 1]);
                }
            }
        }
    }
}

/// A change that drops a key column or renames one is refused, and no other change is. In a table
/// whose columns have different names, that is any key column.
pub proof fn law_key_columns_are_neither_dropped_nor_renamed(
    diff: SchemaDiff,
    columns: Seq<ColumnSchema>,
)
    requires
        forall|i: int, j: int|
            0 <= i < j < columns.len() ==> (#[trigger] columns[i]).name@ != (
            #[trigger] columns[j]).name@,
    ensures
        keeps_key(diff, columns) <==> {
            &&& forall|d: int|
                0 <= d < diff.columns_to_remove@.len() ==> (
                #[trigger] diff.columns_to_remove@[d]).primary_key_ordinal_position is None
            &&& forall|r: int, i: int|
                0 <= r < diff.columns_to_rename@.len() && 0 <= i < columns.len() && (
                #[trigger] columns[i]).name@ == (
                #[trigger] diff.columns_to_rename@[r]).old_name@ ==>
                columns[i].primary_key_ordinal_position is None
        },
{
    assert forall|r: int|
        0 <= r < diff.columns_to_rename@.len() implies (names_key_column(
        columns,
        (#[trigger] diff.columns_to_rename@[r]).old_name@,
    ) <==> exists|i: int|
        0 <= i < columns.len() && (#[trigger] columns[i]).name@
            == diff.columns_to_rename@[r].old_name@
            && columns[i].primary_key_ordinal_position is Some) by {
        let name = diff.columns_to_rename@[r].old_name@;
        law_first_column_of_a_name_decides(columns, name);
        if exists|i: int|
            0 <= i < columns.len() && (#[trigger] columns[i]).name@ == name
                && columns[i].primary_key_ordinal_position is Some {
            let i = choose|i: int|
                0 <= i < columns.len() && (#[trigger] columns[i]).name@ == name
                    && columns[i].primary_key_ordinal_position is Some;
            assert forall|j: int| 0 <= j < i implies (#[trigger] columns[j]).name@ != name by {
                assert(columns[j].name@ != columns[i].name@);
            }
        }
    }
}

/// The values of a row are those of each, in order.
pub proof fn law_values_are_viewed_in_order(values: Seq<ClickHouseValue>)
    ensures
        value_models(values).len() == values.len(),
        forall|i: int|
            0 <= i < values.len() ==> match #[trigger] values[i] {
                ClickHouseValue::Cell(c) => value_models(values)[i] == ValueModel::Cell(c@),
                ClickHouseValue::String(s) => value_models(values)[i] == ValueModel::String(s@),
                ClickHouseValue::UInt8(n) => value_models(values)[i] == ValueModel::UInt8(n as int),
                ClickHouseValue::UInt64(n) => value_models(values)[i] == ValueModel::UInt64(
                    n as int,
                ),
                ClickHouseValue::UInt128(n) => value_models(values)[i] == ValueModel::UInt128(
                    n as int,
                ),
            },
{
}

/// Whatever change waits, the row that is made of it under ReplacingMergeTree ends with one if it is a
/// delete and with zero if it is not, and in front of that stands its position.
pub proof fn law_made_rows_mark_deletes(row: PendingRow, values: Vec<ClickHouseValue>)
    requires
        call_ensures(
            pending_row_values,
            (row, ClickHouseEngine::ReplacingMergeTree),
            values,
        ),
    ensures
        ({
            let n = row.cells@.len() as int;
            &&& values@.len() == n + 2
            &&& row.operation == CdcOperation::Delete ==> values@[n + 1] == ClickHouseValue::UInt8(1)
            &&& row.operation != CdcOperation::Delete ==> values@[n + 1] == ClickHouseValue::UInt8(0)
            &&& values@[n] matches ClickHouseValue::UInt128(version) && version
                == 0x1_0000_0000_0000_0000 * row.commit_lsn.0 + row.tx_ordinal
            &&& forall|i: int|
                0 <= i < n ==> (#[trigger] values@[i] matches ClickHouseValue::Cell(c) && c@
                    == row.cells@[i]@)
        }),
{
    let n = row.cells@.len() as int;
    let w = written_row(row@, ClickHouseEngine::ReplacingMergeTree);
    law_written_row_tells_what_the_change_did(row@);
    assert(value_models(values@) == w);
    assert(value_models(values@)[n] == values@[n]@);
    assert(value_models(values@)[n + 1] == values@[n + 1]@);
    assert forall|i: int| 0 <= i < n implies (#[trigger] values@[i] matches ClickHouseValue::Cell(c)
        && c@ == row.cells@[i]@) by {
        assert(value_models(values@)[i] == values@[i]@);
        assert(w[i] == ValueModel::Cell(row@.cells[i]));
    }
}

/// Every copied row is written as a live row of the lowest version.
pub proof fn law_made_copies_are_live(rows: Vec<TableRow>, made: Vec<Vec<ClickHouseValue>>)
    requires
        call_ensures(copied_rows_values, (rows, ClickHouseEngine::ReplacingMergeTree), made),
    ensures
        made@.len() == rows@.len(),
        forall|k: int|
            0 <= k < made@.len() ==> {
                let n = rows@[k].values@.len() as int;
                &&& (#[trigger] made@[k])@.len() == n + 2
                &&& made@[k]@[n] == ClickHouseValue::UInt128(0)
                &&& made@[k]@[n + 1] == ClickHouseValue::UInt8(0)
            },
{
    assert forall|k: int| 0 <= k < made@.len() implies {
        let n = rows@[k].values@.len() as int;
        &&& (#[trigger] made@[k])@.len() == n + 2
        &&& made@[k]@[n] == ClickHouseValue::UInt128(0)
        &&& made@[k]@[n + 1] == ClickHouseValue::UInt8(0)
    } by {
        let n = rows@[k].values@.len() as int;
        law_copied_rows_are_live_and_oldest(rows@[k]@);
        assert(value_models(made@[k]@) == written_row(
            copied_model(rows@[k]@),
            ClickHouseEngine::ReplacingMergeTree,
        ));
        assert(value_models(made@[k]@)[n] == made@[k]@[n]@);
        assert(value_models(made@[k]@)[n + 1] == made@[k]@[n + 1]@);
    }
}

/// A table takes rows if and only if it has the expected columns in the expected order; a value needs a
/// null marker if and only if its column's type is nullable.
pub proof fn law_tables_take_rows_of_their_columns(
    table: &str,
    expected: &Vec<String>,
    actual: &Vec<ClickHouseTableColumn>,
    r: EtlResult<Vec<bool>>,
)
    requires
        call_ensures(nullable_flags_from_clickhouse_columns, (table, expected, actual), r),
    ensures
        r matches Ok(flags) ==> flags@.len() == actual@.len() && actual@.len() == expected@.len()
            && (forall|i: int|
            0 <= i < flags@.len() ==> (#[trigger] actual@[i]).name@ == expected@[i]@) && (forall|
            i: int,
        |
            0 <= i < flags@.len() ==> #[trigger] flags@[i] == starts(
                actual@[i].type_text@,
                "Nullable("@,
            )),
        actual@.len() != expected@.len() ==> r is Err,
        r matches Err(e) ==> e@.kind == ErrorKind::CorruptedTableSchema,
{
}

/// A refused change of the key is an error of the source's schema, and names the first dropped key
/// column, or else the first renamed one.
pub proof fn law_refused_key_changes_name_the_column(
    table: Seq<char>,
    diff: SchemaDiff,
    columns: Seq<ColumnSchema>,
    e: ErrorModel,
)
    requires
        key_alter_error(table, diff, columns, e),
    ensures
        e.kind == ErrorKind::SourceSchemaError,
        !keeps_key(diff, columns),
        (exists|i: int|
            0 <= i < diff.columns_to_remove@.len() && (
            #[trigger] diff.columns_to_remove@[i]).is_key()) <==> e.description
            == "ReplacingMergeTree does not support dropping a primary-key column"@,
{
    reveal_strlit("ReplacingMergeTree does not support dropping a primary-key column");
    reveal_strlit("ReplacingMergeTree does not support renaming a primary-key column");
    let a = "ReplacingMergeTree does not support dropping a primary-key column"@;
    let b = "ReplacingMergeTree does not support renaming a primary-key column"@;
    assert(a[36] == 'd');
    assert(b[36] == 'r');
}

/// A position is written as its number.
pub proof fn law_positions_are_written_as_numbers(lsn: PgLsn, r: ClickHouseValue)
    requires
        call_ensures(cdc_lsn_to_clickhouse_value, (lsn,), r),
    ensures
        r matches ClickHouseValue::UInt64(n) && n == lsn.0,
{
}

/// Whatever change is appended to a row under ReplacingMergeTree, a delete is marked by one and any
/// other change by zero, behind the change's position; the row itself stays as it is.
pub proof fn law_appended_columns_mark_deletes(
    values: &mut Vec<ClickHouseValue>,
    operation: CdcOperation,
    commit_lsn: PgLsn,
    tx_ordinal: u64,
)
    requires
        call_ensures(
            append_cdc_columns,
            (values, operation, commit_lsn, tx_ordinal, ClickHouseEngine::ReplacingMergeTree),
            (),
        ),
    ensures
        ({
            let n = old(values)@.len() as int;
            &&& final(values)@.len() == n + 2
            &&& operation == CdcOperation::Delete ==> final(values)@[n + 1]
                == ClickHouseValue::UInt8(1)
            &&& operation != CdcOperation::Delete ==> final(values)@[n + 1]
                == ClickHouseValue::UInt8(0)
            &&& final(values)@[n] matches ClickHouseValue::UInt128(version) && version
                == 0x1_0000_0000_0000_0000 * commit_lsn.0 + tx_ordinal
            &&& forall|i: int| 0 <= i < n ==> (#[trigger] final(values)@[i])@ == old(values)@[i]@
        }),
{
    let n = old(values)@.len() as int;
    let after = value_models(final(values)@);
    assert(after == value_models(old(values)@) + cdc_columns(
        operation,
        commit_lsn,
        tx_ordinal,
        ClickHouseEngine::ReplacingMergeTree,
    ));
    assert(after.len() == final(values)@.len());
    assert(after[n + 1] == final(values)@[n + 1]@);
    assert(after[n] == final(values)@[n]@);
    assert forall|i: int| 0 <= i < n implies (#[trigger] final(values)@[i])@
        == old(values)@[i]@ by {
        assert(after[i] == value_models(old(values)@)[i]);
    }
}

/// A type is nullable if and only if it is wrapped so.
pub proof fn law_nullable_types_are_wrapped(type_text: &str, r: bool)
    requires
        call_ensures(clickhouse_type_expects_nullable_marker, (type_text,), r),
    ensures
        r <==> type_text@.len() >= "Nullable("@.len() && type_text@.take(
            "Nullable("@.len() as int,
        ) == "Nullable("@,
{
}

/// Changes are refused under ReplacingMergeTree if and only if they touch the key, and tables if and
/// only if they have no usable identity.
pub proof fn law_refusals_under_replacing_merge_tree(
    table: &str,
    diff: &SchemaDiff,
    schema: &ReplicatedTableSchema,
    change: EtlResult<()>,
    identity: EtlResult<()>,
)
    requires
        call_ensures(reject_pk_alters_under_replacing_merge_tree, (table, diff, schema), change),
        call_ensures(
            validate_replica_identity_for_clickhouse,
            (schema, ClickHouseEngine::ReplacingMergeTree),
            identity,
        ),
    ensures
        change is Ok <==> keeps_key(*diff, schema.columns@),
        change matches Err(e) ==> e@.kind == ErrorKind::SourceSchemaError,
        identity is Ok <==> identity_error(*schema, ClickHouseEngine::ReplacingMergeTree) is None,
{
}

/// A table with another number of columns, or another name at some place, is refused as broken, with
/// what was found and what was expected; the first wrong name counts.
pub proof fn law_wrong_columns_are_described(
    table: Seq<char>,
    expected: Seq<String>,
    actual: Seq<ClickHouseTableColumn>,
    i: int,
    j: int,
)
    requires
        first_mismatch(expected, actual, i),
    ensures
        0 <= i < actual.len(),
        actual[i].name@ != expected[i]@,
        0 <= j < i ==> actual[j].name@ == expected[j]@,
        column_name_error(table, i as nat, actual[i].name@, expected[i]@).kind
            == ErrorKind::CorruptedTableSchema,
        column_name_error(table, i as nat, actual[i].name@, expected[i]@).detail == Some(
            "table '"@ + table + "' column "@ + decimal(i as nat) + " is named '"@
                + actual[i].name@ + "', but '"@ + (expected[i]@ + "' was expected"@),
        ),
        column_count_error(table, actual.len(), expected.len()).kind
            == ErrorKind::CorruptedTableSchema,
        column_count_error(table, actual.len(), expected.len()).detail == Some(
            "table '"@ + table + "' has "@ + decimal(actual.len()) + " columns, but "@ + decimal(
                expected.len(),
            ) + " were expected"@,
        ),
{
}

/// The first dropped key column is named, and without one the first renamed one.
pub proof fn law_first_touched_key_column_is_named(
    diff: SchemaDiff,
    columns: Seq<ColumnSchema>,
    i: int,
    j: int,
)
    ensures
        first_dropped_key(diff.columns_to_remove@, i) ==> 0 <= i < diff.columns_to_remove@.len()
            && diff.columns_to_remove@[i].is_key() && (0 <= j < i
            ==> !diff.columns_to_remove@[j].is_key()),
        first_renamed_key(diff, columns, i) ==> 0 <= i < diff.columns_to_rename@.len()
            && names_key_column(columns, diff.columns_to_rename@[i].old_name@) && (0 <= j < i
            ==> !names_key_column(columns, diff.columns_to_rename@[j].old_name@)),
{
}

} // verus!
