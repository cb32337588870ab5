//! Change rows: upserts and deletes keyed by the source primary key.
use vstd::prelude::*;

use crate::cell::{models, Cell, CellModel, SameValue, TableRow};
use crate::error::{error_of, ErrorKind, ErrorModel, EtlError, EtlResult};
use crate::event::{
    key_before, law_key_text_tells_the_position, law_key_texts_keep_order, EventSequenceKey,
    OldTableRow,
};
use crate::schema::{
    are_key_places, key_count, law_key_columns_are_all_counted, law_key_columns_are_counted,
    lemma_key_count_prefix, lemma_key_count_step, ColumnSchema, IdentityType,
    ReplicatedTableSchema,
};
use crate::text::{
    cat3, cat4, cat5, cat6, decimal, decimal_of, hex, hex_of, join, joined, law_hex_keeps_order,
    hex_limit, law_hex_stands_for_its_number, lemma_sorts_before_back, lemma_sorts_before_front,
    positional, sorts_before, views,
};

verus! {

/// Ordinal of single changes and of generated deletes.
pub const BIGQUERY_SEQUENCE_ORDINAL_FIRST: u64 = 0;

/// Ordinal of generated upserts that follow generated deletes.
pub const BIGQUERY_SEQUENCE_ORDINAL_SECOND: u64 = 1;

/// What BigQuery is to do with a change row.
#[derive(Clone, Copy, Debug, PartialEq, Eq, Structural)]
pub enum BigQueryOperationType {
    /// Insert the row, or replace the one with its key.
    Upsert,
    /// Delete the row with its key.
    Delete,
}

impl BigQueryOperationType {
    /// The operation's text.
    pub open spec fn text(self) -> Seq<char> {
        match self {
            BigQueryOperationType::Upsert => "UPSERT"@,
            BigQueryOperationType::Delete => "DELETE"@,
        }
    }

    /// Returns the operation's text.
    pub fn as_str(&self) -> (r: &'static str)
        ensures
            r@ == self.text(),
    {
        match self {
            BigQueryOperationType::Upsert => "UPSERT",
            BigQueryOperationType::Delete => "DELETE",
        }
    }

    /// Returns the operation as a cell.
    pub fn into_cell(self) -> (r: Cell)
        ensures
            r@ == CellModel::Text(self.text()),
    {
        Cell::String(self.as_str().to_owned())
    }
}

/// A row bound for BigQuery: cells with the numbers of the fields that they fill.
#[derive(Debug)]
pub struct BigQueryTableRow {
    /// The cells, each with its field number.
    pub cells: Vec<(usize, Cell)>,
}

impl View for BigQueryTableRow {
    type V = Seq<(int, CellModel)>;

    open spec fn view(&self) -> Seq<(int, CellModel)> {
        tagged_models(self.cells@)
    }
}

/// What tagged cells hold.
pub open spec fn tagged_models(cells: Seq<(usize, Cell)>) -> Seq<(int, CellModel)> {
    Seq::new(cells.len(), |i: int| (cells[i].0 as int, cells[i].1@))
}

/// Values numbered from one.
pub open spec fn numbered(values: Seq<CellModel>) -> Seq<(int, CellModel)> {
    Seq::new(values.len(), |i: int| (i + 1, values[i]))
}

impl BigQueryTableRow {
    /// Numbers the values of a row from one. Whether each of them can be written is for the encoder of
    /// the rows to say.
    pub fn from_row(row: TableRow) -> (r: Self)
        ensures
            r@ == numbered(row@),
    {
        let ghost all = row.values@;
        let n: usize = row.values.len();
        let mut cells: Vec<(usize, Cell)> = Vec::new();
        let mut i: usize = 0;
        for value in it: row.values
            invariant
                it.seq() == all,
                all.len() == n,
                i == it.index(),
                tagged_models(cells@) == numbered(models(all).take(i as int)),
        {
            let ghost had = cells@;
            proof {
                assert(value == all[i as int]);
            }
            cells.push((i + 1, value));
            i = i + 1;
            proof {
                assert(tagged_models(cells@) =~= tagged_models(had).push((i as int, value@)));
                assert(tagged_models(cells@) =~= numbered(models(all).take(i as int)));
            }
        }
        proof {
            assert(models(all).take(all.len() as int) =~= models(all));
        }
        BigQueryTableRow { cells }
    }
}

/// Text by which BigQuery orders changes of one key.
pub open spec fn sequence_key_text(key: EventSequenceKey, internal_ordinal: nat) -> Seq<char> {
    key.text() + "/"@ + hex(internal_ordinal, 16)
}

/// Builds the ordering key of a change row: the source position, then the place among the rows
/// that one source event generates.
pub fn bigquery_sequence_key(sequence_key: EventSequenceKey, internal_ordinal: u64) -> (r: String)
    ensures
        r@ == sequence_key_text(sequence_key, internal_ordinal as nat),
{
    let key = sequence_key.to_text();
    let ordinal = hex_of(internal_ordinal as u128, 16);
    cat3(key.as_str(), "/", ordinal.as_str())
}

/// Rows that one source event generates are ordered by their internal ordinals, and so a
/// generated delete comes before its upsert.
pub proof fn law_internal_ordinal_orders_rows(key: EventSequenceKey, a: u64, b: u64)
    requires
        a < b,
    ensures
        sorts_before(sequence_key_text(key, a as nat), sequence_key_text(key, b as nat)),
{
    reveal_with_fuel(hex_limit, 17);
    law_hex_keeps_order(a as nat, b as nat, 16);
    lemma_sorts_before_front(key.text() + "/"@, hex(a as nat, 16), hex(b as nat, 16));
}

/// What a row looks like as an upsert.
pub open spec fn upsert_row(values: Seq<CellModel>, sequence: Seq<char>) -> Seq<(int, CellModel)> {
    numbered(
        values.push(CellModel::Text(BigQueryOperationType::Upsert.text())).push(
            CellModel::Text(sequence),
        ),
    )
}

/// Builds an upsert of a row.
pub fn bigquery_upsert_row(table_row: TableRow, sequence_key: String) -> (r: BigQueryTableRow)
    ensures
        r@ == upsert_row(table_row@, sequence_key@),
{
    let mut values = table_row.values;
    let ghost before = models(values@);
    values.push(BigQueryOperationType::Upsert.into_cell());
    values.push(Cell::String(sequence_key));
    proof {
        assert(models(values@) =~= before.push(
            CellModel::Text(BigQueryOperationType::Upsert.text()),
        ).push(CellModel::Text(sequence_key@)));
    }
    BigQueryTableRow::from_row(TableRow { values })
}

/// Why BigQuery cannot take the table's changes, if it cannot.
pub open spec fn identity_error(schema: ReplicatedTableSchema) -> Option<ErrorModel> {
    if schema.keys() == 0 {
        Some(
            error_of(
                ErrorKind::SourceSchemaError,
                "BigQuery requires a source primary key"@,
                "Table '"@ + schema.name.text()
                    + "' does not expose any replicated primary-key columns"@,
            ),
        )
    } else if schema.omitted_primary_key@.len() > 0 {
        Some(
            error_of(
                ErrorKind::SourceSchemaError,
                "BigQuery requires all source primary-key columns to be replicated"@,
                "Table '"@ + schema.name.text()
                    + "' omits source primary-key columns from replication: "@ + joined(
                    views(schema.omitted_primary_key@),
                    ","@,
                ),
            ),
        )
    } else if schema.identity_type == IdentityType::PrimaryKey || schema.identity_type
        == IdentityType::Full {
        None
    } else {
        Some(
            error_of(
                ErrorKind::SourceSchemaError,
                "BigQuery requires primary-key or full replica identity"@,
                "Table '"@ + schema.name.text() + "' uses replica identity "@
                    + schema.identity_type.text()
                    + ", but BigQuery only supports source primary-key identity or full old-row images"@,
            ),
        )
    }
}

/// Checks that BigQuery can take the table's changes: the whole primary key is replicated, and
/// deletes carry it.
pub fn validate_bigquery_replica_identity(schema: &ReplicatedTableSchema) -> (r: EtlResult<()>)
    ensures
        r is Ok <==> identity_error(*schema) is None,
        r matches Err(e) ==> identity_error(*schema) == Some(e@),
{
    if schema.primary_key_count() == 0 {
        let name = schema.name.to_text();
        return Err(
            EtlError::new(
                ErrorKind::SourceSchemaError,
                "BigQuery requires a source primary key",
                cat3(
                    "Table '",
                    name.as_str(),
                    "' does not expose any replicated primary-key columns",
                ),
            ),
        );
    }
    if schema.omitted_primary_key.len() > 0 {
        let name = schema.name.to_text();
        let omitted = join(schema.omitted_primary_key.as_slice(), ",");
        return Err(
            EtlError::new(
                ErrorKind::SourceSchemaError,
                "BigQuery requires all source primary-key columns to be replicated",
                cat4(
                    "Table '",
                    name.as_str(),
                    "' omits source primary-key columns from replication: ",
                    omitted.as_str(),
                ),
            ),
        );
    }
    match schema.identity_type {
        IdentityType::PrimaryKey | IdentityType::Full => Ok(()),
        _ => {
            let name = schema.name.to_text();
            Err(
                EtlError::new(
                    ErrorKind::SourceSchemaError,
                    "BigQuery requires primary-key or full replica identity",
                    cat5(
                        "Table '",
                        name.as_str(),
                        "' uses replica identity ",
                        schema.identity_type.as_str(),
                        ", but BigQuery only supports source primary-key identity or full old-row images",
                    ),
                ),
            )
        },
    }
}

/// A full row has another number of values than the table has columns.
pub open spec fn row_shape_error(schema: ReplicatedTableSchema, got: nat) -> ErrorModel {
    error_of(
        ErrorKind::InvalidState,
        "BigQuery full row image does not match the replicated schema"@,
        "Expected "@ + decimal(schema.columns@.len()) + " values for table '"@
            + schema.name.text() + "', got "@ + decimal(got),
    )
}

fn row_shape_failure(schema: &ReplicatedTableSchema, got: usize) -> (r: EtlError)
    ensures
        r@ == row_shape_error(*schema, got as nat),
{
    let expected = decimal_of(schema.columns.len() as u128);
    let name = schema.name.to_text();
    let got = decimal_of(got as u128);
    EtlError::new(
        ErrorKind::InvalidState,
        "BigQuery full row image does not match the replicated schema",
        cat6(
            "Expected ",
            expected.as_str(),
            " values for table '",
            name.as_str(),
            "', got ",
            got.as_str(),
        ),
    )
}

/// A key image came for a table whose identity is not its primary key.
pub open spec fn key_identity_error(schema: ReplicatedTableSchema) -> ErrorModel {
    error_of(
        ErrorKind::InvalidState,
        "BigQuery key image does not match the source primary key"@,
        "Table '"@ + schema.name.text() + "' emitted a key image for replica identity "@
            + schema.identity_type.text()
            + ", but BigQuery rows are keyed by the source primary key"@,
    )
}

fn key_identity_failure(schema: &ReplicatedTableSchema) -> (r: EtlError)
    ensures
        r@ == key_identity_error(*schema),
{
    let name = schema.name.to_text();
    EtlError::new(
        ErrorKind::InvalidState,
        "BigQuery key image does not match the source primary key",
        cat5(
            "Table '",
            name.as_str(),
            "' emitted a key image for replica identity ",
            schema.identity_type.as_str(),
            ", but BigQuery rows are keyed by the source primary key",
        ),
    )
}

/// A key image has another number of values than the primary key has columns.
pub open spec fn key_shape_error(
    schema: ReplicatedTableSchema,
    description: Seq<char>,
    got: nat,
) -> ErrorModel {
    error_of(
        ErrorKind::InvalidState,
        description,
        "Expected "@ + decimal(schema.keys()) + " key values for table '"@ + schema.name.text()
            + "', got "@ + decimal(got),
    )
}

fn key_shape_failure(
    schema: &ReplicatedTableSchema,
    description: &'static str,
    got: usize,
) -> (r: EtlError)
    ensures
        r@ == key_shape_error(*schema, description@, got as nat),
{
    let expected = decimal_of(schema.primary_key_count() as u128);
    let name = schema.name.to_text();
    let got = decimal_of(got as u128);
    EtlError::new(
        ErrorKind::InvalidState,
        description,
        cat6(
            "Expected ",
            expected.as_str(),
            " key values for table '",
            name.as_str(),
            "', got ",
            got.as_str(),
        ),
    )
}

/// Whether some key column has another value in a full old row than in the new one.
pub open spec fn full_key_differs(
    columns: Seq<ColumnSchema>,
    old_row: Seq<Cell>,
    new_row: Seq<Cell>,
) -> bool {
    exists|i: int|
        0 <= i < columns.len() && (#[trigger] columns[i]).is_key() && !old_row[i].same(&new_row[i])
}

/// Whether some key column has another value in an old key image than in the new row. The
/// values of the image stand in the order of the key columns in the table.
pub open spec fn key_image_differs(
    columns: Seq<ColumnSchema>,
    old_key: Seq<Cell>,
    new_row: Seq<Cell>,
) -> bool {
    exists|i: int|
        0 <= i < columns.len() && (#[trigger] columns[i]).is_key() && !old_key[key_count(
            columns.take(i),
        ) as int].same(&new_row[i])
}

/// Whether an update changes the primary key, or why that cannot be told.
pub open spec fn key_changed(
    schema: ReplicatedTableSchema,
    old_row: OldTableRow,
    new_row: TableRow,
) -> Result<bool, ErrorModel> {
    let n = schema.columns@.len();
    if new_row.values@.len() != n {
        Err(row_shape_error(schema, new_row.values@.len()))
    } else {
        match old_row {
            OldTableRow::Full(row) => if row.values@.len() != n {
                Err(row_shape_error(schema, row.values@.len()))
            } else {
                Ok(full_key_differs(schema.columns@, row.values@, new_row.values@))
            },
            OldTableRow::Key(row) => if !schema.identity_matches_primary_key {
                Err(key_identity_error(schema))
            } else if row.values@.len() != schema.keys() {
                Err(
                    key_shape_error(
                        schema,
                        "BigQuery key image does not match the source primary key"@,
                        row.values@.len(),
                    ),
                )
            } else {
                Ok(key_image_differs(schema.columns@, row.values@, new_row.values@))
            },
        }
    }
}

/// Returns whether an update changes the primary key.
pub fn bigquery_primary_key_changed(
    schema: &ReplicatedTableSchema,
    old_table_row: &OldTableRow,
    new_table_row: &TableRow,
) -> (r: EtlResult<bool>)
    ensures
        r matches Ok(b) ==> key_changed(*schema, *old_table_row, *new_table_row) == Ok::<
            bool,
            ErrorModel,
        >(b),
        r matches Err(e) ==> key_changed(*schema, *old_table_row, *new_table_row) == Err::<
            bool,
            ErrorModel,
        >(e@),
{
    let n: usize = schema.columns.len();
    if new_table_row.values.len() != n {
        return Err(row_shape_failure(schema, new_table_row.values.len()));
    }
    match old_table_row {
        OldTableRow::Full(row) => {
            if row.values.len() != n {
                return Err(row_shape_failure(schema, row.values.len()));
            }
            let mut i: usize = 0;
            while i < n
                invariant
                    i <= n,
                    n == schema.columns@.len(),
                    *old_table_row == OldTableRow::Full(*row),
                    row.values@.len() == n,
                    new_table_row.values@.len() == n,
                    forall|j: int|
                        0 <= j < i ==> !((#[trigger] schema.columns@[j]).is_key()
                            && !row.values@[j].same(&new_table_row.values@[j])),
                decreases n - i,
            {
                if schema.columns[i].primary_key() && !row.values[i].is_same(
                    &new_table_row.values[i],
                ) {
                    proof {
                        assert(schema.columns@[i as int].is_key());
                    }
                    return Ok(true);
                }
                i = i + 1;
            }
            Ok(false)
        },
        OldTableRow::Key(row) => {
            if !schema.identity_matches_primary_key {
                return Err(key_identity_failure(schema));
            }
            if row.values.len() != schema.primary_key_count() {
                return Err(
                    key_shape_failure(
                        schema,
                        "BigQuery key image does not match the source primary key",
                        row.values.len(),
                    ),
                );
            }
            let mut i: usize = 0;
            let mut k: usize = 0;
            while i < n
                invariant
                    i <= n,
                    n == schema.columns@.len(),
                    *old_table_row == OldTableRow::Key(*row),
                    schema.identity_matches_primary_key,
                    row.values@.len() == schema.keys(),
                    new_table_row.values@.len() == n,
                    k == key_count(schema.columns@.take(i as int)),
                    forall|j: int|
                        0 <= j < i ==> !((#[trigger] schema.columns@[j]).is_key()
                            && !row.values@[key_count(schema.columns@.take(j)) as int].same(
                            &new_table_row.values@[j],
                        )),
                decreases n - i,
            {
                proof {
                    lemma_key_count_step(schema.columns@, i as int);
                    lemma_key_count_prefix(schema.columns@, i + 1);
                }
                if schema.columns[i].primary_key() {
                    if !row.values[k].is_same(&new_table_row.values[i]) {
                        proof {
                            assert(schema.columns@[i as int].is_key());
                        }
                        return Ok(true);
                    }
                    k = k + 1;
                }
                i = i + 1;
            }
            Ok(false)
        },
    }
}

/// Key cells of a full row, each with its field number.
pub open spec fn full_key_cells(columns: Seq<ColumnSchema>, values: Seq<Cell>) -> Seq<
    (int, CellModel),
>
    decreases columns.len(),
{
    if columns.len() == 0 {
        Seq::empty()
    } else {
        let head = full_key_cells(columns.drop_last(), values);
        if columns.last().is_key() {
            head.push((columns.len() as int, values[columns.len() - 1]@))
        } else {
            head
        }
    }
}

/// Key cells of a key image, each with the field number of its key column.
pub open spec fn image_key_cells(columns: Seq<ColumnSchema>, keys: Seq<Cell>) -> Seq<
    (int, CellModel),
>
    decreases columns.len(),
{
    if columns.len() == 0 {
        Seq::empty()
    } else {
        let head = image_key_cells(columns.drop_last(), keys);
        if columns.last().is_key() {
            head.push((columns.len() as int, keys[key_count(columns.drop_last()) as int]@))
        } else {
            head
        }
    }
}

/// Key cells of an old row, or why they cannot be told.
pub open spec fn old_key_cells(schema: ReplicatedTableSchema, old_row: OldTableRow) -> Result<
    Seq<(int, CellModel)>,
    ErrorModel,
> {
    match old_row {
        OldTableRow::Full(row) => if row.values@.len() != schema.columns@.len() {
            Err(row_shape_error(schema, row.values@.len()))
        } else {
            Ok(full_key_cells(schema.columns@, row.values@))
        },
        OldTableRow::Key(row) => if !schema.identity_matches_primary_key {
            Err(key_identity_error(schema))
        } else if row.values@.len() != schema.keys() {
            Err(
                key_shape_error(
                    schema,
                    "BigQuery delete key image does not match the source primary key"@,
                    row.values@.len(),
                ),
            )
        } else {
            Ok(image_key_cells(schema.columns@, row.values@))
        },
    }
}

/// Extracts the primary-key cells of an old row, each with its field number.
pub fn bigquery_primary_key_tagged_cells_from_old_row(
    schema: &ReplicatedTableSchema,
    old_table_row: OldTableRow,
) -> (r: EtlResult<Vec<(usize, Cell)>>)
    requires
        schema.countable(),
    ensures
        r matches Ok(cells) ==> old_key_cells(*schema, old_table_row) == Ok::<
            Seq<(int, CellModel)>,
            ErrorModel,
        >(tagged_models(cells@)),
        r matches Err(e) ==> old_key_cells(*schema, old_table_row) == Err::<
            Seq<(int, CellModel)>,
            ErrorModel,
        >(e@),
{
    let n: usize = schema.columns.len();
    let ghost columns = schema.columns@;
    let mut cells: Vec<(usize, Cell)> = Vec::new();
    match old_table_row {
        OldTableRow::Full(row) => {
            if row.values.len() != n {
                return Err(row_shape_failure(schema, row.values.len()));
            }
            let ghost values = row.values@;
            let mut i: usize = 0;
            proof {
                assert(tagged_models(cells@) =~= full_key_cells(columns.take(0), values));
            }
            for value in it: row.values
                invariant
                    it.seq() == values,
                    values.len() == n,
                    n == schema.columns@.len(),
                    columns == schema.columns@,
                    i == it.index(),
                    tagged_models(cells@) == full_key_cells(columns.take(i as int), values),
            {
                let ghost had = cells@;
                proof {
                    let next = columns.take(i + 1);
                    assert(next.drop_last() =~= columns.take(i as int));
                    assert(next.last() == columns[i as int]);
                    assert(value == values[i as int]);
                }
                if schema.columns[i].primary_key() {
                    cells.push((i + 1, value));
                    proof {
                        assert(tagged_models(cells@) =~= tagged_models(had).push(
                            (i + 1, values[i as int]@),
                        ));
                    }
                }
                i = i + 1;
            }
            proof {
                assert(columns.take(n as int) =~= columns);
            }
        },
        OldTableRow::Key(row) => {
            if !schema.identity_matches_primary_key {
                return Err(key_identity_failure(schema));
            }
            if row.values.len() != schema.primary_key_count() {
                return Err(
                    key_shape_failure(
                        schema,
                        "BigQuery delete key image does not match the source primary key",
                        row.values.len(),
                    ),
                );
            }
            let ghost keys = row.values@;
            let mut left = row.values;
            let mut i: usize = 0;
            proof {
                assert(tagged_models(cells@) =~= image_key_cells(columns.take(0), keys));
                assert(keys.skip(0) =~= keys);
            }
            while i < n
                invariant
                    i <= n,
                    n == schema.columns@.len(),
                    columns == schema.columns@,
                    keys.len() == schema.keys(),
                    key_count(columns.take(i as int)) <= keys.len(),
                    left@ == keys.skip(key_count(columns.take(i as int)) as int),
                    tagged_models(cells@) == image_key_cells(columns.take(i as int), keys),
                decreases n - i,
            {
                let ghost had = cells@;
                let ghost k = key_count(columns.take(i as int)) as int;
                proof {
                    lemma_key_count_step(columns, i as int);
                    lemma_key_count_prefix(columns, i + 1);
                    let next = columns.take(i + 1);
                    assert(next.drop_last() =~= columns.take(i as int));
                    assert(next.last() == columns[i as int]);
                }
                if schema.columns[i].primary_key() {
                    let value = left.remove(0);
                    cells.push((i + 1, value));
                    proof {
                        assert(value == keys[k]);
                        assert(left@ =~= keys.skip(k + 1));
                        assert(tagged_models(cells@) =~= tagged_models(had).push(
                            (i + 1, keys[k]@),
                        ));
                    }
                }
                i = i + 1;
            }
            proof {
                assert(columns.take(n as int) =~= columns);
            }
        },
    }
    Ok(cells)
}

/// What a delete looks like: the key cells, the operation and the ordering key.
pub open spec fn delete_row(
    schema: ReplicatedTableSchema,
    old_row: OldTableRow,
    sequence: Seq<char>,
) -> Result<Seq<(int, CellModel)>, ErrorModel> {
    let n = schema.columns@.len() as int;
    match old_key_cells(schema, old_row) {
        Err(e) => Err(e),
        Ok(cells) => Ok(
            cells.push(
                (n + 1, CellModel::Text(BigQueryOperationType::Delete.text())),
            ).push((n + 2, CellModel::Text(sequence))),
        ),
    }
}

/// Builds a delete from an old row.
pub fn bigquery_delete_row(
    schema: &ReplicatedTableSchema,
    old_table_row: OldTableRow,
    sequence_key: String,
) -> (r: EtlResult<BigQueryTableRow>)
    requires
        schema.countable(),
    ensures
        r matches Ok(row) ==> delete_row(*schema, old_table_row, sequence_key@) == Ok::<
            Seq<(int, CellModel)>,
            ErrorModel,
        >(row@),
        r matches Err(e) ==> delete_row(*schema, old_table_row, sequence_key@) == Err::<
            Seq<(int, CellModel)>,
            ErrorModel,
        >(e@),
{
    let n: usize = schema.columns.len();
    let mut cells = match bigquery_primary_key_tagged_cells_from_old_row(schema, old_table_row) {
        Ok(cells) => cells,
        Err(e) => {
            return Err(e);
        },
    };
    let ghost keys = tagged_models(cells@);
    cells.push((n + 1, BigQueryOperationType::Delete.into_cell()));
    cells.push((n + 2, Cell::String(sequence_key)));
    proof {
        assert(tagged_models(cells@) =~= keys.push(
            (n + 1, CellModel::Text(BigQueryOperationType::Delete.text())),
        ).push((n + 2, CellModel::Text(sequence_key@))));
    }
    Ok(BigQueryTableRow { cells })
}

/// The rows that stand for an update: where the primary key changes, the old key is deleted
/// first.
pub open spec fn update_rows(
    schema: ReplicatedTableSchema,
    new_row: TableRow,
    old_row: Option<OldTableRow>,
    key: EventSequenceKey,
) -> Result<Seq<Seq<(int, CellModel)>>, ErrorModel> {
    let changed: Result<bool, ErrorModel> = match old_row {
        None => Ok(false),
        Some(o) => key_changed(schema, o, new_row),
    };
    match changed {
        Err(e) => Err(e),
        Ok(false) => Ok(seq![upsert_row(new_row@, sequence_key_text(key, 0))]),
        Ok(true) => match delete_row(schema, old_row->Some_0, sequence_key_text(key, 0)) {
            Err(e) => Err(e),
            Ok(deleted) => Ok(
                seq![deleted, upsert_row(new_row@, sequence_key_text(key, 1))],
            ),
        },
    }
}

/// What the rows hold.
pub open spec fn bigquery_row_views(rows: Seq<BigQueryTableRow>) -> Seq<Seq<(int, CellModel)>> {
    Seq::new(rows.len(), |i: int| rows[i]@)
}

/// Builds the one or two rows that stand for an update.
pub fn bigquery_update_rows(
    schema: &ReplicatedTableSchema,
    new_table_row: TableRow,
    old_table_row: Option<OldTableRow>,
    sequence_key: EventSequenceKey,
) -> (r: EtlResult<Vec<BigQueryTableRow>>)
    requires
        schema.countable(),
    ensures
        r matches Ok(rows) ==> update_rows(
            *schema,
            new_table_row,
            old_table_row,
            sequence_key,
        ) == Ok::<Seq<Seq<(int, CellModel)>>, ErrorModel>(bigquery_row_views(rows@)),
        r matches Err(e) ==> update_rows(*schema, new_table_row, old_table_row, sequence_key)
            == Err::<Seq<Seq<(int, CellModel)>>, ErrorModel>(e@),
{
    let mut rows: Vec<BigQueryTableRow> = Vec::new();
    let mut upsert_ordinal: u64 = BIGQUERY_SEQUENCE_ORDINAL_FIRST;
    match old_table_row {
        None => {},
        Some(old_row) => {
            let changed = match bigquery_primary_key_changed(schema, &old_row, &new_table_row) {
                Ok(changed) => changed,
                Err(e) => {
                    return Err(e);
                },
            };
            if changed {
                let key = bigquery_sequence_key(sequence_key, BIGQUERY_SEQUENCE_ORDINAL_FIRST);
                match bigquery_delete_row(schema, old_row, key) {
                    Ok(row) => {
                        rows.push(row);
                    },
                    Err(e) => {
                        return Err(e);
                    },
                }
                upsert_ordinal = BIGQUERY_SEQUENCE_ORDINAL_SECOND;
            }
        },
    }
    let ghost before = bigquery_row_views(rows@);
    let key = bigquery_sequence_key(sequence_key, upsert_ordinal);
    let upsert = bigquery_upsert_row(new_table_row, key);
    rows.push(upsert);
    proof {
        assert(bigquery_row_views(rows@) =~= before.push(upsert@));
        if before.len() == 0 {
            assert(bigquery_row_views(rows@) =~= seq![upsert@]);
        } else {
            assert(bigquery_row_views(rows@) =~= seq![before[0], upsert@]);
        }
    }
    Ok(rows)
}

/// A key image and a full row that agree on the key give the same delete.
pub proof fn law_key_image_and_full_row_agree(
    columns: Seq<ColumnSchema>,
    keys: Seq<Cell>,
    values: Seq<Cell>,
)
    requires
        forall|i: int|
            0 <= i < columns.len() && (#[trigger] columns[i]).is_key() ==> keys[key_count(
                columns.take(i),
            ) as int] == values[i],
    ensures
        image_key_cells(columns, keys) == full_key_cells(columns, values),
    decreases columns.len(),
{
    if columns.len() > 0 {
        let rest = columns.drop_last();
        let last = columns.len() - 1;
        assert(columns.take(last) =~= rest);
        assert(columns[last] == columns.last());
        assert forall|i: int| 0 <= i < rest.len() && (
        #[trigger] rest[i]).is_key() implies keys[key_count(rest.take(i)) as int]
            == values[i] by {
            assert(rest[i] == columns[i]);
            assert(rest.take(i) =~= columns.take(i));
        }
        law_key_image_and_full_row_agree(rest, keys, values);
    }
}

/// A key column's tag is its place in the table, and the tags of a delete's key cells rise.
pub proof fn law_delete_names_exactly_the_key(columns: Seq<ColumnSchema>, values: Seq<Cell>)
    ensures
        full_key_cells(columns, values).len() == key_count(columns),
        forall|i: int|
            0 <= i < columns.len() && (#[trigger] columns[i]).is_key() ==> full_key_cells(
                columns,
                values,
            ).contains((i + 1, values[i]@)),
        forall|k: int|
            0 <= k < full_key_cells(columns, values).len() ==> {
                let cell = #[trigger] full_key_cells(columns, values)[k];
                1 <= cell.0 <= columns.len() && columns[cell.0 - 1].is_key() && cell.1
                    == values[cell.0 - 1]@
            },
        forall|j: int, k: int|
            0 <= j < k < full_key_cells(columns, values).len() ==> (#[trigger] full_key_cells(
                columns,
                values,
            )[j]).0 < (#[trigger] full_key_cells(columns, values)[k]).0,
    decreases columns.len(),
{
    if columns.len() > 0 {
        let rest = columns.drop_last();
        law_delete_names_exactly_the_key(rest, values);
        let head = full_key_cells(rest, values);
        let all = full_key_cells(columns, values);
        assert forall|i: int| 0 <= i < columns.len() && (
        #[trigger] columns[i]).is_key() implies all.contains((i + 1, values[i]@)) by {
            if i < rest.len() {
                assert(rest[i] == columns[i]);
                assert(head.contains((i + 1, values[i]@)));
                let k = choose|k: int| 0 <= k < head.len() && head[k] == (i + 1, values[i]@);
                assert(all[k] == (i + 1, values[i]@));
            } else {
                assert(all[head.len() as int] == (i + 1, values[i]@));
            }
        }
        assert forall|k: int| 0 <= k < all.len() implies {
            let cell = #[trigger] all[k];
            1 <= cell.0 <= columns.len() && columns[cell.0 - 1].is_key() && cell.1
                == values[cell.0 - 1]@
        } by {
            if k < head.len() {
                assert(all[k] == head[k]);
                assert(rest[head[k].0 - 1] == columns[head[k].0 - 1]);
            }
        }
        assert forall|j: int, k: int| 0 <= j < k < all.len() implies (#[trigger] all[j]).0 < (
        #[trigger] all[k]).0 by {
            assert(all[j] == head[j]);
            if k < head.len() {
                assert(all[k] == head[k]);
            }
        }
    }
}

/// An upsert numbers the new values from one; behind them stand the word UPSERT and the ordering key.
pub proof fn law_upserts_carry_the_whole_row(values: Seq<CellModel>, sequence: Seq<char>)
    ensures
        ({
            let row = upsert_row(values, sequence);
            let n = values.len() as int;
            &&& row.len() == n + 2
            &&& forall|i: int| 0 <= i < n ==> #[trigger] row[i] == (i + 1, values[i])
            &&& row[n] == (n + 1, CellModel::Text("UPSERT"@))
            &&& row[n + 1] == (n + 2, CellModel::Text(sequence))
        }),
{
}

proof fn lemma_key_cells(
    columns: Seq<ColumnSchema>,
    keys: Seq<Cell>,
    values: Seq<Cell>,
    places: Seq<int>,
    n: int,
    k: int,
)
    requires
        are_key_places(columns, places),
        0 <= n <= columns.len(),
        0 <= k <= places.len(),
        k > 0 ==> places[k - 1] < n,
        k < places.len() ==> places[k] >= n,
    ensures
        image_key_cells(columns.take(n), keys) == Seq::new(
            k as nat,
            |j: int| (places[j] + 1, keys[j]@),
        ),
        full_key_cells(columns.take(n), values) == Seq::new(
            k as nat,
            |j: int| (places[j] + 1, values[places[j]]@),
        ),
    decreases n,
{
    let front = columns.take(n);
    if n == 0 {
        if k > 0 {
            assert(places[k - 1] >= 0);
        }
        assert(image_key_cells(front, keys) =~= Seq::new(
            k as nat,
            |j: int| (places[j] + 1, keys[j]@),
        ));
        assert(full_key_cells(front, values) =~= Seq::new(
            k as nat,
            |j: int| (places[j] + 1, values[places[j]]@),
        ));
    } else {
        assert(front.drop_last() =~= columns.take(n - 1));
        assert(front.last() == columns[n - 1]);
        if columns[n - 1].primary_key_ordinal_position is Some {
            assert(places.contains(n - 1));
            let j = choose|j: int| 0 <= j < places.len() && places[j] == n - 1;
            assert(j < k) by {
                if j >= k {
                    assert(places[k] >= n);
                    if k < j {
                        assert(places[k] < places[j]);
                    }
                }
            }
            assert(j == k - 1) by {
                if j < k - 1 {
                    assert(places[j] < places[k - 1]);
                }
            }
            if k > 1 {
                assert(places[k - 2] < places[k - 1]);
            }
            lemma_key_cells(columns, keys, values, places, n - 1, k - 1);
            law_key_columns_are_counted(columns, places, n - 1, k - 1);
        } else {
            if k > 0 {
                assert(columns[places[k - 1]].primary_key_ordinal_position is Some);
            }
            lemma_key_cells(columns, keys, values, places, n - 1, k);
        }
        assert(image_key_cells(front, keys) =~= Seq::new(
            k as nat,
            |j: int| (places[j] + 1, keys[j]@),
        ));
        assert(full_key_cells(front, values) =~= Seq::new(
            k as nat,
            |j: int| (places[j] + 1, values[places[j]]@),
        ));
    }
}

/// A delete carries, for every key column and no other, the column's number and its old value, then
/// the word DELETE and the ordering key. A key image gives its `k`-th value to the `k`-th key column;
/// a full row gives the value in the column's own place.
pub proof fn law_deletes_carry_the_key(
    schema: ReplicatedTableSchema,
    row: TableRow,
    sequence: Seq<char>,
    places: Seq<int>,
)
    requires
        are_key_places(schema.columns@, places),
    ensures
        row.values@.len() == places.len() && schema.identity_matches_primary_key ==> (delete_row(
            schema,
            OldTableRow::Key(row),
            sequence,
        ) matches Ok(d) && {
            let n = schema.columns@.len() as int;
            let p = places.len() as int;
            &&& d.len() == p + 2
            &&& forall|k: int|
                0 <= k < p ==> #[trigger] d[k] == (places[k] + 1, row.values@[k]@)
            &&& d[p] == (n + 1, CellModel::Text("DELETE"@))
            &&& d[p + 1] == (n + 2, CellModel::Text(sequence))
        }),
        row.values@.len() == schema.columns@.len() ==> (delete_row(
            schema,
            OldTableRow::Full(row),
            sequence,
        ) matches Ok(d) && {
            let n = schema.columns@.len() as int;
            let p = places.len() as int;
            &&& d.len() == p + 2
            &&& forall|k: int|
                0 <= k < p ==> #[trigger] d[k] == (places[k] + 1, row.values@[places[k]]@)
            &&& d[p] == (n + 1, CellModel::Text("DELETE"@))
            &&& d[p + 1] == (n + 2, CellModel::Text(sequence))
        }),
{
    let n = schema.columns@.len() as int;
    assert(schema.columns@.take(n) =~= schema.columns@);
    law_key_columns_are_all_counted(schema, places);
    lemma_key_cells(schema.columns@, row.values@, row.values@, places, n, places.len() as int);
}

/// A delete is refused if and only if the old row has another number of values than it should: a full
/// row one per column, a key image one per key column. A key image is refused as well where the
/// source's identity is not the primary key.
pub proof fn law_misshapen_old_rows_are_refused(
    schema: ReplicatedTableSchema,
    row: TableRow,
    sequence: Seq<char>,
    places: Seq<int>,
)
    requires
        are_key_places(schema.columns@, places),
    ensures
        delete_row(schema, OldTableRow::Full(row), sequence) is Err <==> row.values@.len()
            != schema.columns@.len(),
        delete_row(schema, OldTableRow::Key(row), sequence) is Err <==> !(
        schema.identity_matches_primary_key && row.values@.len() == places.len()),
        delete_row(schema, OldTableRow::Key(row), sequence) matches Err(e) ==> e.kind
            == ErrorKind::InvalidState,
        delete_row(schema, OldTableRow::Full(row), sequence) matches Err(e) ==> e.kind
            == ErrorKind::InvalidState,
{
    law_key_columns_are_all_counted(schema, places);
}

/// Whether an update changes the key is decided by every key column, whichever its place: a full old
/// row is compared in the column's place, a key image by its `k`-th value with the `k`-th key column.
/// The key is unchanged if and only if all of them are equal.
pub proof fn law_every_key_column_is_compared(
    schema: ReplicatedTableSchema,
    old_row: TableRow,
    new_row: TableRow,
    places: Seq<int>,
)
    requires
        are_key_places(schema.columns@, places),
        new_row.values@.len() == schema.columns@.len(),
    ensures
        old_row.values@.len() == places.len() && schema.identity_matches_primary_key ==> (
        key_changed(schema, OldTableRow::Key(old_row), new_row) matches Ok(changed) && (!changed
            <==> forall|k: int|
            0 <= k < places.len() ==> (#[trigger] old_row.values@[k]).same(
                &new_row.values@[places[k]],
            ))),
        old_row.values@.len() == schema.columns@.len() ==> (key_changed(
            schema,
            OldTableRow::Full(old_row),
            new_row,
        ) matches Ok(changed) && (!changed <==> forall|k: int|
            0 <= k < places.len() ==> old_row.values@[#[trigger] places[k]].same(
                &new_row.values@[places[k]],
            ))),
{
    let columns = schema.columns@;
    law_key_columns_are_all_counted(schema, places);
    if old_row.values@.len() == places.len() && schema.identity_matches_primary_key {
        let changed = key_image_differs(columns, old_row.values@, new_row.values@);
        if changed {
            let i = choose|i: int|
                0 <= i < columns.len() && (#[trigger] columns[i]).is_key() && !old_row.values@[
                key_count(columns.take(i)) as int].same(&new_row.values@[i]);
            assert(places.contains(i));
            let k = choose|k: int| 0 <= k < places.len() && places[k] == i;
            assert(key_count(columns.take(places[k])) == k);
            assert(!old_row.values@[k].same(&new_row.values@[places[k]]));
        } else {
            assert forall|k: int| 0 <= k < places.len() implies (#[trigger] old_row.values@[k]).same(
                &new_row.values@[places[k]],
            ) by {
                let i = places[k];
                assert(columns[i].is_key());
                assert(key_count(columns.take(places[k])) == k);
            }
        }
    }
    if old_row.values@.len() == columns.len() {
        if full_key_differs(columns, old_row.values@, new_row.values@) {
            let i = choose|i: int|
                0 <= i < columns.len() && (#[trigger] columns[i]).is_key()
                    && !old_row.values@[i].same(&new_row.values@[i]);
            assert(places.contains(i));
            let k = choose|k: int| 0 <= k < places.len() && places[k] == i;
            assert(!old_row.values@[places[k]].same(&new_row.values@[places[k]]));
        } else {
            assert forall|k: int| 0 <= k < places.len() implies old_row.values@[
            #[trigger] places[k]].same(&new_row.values@[places[k]]) by {
                assert(columns[places[k]].is_key());
            }
        }
    }
}

/// A key image and a full old row that agree on the key say the same of an update: the same answer to
/// whether the key changes, and the same rows.
pub proof fn law_key_image_and_full_row_update_alike(
    schema: ReplicatedTableSchema,
    image: TableRow,
    full: TableRow,
    new_row: TableRow,
    key: EventSequenceKey,
    places: Seq<int>,
)
    requires
        are_key_places(schema.columns@, places),
        schema.identity_matches_primary_key,
        image.values@.len() == places.len(),
        full.values@.len() == schema.columns@.len(),
        new_row.values@.len() == schema.columns@.len(),
        forall|k: int|
            0 <= k < places.len() ==> #[trigger] image.values@[k] == full.values@[places[k]],
    ensures
        key_changed(schema, OldTableRow::Key(image), new_row) == key_changed(
            schema,
            OldTableRow::Full(full),
            new_row,
        ),
        update_rows(schema, new_row, Some(OldTableRow::Key(image)), key) == update_rows(
            schema,
            new_row,
            Some(OldTableRow::Full(full)),
            key,
        ),
{
    law_every_key_column_is_compared(schema, image, new_row, places);
    law_every_key_column_is_compared(schema, full, new_row, places);
    let n = schema.columns@.len() as int;
    let p = places.len() as int;
    assert(schema.columns@.take(n) =~= schema.columns@);
    law_key_columns_are_all_counted(schema, places);
    lemma_key_cells(schema.columns@, image.values@, full.values@, places, n, p);
    assert(image_key_cells(schema.columns@, image.values@) =~= full_key_cells(
        schema.columns@,
        full.values@,
    )) by {
        assert forall|k: int| 0 <= k < p implies image.values@[k]@ == full.values@[places[k]]@ by {
            assert(image.values@[k] == full.values@[places[k]]);
        }
    }
    let a = key_changed(schema, OldTableRow::Key(image), new_row);
    let b = key_changed(schema, OldTableRow::Full(full), new_row);
    if a->Ok_0 {
        let k = choose|k: int|
            0 <= k < places.len() && !(#[trigger] image.values@[k]).same(
                &new_row.values@[places[k]],
            );
        assert(!full.values@[places[k]].same(&new_row.values@[places[k]]));
    } else {
        assert forall|k: int| 0 <= k < places.len() implies full.values@[#[trigger] places[k]].same(
            &new_row.values@[places[k]],
        ) by {
            assert(image.values@[k].same(&new_row.values@[places[k]]));
        }
    }
}

/// An update of which no key value changes is one upsert of the new row. If any key value changes,
/// whichever its place, the old key is deleted first and the new row upserted behind it, and BigQuery
/// orders the two in that way. An update without an old row is one upsert.
pub proof fn law_update_deletes_a_changed_key(
    schema: ReplicatedTableSchema,
    image: TableRow,
    new_row: TableRow,
    key: EventSequenceKey,
    places: Seq<int>,
)
    requires
        are_key_places(schema.columns@, places),
        schema.identity_matches_primary_key,
        image.values@.len() == places.len(),
        new_row.values@.len() == schema.columns@.len(),
    ensures
        update_rows(schema, new_row, Some(OldTableRow::Key(image)), key) matches Ok(rows) && {
            let n = schema.columns@.len() as int;
            let p = places.len() as int;
            let upsert = rows.last();
            &&& rows.len() == 1 <==> forall|k: int|
                0 <= k < p ==> (#[trigger] image.values@[k]).same(&new_row.values@[places[k]])
            &&& rows.len() == 1 || rows.len() == 2
            &&& upsert.len() == n + 2
            &&& forall|i: int| 0 <= i < n ==> #[trigger] upsert[i] == (i + 1, new_row.values@[i]@)
            &&& upsert[n] == (n + 1, CellModel::Text("UPSERT"@))
            &&& rows.len() == 1 ==> upsert[n + 1] == (
                n + 2,
                CellModel::Text(sequence_key_text(key, 0)),
            )
            &&& rows.len() == 2 ==> {
                let deleted = rows[0];
                &&& deleted.len() == p + 2
                &&& forall|k: int|
                    0 <= k < p ==> #[trigger] deleted[k] == (places[k] + 1, image.values@[k]@)
                &&& deleted[p] == (n + 1, CellModel::Text("DELETE"@))
                &&& deleted[p + 1].0 == n + 2
                &&& deleted[p + 1].1 is Text
                &&& upsert[n + 1].0 == n + 2
                &&& upsert[n + 1].1 is Text
                &&& sorts_before(deleted[p + 1].1->Text_0, upsert[n + 1].1->Text_0)
            }
        },
        update_rows(schema, new_row, None, key) == Ok::<Seq<Seq<(int, CellModel)>>, ErrorModel>(
            seq![upsert_row(new_row@, sequence_key_text(key, 0))],
        ),
{
    law_every_key_column_is_compared(schema, image, new_row, places);
    law_deletes_carry_the_key(schema, image, sequence_key_text(key, 0), places);
    law_upserts_carry_the_whole_row(new_row@, sequence_key_text(key, 0));
    law_upserts_carry_the_whole_row(new_row@, sequence_key_text(key, 1));
    law_internal_ordinal_orders_rows(key, 0, 1);
}

/// An update is refused if and only if the new row, or a full old row, has not one value per column,
/// or a key image has not one value per key column or is not of the primary key.
pub proof fn law_misshapen_updates_are_refused(
    schema: ReplicatedTableSchema,
    old_row: TableRow,
    new_row: TableRow,
    key: EventSequenceKey,
    places: Seq<int>,
)
    requires
        are_key_places(schema.columns@, places),
    ensures
        update_rows(schema, new_row, Some(OldTableRow::Full(old_row)), key) is Err <==> !(
        new_row.values@.len() == schema.columns@.len() && old_row.values@.len()
            == schema.columns@.len()),
        update_rows(schema, new_row, Some(OldTableRow::Key(old_row)), key) is Err <==> !(
        new_row.values@.len() == schema.columns@.len() && old_row.values@.len() == places.len()
            && schema.identity_matches_primary_key),
{
    law_key_columns_are_all_counted(schema, places);
}

/// A table is refused if and only if it has no replicated key column, or a key column is not
/// replicated, or the source publishes neither the key nor the whole old row.
pub proof fn law_refused_tables_have_no_usable_key(
    schema: ReplicatedTableSchema,
    places: Seq<int>,
)
    requires
        are_key_places(schema.columns@, places),
    ensures
        identity_error(schema) is None <==> (places.len() > 0 && schema.omitted_primary_key@.len()
            == 0 && (schema.identity_type == IdentityType::PrimaryKey || schema.identity_type
            == IdentityType::Full)),
        identity_error(schema) matches Some(e) ==> e.kind == ErrorKind::SourceSchemaError,
        places.len() == 0 ==> identity_error(schema) is Some
            && identity_error(schema)->Some_0.description
            == "BigQuery requires a source primary key"@,
{
    law_key_columns_are_all_counted(schema, places);
}

/// The ordering key of a change row is the text of its event's position, a slash, and the row's
/// ordinal as sixteen hexadecimal digits. It orders the rows of a later event behind those of an
/// earlier one, whatever their ordinals.
pub proof fn law_later_events_come_behind(a: EventSequenceKey, b: EventSequenceKey, i: u64, j: u64)
    ensures
        sequence_key_text(a, i as nat).len() == 50,
        sequence_key_text(a, i as nat).take(33) == a.text(),
        sequence_key_text(a, i as nat)[33] == '/',
        positional(sequence_key_text(a, i as nat).skip(34), 16) == i,
        key_before(a, b) ==> sorts_before(
            sequence_key_text(a, i as nat),
            sequence_key_text(b, j as nat),
        ),
{
    reveal_with_fuel(hex_limit, 17);
    reveal_strlit("/");
    law_key_text_tells_the_position(a);
    law_hex_stands_for_its_number(i as nat, 16);
    let s = sequence_key_text(a, i as nat);
    assert(s.take(33) =~= a.text());
    assert(s.skip(34) =~= hex(i as nat, 16));
    if key_before(a, b) {
        law_key_texts_keep_order(a, b);
        lemma_sorts_before_back(
            a.text(),
            b.text(),
            "/"@ + hex(i as nat, 16),
            "/"@ + hex(j as nat, 16),
        );
        assert(s =~= a.text() + ("/"@ + hex(i as nat, 16)));
        assert(sequence_key_text(b, j as nat) =~= b.text() + ("/"@ + hex(j as nat, 16)));
    }
}

/// Tagged cells are those of each, in order, and rows as well.
pub proof fn law_rows_are_viewed_in_order(cells: Seq<(usize, Cell)>, rows: Seq<BigQueryTableRow>)
    ensures
        tagged_models(cells).len() == cells.len(),
        forall|i: int|
            0 <= i < cells.len() ==> #[trigger] tagged_models(cells)[i] == (
                cells[i].0 as int,
                cells[i].1@,
            ),
        bigquery_row_views(rows).len() == rows.len(),
        forall|i: int| 0 <= i < rows.len() ==> #[trigger] bigquery_row_views(rows)[i] == rows[i]@,
{
}

/// Whatever is returned for a fitting key image, an update is one row only if every key value is equal;
/// if any key value differs, whichever its place, it is two.
pub proof fn law_returned_rows_follow_the_key(
    schema: &ReplicatedTableSchema,
    new_row: TableRow,
    image: TableRow,
    key: EventSequenceKey,
    places: Seq<int>,
    r: EtlResult<Vec<BigQueryTableRow>>,
)
    requires
        call_ensures(
            bigquery_update_rows,
            (schema, new_row, Some(OldTableRow::Key(image)), key),
            r,
        ),
        are_key_places(schema.columns@, places),
        schema.identity_matches_primary_key,
        image.values@.len() == places.len(),
        new_row.values@.len() == schema.columns@.len(),
    ensures
        r matches Ok(rows) && {
            let n = schema.columns@.len() as int;
            let p = places.len() as int;
            &&& rows@.len() == 1 <==> forall|k: int|
                0 <= k < p ==> (#[trigger] image.values@[k]).same(&new_row.values@[places[k]])
            &&& rows@.len() == 1 || rows@.len() == 2
            &&& rows@.len() == 2 ==> rows@[0]@[p] == (n + 1, CellModel::Text("DELETE"@))
            &&& rows@.last()@[n] == (n + 1, CellModel::Text("UPSERT"@))
        },
{
    law_update_deletes_a_changed_key(*schema, image, new_row, key, places);
    let model = update_rows(*schema, new_row, Some(OldTableRow::Key(image)), key);
    match r {
        Ok(rows) => {
            assert(model->Ok_0 == bigquery_row_views(rows@));
            assert(bigquery_row_views(rows@).len() == rows@.len());
            assert(bigquery_row_views(rows@)[0] == rows@[0]@);
            assert(bigquery_row_views(rows@)[rows@.len() - 1] == rows@[rows@.len() - 1]@);
        },
        Err(_) => {},
    }
}

/// Whatever is returned of a key image, the key is unchanged only if every key value is equal.
pub proof fn law_returned_answer_compares_every_key_column(
    schema: &ReplicatedTableSchema,
    image: TableRow,
    new_row: &TableRow,
    places: Seq<int>,
    r: EtlResult<bool>,
)
    requires
        call_ensures(
            bigquery_primary_key_changed,
            (schema, &OldTableRow::Key(image), new_row),
            r,
        ),
        are_key_places(schema.columns@, places),
        schema.identity_matches_primary_key,
        image.values@.len() == places.len(),
        new_row.values@.len() == schema.columns@.len(),
    ensures
        r matches Ok(changed) && (!changed <==> forall|k: int|
            0 <= k < places.len() ==> (#[trigger] image.values@[k]).same(
                &new_row.values@[places[k]],
            )),
{
    law_every_key_column_is_compared(*schema, image, *new_row, places);
}

/// Plain rows are numbered from one, in column order.
pub proof fn law_plain_rows_are_numbered(values: Seq<CellModel>)
    ensures
        numbered(values).len() == values.len(),
        forall|i: int| 0 <= i < values.len() ==> #[trigger] numbered(values)[i] == (i + 1, values[i]),
{
}

/// Rows that do not fit their table are refused as invalid, with the expected and the found number of
/// values.
pub proof fn law_misshapen_rows_are_described(
    schema: ReplicatedTableSchema,
    description: Seq<char>,
    got: nat,
)
    ensures
        row_shape_error(schema, got).kind == ErrorKind::InvalidState,
        row_shape_error(schema, got).description
            == "BigQuery full row image does not match the replicated schema"@,
        row_shape_error(schema, got).detail == Some(
            "Expected "@ + decimal(schema.columns@.len()) + " values for table '"@
                + schema.name.text() + "', got "@ + decimal(got),
        ),
        key_shape_error(schema, description, got).kind == ErrorKind::InvalidState,
        key_shape_error(schema, description, got).description == description,
        key_shape_error(schema, description, got).detail == Some(
            "Expected "@ + decimal(schema.keys()) + " key values for table '"@
                + schema.name.text() + "', got "@ + decimal(got),
        ),
        key_identity_error(schema).kind == ErrorKind::InvalidState,
        key_identity_error(schema).description
            == "BigQuery key image does not match the source primary key"@,
{
}

} // verus!
