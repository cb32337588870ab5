//! Column definitions.
use vstd::prelude::*;

use crate::schema::{is_array_type, ColumnSchema, Type};
use crate::snowflake::error::{Error, SnowflakeResult};
use crate::text::{cat2, cat3, double_char, doubled, join, joined, str_eq, views};

verus! {

/// Column that holds the operation of a change.
pub const CDC_OPERATION_COLUMN: &'static str = "_cdc_operation";

/// Column that holds the position of a change.
pub const CDC_SEQUENCE_COLUMN: &'static str = "_cdc_sequence_number";

/// A quoted identifier.
pub open spec fn quoted(name: Seq<char>) -> Seq<char> {
    "\""@ + doubled(name, '"') + "\""@
}

/// Double-quote a SQL identifier, escaping internal double-quotes.
pub fn quote_identifier(name: &str) -> (r: String)
    ensures
        r@ == quoted(name@),
{
    let inner = double_char(name, '"');
    cat3("\"", inner.as_str(), "\"")
}

/// Quoting keeps identifiers apart.
pub proof fn law_quoting_is_injective(a: Seq<char>, b: Seq<char>)
    requires
        quoted(a) == quoted(b),
    ensures
        a == b,
{
    reveal_strlit("\"");
    let (x, y) = (doubled(a, '"'), doubled(b, '"'));
    assert(quoted(a).subrange(1, quoted(a).len() - 1) =~= x);
    assert(quoted(b).subrange(1, quoted(b).len() - 1) =~= y);
    crate::table_name::law_doubling_is_injective(a, b, '"');
}

/// The Snowflake type of a Postgres type.
pub open spec fn snowflake_type(typ: Type) -> Seq<char> {
    if typ.array() {
        "ARRAY"@
    } else {
        match typ {
            Type::BOOL => "BOOLEAN"@,
            Type::INT2 => "SMALLINT"@,
            Type::INT4 => "INTEGER"@,
            Type::INT8 | Type::OID => "BIGINT"@,
            Type::FLOAT4 => "FLOAT"@,
            Type::FLOAT8 => "DOUBLE"@,
            Type::DATE => "DATE"@,
            Type::TIME => "TIME"@,
            Type::TIMESTAMP => "TIMESTAMP_NTZ"@,
            Type::TIMESTAMPTZ => "TIMESTAMP_TZ"@,
            Type::JSON | Type::JSONB => "VARIANT"@,
            _ => "VARCHAR"@,
        }
    }
}

/// Returns the Snowflake DDL type string for a given Postgres type.
///
/// Array types map to ARRAY (Snowflake's native array type, a subtype of
/// VARIANT). Scalar types follow the closest Snowflake equivalent.
pub fn snowflake_type_of(typ: &Type) -> (r: &'static str)
    ensures
        r@ == snowflake_type(*typ),
{
    if is_array_type(typ) {
        return "ARRAY";
    }
    match *typ {
        Type::BOOL => "BOOLEAN",
        Type::CHAR | Type::BPCHAR | Type::VARCHAR | Type::NAME | Type::TEXT => "VARCHAR",
        Type::INT2 => "SMALLINT",
        Type::INT4 => "INTEGER",
        Type::INT8 => "BIGINT",
        Type::FLOAT4 => "FLOAT",
        Type::FLOAT8 => "DOUBLE",
        Type::NUMERIC => "VARCHAR",
        Type::DATE => "DATE",
        Type::TIME => "TIME",
        Type::TIMESTAMP => "TIMESTAMP_NTZ",
        Type::TIMESTAMPTZ => "TIMESTAMP_TZ",
        Type::UUID => "VARCHAR",
        Type::JSON | Type::JSONB => "VARIANT",
        Type::OID => "BIGINT",
        Type::BYTEA => "VARCHAR",
        _ => "VARCHAR",
    }
}

/// Whether a column has a reserved name.
pub open spec fn reserved(column: ColumnSchema) -> bool {
    column.name@ == CDC_OPERATION_COLUMN@ || column.name@ == CDC_SEQUENCE_COLUMN@
}

/// Whether column `i` is the first with a reserved name.
pub open spec fn first_reserved(columns: Seq<ColumnSchema>, i: int) -> bool {
    &&& 0 <= i < columns.len()
    &&& reserved(columns[i])
    &&& forall|j: int| 0 <= j < i ==> !reserved(#[trigger] columns[j])
}

/// Whether an error says that a column has a reserved name.
pub open spec fn collision(e: Error, name: Seq<char>) -> bool {
    e matches Error::Config(text) && text@ == "source column '"@ + name
        + "' collides with reserved CDC column name"@
}

/// Checks that no source column collides with the reserved CDC column names.
pub fn validate_no_cdc_collisions(columns: &[ColumnSchema]) -> (r: SnowflakeResult<()>)
    ensures
        r is Ok <==> forall|i: int| 0 <= i < columns@.len() ==> !reserved(#[trigger] columns@[i]),
        r matches Err(e) ==> exists|i: int| #[trigger]
            first_reserved(columns@, i) && collision(e, columns@[i].name@),
{
    let n: usize = columns.len();
    let mut i: usize = 0;
    while i < n
        invariant
            i <= n,
            n == columns@.len(),
            forall|j: int| 0 <= j < i ==> !reserved(#[trigger] columns@[j]),
        decreases n - i,
    {
        let name = columns[i].name.as_str();
        if str_eq(name, CDC_OPERATION_COLUMN) || str_eq(name, CDC_SEQUENCE_COLUMN) {
            proof {
                assert(reserved(columns@[i as int]));
                assert(first_reserved(columns@, i as int));
            }
            return Err(
                Error::Config(
                    cat3("source column '", name, "' collides with reserved CDC column name"),
                ),
            );
        }
        i = i + 1;
    }
    Ok(())
}

/// Definition of a source column.
pub open spec fn column_def(column: ColumnSchema) -> Seq<char> {
    quoted(column.name@) + " "@ + snowflake_type(column.typ)
}

/// Definitions of all columns: those of the source, then the two of the change.
pub open spec fn all_column_defs(columns: Seq<ColumnSchema>) -> Seq<Seq<char>> {
    Seq::new(columns.len(), |i: int| column_def(columns[i])).push(
        quoted(CDC_OPERATION_COLUMN@) + " VARCHAR NOT NULL"@,
    ).push(quoted(CDC_SEQUENCE_COLUMN@) + " VARCHAR NOT NULL"@)
}

/// Builds the column definitions string.
///
/// Each source column is rendered as `"name" TYPE` + two CDC columns are
/// appended at the end.
pub fn build_column_defs(columns: &[ColumnSchema]) -> (r: String)
    ensures
        r@ == joined(all_column_defs(columns@), ", "@),
{
    let mut parts: Vec<String> = Vec::new();
    let n: usize = columns.len();
    let mut i: usize = 0;
    while i < n
        invariant
            i <= n,
            n == columns@.len(),
            parts@.len() == i,
            forall|j: int| 0 <= j < i ==> (#[trigger] parts@[j])@ == column_def(columns@[j]),
        decreases n - i,
    {
        let name = quote_identifier(columns[i].name.as_str());
        parts.push(cat3(name.as_str(), " ", snowflake_type_of(&columns[i].typ)));
        i = i + 1;
    }
    let operation = quote_identifier(CDC_OPERATION_COLUMN);
    parts.push(cat2(operation.as_str(), " VARCHAR NOT NULL"));
    let sequence = quote_identifier(CDC_SEQUENCE_COLUMN);
    parts.push(cat2(sequence.as_str(), " VARCHAR NOT NULL"));
    proof {
        assert(views(parts@) =~= all_column_defs(columns@));
    }
    join(parts.as_slice(), ", ")
}

/// The Snowflake type of every scalar type; every array type is an array.
pub proof fn law_types_have_these_names()
    ensures
        snowflake_type(Type::BOOL) == "BOOLEAN"@,
        snowflake_type(Type::INT2) == "SMALLINT"@,
        snowflake_type(Type::INT4) == "INTEGER"@,
        snowflake_type(Type::INT8) == "BIGINT"@,
        snowflake_type(Type::OID) == "BIGINT"@,
        snowflake_type(Type::FLOAT4) == "FLOAT"@,
        snowflake_type(Type::FLOAT8) == "DOUBLE"@,
        snowflake_type(Type::DATE) == "DATE"@,
        snowflake_type(Type::TIME) == "TIME"@,
        snowflake_type(Type::TIMESTAMP) == "TIMESTAMP_NTZ"@,
        snowflake_type(Type::TIMESTAMPTZ) == "TIMESTAMP_TZ"@,
        snowflake_type(Type::JSON) == "VARIANT"@,
        snowflake_type(Type::JSONB) == "VARIANT"@,
        snowflake_type(Type::CHAR) == "VARCHAR"@,
        snowflake_type(Type::BPCHAR) == "VARCHAR"@,
        snowflake_type(Type::VARCHAR) == "VARCHAR"@,
        snowflake_type(Type::NAME) == "VARCHAR"@,
        snowflake_type(Type::TEXT) == "VARCHAR"@,
        snowflake_type(Type::NUMERIC) == "VARCHAR"@,
        snowflake_type(Type::MONEY) == "VARCHAR"@,
        snowflake_type(Type::UUID) == "VARCHAR"@,
        snowflake_type(Type::BYTEA) == "VARCHAR"@,
        snowflake_type(Type::INTERVAL) == "VARCHAR"@,
        snowflake_type(Type::INET) == "VARCHAR"@,
        snowflake_type(Type::BIT) == "VARCHAR"@,
        forall|oid: u32|
            #[trigger] snowflake_type((Type::Other { oid, array: false })) == "VARCHAR"@,
        forall|typ: Type| typ.array() ==> #[trigger] snowflake_type(typ) == "ARRAY"@,
{
}

/// Two column names are reserved, and no other.
pub proof fn law_two_names_are_reserved(column: ColumnSchema)
    ensures
        reserved(column) <==> column.name@ == "_cdc_operation"@ || column.name@
            == "_cdc_sequence_number"@,
{
}

/// A table's columns are those of the source in order, each by its quoted name and its type, then the
/// two of the change, which are never NULL.
pub proof fn law_columns_have_these_definitions(columns: Seq<ColumnSchema>)
    ensures
        ({
            let defs = all_column_defs(columns);
            let n = columns.len() as int;
            &&& defs.len() == n + 2
            &&& forall|i: int|
                0 <= i < n ==> #[trigger] defs[i] == quoted(columns[i].name@) + " "@
                    + snowflake_type(columns[i].typ)
            &&& defs[n] == quoted("_cdc_operation"@) + " VARCHAR NOT NULL"@
            &&& defs[n + 1] == quoted("_cdc_sequence_number"@) + " VARCHAR NOT NULL"@
        }),
{
}

/// A quoted identifier stands between quotation marks, and every quotation mark in it is doubled.
pub proof fn law_quoting_doubles_quotation_marks(name: Seq<char>, c: char)
    ensures
        quoted(Seq::empty()) == seq!['"', '"'],
        quoted(name).first() == '"',
        quoted(name).last() == '"',
        c != '"' ==> quoted(name.push(c)) == quoted(name).drop_last() + seq![c, '"'],
        quoted(name.push('"')) == quoted(name).drop_last() + seq!['"', '"', '"'],
{
    reveal_strlit("\"");
    assert(name.push(c).drop_last() =~= name);
    assert(name.push('"').drop_last() =~= name);
    assert(quoted(Seq::empty()) =~= seq!['"', '"']);
    assert(quoted(name).drop_last() =~= seq!['"'] + doubled(name, '"'));
    if c != '"' {
        assert(quoted(name.push(c)) =~= quoted(name).drop_last() + seq![c, '"']);
    }
    assert(quoted(name.push('"')) =~= quoted(name).drop_last() + seq!['"', '"', '"']);
}

/// The first column with a reserved name is refused by its name.
pub proof fn law_reserved_names_are_refused(
    columns: Seq<ColumnSchema>,
    i: int,
    j: int,
    e: Error,
)
    requires
        first_reserved(columns, i),
        collision(e, columns[i].name@),
    ensures
        0 <= i < columns.len(),
        reserved(columns[i]),
        0 <= j < i ==> !reserved(columns[j]),
        e matches Error::Config(text) && text@ == "source column '"@ + columns[i].name@
            + "' collides with reserved CDC column name"@,
{
}

} // verus!
