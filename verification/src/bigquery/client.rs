//! Statements and descriptors for BigQuery tables.
use vstd::prelude::*;

use crate::bigquery::append::{
    bq_error_to_etl_error, failure_of, says_missing, BigQueryCause, BigQueryError,
};
use crate::bigquery::table_id::{BigQueryDatasetId, BigQueryTableId};
use crate::error::{
    collected, error_of, law_first_error_decides, lemma_collected_error, text_result, ErrorKind,
    ErrorModel, EtlError, EtlResult,
};
use crate::schema::{is_array_type, ColumnSchema, ReplicatedTableSchema, Type};
use crate::text::{
    cat2, cat3, cat4, cat5, cat6, cat7, chars_of, decimal, decimal_of, escaped, join, joined,
    views,
};

verus! {

/// Column that says what is to be done with a change row.
pub const BIGQUERY_CDC_SPECIAL_COLUMN: &'static str = "_CHANGE_TYPE";

/// Column by which changes of one key are ordered.
pub const BIGQUERY_CDC_SEQUENCE_COLUMN: &'static str = "_CHANGE_SEQUENCE_NUMBER";

/// Identifier of a project.
pub type BigQueryProjectId = String;

/// Whether a character is a control character.
pub open spec fn is_control(c: char) -> bool {
    c <= '\u{1f}' || '\u{7f}' <= c <= '\u{9f}'
}

/// The characters that are escaped between backticks.
pub open spec fn quoted_specials() -> Set<char> {
    set!['`', '\\']
}

/// An identifier as it stands between backticks, or why it cannot.
pub open spec fn identifier(s: Seq<char>, context: Seq<char>) -> Result<Seq<char>, ErrorModel> {
    if s.len() == 0 {
        Err(
            error_of(
                ErrorKind::DestinationTableNameInvalid,
                "Invalid BigQuery identifier"@,
                context + " cannot be empty"@,
            ),
        )
    } else if exists|i: int| 0 <= i < s.len() && is_control(#[trigger] s[i]) {
        Err(
            error_of(
                ErrorKind::DestinationTableNameInvalid,
                "Invalid BigQuery identifier"@,
                context + " contains control characters"@,
            ),
        )
    } else {
        Ok(escaped(s, quoted_specials(), '\\'))
    }
}

/// Reads an escaped text back: a backslash stands for the character after it.
pub open spec fn unescaped(s: Seq<char>) -> Seq<char>
    decreases s.len(),
{
    if s.len() == 0 {
        Seq::empty()
    } else if s[0] == '\\' && s.len() >= 2 {
        seq![s[1]] + unescaped(s.skip(2))
    } else {
        seq![s[0]] + unescaped(s.skip(1))
    }
}

/// What stands between backticks reads back as the identifier.
pub proof fn law_identifier_reads_back(s: Seq<char>)
    ensures
        unescaped(escaped(s, quoted_specials(), '\\')) == s,
    decreases s.len(),
{
    reveal_with_fuel(escaped, 2);
    if s.len() > 0 {
        let rest = s.skip(1);
        let one = seq![s[0]];
        assert(s =~= one + rest);
        crate::table_name::lemma_escaped_concat(one, rest, quoted_specials(), '\\');
        assert(one.drop_last() =~= Seq::<char>::empty());
        let e = escaped(s, quoted_specials(), '\\');
        let tail = escaped(rest, quoted_specials(), '\\');
        law_identifier_reads_back(rest);
        if quoted_specials().contains(s[0]) {
            assert(escaped(one, quoted_specials(), '\\') =~= seq!['\\', s[0]]);
            assert(e.skip(2) =~= tail);
        } else {
            assert(escaped(one, quoted_specials(), '\\') =~= one);
            assert(e.skip(1) =~= tail);
        }
        assert(unescaped(e) =~= s);
    } else {
        assert(unescaped(escaped(s, quoted_specials(), '\\')) =~= s);
    }
}

/// The element type's or the scalar type's name.
pub open spec fn base_type_name(typ: Type) -> Seq<char> {
    match typ {
        Type::BOOL | Type::BOOL_ARRAY => "bool"@,
        Type::INT2 | Type::INT4 | Type::INT8 | Type::OID | Type::INT2_ARRAY | Type::INT4_ARRAY
        | Type::INT8_ARRAY | Type::OID_ARRAY => "int64"@,
        Type::FLOAT4 | Type::FLOAT8 | Type::FLOAT4_ARRAY | Type::FLOAT8_ARRAY => "float64"@,
        Type::NUMERIC | Type::NUMERIC_ARRAY => "bignumeric"@,
        Type::DATE | Type::DATE_ARRAY => "date"@,
        Type::TIME | Type::TIME_ARRAY => "time"@,
        Type::TIMESTAMP | Type::TIMESTAMPTZ | Type::TIMESTAMP_ARRAY
        | Type::TIMESTAMPTZ_ARRAY => "timestamp"@,
        Type::JSON | Type::JSONB | Type::JSON_ARRAY | Type::JSONB_ARRAY => "json"@,
        Type::BYTEA | Type::BYTEA_ARRAY => "bytes"@,
        _ => "string"@,
    }
}

/// The BigQuery type of a column.
pub open spec fn bigquery_type(typ: Type) -> Seq<char> {
    if typ.array() {
        "array<"@ + base_type_name(typ) + ">"@
    } else {
        base_type_name(typ)
    }
}

/// A column in a `create table` statement.
pub open spec fn column_text(column: ColumnSchema) -> Result<Seq<char>, ErrorModel> {
    match identifier(column.name@, "BigQuery column name"@) {
        Err(e) => Err(e),
        Ok(name) => Ok(
            "`"@ + name + "` "@ + bigquery_type(column.typ) + if !column.nullable
                && !column.typ.array() {
                " not null"@
            } else {
                ""@
            },
        ),
    }
}

/// Place of a column in the primary key, zero for others.
pub open spec fn ordinal(column: ColumnSchema) -> int {
    match column.primary_key_ordinal_position {
        Some(p) => p as int,
        None => 0,
    }
}

/// `places` with `i` put behind all that do not come after it in the primary key.
pub open spec fn insert_place(columns: Seq<ColumnSchema>, places: Seq<int>, i: int) -> Seq<int>
    decreases places.len(),
{
    if places.len() == 0 || ordinal(columns[places.last()]) <= ordinal(columns[i]) {
        places.push(i)
    } else {
        insert_place(columns, places.drop_last(), i).push(places.last())
    }
}

/// Places of the first `n` columns that are key columns, ordered by their place in the key;
/// columns with the same place keep the order of the table.
pub open spec fn key_places(columns: Seq<ColumnSchema>, n: nat) -> Seq<int>
    decreases n,
{
    if n == 0 {
        Seq::empty()
    } else {
        let before = key_places(columns, (n - 1) as nat);
        if columns[n - 1].is_key() {
            insert_place(columns, before, n - 1)
        } else {
            before
        }
    }
}

/// Whether `places` follow the order of the primary key.
pub open spec fn in_key_order(columns: Seq<ColumnSchema>, places: Seq<int>) -> bool {
    forall|a: int, b: int|
        0 <= a < b < places.len() ==> ordinal(columns[#[trigger] places[a]]) <= ordinal(
            columns[#[trigger] places[b]],
        )
}

proof fn lemma_insert_place(columns: Seq<ColumnSchema>, places: Seq<int>, i: int)
    requires
        in_key_order(columns, places),
    ensures
        insert_place(columns, places, i).len() == places.len() + 1,
        in_key_order(columns, insert_place(columns, places, i)),
        forall|k: int|
            #[trigger] insert_place(columns, places, i).contains(k) <==> places.contains(k) || k
                == i,
    decreases places.len(),
{
    let out = insert_place(columns, places, i);
    if places.len() == 0 || ordinal(columns[places.last()]) <= ordinal(columns[i]) {
        assert forall|k: int| #[trigger] out.contains(k) <==> places.contains(k) || k == i by {
            if places.contains(k) {
                let p = choose|p: int| 0 <= p < places.len() && places[p] == k;
                assert(out[p] == k);
            }
            if k == i {
                assert(out[places.len() as int] == k);
            }
            if out.contains(k) {
                let p = choose|p: int| 0 <= p < out.len() && out[p] == k;
                if p < places.len() {
                    assert(places[p] == k);
                }
            }
        }
        assert forall|a: int, b: int| 0 <= a < b < out.len() implies ordinal(
            columns[#[trigger] out[a]],
        ) <= ordinal(columns[#[trigger] out[b]]) by {
            assert(out[a] == places[a]);
            if b < places.len() {
                assert(out[b] == places[b]);
            } else if a < places.len() - 1 {
                assert(ordinal(columns[places[a]]) <= ordinal(columns[places[places.len() - 1]]));
            }
        }
    } else {
        let rest = places.drop_last();
        assert(in_key_order(columns, rest)) by {
            assert forall|a: int, b: int| 0 <= a < b < rest.len() implies ordinal(
                columns[#[trigger] rest[a]],
            ) <= ordinal(columns[#[trigger] rest[b]]) by {
                assert(places[a] == rest[a] && places[b] == rest[b]);
            }
        }
        lemma_insert_place(columns, rest, i);
        let inner = insert_place(columns, rest, i);
        let last = places.last();
        assert forall|k: int| #[trigger] out.contains(k) <==> places.contains(k) || k == i by {
            if places.contains(k) {
                let p = choose|p: int| 0 <= p < places.len() && places[p] == k;
                if p < rest.len() {
                    assert(rest[p] == k);
                    assert(inner.contains(k));
                    let q = choose|q: int| 0 <= q < inner.len() && inner[q] == k;
                    assert(out[q] == k);
                } else {
                    assert(out[inner.len() as int] == k);
                }
            }
            if k == i {
                assert(inner.contains(k));
                let q = choose|q: int| 0 <= q < inner.len() && inner[q] == k;
                assert(out[q] == k);
            }
            if out.contains(k) {
                let p = choose|p: int| 0 <= p < out.len() && out[p] == k;
                if p < inner.len() {
                    assert(inner[p] == k);
                    assert(inner.contains(k));
                    if k != i {
                        let q = choose|q: int| 0 <= q < rest.len() && rest[q] == k;
                        assert(places[q] == k);
                    }
                } else {
                    assert(places[places.len() - 1] == k);
                }
            }
        }
        assert forall|a: int, b: int| 0 <= a < b < out.len() implies ordinal(
            columns[#[trigger] out[a]],
        ) <= ordinal(columns[#[trigger] out[b]]) by {
            assert(out[a] == inner[a]);
            if b < inner.len() {
                assert(out[b] == inner[b]);
            } else {
                assert(inner.contains(inner[a]));
                if inner[a] != i {
                    let q = choose|q: int| 0 <= q < rest.len() && rest[q] == inner[a];
                    assert(places[q] == inner[a]);
                    assert(ordinal(columns[places[q]]) <= ordinal(
                        columns[places[places.len() - 1]],
                    ));
                }
            }
        }
    }
}

/// The primary key of a table lists every key column, no other, and in the order of the key.
pub proof fn law_key_places_follow_the_key(columns: Seq<ColumnSchema>, n: nat)
    requires
        n <= columns.len(),
    ensures
        in_key_order(columns, key_places(columns, n)),
        forall|i: int|
            #[trigger] key_places(columns, n).contains(i) <==> 0 <= i < n && columns[i].is_key(),
    decreases n,
{
    if n > 0 {
        let m = (n - 1) as nat;
        law_key_places_follow_the_key(columns, m);
        if columns[n - 1].is_key() {
            lemma_insert_place(columns, key_places(columns, m), n - 1);
        }
    } else {
        assert(forall|i: int| !key_places(columns, n).contains(i));
    }
}

/// The quoted names of the primary key, in the order of the key, or why one cannot be quoted.
pub open spec fn quoted_key_name(column: ColumnSchema) -> Result<Seq<char>, ErrorModel> {
    match identifier(column.name@, "BigQuery primary key column"@) {
        Err(e) => Err(e),
        Ok(name) => Ok("`"@ + name + "`"@),
    }
}

/// The `primary key` clause of a `create table` statement; none for a table without a key.
pub open spec fn key_clause(schema: ReplicatedTableSchema) -> Result<
    Option<Seq<char>>,
    ErrorModel,
> {
    let columns = schema.columns@;
    let places = key_places(columns, columns.len());
    if places.len() == 0 {
        Ok(None)
    } else {
        match collected(Seq::new(places.len(), |k: int| quoted_key_name(columns[places[k]]))) {
            Err(e) => Err(e),
            Ok(names) => Ok(
                Some(", primary key ("@ + joined(names, ","@) + ") not enforced"@),
            ),
        }
    }
}

/// The column list of a `create table` statement.
pub open spec fn columns_text(schema: ReplicatedTableSchema) -> Result<Seq<char>, ErrorModel> {
    let columns = schema.columns@;
    match collected(Seq::new(columns.len(), |i: int| column_text(columns[i]))) {
        Err(e) => Err(e),
        Ok(texts) => match key_clause(schema) {
            Err(e) => Err(e),
            Ok(clause) => Ok(
                "("@ + joined(texts, ","@) + (match clause {
                    Some(c) => c,
                    None => ""@,
                }) + ")"@,
            ),
        },
    }
}

/// The staleness option of a `create table` statement.
pub open spec fn staleness_text(max_staleness_mins: Option<u16>) -> Seq<char> {
    match max_staleness_mins {
        Some(mins) => "options (max_staleness = interval "@ + decimal(mins as nat) + " minute)"@,
        None => ""@,
    }
}

/// Type of a field in a write descriptor.
#[derive(Clone, Copy, Debug, PartialEq, Eq, Structural)]
pub enum ColumnType {
    Bool,
    Bytes,
    Double,
    Float,
    Int32,
    Int64,
    String,
}

/// Whether a field may be absent or repeated.
#[derive(Clone, Copy, Debug, PartialEq, Eq, Structural)]
pub enum ColumnMode {
    Nullable,
    Required,
    Repeated,
}

/// A field of a write descriptor.
#[derive(Debug)]
pub struct FieldDescriptor {
    /// Number of the field.
    pub number: u32,
    /// Name of the column.
    pub name: String,
    /// Type of its values.
    pub typ: ColumnType,
    /// Whether it may be absent or repeated.
    pub mode: ColumnMode,
}

/// Describes the rows of an append request.
#[derive(Debug)]
pub struct TableDescriptor {
    /// The fields in column order.
    pub field_descriptors: Vec<FieldDescriptor>,
}

impl Clone for FieldDescriptor {
    fn clone(&self) -> (r: Self)
        ensures
            r == *self,
    {
        FieldDescriptor {
            number: self.number,
            name: self.name.clone(),
            typ: self.typ,
            mode: self.mode,
        }
    }
}

impl Clone for TableDescriptor {
    fn clone(&self) -> (r: Self)
        ensures
            r.field_descriptors@ == self.field_descriptors@,
    {
        let mut fields: Vec<FieldDescriptor> = Vec::new();
        let mut i: usize = 0;
        while i < self.field_descriptors.len()
            invariant
                i <= self.field_descriptors@.len(),
                fields@ == self.field_descriptors@.take(i as int),
            decreases self.field_descriptors@.len() - i,
        {
            fields.push(self.field_descriptors[i].clone());
            i = i + 1;
            proof {
                assert(fields@ =~= self.field_descriptors@.take(i as int));
            }
        }
        TableDescriptor { field_descriptors: fields }
    }
}

/// What a field descriptor says.
pub struct FieldModel {
    pub number: int,
    pub name: Seq<char>,
    pub typ: ColumnType,
    pub mode: ColumnMode,
}

impl View for FieldDescriptor {
    type V = FieldModel;

    open spec fn view(&self) -> FieldModel {
        FieldModel {
            number: self.number as int,
            name: self.name@,
            typ: self.typ,
            mode: self.mode,
        }
    }
}

/// What the field descriptors say.
pub open spec fn field_models(fields: Seq<FieldDescriptor>) -> Seq<FieldModel> {
    Seq::new(fields.len(), |i: int| fields[i]@)
}

/// How values of a type travel in append requests.
pub open spec fn field_type(typ: Type) -> ColumnType {
    match typ {
        Type::BOOL | Type::BOOL_ARRAY => ColumnType::Bool,
        Type::INT2 | Type::INT4 | Type::OID | Type::INT2_ARRAY | Type::INT4_ARRAY
        | Type::OID_ARRAY => ColumnType::Int32,
        Type::INT8 | Type::INT8_ARRAY => ColumnType::Int64,
        Type::FLOAT4 | Type::FLOAT4_ARRAY => ColumnType::Float,
        Type::FLOAT8 | Type::FLOAT8_ARRAY => ColumnType::Double,
        Type::BYTEA | Type::BYTEA_ARRAY => ColumnType::Bytes,
        _ => ColumnType::String,
    }
}

/// Change rows may leave out columns that are not in the key; copied rows may not.
pub open spec fn field_mode(column: ColumnSchema, use_cdc_sequence_column: bool) -> ColumnMode {
    if column.typ.array() {
        ColumnMode::Repeated
    } else if use_cdc_sequence_column || column.nullable {
        ColumnMode::Nullable
    } else {
        ColumnMode::Required
    }
}

/// The fields of a table's append requests: the columns, then the change columns, numbered from
/// one.
pub open spec fn descriptor_fields(
    columns: Seq<ColumnSchema>,
    use_cdc_sequence_column: bool,
) -> Seq<FieldModel> {
    let n = columns.len() as int;
    let fields = Seq::new(
        columns.len(),
        |i: int|
            FieldModel {
                number: i + 1,
                name: columns[i].name@,
                typ: field_type(columns[i].typ),
                mode: field_mode(columns[i], use_cdc_sequence_column),
            },
    ).push(
        FieldModel {
            number: n + 1,
            name: BIGQUERY_CDC_SPECIAL_COLUMN@,
            typ: ColumnType::String,
            mode: ColumnMode::Required,
        },
    );
    if use_cdc_sequence_column {
        fields.push(
            FieldModel {
                number: n + 2,
                name: BIGQUERY_CDC_SEQUENCE_COLUMN@,
                typ: ColumnType::String,
                mode: ColumnMode::Required,
            },
        )
    } else {
        fields
    }
}

/// Returns how values of a type travel in append requests.
fn field_type_of(typ: &Type) -> (r: ColumnType)
    ensures
        r == field_type(*typ),
{
    match *typ {
        Type::BOOL | Type::BOOL_ARRAY => ColumnType::Bool,
        Type::INT2 | Type::INT4 | Type::OID | Type::INT2_ARRAY | Type::INT4_ARRAY
        | Type::OID_ARRAY => ColumnType::Int32,
        Type::INT8 | Type::INT8_ARRAY => ColumnType::Int64,
        Type::FLOAT4 | Type::FLOAT4_ARRAY => ColumnType::Float,
        Type::FLOAT8 | Type::FLOAT8_ARRAY => ColumnType::Double,
        Type::BYTEA | Type::BYTEA_ARRAY => ColumnType::Bytes,
        _ => ColumnType::String,
    }
}

/// A fully qualified, quoted table name, or why one of its parts cannot be quoted.
pub open spec fn full_name(
    project: Seq<char>,
    dataset: Seq<char>,
    table: Seq<char>,
) -> Result<Seq<char>, ErrorModel> {
    match identifier(project, "BigQuery project id"@) {
        Err(e) => Err(e),
        Ok(p) => match identifier(dataset, "BigQuery dataset id"@) {
            Err(e) => Err(e),
            Ok(d) => match identifier(table, "BigQuery table id"@) {
                Err(e) => Err(e),
                Ok(t) => Ok("`"@ + p + "."@ + d + "."@ + t + "`"@),
            },
        },
    }
}

/// `head`, the table's full name and `tail`.
pub open spec fn about_table(
    head: Seq<char>,
    name: Result<Seq<char>, ErrorModel>,
    tail: Seq<char>,
) -> Result<Seq<char>, ErrorModel> {
    match name {
        Err(e) => Err(e),
        Ok(n) => Ok(head + n + tail),
    }
}

/// A statement that creates a table with its columns and options.
pub open spec fn create_text(
    head: Seq<char>,
    name: Result<Seq<char>, ErrorModel>,
    schema: ReplicatedTableSchema,
    max_staleness_mins: Option<u16>,
) -> Result<Seq<char>, ErrorModel> {
    match name {
        Err(e) => Err(e),
        Ok(n) => match columns_text(schema) {
            Err(e) => Err(e),
            Ok(columns) => Ok(
                head + n + " "@ + columns + " "@ + staleness_text(max_staleness_mins),
            ),
        },
    }
}

/// Whether a lookup says that its table is not there.
pub open spec fn table_missing(lookup: Result<(), BigQueryError>) -> bool {
    lookup matches Err(e) && says_missing(e.cause)
}

/// Returns whether a lookup found what it asked for.
fn found(lookup: &Result<(), BigQueryError>) -> (r: EtlResult<bool>)
    ensures
        match lookup {
            Ok(_) => r == Ok::<bool, EtlError>(true),
            Err(e) => if says_missing(e.cause) {
                r == Ok::<bool, EtlError>(false)
            } else {
                r matches Err(f) && f@ == failure_of(*e)
            },
        },
{
    match lookup {
        Ok(_) => Ok(true),
        Err(e) => {
            let missing = match e.cause {
                BigQueryCause::ResponseError { code } => code == 404,
                _ => false,
            };
            if missing {
                Ok(false)
            } else {
                Err(bq_error_to_etl_error(e))
            }
        },
    }
}

/// Writes BigQuery statements for one project.
#[derive(Debug)]
pub struct BigQueryClient {
    /// The project.
    pub project_id: BigQueryProjectId,
}

impl BigQueryClient {
    /// Creates a client for a project.
    pub fn new(project_id: BigQueryProjectId) -> (r: Self)
        ensures
            r.project_id == project_id,
    {
        BigQueryClient { project_id }
    }

    /// Escapes an identifier for use between backticks. Backticks and backslashes get a
    /// backslash before them.
    pub fn sanitize_identifier(identifier: &str, context: &str) -> (r: EtlResult<String>)
        ensures
            text_result(r, self::identifier(identifier@, context@)),
    {
        let chars = chars_of(identifier);
        if chars.len() == 0 {
            return Err(
                EtlError::new(
                    ErrorKind::DestinationTableNameInvalid,
                    "Invalid BigQuery identifier",
                    cat2(context, " cannot be empty"),
                ),
            );
        }
        let mut out = String::new();
        let mut i: usize = 0;
        while i < chars.len()
            invariant
                i <= chars@.len(),
                chars@ == identifier@,
                chars@.len() > 0,
                forall|j: int| 0 <= j < i ==> !is_control(#[trigger] chars@[j]),
                out@ == escaped(chars@.take(i as int), quoted_specials(), '\\'),
            decreases chars@.len() - i,
        {
            let c = chars[i];
            if c <= '\u{1f}' || ('\u{7f}' <= c && c <= '\u{9f}') {
                proof {
                    assert(is_control(identifier@[i as int]));
                }
                return Err(
                    EtlError::new(
                        ErrorKind::DestinationTableNameInvalid,
                        "Invalid BigQuery identifier",
                        cat2(context, " contains control characters"),
                    ),
                );
            }
            if c == '`' || c == '\\' {
                out.push('\\');
            }
            out.push(c);
            i = i + 1;
            proof {
                let now = chars@.take(i as int);
                assert(now.drop_last() =~= chars@.take(i - 1));
                assert(now.last() == chars@[i - 1]);
            }
        }
        proof {
            assert(chars@.take(chars@.len() as int) =~= identifier@);
        }
        Ok(out)
    }

    /// Returns the BigQuery type of a column.
    pub fn postgres_to_bigquery_type(typ: &Type) -> (r: String)
        ensures
            r@ == bigquery_type(*typ),
    {
        let base: &str = match *typ {
            Type::BOOL | Type::BOOL_ARRAY => "bool",
            Type::INT2 | Type::INT4 | Type::INT8 | Type::OID | Type::INT2_ARRAY
            | Type::INT4_ARRAY | Type::INT8_ARRAY | Type::OID_ARRAY => "int64",
            Type::FLOAT4 | Type::FLOAT8 | Type::FLOAT4_ARRAY | Type::FLOAT8_ARRAY => "float64",
            Type::NUMERIC | Type::NUMERIC_ARRAY => "bignumeric",
            Type::DATE | Type::DATE_ARRAY => "date",
            Type::TIME | Type::TIME_ARRAY => "time",
            Type::TIMESTAMP | Type::TIMESTAMPTZ | Type::TIMESTAMP_ARRAY
            | Type::TIMESTAMPTZ_ARRAY => "timestamp",
            Type::JSON | Type::JSONB | Type::JSON_ARRAY | Type::JSONB_ARRAY => "json",
            Type::BYTEA | Type::BYTEA_ARRAY => "bytes",
            _ => "string",
        };
        if is_array_type(typ) {
            cat3("array<", base, ">")
        } else {
            base.to_owned()
        }
    }

    /// Writes a column of a `create table` statement.
    pub fn column_spec(column_schema: &ColumnSchema) -> (r: EtlResult<String>)
        ensures
            text_result(r, column_text(*column_schema)),
    {
        let name = match Self::sanitize_identifier(
            column_schema.name.as_str(),
            "BigQuery column name",
        ) {
            Ok(name) => name,
            Err(e) => {
                return Err(e);
            },
        };
        let typ = Self::postgres_to_bigquery_type(&column_schema.typ);
        let suffix: &str = if !column_schema.nullable && !is_array_type(&column_schema.typ) {
            " not null"
        } else {
            ""
        };
        Ok(cat5("`", name.as_str(), "` ", typ.as_str(), suffix))
    }

    /// Returns whether a column comes after a place in the key.
    fn comes_after(column: &ColumnSchema, position: i32) -> (r: bool)
        ensures
            r == (ordinal(*column) > position),
    {
        match column.primary_key_ordinal_position {
            Some(p) => p > position,
            None => 0 > position,
        }
    }

    /// Returns the places of the key columns in the order of the key.
    fn ordered_key(columns: &Vec<ColumnSchema>) -> (r: Vec<usize>)
        ensures
            Seq::new(r@.len(), |k: int| r@[k] as int) == key_places(columns@, columns@.len()),
            forall|k: int| 0 <= k < r@.len() ==> #[trigger] r@[k] < columns@.len(),
    {
        let mut places: Vec<usize> = Vec::new();
        let mut i: usize = 0;
        proof {
            assert(Seq::new(places@.len(), |k: int| places@[k] as int) =~= key_places(
                columns@,
                0,
            ));
        }
        while i < columns.len()
            invariant
                i <= columns@.len(),
                Seq::new(places@.len(), |k: int| places@[k] as int) == key_places(
                    columns@,
                    i as nat,
                ),
                forall|k: int| 0 <= k < places@.len() ==> #[trigger] places@[k] < i,
            decreases columns@.len() - i,
        {
            if let Some(position) = columns[i].primary_key_ordinal_position {
                let ghost before = Seq::new(places@.len(), |k: int| places@[k] as int);
                let mut at: usize = places.len();
                proof {
                    assert(before.take(at as int) =~= before);
                    assert(before.skip(at as int) =~= Seq::<int>::empty());
                    assert(insert_place(columns@, before, i as int) =~= insert_place(
                        columns@,
                        before.take(at as int),
                        i as int,
                    ) + before.skip(at as int));
                }
                while at > 0 && Self::comes_after(&columns[places[at - 1]], position)
                    invariant
                        at <= places@.len(),
                        i < columns@.len(),
                        columns@[i as int].primary_key_ordinal_position == Some(position),
                        forall|k: int| 0 <= k < places@.len() ==> #[trigger] places@[k] < i,
                        before == Seq::new(places@.len(), |k: int| places@[k] as int),
                        insert_place(columns@, before, i as int) == insert_place(
                            columns@,
                            before.take(at as int),
                            i as int,
                        ) + before.skip(at as int),
                    decreases at,
                {
                    proof {
                        let front = before.take(at as int);
                        assert(front.drop_last() =~= before.take(at - 1));
                        assert(front.last() == before[at - 1]);
                        assert(insert_place(columns@, before, i as int) =~= insert_place(
                            columns@,
                            before.take(at - 1),
                            i as int,
                        ) + before.skip(at - 1));
                    }
                    at = at - 1;
                }
                proof {
                    let front = before.take(at as int);
                    if at > 0 {
                        assert(front.last() == before[at - 1]);
                    }
                    assert(insert_place(columns@, front, i as int) =~= front.push(i as int));
                }
                places.insert(at, i);
                proof {
                    let now = Seq::new(places@.len(), |k: int| places@[k] as int);
                    assert(now =~= before.take(at as int).push(i as int) + before.skip(
                        at as int,
                    ));
                }
            }
            i = i + 1;
        }
        places
    }

    /// Writes the `primary key` clause of a `create table` statement.
    pub fn add_primary_key_clause(schema: &ReplicatedTableSchema) -> (r: EtlResult<
        Option<String>,
    >)
        ensures
            match (r, key_clause(*schema)) {
                (Ok(Some(a)), Ok(Some(b))) => a@ == b,
                (Ok(None), Ok(None)) => true,
                (Err(a), Err(b)) => a@ == b,
                _ => false,
            },
    {
        let places = Self::ordered_key(&schema.columns);
        let ghost columns = schema.columns@;
        let ghost spec_places = key_places(columns, columns.len());
        let ghost results = Seq::new(
            spec_places.len(),
            |k: int| quoted_key_name(columns[spec_places[k]]),
        );
        proof {
            assert(spec_places.len() == places@.len());
            assert forall|k: int| 0 <= k < places@.len() implies spec_places[k]
                == places@[k] by {
                assert(Seq::new(places@.len(), |k: int| places@[k] as int)[k] == places@[k]);
            }
        }
        if places.len() == 0 {
            return Ok(None);
        }
        let mut names: Vec<String> = Vec::new();
        let mut k: usize = 0;
        proof {
            assert(views(names@) =~= Seq::<Seq<char>>::empty());
            assert(results.take(0) =~= Seq::<Result<Seq<char>, ErrorModel>>::empty());
        }
        while k < places.len()
            invariant
                k <= places@.len(),
                columns == schema.columns@,
                spec_places == key_places(columns, columns.len()),
                spec_places.len() == places@.len(),
                places@.len() > 0,
                forall|j: int| 0 <= j < places@.len() ==> spec_places[j] == #[trigger] places@[j],
                forall|j: int| 0 <= j < places@.len() ==> #[trigger] places@[j] < columns.len(),
                results == Seq::new(
                    spec_places.len(),
                    |k: int| quoted_key_name(columns[spec_places[k]]),
                ),
                collected(results.take(k as int)) == Ok::<Seq<Seq<char>>, ErrorModel>(
                    views(names@),
                ),
            decreases places@.len() - k,
        {
            let ghost had = views(names@);
            proof {
                assert(results.take(k + 1).drop_last() =~= results.take(k as int));
                assert(results.take(k + 1).last() == quoted_key_name(columns[places@[k as int] as int]));
            }
            match Self::sanitize_identifier(
                schema.columns[places[k]].name.as_str(),
                "BigQuery primary key column",
            ) {
                Ok(name) => {
                    names.push(cat3("`", name.as_str(), "`"));
                    proof {
                        assert(views(names@) =~= had.push("`"@ + name@ + "`"@));
                    }
                },
                Err(e) => {
                    proof {
                        lemma_collected_error(results, k + 1);
                    }
                    return Err(e);
                },
            }
            k = k + 1;
        }
        proof {
            assert(results.take(results.len() as int) =~= results);
        }
        let list = join(names.as_slice(), ",");
        Ok(Some(cat3(", primary key (", list.as_str(), ") not enforced")))
    }

    /// Writes the column list of a `create table` statement.
    pub fn create_columns_spec(schema: &ReplicatedTableSchema) -> (r: EtlResult<String>)
        ensures
            text_result(r, columns_text(*schema)),
    {
        let ghost columns = schema.columns@;
        let ghost results = Seq::new(columns.len(), |i: int| column_text(columns[i]));
        let mut texts: Vec<String> = Vec::new();
        let mut i: usize = 0;
        proof {
            assert(views(texts@) =~= Seq::<Seq<char>>::empty());
            assert(results.take(0) =~= Seq::<Result<Seq<char>, ErrorModel>>::empty());
        }
        while i < schema.columns.len()
            invariant
                i <= columns.len(),
                columns == schema.columns@,
                results == Seq::new(columns.len(), |i: int| column_text(columns[i])),
                collected(results.take(i as int)) == Ok::<Seq<Seq<char>>, ErrorModel>(
                    views(texts@),
                ),
            decreases columns.len() - i,
        {
            let ghost had = views(texts@);
            proof {
                assert(results.take(i + 1).drop_last() =~= results.take(i as int));
                assert(results.take(i + 1).last() == column_text(columns[i as int]));
            }
            match Self::column_spec(&schema.columns[i]) {
                Ok(text) => {
                    texts.push(text);
                    proof {
                        assert(views(texts@) =~= had.push(text@));
                    }
                },
                Err(e) => {
                    proof {
                        lemma_collected_error(results, i + 1);
                    }
                    return Err(e);
                },
            }
            i = i + 1;
        }
        proof {
            assert(results.take(results.len() as int) =~= results);
        }
        let list = join(texts.as_slice(), ",");
        match Self::add_primary_key_clause(schema) {
            Err(e) => Err(e),
            Ok(Some(clause)) => Ok(cat4("(", list.as_str(), clause.as_str(), ")")),
            Ok(None) => Ok(cat4("(", list.as_str(), "", ")")),
        }
    }

    /// Writes the staleness option of a `create table` statement.
    pub fn max_staleness_option(max_staleness_mins: u16) -> (r: String)
        ensures
            r@ == staleness_text(Some(max_staleness_mins)),
    {
        let n = decimal_of(max_staleness_mins as u128);
        cat3("options (max_staleness = interval ", n.as_str(), " minute)")
    }

    /// Describes the rows of a table's append requests.
    pub fn column_schemas_to_table_descriptor(
        schema: &ReplicatedTableSchema,
        use_cdc_sequence_column: bool,
    ) -> (r: TableDescriptor)
        requires
            schema.numberable(),
        ensures
            field_models(r.field_descriptors@) == descriptor_fields(
                schema.columns@,
                use_cdc_sequence_column,
            ),
    {
        let ghost columns = schema.columns@;
        let mut fields: Vec<FieldDescriptor> = Vec::new();
        let mut i: usize = 0;
        while i < schema.columns.len()
            invariant
                i <= columns.len(),
                columns == schema.columns@,
                columns.len() + 2 <= u32::MAX,
                fields@.len() == i,
                forall|j: int|
                    0 <= j < i ==> (#[trigger] fields@[j])@ == (FieldModel {
                        number: j + 1,
                        name: columns[j].name@,
                        typ: field_type(columns[j].typ),
                        mode: field_mode(columns[j], use_cdc_sequence_column),
                    }),
            decreases columns.len() - i,
        {
            let column = &schema.columns[i];
            let mode = if is_array_type(&column.typ) {
                ColumnMode::Repeated
            } else if use_cdc_sequence_column || column.nullable {
                ColumnMode::Nullable
            } else {
                ColumnMode::Required
            };
            fields.push(
                FieldDescriptor {
                    number: (i as u32) + 1,
                    name: column.name.clone(),
                    typ: field_type_of(&column.typ),
                    mode,
                },
            );
            i = i + 1;
        }
        fields.push(
            FieldDescriptor {
                number: (i as u32) + 1,
                name: BIGQUERY_CDC_SPECIAL_COLUMN.to_owned(),
                typ: ColumnType::String,
                mode: ColumnMode::Required,
            },
        );
        if use_cdc_sequence_column {
            fields.push(
                FieldDescriptor {
                    number: (i as u32) + 2,
                    name: BIGQUERY_CDC_SEQUENCE_COLUMN.to_owned(),
                    typ: ColumnType::String,
                    mode: ColumnMode::Required,
                },
            );
        }
        proof {
            assert(field_models(fields@) =~= descriptor_fields(columns, use_cdc_sequence_column));
        }
        TableDescriptor { field_descriptors: fields }
    }

    /// Returns the fully qualified, quoted name of a table.
    pub fn full_table_name(
        &self,
        dataset_id: &BigQueryDatasetId,
        table_id: &BigQueryTableId,
    ) -> (r: EtlResult<String>)
        ensures
            text_result(r, full_name(self.project_id@, dataset_id@, table_id@)),
    {
        let p = match Self::sanitize_identifier(self.project_id.as_str(), "BigQuery project id") {
            Ok(p) => p,
            Err(e) => {
                return Err(e);
            },
        };
        let d = match Self::sanitize_identifier(dataset_id.as_str(), "BigQuery dataset id") {
            Ok(d) => d,
            Err(e) => {
                return Err(e);
            },
        };
        let t = match Self::sanitize_identifier(table_id.as_str(), "BigQuery table id") {
            Ok(t) => t,
            Err(e) => {
                return Err(e);
            },
        };
        Ok(cat7("`", p.as_str(), ".", d.as_str(), ".", t.as_str(), "`"))
    }

    /// Writes `head`, the full name of a table and `tail`.
    fn statement(
        &self,
        head: &str,
        dataset_id: &BigQueryDatasetId,
        table_id: &BigQueryTableId,
        tail: &str,
    ) -> (r: EtlResult<String>)
        ensures
            text_result(
                r,
                about_table(head@, full_name(self.project_id@, dataset_id@, table_id@), tail@),
            ),
    {
        match self.full_table_name(dataset_id, table_id) {
            Ok(name) => Ok(cat3(head, name.as_str(), tail)),
            Err(e) => Err(e),
        }
    }

    fn create_statement(
        &self,
        head: &str,
        dataset_id: &BigQueryDatasetId,
        table_id: &BigQueryTableId,
        schema: &ReplicatedTableSchema,
        max_staleness_mins: Option<u16>,
    ) -> (r: EtlResult<String>)
        ensures
            text_result(
                r,
                create_text(
                    head@,
                    full_name(self.project_id@, dataset_id@, table_id@),
                    *schema,
                    max_staleness_mins,
                ),
            ),
    {
        let name = match self.full_table_name(dataset_id, table_id) {
            Ok(name) => name,
            Err(e) => {
                return Err(e);
            },
        };
        let columns = match Self::create_columns_spec(schema) {
            Ok(columns) => columns,
            Err(e) => {
                return Err(e);
            },
        };
        let staleness = match max_staleness_mins {
            Some(mins) => Self::max_staleness_option(mins),
            None => "".to_owned(),
        };
        Ok(cat6(head, name.as_str(), " ", columns.as_str(), " ", staleness.as_str()))
    }

    /// Writes the statement that creates a table.
    pub fn create_table(
        &self,
        dataset_id: &BigQueryDatasetId,
        table_id: &BigQueryTableId,
        schema: &ReplicatedTableSchema,
        max_staleness_mins: Option<u16>,
    ) -> (r: EtlResult<String>)
        ensures
            text_result(
                r,
                create_text(
                    "create table "@,
                    full_name(self.project_id@, dataset_id@, table_id@),
                    *schema,
                    max_staleness_mins,
                ),
            ),
    {
        self.create_statement("create table ", dataset_id, table_id, schema, max_staleness_mins)
    }

    /// Writes the statement that creates a table, given the answer to a lookup; none if the
    /// table is there.
    pub fn create_table_if_missing(
        &self,
        lookup: &Result<(), BigQueryError>,
        dataset_id: &BigQueryDatasetId,
        table_id: &BigQueryTableId,
        schema: &ReplicatedTableSchema,
        max_staleness_mins: Option<u16>,
    ) -> (r: EtlResult<Option<String>>)
        ensures
            match lookup {
                Ok(_) => r matches Ok(None),
                Err(error) => if says_missing(error.cause) {
                    match create_text(
                        "create table "@,
                        full_name(self.project_id@, dataset_id@, table_id@),
                        *schema,
                        max_staleness_mins,
                    ) {
                        Ok(text) => r matches Ok(Some(t)) && t@ == text,
                        Err(e) => r matches Err(f) && f@ == e,
                    }
                } else {
                    r matches Err(f) && f@ == failure_of(*error)
                },
            },
    {
        match Self::table_exists(lookup) {
            Ok(true) => {
                return Ok(None);
            },
            Ok(false) => {},
            Err(e) => {
                return Err(e);
            },
        }
        match self.create_table(dataset_id, table_id, schema, max_staleness_mins) {
            Ok(text) => Ok(Some(text)),
            Err(e) => Err(e),
        }
    }

    /// Returns whether a table is there, by the answer to a lookup. A lookup that fails other than
    /// with a 404 does not say.
    pub fn table_exists(lookup: &Result<(), BigQueryError>) -> (r: EtlResult<bool>)
        ensures
            match lookup {
                Ok(_) => r == Ok::<bool, EtlError>(true),
                Err(e) => if says_missing(e.cause) {
                    r == Ok::<bool, EtlError>(false)
                } else {
                    r matches Err(f) && f@ == failure_of(*e)
                },
            },
    {
        found(lookup)
    }

    /// Returns whether a dataset is there and can be used, by the answer to a lookup.
    pub fn dataset_exists(lookup: &Result<(), BigQueryError>) -> (r: EtlResult<bool>)
        ensures
            match lookup {
                Ok(_) => r == Ok::<bool, EtlError>(true),
                Err(e) => if says_missing(e.cause) {
                    r == Ok::<bool, EtlError>(false)
                } else {
                    r matches Err(f) && f@ == failure_of(*e)
                },
            },
    {
        found(lookup)
    }

    /// Writes the statement that creates a table or empties the one that is there, given the answer
    /// to a lookup. Returns with it whether the table is created fresh rather than replaced.
    pub fn create_or_replace_table(
        &self,
        lookup: &Result<(), BigQueryError>,
        dataset_id: &BigQueryDatasetId,
        table_id: &BigQueryTableId,
        schema: &ReplicatedTableSchema,
        max_staleness_mins: Option<u16>,
    ) -> (r: EtlResult<(String, bool)>)
        ensures
            match lookup {
                Err(error) if !says_missing(error.cause) => r matches Err(f) && f@ == failure_of(
                    *error,
                ),
                _ => match create_text(
                    "create or replace table "@,
                    full_name(self.project_id@, dataset_id@, table_id@),
                    *schema,
                    max_staleness_mins,
                ) {
                    Ok(text) => r matches Ok((statement, fresh)) && statement@ == text && fresh
                        == table_missing(*lookup),
                    Err(e) => r matches Err(f) && f@ == e,
                },
            },
    {
        let exists = match Self::table_exists(lookup) {
            Ok(exists) => exists,
            Err(e) => {
                return Err(e);
            },
        };
        match self.create_statement(
            "create or replace table ",
            dataset_id,
            table_id,
            schema,
            max_staleness_mins,
        ) {
            Ok(statement) => Ok((statement, !exists)),
            Err(e) => Err(e),
        }
    }

    /// Writes the statement that empties a table.
    pub fn truncate_table(
        &self,
        dataset_id: &BigQueryDatasetId,
        table_id: &BigQueryTableId,
    ) -> (r: EtlResult<String>)
        ensures
            text_result(
                r,
                about_table(
                    "truncate table "@,
                    full_name(self.project_id@, dataset_id@, table_id@),
                    ""@,
                ),
            ),
    {
        self.statement("truncate table ", dataset_id, table_id, "")
    }

    /// Writes the statement that points a view at a table.
    pub fn create_or_replace_view(
        &self,
        dataset_id: &BigQueryDatasetId,
        view_name: &BigQueryTableId,
        target_table_id: &BigQueryTableId,
    ) -> (r: EtlResult<String>)
        ensures
            text_result(
                r,
                match full_name(self.project_id@, dataset_id@, view_name@) {
                    Err(e) => Err(e),
                    Ok(view) => about_table(
                        "create or replace view "@ + view + " as select * from "@,
                        full_name(self.project_id@, dataset_id@, target_table_id@),
                        ""@,
                    ),
                },
            ),
    {
        let view = match self.full_table_name(dataset_id, view_name) {
            Ok(view) => view,
            Err(e) => {
                return Err(e);
            },
        };
        let head = cat3("create or replace view ", view.as_str(), " as select * from ");
        self.statement(head.as_str(), dataset_id, target_table_id, "")
    }

    /// Writes the statement that drops a view if it is there.
    pub fn drop_view_if_exists(
        &self,
        dataset_id: &BigQueryDatasetId,
        view_name: &BigQueryTableId,
    ) -> (r: EtlResult<String>)
        ensures
            text_result(
                r,
                about_table(
                    "drop view if exists "@,
                    full_name(self.project_id@, dataset_id@, view_name@),
                    ""@,
                ),
            ),
    {
        self.statement("drop view if exists ", dataset_id, view_name, "")
    }

    /// Writes the statement that drops a table if it is there.
    pub fn drop_table_if_exists(
        &self,
        dataset_id: &BigQueryDatasetId,
        table_id: &BigQueryTableId,
    ) -> (r: EtlResult<String>)
        ensures
            text_result(
                r,
                about_table(
                    "drop table if exists "@,
                    full_name(self.project_id@, dataset_id@, table_id@),
                    ""@,
                ),
            ),
    {
        self.statement("drop table if exists ", dataset_id, table_id, "")
    }

    /// Writes the query for the versions of a table. Its parameter `table_name_prefix` is
    /// [`Self::version_prefix`].
    pub fn list_sequenced_table_ids(&self, dataset_id: &BigQueryDatasetId) -> (r: EtlResult<
        String,
    >)
        ensures
            text_result(
                r,
                match identifier(self.project_id@, "BigQuery project id"@) {
                    Err(e) => Err(e),
                    Ok(p) => match identifier(dataset_id@, "BigQuery dataset id"@) {
                        Err(e) => Err(e),
                        Ok(d) => Ok(
                            "select table_name from `"@ + p + "."@ + d
                                + ".INFORMATION_SCHEMA.TABLES` where table_type = 'BASE TABLE' and starts_with(table_name, @table_name_prefix) order by table_name"@,
                        ),
                    },
                },
            ),
    {
        let p = match Self::sanitize_identifier(self.project_id.as_str(), "BigQuery project id") {
            Ok(p) => p,
            Err(e) => {
                return Err(e);
            },
        };
        let d = match Self::sanitize_identifier(dataset_id.as_str(), "BigQuery dataset id") {
            Ok(d) => d,
            Err(e) => {
                return Err(e);
            },
        };
        Ok(
            cat5(
                "select table_name from `",
                p.as_str(),
                ".",
                d.as_str(),
                ".INFORMATION_SCHEMA.TABLES` where table_type = 'BASE TABLE' and starts_with(table_name, @table_name_prefix) order by table_name",
            ),
        )
    }

    /// Returns what the identifiers of all versions of a table start with.
    pub fn version_prefix(base_table_id: &BigQueryTableId) -> (r: String)
        ensures
            r@ == base_table_id@ + "_"@,
    {
        cat2(base_table_id.as_str(), "_")
    }

    /// Writes the statement that adds a column. Added columns are always nullable.
    pub fn add_column(
        &self,
        dataset_id: &BigQueryDatasetId,
        table_id: &BigQueryTableId,
        column_schema: &ColumnSchema,
    ) -> (r: EtlResult<String>)
        ensures
            text_result(
                r,
                match full_name(self.project_id@, dataset_id@, table_id@) {
                    Err(e) => Err(e),
                    Ok(table) => match identifier(
                        column_schema.name@,
                        "BigQuery column name"@,
                    ) {
                        Err(e) => Err(e),
                        Ok(column) => Ok(
                            "alter table "@ + table + " add column `"@ + column + "` "@
                                + bigquery_type(column_schema.typ),
                        ),
                    },
                },
            ),
    {
        let table = match self.full_table_name(dataset_id, table_id) {
            Ok(table) => table,
            Err(e) => {
                return Err(e);
            },
        };
        let column = match Self::sanitize_identifier(
            column_schema.name.as_str(),
            "BigQuery column name",
        ) {
            Ok(column) => column,
            Err(e) => {
                return Err(e);
            },
        };
        let typ = Self::postgres_to_bigquery_type(&column_schema.typ);
        Ok(
            cat6(
                "alter table ",
                table.as_str(),
                " add column `",
                column.as_str(),
                "` ",
                typ.as_str(),
            ),
        )
    }

    /// Writes the statement that drops a column.
    pub fn drop_column(
        &self,
        dataset_id: &BigQueryDatasetId,
        table_id: &BigQueryTableId,
        column_name: &str,
    ) -> (r: EtlResult<String>)
        ensures
            text_result(
                r,
                match full_name(self.project_id@, dataset_id@, table_id@) {
                    Err(e) => Err(e),
                    Ok(table) => match identifier(column_name@, "BigQuery column name"@) {
                        Err(e) => Err(e),
                        Ok(column) => Ok(
                            "alter table "@ + table + " drop column `"@ + column + "`"@,
                        ),
                    },
                },
            ),
    {
        let table = match self.full_table_name(dataset_id, table_id) {
            Ok(table) => table,
            Err(e) => {
                return Err(e);
            },
        };
        let column = match Self::sanitize_identifier(column_name, "BigQuery column name") {
            Ok(column) => column,
            Err(e) => {
                return Err(e);
            },
        };
        Ok(cat5("alter table ", table.as_str(), " drop column `", column.as_str(), "`"))
    }

    /// Writes the statement that renames a column.
    pub fn rename_column(
        &self,
        dataset_id: &BigQueryDatasetId,
        table_id: &BigQueryTableId,
        old_name: &str,
        new_name: &str,
    ) -> (r: EtlResult<String>)
        ensures
            text_result(
                r,
                match full_name(self.project_id@, dataset_id@, table_id@) {
                    Err(e) => Err(e),
                    Ok(table) => match identifier(old_name@, "BigQuery column name"@) {
                        Err(e) => Err(e),
                        Ok(before) => match identifier(new_name@, "BigQuery column name"@) {
                            Err(e) => Err(e),
                            Ok(after) => Ok(
                                "alter table "@ + table + " rename column `"@ + before
                                    + "` to `"@ + after + "`"@,
                            ),
                        },
                    },
                },
            ),
    {
        let table = match self.full_table_name(dataset_id, table_id) {
            Ok(table) => table,
            Err(e) => {
                return Err(e);
            },
        };
        let before = match Self::sanitize_identifier(old_name, "BigQuery column name") {
            Ok(before) => before,
            Err(e) => {
                return Err(e);
            },
        };
        let after = match Self::sanitize_identifier(new_name, "BigQuery column name") {
            Ok(after) => after,
            Err(e) => {
                return Err(e);
            },
        };
        Ok(
            cat7(
                "alter table ",
                table.as_str(),
                " rename column `",
                before.as_str(),
                "` to `",
                after.as_str(),
                "`",
            ),
        )
    }
}

/// The BigQuery type of every scalar type. Dates, times and timestamps have three different types.
pub proof fn law_scalar_types_have_these_names()
    ensures
        bigquery_type(Type::BOOL) == "bool"@,
        bigquery_type(Type::CHAR) == "string"@,
        bigquery_type(Type::BPCHAR) == "string"@,
        bigquery_type(Type::VARCHAR) == "string"@,
        bigquery_type(Type::NAME) == "string"@,
        bigquery_type(Type::TEXT) == "string"@,
        bigquery_type(Type::INT2) == "int64"@,
        bigquery_type(Type::INT4) == "int64"@,
        bigquery_type(Type::INT8) == "int64"@,
        bigquery_type(Type::OID) == "int64"@,
        bigquery_type(Type::FLOAT4) == "float64"@,
        bigquery_type(Type::FLOAT8) == "float64"@,
        bigquery_type(Type::NUMERIC) == "bignumeric"@,
        bigquery_type(Type::MONEY) == "string"@,
        bigquery_type(Type::DATE) == "date"@,
        bigquery_type(Type::TIME) == "time"@,
        bigquery_type(Type::TIMESTAMP) == "timestamp"@,
        bigquery_type(Type::TIMESTAMPTZ) == "timestamp"@,
        bigquery_type(Type::UUID) == "string"@,
        bigquery_type(Type::JSON) == "json"@,
        bigquery_type(Type::JSONB) == "json"@,
        bigquery_type(Type::BYTEA) == "bytes"@,
        bigquery_type(Type::INTERVAL) == "string"@,
        bigquery_type(Type::INET) == "string"@,
        bigquery_type(Type::BIT) == "string"@,
        forall|oid: u32|
            #[trigger] bigquery_type((Type::Other { oid, array: false })) == "string"@,
        bigquery_type(Type::DATE) != bigquery_type(Type::TIME),
        bigquery_type(Type::DATE) != bigquery_type(Type::TIMESTAMP),
        bigquery_type(Type::TIME) != bigquery_type(Type::TIMESTAMP),
{
    reveal_strlit("date");
    reveal_strlit("time");
    reveal_strlit("timestamp");
    assert("date"@[0] == 'd');
    assert("time"@[0] == 't');
    assert("timestamp"@.len() == 9);
}

/// An array type is the array of its element type.
pub proof fn law_array_types_hold_their_element_type()
    ensures
        bigquery_type(Type::BOOL_ARRAY) == "array<"@ + bigquery_type(Type::BOOL) + ">"@,
        bigquery_type(Type::CHAR_ARRAY) == "array<"@ + bigquery_type(Type::CHAR) + ">"@,
        bigquery_type(Type::BPCHAR_ARRAY) == "array<"@ + bigquery_type(Type::BPCHAR) + ">"@,
        bigquery_type(Type::VARCHAR_ARRAY) == "array<"@ + bigquery_type(Type::VARCHAR) + ">"@,
        bigquery_type(Type::NAME_ARRAY) == "array<"@ + bigquery_type(Type::NAME) + ">"@,
        bigquery_type(Type::TEXT_ARRAY) == "array<"@ + bigquery_type(Type::TEXT) + ">"@,
        bigquery_type(Type::INT2_ARRAY) == "array<"@ + bigquery_type(Type::INT2) + ">"@,
        bigquery_type(Type::INT4_ARRAY) == "array<"@ + bigquery_type(Type::INT4) + ">"@,
        bigquery_type(Type::INT8_ARRAY) == "array<"@ + bigquery_type(Type::INT8) + ">"@,
        bigquery_type(Type::OID_ARRAY) == "array<"@ + bigquery_type(Type::OID) + ">"@,
        bigquery_type(Type::FLOAT4_ARRAY) == "array<"@ + bigquery_type(Type::FLOAT4) + ">"@,
        bigquery_type(Type::FLOAT8_ARRAY) == "array<"@ + bigquery_type(Type::FLOAT8) + ">"@,
        bigquery_type(Type::NUMERIC_ARRAY) == "array<"@ + bigquery_type(Type::NUMERIC) + ">"@,
        bigquery_type(Type::MONEY_ARRAY) == "array<"@ + bigquery_type(Type::MONEY) + ">"@,
        bigquery_type(Type::DATE_ARRAY) == "array<"@ + bigquery_type(Type::DATE) + ">"@,
        bigquery_type(Type::TIME_ARRAY) == "array<"@ + bigquery_type(Type::TIME) + ">"@,
        bigquery_type(Type::TIMESTAMP_ARRAY) == "array<"@ + bigquery_type(Type::TIMESTAMP) + ">"@,
        bigquery_type(Type::TIMESTAMPTZ_ARRAY) == "array<"@ + bigquery_type(Type::TIMESTAMPTZ)
            + ">"@,
        bigquery_type(Type::UUID_ARRAY) == "array<"@ + bigquery_type(Type::UUID) + ">"@,
        bigquery_type(Type::JSON_ARRAY) == "array<"@ + bigquery_type(Type::JSON) + ">"@,
        bigquery_type(Type::JSONB_ARRAY) == "array<"@ + bigquery_type(Type::JSONB) + ">"@,
        bigquery_type(Type::BYTEA_ARRAY) == "array<"@ + bigquery_type(Type::BYTEA) + ">"@,
        bigquery_type(Type::INTERVAL_ARRAY) == "array<"@ + bigquery_type(Type::INTERVAL) + ">"@,
        bigquery_type(Type::INET_ARRAY) == "array<"@ + bigquery_type(Type::INET) + ">"@,
        bigquery_type(Type::INT4_RANGE_ARRAY) == "array<"@ + "string"@ + ">"@,
        forall|oid: u32|
            #[trigger] bigquery_type((Type::Other { oid, array: true })) == "array<"@ + "string"@
                + ">"@,
{
}

/// How values of every scalar type travel, and that the elements of an array travel as values of its
/// element type do.
pub proof fn law_fields_have_these_types()
    ensures
        field_type(Type::BOOL) == ColumnType::Bool,
        field_type(Type::INT2) == ColumnType::Int32,
        field_type(Type::INT4) == ColumnType::Int32,
        field_type(Type::OID) == ColumnType::Int32,
        field_type(Type::INT8) == ColumnType::Int64,
        field_type(Type::FLOAT4) == ColumnType::Float,
        field_type(Type::FLOAT8) == ColumnType::Double,
        field_type(Type::BYTEA) == ColumnType::Bytes,
        field_type(Type::CHAR) == ColumnType::String,
        field_type(Type::BPCHAR) == ColumnType::String,
        field_type(Type::VARCHAR) == ColumnType::String,
        field_type(Type::NAME) == ColumnType::String,
        field_type(Type::TEXT) == ColumnType::String,
        field_type(Type::NUMERIC) == ColumnType::String,
        field_type(Type::MONEY) == ColumnType::String,
        field_type(Type::DATE) == ColumnType::String,
        field_type(Type::TIME) == ColumnType::String,
        field_type(Type::TIMESTAMP) == ColumnType::String,
        field_type(Type::TIMESTAMPTZ) == ColumnType::String,
        field_type(Type::UUID) == ColumnType::String,
        field_type(Type::JSON) == ColumnType::String,
        field_type(Type::JSONB) == ColumnType::String,
        field_type(Type::INTERVAL) == ColumnType::String,
        field_type(Type::INET) == ColumnType::String,
        field_type(Type::BIT) == ColumnType::String,
        forall|oid: u32, array: bool|
            #[trigger] field_type((Type::Other { oid, array })) == ColumnType::String,
        field_type(Type::BOOL_ARRAY) == field_type(Type::BOOL),
        field_type(Type::CHAR_ARRAY) == field_type(Type::CHAR),
        field_type(Type::BPCHAR_ARRAY) == field_type(Type::BPCHAR),
        field_type(Type::VARCHAR_ARRAY) == field_type(Type::VARCHAR),
        field_type(Type::NAME_ARRAY) == field_type(Type::NAME),
        field_type(Type::TEXT_ARRAY) == field_type(Type::TEXT),
        field_type(Type::INT2_ARRAY) == field_type(Type::INT2),
        field_type(Type::INT4_ARRAY) == field_type(Type::INT4),
        field_type(Type::INT8_ARRAY) == field_type(Type::INT8),
        field_type(Type::OID_ARRAY) == field_type(Type::OID),
        field_type(Type::FLOAT4_ARRAY) == field_type(Type::FLOAT4),
        field_type(Type::FLOAT8_ARRAY) == field_type(Type::FLOAT8),
        field_type(Type::NUMERIC_ARRAY) == field_type(Type::NUMERIC),
        field_type(Type::MONEY_ARRAY) == field_type(Type::MONEY),
        field_type(Type::DATE_ARRAY) == field_type(Type::DATE),
        field_type(Type::TIME_ARRAY) == field_type(Type::TIME),
        field_type(Type::TIMESTAMP_ARRAY) == field_type(Type::TIMESTAMP),
        field_type(Type::TIMESTAMPTZ_ARRAY) == field_type(Type::TIMESTAMPTZ),
        field_type(Type::UUID_ARRAY) == field_type(Type::UUID),
        field_type(Type::JSON_ARRAY) == field_type(Type::JSON),
        field_type(Type::JSONB_ARRAY) == field_type(Type::JSONB),
        field_type(Type::BYTEA_ARRAY) == field_type(Type::BYTEA),
        field_type(Type::INTERVAL_ARRAY) == field_type(Type::INTERVAL),
        field_type(Type::INET_ARRAY) == field_type(Type::INET),
        field_type(Type::INT4_RANGE_ARRAY) == ColumnType::String,
{
}

/// A field is repeated if and only if its column is an array. A copied row must fill every other field
/// whose column takes no NULL; a change row may leave any of them out.
pub proof fn law_fields_may_be_absent_or_repeated(column: ColumnSchema)
    ensures
        forall|change: bool|
            (#[trigger] field_mode(column, change) == ColumnMode::Repeated) <==> column.typ.array(),
        !column.typ.array() ==> field_mode(column, true) == ColumnMode::Nullable,
        !column.typ.array() && column.nullable ==> field_mode(column, false)
            == ColumnMode::Nullable,
        !column.typ.array() && !column.nullable ==> field_mode(column, false)
            == ColumnMode::Required,
{
}

/// The fields are the columns in table order, numbered from one, and behind them the change type and,
/// for change rows only, the ordering key; those two are required texts.
pub proof fn law_fields_follow_the_columns(columns: Seq<ColumnSchema>)
    ensures
        ({
            let copied = descriptor_fields(columns, false);
            let changed = descriptor_fields(columns, true);
            let n = columns.len() as int;
            &&& copied.len() == n + 1
            &&& changed.len() == n + 2
            &&& forall|i: int| 0 <= i < copied.len() ==> (#[trigger] copied[i]).number == i + 1
            &&& forall|i: int| 0 <= i < changed.len() ==> (#[trigger] changed[i]).number == i + 1
            &&& forall|i: int|
                0 <= i < n ==> (#[trigger] copied[i]).name == columns[i].name@ && copied[i].typ
                    == field_type(columns[i].typ) && copied[i].mode == field_mode(columns[i], false)
            &&& forall|i: int|
                0 <= i < n ==> (#[trigger] changed[i]).name == columns[i].name@ && changed[i].typ
                    == field_type(columns[i].typ) && changed[i].mode == field_mode(columns[i], true)
            &&& copied[n].name == "_CHANGE_TYPE"@
            &&& changed[n].name == "_CHANGE_TYPE"@
            &&& changed[n + 1].name == "_CHANGE_SEQUENCE_NUMBER"@
            &&& copied[n].typ == ColumnType::String && copied[n].mode == ColumnMode::Required
            &&& changed[n].typ == ColumnType::String && changed[n].mode == ColumnMode::Required
            &&& changed[n + 1].typ == ColumnType::String && changed[n + 1].mode
                == ColumnMode::Required
        }),
{
}

/// An identifier is refused if and only if it is empty or holds a control character. What is not
/// refused reads back between backticks.
pub proof fn law_identifiers_are_plain_texts(s: Seq<char>, context: Seq<char>)
    ensures
        identifier(s, context) is Err <==> s.len() == 0 || exists|i: int|
            0 <= i < s.len() && (32 > (#[trigger] s[i]) as int || 127 <= s[i] as int <= 159),
        identifier(s, context) matches Err(e) ==> e.kind == ErrorKind::DestinationTableNameInvalid,
        identifier(s, context) matches Ok(name) ==> unescaped(name) == s,
{
    law_identifier_reads_back(s);
    assert forall|i: int| 0 <= i < s.len() implies (is_control(#[trigger] s[i]) <==> 32
        > s[i] as int || 127 <= s[i] as int <= 159) by {}
    if identifier(s, context) is Err && s.len() > 0 {
        let i = choose|i: int| 0 <= i < s.len() && is_control(#[trigger] s[i]);
        assert(0 <= i < s.len() && is_control(s[i]));
        assert(32 > s[i] as int || 127 <= s[i] as int <= 159);
    }
}

/// A column's definition is its quoted name and its type; it says `not null` if and only if the column
/// takes no NULL and is no array.
pub proof fn law_column_definitions(column: ColumnSchema)
    ensures
        identifier(column.name@, "BigQuery column name"@) matches Ok(name) ==> {
            let plain = "`"@ + name + "` "@ + bigquery_type(column.typ);
            &&& column.nullable || column.typ.array() ==> column_text(column) == Ok::<
                Seq<char>,
                ErrorModel,
            >(plain)
            &&& !column.nullable && !column.typ.array() ==> column_text(column) == Ok::<
                Seq<char>,
                ErrorModel,
            >(plain + " not null"@)
        },
        identifier(column.name@, "BigQuery column name"@) matches Err(e) ==> column_text(column)
            == Err::<Seq<char>, ErrorModel>(e),
{
    reveal_strlit("");
    match identifier(column.name@, "BigQuery column name"@) {
        Ok(name) => {
            let plain = "`"@ + name + "` "@ + bigquery_type(column.typ);
            assert(plain + ""@ =~= plain);
        },
        Err(e) => {},
    }
}

/// Key columns are named in the order of their places in the key, not of the table.
pub proof fn law_key_columns_are_named_in_key_order(columns: Seq<ColumnSchema>, a: int, b: int)
    requires
        0 <= a < b < key_places(columns, columns.len()).len(),
    ensures
        ({
            let places = key_places(columns, columns.len());
            &&& 0 <= places[a] < columns.len()
            &&& columns[places[a]].primary_key_ordinal_position is Some
            &&& columns[places[b]].primary_key_ordinal_position is Some
            &&& columns[places[a]].primary_key_ordinal_position->Some_0
                <= columns[places[b]].primary_key_ordinal_position->Some_0
        }),
        forall|i: int|
            0 <= i < columns.len() && (#[trigger] columns[i]).primary_key_ordinal_position is Some
                ==> key_places(columns, columns.len()).contains(i),
{
    let places = key_places(columns, columns.len());
    law_key_places_follow_the_key(columns, columns.len());
    assert(places.contains(places[a]));
    assert(places.contains(places[b]));
    assert forall|i: int|
        0 <= i < columns.len() && (
        #[trigger] columns[i]).primary_key_ordinal_position is Some implies places.contains(i) by {
        assert(columns[i].is_key());
    }
}

/// A table's full name is its project, dataset and table between backticks, with dots between them.
pub proof fn law_full_names(project: Seq<char>, dataset: Seq<char>, table: Seq<char>)
    ensures
        full_name(project, dataset, table) matches Ok(name) ==> {
            &&& identifier(project, "BigQuery project id"@) is Ok
            &&& identifier(dataset, "BigQuery dataset id"@) is Ok
            &&& identifier(table, "BigQuery table id"@) is Ok
            &&& name == "`"@ + identifier(project, "BigQuery project id"@)->Ok_0 + "."@
                + identifier(dataset, "BigQuery dataset id"@)->Ok_0 + "."@ + identifier(
                table,
                "BigQuery table id"@,
            )->Ok_0 + "`"@
        },
        full_name(project, dataset, table) is Ok <==> identifier(project, "BigQuery project id"@)
            is Ok && identifier(dataset, "BigQuery dataset id"@) is Ok && identifier(
            table,
            "BigQuery table id"@,
        ) is Ok,
{
}

/// The staleness of a table is given in minutes, and only where it is configured.
pub proof fn law_staleness_is_in_minutes(mins: u16)
    ensures
        staleness_text(Some(mins)) == "options (max_staleness = interval "@ + decimal(mins as nat)
            + " minute)"@,
        staleness_text(None) == Seq::<char>::empty(),
{
    reveal_strlit("");
    assert(staleness_text(None) =~= Seq::<char>::empty());
}

/// A table's columns are defined in table order; behind them stands the clause of its key, if there is
/// one.
pub proof fn law_columns_are_defined_in_order(schema: ReplicatedTableSchema)
    ensures
        columns_text(schema) matches Ok(text) ==> exists|defs: Seq<Seq<char>>|
            defs.len() == schema.columns@.len() && (forall|i: int|
                0 <= i < defs.len() ==> column_text(schema.columns@[i]) == Ok::<
                    Seq<char>,
                    ErrorModel,
                >(#[trigger] defs[i])) && key_clause(schema) is Ok && text == "("@
                + #[trigger] joined(defs, ","@) + (match key_clause(schema)->Ok_0 {
                Some(clause) => clause,
                None => ""@,
            }) + ")"@,
{
    let columns = schema.columns@;
    let results = Seq::new(columns.len(), |i: int| column_text(columns[i]));
    law_first_error_decides(results);
    match columns_text(schema) {
        Ok(text) => {
            let defs = collected(results)->Ok_0;
            assert forall|i: int| 0 <= i < defs.len() implies column_text(columns[i]) == Ok::<
                Seq<char>,
                ErrorModel,
            >(#[trigger] defs[i]) by {
                assert(results[i] == Ok::<Seq<char>, ErrorModel>(defs[i]));
            }
            assert(text == "("@ + joined(defs, ","@) + (match key_clause(schema)->Ok_0 {
                Some(clause) => clause,
                None => ""@,
            }) + ")"@);
        },
        Err(_) => {},
    }
}

/// The clause of a key names the key's columns between backticks, in key order, and says that the key
/// is not enforced; a table without a key has no such clause.
pub proof fn law_keys_are_defined_in_key_order(
    schema: ReplicatedTableSchema,
    names: Seq<Seq<char>>,
)
    requires
        names.len() == key_places(schema.columns@, schema.columns@.len()).len(),
        forall|k: int|
            0 <= k < names.len() ==> identifier(
                schema.columns@[key_places(schema.columns@, schema.columns@.len())[k]].name@,
                "BigQuery primary key column"@,
            ) == Ok::<Seq<char>, ErrorModel>(#[trigger] names[k]),
    ensures
        names.len() == 0 ==> key_clause(schema) == Ok::<Option<Seq<char>>, ErrorModel>(None),
        names.len() > 0 ==> key_clause(schema) == Ok::<Option<Seq<char>>, ErrorModel>(
            Some(
                ", primary key ("@ + joined(
                    Seq::new(names.len(), |k: int| "`"@ + names[k] + "`"@),
                    ","@,
                ) + ") not enforced"@,
            ),
        ),
{
    let columns = schema.columns@;
    let places = key_places(columns, columns.len());
    let results = Seq::new(places.len(), |k: int| quoted_key_name(columns[places[k]]));
    let ticked = Seq::new(names.len(), |k: int| "`"@ + names[k] + "`"@);
    law_first_error_decides(results);
    assert forall|k: int| 0 <= k < results.len() implies (#[trigger] results[k]) == Ok::<
        Seq<char>,
        ErrorModel,
    >(ticked[k]) by {
        assert(identifier(columns[places[k]].name@, "BigQuery primary key column"@) == Ok::<
            Seq<char>,
            ErrorModel,
        >(names[k]));
    }
    let texts = collected(results)->Ok_0;
    assert(collected(results) is Ok);
    assert forall|k: int| 0 <= k < texts.len() implies #[trigger] texts[k] == ticked[k] by {
        assert(results[k] == Ok::<Seq<char>, ErrorModel>(texts[k]));
    }
    assert(texts =~= ticked);
}

/// A statement about a table holds its full name between its head and its tail; one that creates a table
/// holds its columns and its staleness as well.
pub proof fn law_statements_hold_the_full_name(
    head: Seq<char>,
    name: Seq<char>,
    tail: Seq<char>,
    schema: ReplicatedTableSchema,
    mins: Option<u16>,
)
    ensures
        about_table(head, Ok(name), tail) == Ok::<Seq<char>, ErrorModel>(head + name + tail),
        columns_text(schema) matches Ok(columns) ==> create_text(head, Ok(name), schema, mins)
            == Ok::<Seq<char>, ErrorModel>(
            head + name + " "@ + columns + " "@ + staleness_text(mins),
        ),
        columns_text(schema) matches Err(e) ==> create_text(head, Ok(name), schema, mins) == Err::<
            Seq<char>,
            ErrorModel,
        >(e),
{
}

/// A lookup finds a table if it was answered, does not find it by the answer 404, and does not say
/// otherwise. A table that is there is not created again.
pub proof fn law_lookups_tell_of_tables(
    client: &BigQueryClient,
    lookup: &Result<(), BigQueryError>,
    dataset: &BigQueryDatasetId,
    table: &BigQueryTableId,
    schema: &ReplicatedTableSchema,
    mins: Option<u16>,
    exists: EtlResult<bool>,
    created: EtlResult<Option<String>>,
)
    requires
        call_ensures(BigQueryClient::table_exists, (lookup,), exists),
        call_ensures(
            BigQueryClient::create_table_if_missing,
            (client, lookup, dataset, table, schema, mins),
            created,
        ),
    ensures
        lookup is Ok ==> exists == Ok::<bool, EtlError>(true) && created matches Ok(None),
        lookup matches Err(e) ==> (e.cause == (BigQueryCause::ResponseError { code: 404 })
            ==> exists == Ok::<bool, EtlError>(false) && !(created matches Ok(None))),
        lookup matches Err(e) ==> (e.cause != (BigQueryCause::ResponseError { code: 404 })
            ==> exists is Err && created is Err),
        table_missing(*lookup) <==> (lookup matches Err(e) && e.cause == (
        BigQueryCause::ResponseError { code: 404 })),
{
}

/// Whatever text is returned for a type, it is the type's name; dates, times and timestamps stay apart.
pub proof fn law_returned_types_have_these_names(typ: &Type, r: String)
    requires
        call_ensures(BigQueryClient::postgres_to_bigquery_type, (typ,), r),
    ensures
        *typ == Type::DATE ==> r@ == "date"@,
        *typ == Type::TIME ==> r@ == "time"@,
        *typ == Type::TIMESTAMP ==> r@ == "timestamp"@,
        *typ == Type::TIMESTAMPTZ ==> r@ == "timestamp"@,
        *typ == Type::JSON || *typ == Type::JSONB ==> r@ == "json"@,
        *typ == Type::NUMERIC ==> r@ == "bignumeric"@,
        *typ == Type::BYTEA ==> r@ == "bytes"@,
        *typ == Type::BOOL ==> r@ == "bool"@,
        *typ == Type::INT2 || *typ == Type::INT4 || *typ == Type::INT8 || *typ == Type::OID ==> r@
            == "int64"@,
        *typ == Type::FLOAT4 || *typ == Type::FLOAT8 ==> r@ == "float64"@,
        *typ == Type::TEXT || *typ == Type::VARCHAR || *typ == Type::UUID ==> r@ == "string"@,
        *typ == Type::DATE_ARRAY ==> r@ == "array<"@ + "date"@ + ">"@,
        *typ == Type::TIME_ARRAY ==> r@ == "array<"@ + "time"@ + ">"@,
        *typ == Type::INT4_ARRAY ==> r@ == "array<"@ + "int64"@ + ">"@,
{
}

/// Columns are added with their type, dropped and renamed by their quoted names; a view selects all of
/// its table.
pub proof fn law_statements_change_columns(
    client: &BigQueryClient,
    dataset: &BigQueryDatasetId,
    table: &BigQueryTableId,
    column: &ColumnSchema,
    name: &str,
    other: &str,
    added: EtlResult<String>,
    dropped: EtlResult<String>,
    renamed: EtlResult<String>,
    view: EtlResult<String>,
)
    requires
        call_ensures(BigQueryClient::add_column, (client, dataset, table, column), added),
        call_ensures(BigQueryClient::drop_column, (client, dataset, table, name), dropped),
        call_ensures(BigQueryClient::rename_column, (client, dataset, table, name, other), renamed),
        call_ensures(BigQueryClient::create_or_replace_view, (client, dataset, table, table), view),
    ensures
        full_name(client.project_id@, dataset@, table@) matches Ok(full) ==> {
            &&& identifier(column.name@, "BigQuery column name"@) matches Ok(c) ==> (added matches Ok(
                text,
            ) && text@ == "alter table "@ + full + " add column `"@ + c + "` "@ + bigquery_type(
                column.typ,
            ))
            &&& identifier(name@, "BigQuery column name"@) matches Ok(c) ==> (dropped matches Ok(
                text,
            ) && text@ == "alter table "@ + full + " drop column `"@ + c + "`"@)
            &&& identifier(name@, "BigQuery column name"@) matches Ok(c) ==> (identifier(
                other@,
                "BigQuery column name"@,
            ) matches Ok(d) ==> (renamed matches Ok(text) && text@ == "alter table "@ + full
                + " rename column `"@ + c + "` to `"@ + d + "`"@))
            &&& view matches Ok(text) && text@ == "create or replace view "@ + full
                + " as select * from "@ + full + ""@
        },
        full_name(client.project_id@, dataset@, table@) is Err ==> added is Err && dropped is Err
            && renamed is Err && view is Err,
{
}

/// Tables are emptied and dropped by their full name, and their versions are listed by it.
pub proof fn law_statements_about_tables(
    client: &BigQueryClient,
    dataset: &BigQueryDatasetId,
    table: &BigQueryTableId,
    truncated: EtlResult<String>,
    dropped: EtlResult<String>,
    dropped_view: EtlResult<String>,
    prefix: String,
)
    requires
        call_ensures(BigQueryClient::truncate_table, (client, dataset, table), truncated),
        call_ensures(BigQueryClient::drop_table_if_exists, (client, dataset, table), dropped),
        call_ensures(BigQueryClient::drop_view_if_exists, (client, dataset, table), dropped_view),
        call_ensures(BigQueryClient::version_prefix, (table,), prefix),
    ensures
        prefix@ == table@ + "_"@,
        full_name(client.project_id@, dataset@, table@) matches Ok(full) ==> {
            &&& truncated matches Ok(text) && text@ == "truncate table "@ + full + ""@
            &&& dropped matches Ok(text) && text@ == "drop table if exists "@ + full + ""@
            &&& dropped_view matches Ok(text) && text@ == "drop view if exists "@ + full + ""@
        },
{
}

/// A replaced table is fresh if and only if it was missing before; a lookup that does not say is handed
/// on.
pub proof fn law_replaced_tables_are_fresh_if_missing(
    client: &BigQueryClient,
    lookup: &Result<(), BigQueryError>,
    dataset: &BigQueryDatasetId,
    table: &BigQueryTableId,
    schema: &ReplicatedTableSchema,
    mins: Option<u16>,
    replaced: EtlResult<(String, bool)>,
    created: EtlResult<String>,
    exists_now: EtlResult<bool>,
)
    requires
        call_ensures(
            BigQueryClient::create_or_replace_table,
            (client, lookup, dataset, table, schema, mins),
            replaced,
        ),
        call_ensures(BigQueryClient::create_table, (client, dataset, table, schema, mins), created),
        call_ensures(BigQueryClient::dataset_exists, (lookup,), exists_now),
    ensures
        lookup is Ok ==> exists_now == Ok::<bool, EtlError>(true),
        lookup matches Err(e) ==> (e.cause == (BigQueryCause::ResponseError { code: 404 })
            <==> exists_now == Ok::<bool, EtlError>(false)),
        replaced matches Ok(r) ==> (r.1 <==> lookup is Err),
        replaced is Ok ==> exists_now is Ok,
        exists_now is Ok ==> (replaced is Ok <==> created is Ok),
        columns_text(*schema) is Ok && full_name(client.project_id@, dataset@, table@) is Ok ==> (
        created matches Ok(text) && text@ == "create table "@ + full_name(
            client.project_id@,
            dataset@,
            table@,
        )->Ok_0 + " "@ + columns_text(*schema)->Ok_0 + " "@ + staleness_text(mins)),
        columns_text(*schema) is Ok && full_name(client.project_id@, dataset@, table@) is Ok
            && exists_now is Ok ==> (replaced matches Ok(r) && r.0@ == "create or replace table "@
            + full_name(client.project_id@, dataset@, table@)->Ok_0 + " "@ + columns_text(
            *schema,
        )->Ok_0 + " "@ + staleness_text(mins)),
{
}

} // verus!
