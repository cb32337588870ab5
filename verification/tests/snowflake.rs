//! Snowflake: rows, batches, channels, statements and passes.
use std::collections::VecDeque;

use etl_destinations::cell::{
    ArrayCell, Cell, Date, Float, PgNumeric, TableRow, Time, Timestamp, Uuid,
};
use etl_destinations::error::ErrorKind;
use etl_destinations::event::{
    DeleteEvent, Event, InsertEvent, OldTableRow, PgLsn, RelationEvent, TruncateEvent,
    UpdateEvent, UpdatedTableRow,
};
use etl_destinations::schema::{
    ColumnRename, ColumnSchema, DestinationTableMetadata, IdentityType, ReplicatedTableSchema,
    SchemaDiff, TableId, TableName, Type,
};
use etl_destinations::snowflake::client::Client;
use etl_destinations::snowflake::config::{account_url_of, Config};
use etl_destinations::snowflake::destination::{
    missing_schema_failure, relation_changes_schema, snowflake_table_name, table_to_prepare,
    Accumulated, Accumulator, Destination, EventStep, RelationAction,
};
use etl_destinations::snowflake::encoding::{serialize_row, CdcMeta, CdcOperation};
use etl_destinations::snowflake::error::{refusal, Error, HttpStatus};
use etl_destinations::snowflake::schema::{
    build_column_defs, quote_identifier, snowflake_type_of, validate_no_cdc_collisions,
};
use etl_destinations::snowflake::sql_client::{
    accepted_handle, classify_for_retry, failed_statement, like_pattern, on_poll_response,
    on_statement_response, refused, AttemptStep, Poll, ResponseAction, RetryDecision, SqlClient,
    StatementAction, StatementAnswer, StatementEvent, StatementResponse, StatementRun,
};
use etl_destinations::snowflake::streaming::batch::{
    finish_failure, flush_failure, needs_flush, needs_split, within_limit, write_failure, RowBatch,
    RowBatchBuilder, MAX_COMPRESSED_BYTES, MAX_UNCOMPRESSED_ROW_BYTES,
};
use etl_destinations::snowflake::streaming::channel::{
    is_stale_channel, BatchRun, ChannelAction, ChannelEvent, ChannelHandle,
    ChannelStatusResponse, InsertRowsResponse, OpenChannelResponse,
};
use etl_destinations::snowflake::streaming::channel_map::ChannelMap;
use etl_destinations::snowflake::streaming::offset_token::OffsetToken;
use etl_destinations::snowflake::test_utils::{load_test_config, query_rows};
use etl_destinations::time::Duration;
use serde_json::Value;

fn col(name: &str) -> ColumnSchema {
    ColumnSchema::new(name.to_owned(), Type::TEXT, -1, 1, None, true)
}

fn push_single_cell(cell: Cell) -> Result<Value, Error> {
    let cols = [col("v")];
    let mut buf = Vec::new();

    let row = TableRow::new(vec![cell]);
    serialize_row(&mut buf, &cols, &row, CdcMeta::new(CdcOperation::Insert, "0"))?;

    let line = std::str::from_utf8(&buf).unwrap().trim();
    let map: serde_json::Map<String, Value> = serde_json::from_str(line).unwrap();

    Ok(map.get("v").unwrap().clone())
}

fn json(text: &str) -> Value {
    serde_json::from_str(text).unwrap()
}

fn finite(value: f64) -> Float {
    Float::Finite(serde_json::to_string(&value).unwrap())
}

fn date() -> Date {
    Date::from_ymd_opt(2026, 4, 29).unwrap()
}

#[test]
fn cell_serialization_ok() {
    let t = Time::from_hms_nano_opt(10, 30, 0, 123_456_000).unwrap();
    let shown_time = chrono::NaiveTime::from_hms_micro_opt(10, 30, 0, 123456)
        .unwrap()
        .format("%H:%M:%S%.f")
        .to_string();
    let whole = Time::from_hms_nano_opt(10, 30, 0, 0).unwrap();
    let shown_instant = chrono::NaiveDate::from_ymd_opt(2026, 4, 29)
        .unwrap()
        .and_hms_opt(10, 30, 0)
        .unwrap()
        .and_utc()
        .format("%Y-%m-%d %H:%M:%S%.f%:z")
        .to_string();

    let cases: Vec<(Cell, Value)> = vec![
        (Cell::Null, Value::Null),
        (Cell::Bool(true), Value::Bool(true)),
        (Cell::Bool(false), Value::Bool(false)),
        (Cell::String("hello".into()), Value::from("hello")),
        (Cell::I16(42), Value::from(42i16)),
        (Cell::I32(i32::MAX), Value::from(i32::MAX)),
        (Cell::U32(u32::MAX), Value::from(u32::MAX)),
        (Cell::I64(i64::MAX), Value::from(i64::MAX)),
        (Cell::F32(finite(1.5)), Value::from(1.5f64)),
        (Cell::F64(finite(2.5)), Value::from(2.5)),
        (Cell::Numeric(PgNumeric::Value("0".into())), Value::from("0")),
        (Cell::Date(date()), Value::from("2026-04-29")),
        (Cell::Time(t), Value::from(shown_time.clone())),
        (
            Cell::Timestamp(Timestamp { date: date(), time: t }),
            Value::from(format!("2026-04-29 {shown_time}")),
        ),
        (
            Cell::TimestampTz(Timestamp { date: date(), time: whole }),
            Value::from(shown_instant),
        ),
        (Cell::Uuid(Uuid(0)), Value::from("00000000-0000-0000-0000-000000000000")),
        (Cell::Json("{\"key\":[1,2,3]}".into()), json("{\"key\": [1, 2, 3]}")),
        (Cell::Bytes(vec![0xDE, 0xAD, 0xBE, 0xEF]), Value::from("deadbeef")),
    ];
    for (cell, expected) in cases {
        let dbg = format!("{cell:?}");
        assert_eq!(push_single_cell(cell).unwrap(), expected, "cell: {dbg}");
    }
}

#[test]
fn rejects_non_finite() {
    let cases: Vec<Cell> = vec![
        Cell::F64(Float::Nan),
        Cell::F64(Float::Infinity),
        Cell::F64(Float::NegInfinity),
        Cell::F32(Float::Nan),
        Cell::F32(Float::Infinity),
        Cell::F32(Float::NegInfinity),
        Cell::Numeric(PgNumeric::NaN),
        Cell::Numeric(PgNumeric::PositiveInfinity),
        Cell::Numeric(PgNumeric::NegativeInfinity),
    ];
    for cell in cases {
        let dbg = format!("{cell:?}");
        assert!(push_single_cell(cell).is_err(), "should reject: {dbg}");
    }
}

#[test]
fn array_serialization_ok() {
    let cases: Vec<(Cell, Value)> = vec![
        (Cell::Array(ArrayCell::I32(vec![Some(1), None, Some(3)])), json("[1, null, 3]")),
        (Cell::Array(ArrayCell::I32(vec![])), json("[]")),
        (Cell::Array(ArrayCell::Bool(vec![Some(true), None])), json("[true, null]")),
        (Cell::Array(ArrayCell::String(vec![Some("a".into()), None])), json("[\"a\", null]")),
        (Cell::Array(ArrayCell::Bytes(vec![Some(vec![0xFF]), None])), json("[\"ff\", null]")),
        (
            Cell::Array(ArrayCell::Uuid(vec![Some(Uuid(0))])),
            json("[\"00000000-0000-0000-0000-000000000000\"]"),
        ),
        (Cell::Array(ArrayCell::Json(vec![Some("1".into()), None])), json("[1, null]")),
        (
            Cell::Array(ArrayCell::F64(vec![Some(finite(1.5)), None, Some(finite(2.5))])),
            json("[1.5, null, 2.5]"),
        ),
        (
            Cell::Array(ArrayCell::Date(vec![Some(date()), None])),
            json("[\"2026-04-29\", null]"),
        ),
    ];
    for (cell, expected) in cases {
        let dbg = format!("{cell:?}");
        assert_eq!(push_single_cell(cell).unwrap(), expected, "cell: {dbg}");
    }
}

#[test]
fn array_rejects_non_finite() {
    let cases: Vec<Cell> = vec![
        Cell::Array(ArrayCell::F64(vec![Some(Float::Nan)])),
        Cell::Array(ArrayCell::F32(vec![Some(Float::Infinity)])),
        Cell::Array(ArrayCell::Numeric(vec![Some(PgNumeric::NaN)])),
    ];
    for cell in cases {
        let dbg = format!("{cell:?}");
        assert!(push_single_cell(cell).is_err(), "should reject: {dbg}");
    }
}

#[test]
fn multi_column_row() {
    let cols = [col("id"), col("name")];
    let mut buf = Vec::new();
    let row = TableRow::new(vec![Cell::I32(1), Cell::String("hello".into())]);
    serialize_row(&mut buf, &cols, &row, CdcMeta::new(CdcOperation::Insert, "0")).unwrap();

    let line = std::str::from_utf8(&buf).unwrap().trim();
    let map: serde_json::Map<String, Value> = serde_json::from_str(line).unwrap();
    assert_eq!(map.get("id").unwrap(), &json("1"));
    assert_eq!(map.get("name").unwrap(), &json("\"hello\""));
}

#[test]
fn multi_row_ndjson() {
    let cols = [col("id")];
    let mut buf = Vec::new();

    serialize_row(
        &mut buf,
        &cols,
        &TableRow::new(vec![Cell::I32(1)]),
        CdcMeta::new(CdcOperation::Insert, "0"),
    )
    .unwrap();
    serialize_row(
        &mut buf,
        &cols,
        &TableRow::new(vec![Cell::I32(2)]),
        CdcMeta::new(CdcOperation::Insert, "0"),
    )
    .unwrap();

    let text = std::str::from_utf8(&buf).unwrap();
    let lines: Vec<&str> = text.trim_end().split('\n').collect();
    assert_eq!(lines.len(), 2);
    let v0: Value = serde_json::from_str(lines[0]).unwrap();
    assert_eq!(v0["id"], json("1"));
    let v1: Value = serde_json::from_str(lines[1]).unwrap();
    assert_eq!(v1["id"], json("2"));
}

#[test]
fn cdc_columns() {
    let cols = [col("id"), col("name")];
    let mut buf = Vec::new();

    let row = TableRow::new(vec![Cell::I32(1), Cell::String("Alice".into())]);
    serialize_row(&mut buf, &cols, &row, CdcMeta::new(CdcOperation::Insert, "0000/0000")).unwrap();

    let line = std::str::from_utf8(&buf).unwrap().trim();
    let map: serde_json::Map<String, Value> = serde_json::from_str(line).unwrap();
    assert_eq!(map.get("id").unwrap(), &json("1"));
    assert_eq!(map.get("name").unwrap(), &json("\"Alice\""));
    assert_eq!(map.get("_cdc_operation").unwrap(), &json("\"insert\""));
    assert_eq!(map.get("_cdc_sequence_number").unwrap(), &json("\"0000/0000\""));
}

#[test]
fn lines_are_compact_and_escape_their_texts() {
    let mut buf = Vec::new();
    let row = TableRow::new(vec![Cell::String("a\nb\"c".into()), Cell::I64(i64::MIN)]);
    let cols = [col("x"), col("y")];
    serialize_row(&mut buf, &cols, &row, CdcMeta::new(CdcOperation::Delete, "s")).unwrap();
    assert_eq!(
        std::str::from_utf8(&buf).unwrap(),
        "{\"x\":\"a\\nb\\\"c\",\"y\":-9223372036854775808,\"_cdc_operation\":\"delete\",\
         \"_cdc_sequence_number\":\"s\"}\n"
    );
}

#[test]
fn type_mapping() {
    let cases: &[(&Type, &str)] = &[
        // Scalars
        (&Type::BOOL, "BOOLEAN"),
        (&Type::CHAR, "VARCHAR"),
        (&Type::BPCHAR, "VARCHAR"),
        (&Type::VARCHAR, "VARCHAR"),
        (&Type::NAME, "VARCHAR"),
        (&Type::TEXT, "VARCHAR"),
        (&Type::INT2, "SMALLINT"),
        (&Type::INT4, "INTEGER"),
        (&Type::INT8, "BIGINT"),
        (&Type::FLOAT4, "FLOAT"),
        (&Type::FLOAT8, "DOUBLE"),
        (&Type::NUMERIC, "VARCHAR"),
        (&Type::DATE, "DATE"),
        (&Type::TIME, "TIME"),
        (&Type::TIMESTAMP, "TIMESTAMP_NTZ"),
        (&Type::TIMESTAMPTZ, "TIMESTAMP_TZ"),
        (&Type::UUID, "VARCHAR"),
        (&Type::JSON, "VARIANT"),
        (&Type::JSONB, "VARIANT"),
        (&Type::OID, "BIGINT"),
        (&Type::BYTEA, "VARCHAR"),
        // Arrays all map to VARIANT
        (&Type::BOOL_ARRAY, "ARRAY"),
        (&Type::INT4_ARRAY, "ARRAY"),
        (&Type::TEXT_ARRAY, "ARRAY"),
        (&Type::JSONB_ARRAY, "ARRAY"),
        (&Type::BYTEA_ARRAY, "ARRAY"),
        // Unknown falls back to VARCHAR
        (&Type::BIT, "VARCHAR"),
    ];
    for (typ, expected) in cases {
        assert_eq!(snowflake_type_of(typ), *expected, "type: {typ:?}");
    }
}

#[test]
fn cdc_collision_validation() {
    let cases: &[(&[&str], bool)] = &[
        (&["id", "_cdc_operation"], true),
        (&["id", "_cdc_sequence_number"], true),
        (&["_cdc_operation", "_cdc_sequence_number"], true),
        (&["id", "name", "_custom_cdc"], false),
    ];
    for (col_names, should_err) in cases {
        let columns: Vec<_> = col_names.iter().map(|n| col(n)).collect();
        assert_eq!(
            validate_no_cdc_collisions(&columns).is_err(),
            *should_err,
            "columns: {col_names:?}"
        );
    }
}

#[test]
fn quote_identifier_cases() {
    let cases = [("my_table", r#""my_table""#), (r#"my"table"#, r#""my""table""#), ("", r#""""#)];
    for (input, expected) in cases {
        assert_eq!(quote_identifier(input), expected, "input: {input:?}");
    }
}

#[test]
fn build_column_defs_output() {
    let columns = vec![
        ColumnSchema::new("id".to_owned(), Type::INT4, -1, 1, None, true),
        ColumnSchema::new("created_at".to_owned(), Type::TIMESTAMPTZ, -1, 2, None, true),
    ];
    let defs = build_column_defs(&columns);
    assert_eq!(
        defs,
        r#""id" INTEGER, "created_at" TIMESTAMP_TZ, "_cdc_operation" VARCHAR NOT NULL, "_cdc_sequence_number" VARCHAR NOT NULL"#
    );
}

fn http(code: u16) -> Error {
    Error::HttpStatus { status: HttpStatus::from_u16(code).unwrap(), body: String::new() }
}

#[test]
fn classify_for_retry_cases() {
    let cases = [
        (http(500), RetryDecision::Retry),
        (http(429), RetryDecision::Retry),
        (http(408), RetryDecision::Retry),
        (http(400), RetryDecision::Stop),
        (Error::Sql { statement_handle: None, message: String::new() }, RetryDecision::Stop),
    ];
    for (error, expected) in cases {
        assert_eq!(classify_for_retry(&error), expected, "error: {error:?}");
    }
    let transport = Error::HttpTransport("reset".to_owned());
    assert_eq!(classify_for_retry(&transport), RetryDecision::Retry);
}

fn incompressible_string(len: usize, seed: u64) -> String {
    let mut s = String::with_capacity(len);
    let mut state = seed;
    for _ in 0..len {
        state = state.wrapping_mul(6364136223846793005).wrapping_add(1442695040888963407);
        let ch = (state >> 33) as u8 % 94 + 33;
        s.push(ch as char);
    }
    s
}

fn decoded_lines(batch: &RowBatch) -> Vec<String> {
    let decompressed = zstd::decode_all(batch.bytes().as_ref()).unwrap();
    let text = String::from_utf8(decompressed).unwrap();
    text.trim_end().split('\n').map(|line| line.to_owned()).collect()
}

#[test]
fn single_batch() {
    let cols = [col("id"), col("name")];
    let mut builder = RowBatchBuilder::new();

    for i in 0..10 {
        let row = TableRow::new(vec![Cell::I32(i), Cell::String(format!("row_{i}"))]);
        let offset = OffsetToken::zero();
        builder.push_row(&cols, &row, CdcMeta::new(CdcOperation::Insert, "0"), &offset).unwrap();
    }

    let batches = builder.finish().unwrap();
    assert_eq!(batches.len(), 1);

    let batch = &batches.first().unwrap();
    assert_eq!(batch.row_count(), 10);
    assert!(batch.size() > 0);
    assert!(batch.size() <= MAX_COMPRESSED_BYTES);

    let lines = decoded_lines(batch);
    assert_eq!(lines.len(), 10);
    for line in &lines {
        serde_json::from_str::<Value>(line).expect("valid JSON");
    }
}

#[test]
fn empty_builder() {
    let builder = RowBatchBuilder::new();
    let batches = builder.finish().unwrap();
    assert!(batches.is_empty());
    assert_eq!(batches.len(), 0);
}

#[test]
fn batch_splitting() {
    let cols = [col("data")];
    let mut builder = RowBatchBuilder::new();

    for i in 0..100 {
        let value = incompressible_string(100_000, i as u64);
        let row = TableRow::new(vec![Cell::String(value)]);
        let offset = OffsetToken::zero();
        builder
            .push_row(&cols, &row, CdcMeta::new(CdcOperation::Insert, &format!("{i}")), &offset)
            .unwrap();
    }

    let batches = builder.finish().unwrap();
    assert!(batches.len() > 1, "expected multiple batches, got {}", batches.len());

    for batch in &batches {
        assert!(batch.size() <= MAX_COMPRESSED_BYTES, "batch exceeds hard limit: {}", batch.size());
        assert!(batch.row_count() > 0);

        assert_eq!(decoded_lines(batch).len(), batch.row_count());
    }
}

#[test]
fn oversized_row_rejected() {
    let cols = [col("data")];
    let mut builder = RowBatchBuilder::new();

    let huge_value = "x".repeat(MAX_UNCOMPRESSED_ROW_BYTES + 1);
    let row = TableRow::new(vec![Cell::String(huge_value)]);
    let err = builder
        .push_row(&cols, &row, CdcMeta::new(CdcOperation::Insert, "0"), &OffsetToken::zero())
        .unwrap_err();

    assert!(matches!(err, Error::Encoding(msg) if msg.contains("limit")));
}

#[test]
fn offset_tracks_last_row() {
    let cols = [col("id")];
    let mut builder = RowBatchBuilder::new();

    let offsets = ["0000000000000001/0000000000000000", "0000000000000002/0000000000000000"];
    for token_str in &offsets {
        let row = TableRow::new(vec![Cell::I32(1)]);
        let offset: OffsetToken = token_str.parse().unwrap();
        builder.push_row(&cols, &row, CdcMeta::new(CdcOperation::Insert, "0"), &offset).unwrap();
    }

    let batches = builder.finish().unwrap();
    assert_eq!(batches.len(), 1);
    assert_eq!(batches.first().unwrap().offset().as_str(), offsets[1]);
}

#[test]
fn flushes_and_splits_depend_on_sizes() {
    assert!(!needs_flush(0, 131_071));
    assert!(needs_flush(1, 131_071));
    assert!(!needs_split(0, 4_000_000, 1));
    assert!(!needs_split(1, 3_799_999, 1));
    assert!(needs_split(1, 3_800_000, 1));
}

#[test]
fn offset_tokens_tell_their_position() {
    let token = OffsetToken::new(PgLsn(0xabc), 7);
    assert_eq!(token.as_str(), "0000000000000abc/0000000000000007");
    let (lsn, ordinal) = token.decode().unwrap();
    assert_eq!((lsn.0, ordinal), (0xabc, 7));
    assert_eq!(OffsetToken::default().as_str(), "0000000000000000/0000000000000000");
    for bad in ["none", "x/1", "1/"] {
        let error = bad.parse::<OffsetToken>().unwrap_err();
        assert!(matches!(error, Error::Channel(_)), "{bad}");
    }
}

#[test]
fn account_urls_are_uppercase() {
    let config = Config::new("org-acct", "user", "db", "public").with_role("loader");
    assert_eq!(config.account_url(), "https://ORG-ACCT.snowflakecomputing.com");
    assert_eq!(account_url_of("A"), "https://A.snowflakecomputing.com");
    assert_eq!(config.database(), "db");
    assert_eq!(config.schema(), "public");
    assert_eq!(config.role.as_deref(), Some("loader"));
}

#[test]
fn errors_read_as_sentences() {
    assert_eq!(http(404).to_text(), "HTTP status 404 Not Found: ");
    assert_eq!(http(503).to_etl_error().description(), Some("Snowflake server error"));
    assert_eq!(http(404).to_etl_error().description(), Some("Snowflake HTTP error"));
    let sql = Error::Sql { statement_handle: Some("h".to_owned()), message: "no".to_owned() };
    assert_eq!(sql.to_text(), "SQL error (handle h): no");
    let encoding = Error::Encoding("bad".to_owned()).to_etl_error();
    assert_eq!(encoding.kind(), ErrorKind::InvalidData);
    assert_eq!(encoding.detail(), Some("Encoding error: bad"));
    assert_eq!(Error::Config("c".to_owned()).to_etl_error().kind(), ErrorKind::ConfigError);
    assert_eq!(
        Error::Snowpipe { status_code: 4, message: "m".to_owned() }.to_text(),
        "Snowpipe error (code 4): m"
    );
    assert_eq!(Error::Auth("a".to_owned()).to_text(), "Authentication error: a");
    assert!(HttpStatus::from_u16(99).is_none());
}

fn client() -> Client {
    Client::new(Config::new("acct", "user", "db", "public"), 9)
}

#[test]
fn statements_name_their_table_in_full() {
    let sql = client().sql_client;
    assert_eq!(sql.truncate_table("T"), "TRUNCATE TABLE \"db\".\"public\".\"T\"");
    assert_eq!(sql.drop_table("T"), "DROP TABLE IF EXISTS \"db\".\"public\".\"T\"");
    assert_eq!(
        sql.add_column("T", "a", "DATE"),
        "ALTER TABLE \"db\".\"public\".\"T\" ADD COLUMN \"a\" DATE"
    );
    assert_eq!(
        sql.show_table("A_b'c%\\"),
        "SHOW TABLES LIKE 'A\\_b''c\\%\\\\' IN SCHEMA \"db\".\"public\""
    );
    assert_eq!(like_pattern("plain"), "plain");
    assert_eq!(
        sql.statement_url("h"),
        "https://ACCT.snowflakecomputing.com/api/v2/statements/h"
    );
    assert_eq!(
        sql.statements_url(),
        "https://ACCT.snowflakecomputing.com/api/v2/statements"
    );
}

fn response(handle: Option<&str>, message: Option<&str>) -> StatementResponse {
    StatementResponse {
        statement_handle: handle.map(|h| h.to_owned()),
        message: message.map(|m| m.to_owned()),
        data: None,
    }
}

#[test]
fn answers_decide_what_is_done() {
    let status = |code| HttpStatus::from_u16(code).unwrap();
    assert_eq!(on_statement_response(status(200), false), ResponseAction::Return);
    assert_eq!(on_statement_response(status(202), false), ResponseAction::Poll);
    assert_eq!(on_statement_response(status(422), false), ResponseAction::SqlError);
    assert_eq!(on_statement_response(status(401), false), ResponseAction::RenewToken);
    assert_eq!(on_statement_response(status(401), true), ResponseAction::HttpError);
    assert_eq!(on_poll_response(status(429)), ResponseAction::Wait);
    assert_eq!(on_poll_response(status(404)), ResponseAction::HttpError);
    assert_eq!(accepted_handle(response(Some("h"), None)).unwrap(), "h");
    assert!(accepted_handle(response(None, None)).is_err());
    assert_eq!(failed_statement(response(None, Some("no"))).to_text(), "SQL error: no");
    assert_eq!(refused(status(400), "b".to_owned()).to_text(), "HTTP status 400 Bad Request: b");
    let mut listed = response(None, None);
    assert!(!SqlClient::table_exists(&listed));
    listed.data = Some(vec![vec!["1".to_owned()]]);
    assert!(SqlClient::table_exists(&listed));
}

#[test]
fn polls_wait_longer_until_the_deadline() {
    let mut poll = Poll::new();
    assert_eq!(poll.next("h", Duration::from_secs(0)).unwrap(), Duration::from_millis(100));
    assert_eq!(poll.next("h", Duration::from_secs(1)).unwrap(), Duration::from_millis(200));
    for _ in 0..10 {
        poll.next("h", Duration::from_secs(2)).unwrap();
    }
    assert_eq!(poll.next("h", Duration::from_secs(3)).unwrap(), Duration::from_secs(5));
    let error = poll.next("h", Duration::from_secs(30)).unwrap_err();
    assert_eq!(error.to_text(), "SQL error (handle h): statement did not complete within 30s");
}

fn one_batch(token: &OffsetToken) -> RowBatch {
    let mut builder = RowBatchBuilder::new();
    let row = TableRow::new(vec![Cell::I32(1)]);
    builder.push_row(&[col("id")], &row, CdcMeta::new(CdcOperation::Insert, "0"), token).unwrap();
    builder.finish().unwrap().remove(0)
}

#[test]
fn stale_channels_are_reopened_once_per_batch() {
    let gone = || Error::Snowpipe { status_code: 4, message: "gone".to_owned() };
    assert!(is_stale_channel(&gone()));
    assert!(is_stale_channel(&http(404)));
    assert!(!is_stale_channel(&http(500)));

    let token = OffsetToken::new(PgLsn(1), 2);
    let batches = vec![one_batch(&token)];
    let mut handle = ChannelHandle::new(9, "db".to_owned(), "public".to_owned(), "T".to_owned());
    assert_eq!(handle.channel, "supabase_etl_9_public_T_ch0");
    let (_, unopened) = BatchRun::begin(&handle, 1);
    assert!(handle.open(Err(http(500))).is_err());
    assert!(matches!(unopened, ChannelAction::Fail(Error::Channel(_))));

    let opened = |text: &str| OpenChannelResponse {
        continuation_token: text.to_owned(),
        offset_token: None,
    };
    handle.open(Ok(opened("first"))).unwrap();
    let (mut run, action) = BatchRun::begin(&handle, 1);
    assert!(matches!(action, ChannelAction::Insert { batch: 0, continuation_token } if continuation_token == "first"));
    let action = run.on_event(&mut handle, &batches, ChannelEvent::Insert(Err(gone())));
    assert!(matches!(action, ChannelAction::Open));
    let action = run.on_event(&mut handle, &batches, ChannelEvent::Open(Ok(opened("second"))));
    assert!(matches!(action, ChannelAction::Insert { batch: 0, continuation_token } if continuation_token == "second"));
    let inserted = InsertRowsResponse { continuation_token: "third".to_owned() };
    let action = run.on_event(&mut handle, &batches, ChannelEvent::Insert(Ok(inserted)));
    assert!(matches!(action, ChannelAction::Done));
    assert_eq!(handle.continuation_token.as_deref(), Some("third"));
    assert_eq!(handle.last_offset_token, Some(token));

    let (mut run, _) = BatchRun::begin(&handle, 1);
    run.on_event(&mut handle, &batches, ChannelEvent::Insert(Err(gone())));
    run.on_event(&mut handle, &batches, ChannelEvent::Open(Ok(opened("fourth"))));
    let action = run.on_event(&mut handle, &batches, ChannelEvent::Insert(Err(gone())));
    assert!(matches!(action, ChannelAction::Fail(_)));
    assert!(handle.drop_channel(Err(http(500))).is_err());
    assert!(handle.continuation_token.is_some());
    handle.drop_channel(Ok(())).unwrap();
    assert!(handle.continuation_token.is_none());
    handle.reset(Ok(()), Ok(opened("fifth"))).unwrap();
    assert_eq!(handle.continuation_token.as_deref(), Some("fifth"));
    assert!(handle.reset(Ok(()), Err(http(500))).is_err());
    assert!(handle.continuation_token.is_none());
    let status = ChannelStatusResponse {
        channel: "c".to_owned(),
        status_code: "ACTIVE".to_owned(),
        offset_token: Some(OffsetToken::zero()),
    };
    assert_eq!(ChannelHandle::committed_offset(Ok(status)).unwrap(), Some(OffsetToken::zero()));
}

fn schema_of(id: u32, columns: Vec<ColumnSchema>) -> ReplicatedTableSchema {
    ReplicatedTableSchema {
        id: TableId(id),
        name: TableName::new("my_app".to_owned(), "users".to_owned()),
        snapshot_id: "0/1".to_owned(),
        replication_mask: vec![1; columns.len()],
        identity_columns: columns[..1].to_vec(),
        columns,
        omitted_primary_key: vec![],
        identity_type: IdentityType::Full,
        identity_matches_primary_key: false,
    }
}

#[test]
fn tables_are_set_up_once() {
    let mut client = client();
    let columns = vec![col("a")];
    let opened = || OpenChannelResponse { continuation_token: "c".to_owned(), offset_token: None };
    let setup = client.ensure_table(TableId(3), "T", &columns).unwrap().unwrap();
    assert!(setup.create_table.starts_with("CREATE TABLE IF NOT EXISTS \"db\".\"public\".\"T\" ("));
    assert_eq!(setup.handle.channel, "supabase_etl_9_public_T_ch0");
    let reserved = vec![col("_cdc_operation")];
    assert!(matches!(client.ensure_table(TableId(3), "T", &reserved), Err(Error::Config(_))));
    assert_eq!(
        client.truncate_table(TableId(3), "T").unwrap_err().to_text(),
        "Channel error: no open channel for table 3"
    );
    assert!(client.refresh_table(TableId(3), Ok(opened())).is_err());
    client.table_opened(TableId(3), setup.handle, Ok(opened())).unwrap();
    assert!(client.ensure_table(TableId(3), "T", &reserved).unwrap().is_none());
    assert!(client.ensure_table(TableId(4), "U", &columns).unwrap().is_some());
    assert_eq!(
        client.truncate_table(TableId(3), "T").unwrap(),
        "TRUNCATE TABLE \"db\".\"public\".\"T\""
    );
    client.refresh_table(TableId(3), Ok(opened())).unwrap();
    let plan = client.drop_table_for_copy(TableId(3), "T");
    assert_eq!(plan.handle.continuation_token.as_deref(), Some("c"));
    assert_eq!(plan.drop_table, "DROP TABLE IF EXISTS \"db\".\"public\".\"T\"");
    assert!(!client.channels.contains(TableId(3)));
    let plan = client.drop_table_for_copy(TableId(3), "T");
    assert!(plan.handle.continuation_token.is_none());
    assert_eq!(plan.handle.channel, "supabase_etl_9_public_T_ch0");
    assert!(Client::dropped_channel(Err(http(404))).is_ok());
    assert!(Client::dropped_channel(Err(http(500))).is_err());
}

#[test]
fn channels_are_kept_by_table() {
    let mut channels = ChannelMap::new();
    for id in [1, 2, 1] {
        let table = format!("T{id}");
        let handle = ChannelHandle::new(9, "db".to_owned(), "public".to_owned(), table);
        channels.insert(TableId(id), handle);
    }
    assert_eq!(channels.get_channel(TableId(2)).unwrap().table, "T2");
    channels.get_channel_mut(TableId(2)).unwrap().table = "U".to_owned();
    assert_eq!(channels.get_channel(TableId(1)).unwrap().table, "T1");
    assert_eq!(channels.remove(TableId(2)).unwrap().table, "U");
    assert!(channels.remove(TableId(2)).is_none());
    assert!(channels.contains(TableId(1)));
    assert!(channels.get_channel_mut(TableId(2)).is_err());
}

#[test]
fn relations_become_statements() {
    let schema = schema_of(1, vec![col("a"), col("b")]);
    let diff = SchemaDiff {
        columns_to_add: vec![col("n")],
        columns_to_remove: vec![col("o")],
        columns_to_rename: vec![ColumnRename {
            old_name: "p".to_owned(),
            new_name: "q".to_owned(),
            ordinal_position: 1,
        }],
    };
    let recorded = DestinationTableMetadata {
        destination_table_id: "OLD".to_owned(),
        snapshot_id: "0/0".to_owned(),
        replication_mask: vec![1],
        previous_snapshot_id: None,
    };
    let destination = Destination::new(client());
    let plan = destination.handle_relation_event(&schema, &recorded, &diff).unwrap();
    assert_eq!(plan.metadata.destination_table_id, "OLD");
    assert_eq!(plan.metadata.snapshot_id, "0/1");
    assert_eq!(plan.metadata.replication_mask, vec![1, 1]);
    assert_eq!(plan.metadata.previous_snapshot_id.as_deref(), Some("0/0"));
    assert_eq!(
        plan.actions,
        vec![
            RelationAction::StoreApplying,
            RelationAction::Execute(0),
            RelationAction::Execute(1),
            RelationAction::Execute(2),
            RelationAction::StoreApplied,
            RelationAction::Refresh,
        ]
    );
    assert_eq!(plan.table, "MY__APP_USERS");
    assert_eq!(plan.table, snowflake_table_name(&schema).unwrap());
    assert_eq!(plan.statements.len(), 3);
    assert!(plan.statements[0].contains("ADD COLUMN \"n\" VARCHAR"));
    assert!(plan.statements[1].contains("RENAME COLUMN \"p\" TO \"q\""));
    assert!(plan.statements[2].contains("DROP COLUMN \"o\""));
    assert!(plan.collision.is_none());
    let bad = schema_of(1, vec![col("_cdc_operation")]);
    let plan = destination.handle_relation_event(&bad, &recorded, &diff).unwrap();
    assert_eq!(plan.actions.last(), Some(&RelationAction::Fail));
    assert_eq!(plan.collision.unwrap().kind(), ErrorKind::ConfigError);

    let same = DestinationTableMetadata {
        destination_table_id: "T".to_owned(),
        snapshot_id: "0/1".to_owned(),
        replication_mask: vec![1, 1],
        previous_snapshot_id: None,
    };
    assert!(!relation_changes_schema(&schema, Some(&same)).unwrap());
    assert_eq!(
        relation_changes_schema(&schema, None).unwrap_err().detail(),
        Some("No destination table metadata found for table 1 when processing schema change")
    );
    assert_eq!(
        missing_schema_failure(TableId(1), &"0/9".to_owned()).detail(),
        Some("Could not find schema for table 1 at snapshot_id 0/9")
    );
}

#[test]
fn rows_wait_for_their_table() {
    let schema = || schema_of(5, vec![col("id"), col("name")]);
    let row = || TableRow::new(vec![Cell::I32(1), Cell::String("a".into())]);
    let mut events = VecDeque::from(vec![
        Event::Begin,
        Event::Insert(InsertEvent {
            commit_lsn: PgLsn(1),
            tx_ordinal: 0,
            replicated_table_schema: schema(),
            table_row: row(),
        }),
        Event::Delete(DeleteEvent {
            commit_lsn: PgLsn(1),
            tx_ordinal: 1,
            replicated_table_schema: schema(),
            old_table_row: Some(OldTableRow::Key(TableRow::new(vec![Cell::I32(1)]))),
        }),
        Event::Commit,
    ]);
    let mut rows = Accumulator::new();
    assert_eq!(rows.accumulate_data_events(&mut events).unwrap(), Accumulated::PrepareTable);
    assert_eq!(events.len(), 3);
    let prepared = schema();
    assert_eq!(table_to_prepare(&events[0]).unwrap().id, prepared.id);
    rows.ensure_column_cache(&prepared);
    assert_eq!(rows.accumulate_data_events(&mut events).unwrap(), Accumulated::All);
    assert!(events.is_empty());
    let (table, builder) = rows.take_table().unwrap();
    assert_eq!(table, TableId(5));
    assert!(rows.take_table().is_none());
    let batches = builder.finish().unwrap();
    let lines = decoded_lines(&batches[0]);
    assert_eq!(lines.len(), 2);
    assert_eq!(json(&lines[0])["name"], json("\"a\""));
    assert_eq!(json(&lines[1])["_cdc_operation"], json("\"delete\""));
    assert!(json(&lines[1]).get("name").is_none());
    assert_eq!(batches[0].offset().as_str(), "0000000000000001/0000000000000001");
}

#[test]
fn snowflake_refuses_partial_updates_and_infinite_values() {
    let schema = || schema_of(5, vec![col("id")]);
    let mut events = VecDeque::from(vec![Event::Update(UpdateEvent {
        commit_lsn: PgLsn(1),
        tx_ordinal: 0,
        replicated_table_schema: schema(),
        updated_table_row: UpdatedTableRow::Partial(TableRow::new(vec![])),
        old_table_row: None,
    })]);
    let error = Accumulator::new().accumulate_data_events(&mut events).unwrap_err();
    assert_eq!(error.description(), Some("Partial update rows not supported"));

    let columns = vec![col("v")];
    let rows = vec![TableRow::new(vec![Cell::F64(Float::Nan)])];
    let error = Destination::write_table_rows(&columns, &rows).err().unwrap();
    assert_eq!(
        error.detail(),
        Some("Encoding error: Snowflake does not support NaN/Infinity float values: NaN")
    );
    let rows = vec![TableRow::new(vec![Cell::I32(1)]), TableRow::new(vec![Cell::I32(2)])];
    let batches = Destination::write_table_rows(&columns, &rows).unwrap();
    assert_eq!(batches.len(), 1);
    assert_eq!(batches[0].row_count(), 2);
    assert_eq!(batches[0].offset().as_str(), OffsetToken::zero().as_str());
}

#[test]
fn barriers_come_after_the_rows_before_them() {
    let schema = |id| schema_of(id, vec![col("id")]);
    let insert = |id, ordinal| {
        Event::Insert(InsertEvent {
            commit_lsn: PgLsn(1),
            tx_ordinal: ordinal,
            replicated_table_schema: schema(id),
            table_row: TableRow::new(vec![Cell::I32(7)]),
        })
    };
    let events = VecDeque::from(vec![
        insert(5, 0),
        insert(6, 1),
        Event::Relation(RelationEvent { replicated_table_schema: schema(5) }),
        Event::Truncate(TruncateEvent {
            truncated_tables: vec![schema(5), schema(6), schema(5)],
        }),
        insert(5, 3),
    ]);
    let mut run = Destination::process_events(events);
    let mut seen: Vec<String> = Vec::new();
    loop {
        match run.next().unwrap() {
            EventStep::PrepareTable => {
                seen.push("prepare".to_owned());
                run.table_prepared();
            }
            EventStep::Flush(id, builder) => {
                let batches = builder.finish().unwrap();
                seen.push(format!("flush {} {}", id.0, batches[0].row_count()));
            }
            EventStep::Relation(schema) => seen.push(format!("relation {}", schema.id.0)),
            EventStep::Truncate(schema) => seen.push(format!("truncate {}", schema.id.0)),
            EventStep::Turn => {}
            EventStep::Done => {
                break;
            }
        }
    }
    assert_eq!(
        seen,
        vec![
            "prepare",
            "prepare",
            "flush 6 1",
            "flush 5 1",
            "relation 5",
            "truncate 6",
            "truncate 5",
            "prepare",
            "flush 5 1",
        ]
    );
}

#[test]
fn destinations_prepare_tables_once() {
    let mut destination = Destination::new(client());
    let schema = schema_of(1, vec![col("a")]);
    let plan = destination.prepare_table_for_streaming(&schema).unwrap().unwrap();
    assert_eq!(plan.table, "MY__APP_USERS");
    assert_eq!(plan.metadata.destination_table_id, "MY__APP_USERS");
    assert_eq!(plan.metadata.snapshot_id, "0/1");
    assert!(destination.truncate_table(&schema).is_err());
    let opened = OpenChannelResponse { continuation_token: "c".to_owned(), offset_token: None };
    destination.client.table_opened(schema.id, plan.setup.handle, Ok(opened)).unwrap();
    assert!(destination.prepare_table_for_streaming(&schema).unwrap().is_none());
    assert_eq!(
        destination.truncate_table(&schema).unwrap(),
        "TRUNCATE TABLE \"db\".\"public\".\"MY__APP_USERS\""
    );
    assert!(destination.committed_offset(TableId(2), Err(http(500))).is_err());
    let dropped = destination.drop_table_for_copy(&schema).unwrap();
    assert_eq!(dropped.handle.continuation_token.as_deref(), Some("c"));
    let bad = schema_of(1, vec![col("_cdc_operation")]);
    let error = destination.prepare_table_for_streaming(&bad).unwrap_err();
    assert_eq!(error.kind(), ErrorKind::ConfigError);
    assert_eq!(Destination::name(), "snowflake");
}

fn answer(code: u16, parsed: Result<StatementResponse, String>) -> StatementEvent {
    StatementEvent::Answered(StatementAnswer {
        status: HttpStatus::from_u16(code).unwrap(),
        parsed,
        text: "text".to_owned(),
    })
}

#[test]
fn statements_run_to_their_end() {
    let zero = Duration::from_secs(0);
    let mut run = StatementRun::new();
    let step = run.execute_statement(answer(401, Ok(response(None, None))), zero);
    assert!(matches!(step, StatementAction::RenewToken));
    let step = run.execute_statement(answer(202, Ok(response(Some("h"), None))), zero);
    assert!(matches!(step, StatementAction::Ask { delay, .. } if delay == Duration::from_millis(100)));
    let step = run.execute_statement(answer(429, Err("no".to_owned())), Duration::from_secs(1));
    assert!(matches!(step, StatementAction::Ask { delay, .. } if delay == Duration::from_millis(200)));
    let step = run.execute_statement(answer(200, Ok(response(Some("h"), None))), zero);
    assert!(matches!(step, StatementAction::Done(_)));

    let mut run = StatementRun::new();
    run.execute_statement(answer(202, Ok(response(Some("h"), None))), zero);
    let step = run.execute_statement(answer(202, Ok(response(None, None))), Duration::from_secs(30));
    assert!(matches!(step, StatementAction::Fail(Error::Sql { .. })));

    let mut run = StatementRun::new();
    for millis in [500, 1000, 2000] {
        let step = run.execute_statement(StatementEvent::NotAnswered("down".to_owned()), zero);
        assert!(matches!(step, StatementAction::Retry(delay) if delay == Duration::from_millis(millis)));
    }
    let step = run.execute_statement(answer(503, Err("no".to_owned())), zero);
    assert!(matches!(step, StatementAction::Fail(Error::HttpStatus { body, .. }) if body == "text"));

    let mut run = StatementRun::new();
    let step = run.attempt_statement(answer(422, Ok(response(None, Some("bad")))), zero);
    assert!(matches!(step, AttemptStep::Fail(Error::Sql { message, .. }) if message == "bad"));
    let step = run.attempt_statement(answer(202, Ok(response(None, None))), zero);
    assert!(matches!(step, AttemptStep::Fail(Error::Sql { .. })));
    let refused = StatementEvent::NoToken(Error::Auth("no".to_owned()));
    let step = run.execute_statement(refused, zero);
    assert!(matches!(step, StatementAction::Fail(Error::Auth(_))));
    let request = client().sql_client.statement_request("SELECT 1");
    assert_eq!(request.statement, "SELECT 1");
    assert_eq!(request.database, "db");
    assert!(request.role.is_none());
}

#[test]
fn test_configuration_has_defaults() {
    let config = load_test_config("a", "u", None, None, Some("r"));
    assert_eq!((config.database(), config.schema()), ("ETL_DEV", "PUBLIC"));
    assert_eq!(config.role.as_deref(), Some("r"));
    let config = load_test_config("a", "u", Some("d"), Some("s"), None);
    assert_eq!((config.database(), config.schema()), ("d", "s"));
    assert!(config.role.is_none());
    assert!(query_rows(response(None, None)).is_empty());
    let mut listed = response(None, None);
    listed.data = Some(vec![vec!["1".to_owned()]]);
    assert_eq!(query_rows(listed), vec![vec!["1".to_owned()]]);
}

fn line_of(text: &str) -> String {
    let mut buf = Vec::new();
    let row = TableRow::new(vec![Cell::String(text.to_owned())]);
    serialize_row(&mut buf, &[col("v")], &row, CdcMeta::new(CdcOperation::Insert, "s")).unwrap();
    String::from_utf8(buf).unwrap()
}

#[test]
fn texts_are_escaped_where_json_asks_for_it() {
    let ends = ",\"_cdc_operation\":\"insert\",\"_cdc_sequence_number\":\"s\"}\n";
    let cases = [
        ("a\"b\\c/", "a\\\"b\\\\c/"),
        ("\u{8}\t\n\u{c}\r", "\\b\\t\\n\\f\\r"),
        ("\u{0}\u{b}\u{1f}", "\\u0000\\u000b\\u001f"),
        ("\u{7f}\u{e9}\u{1f600}", "\u{7f}\u{e9}\u{1f600}"),
    ];
    for (text, escaped) in cases {
        assert_eq!(line_of(text), format!("{{\"v\":\"{escaped}\"{ends}"));
    }
    assert_ne!(line_of("\\n"), line_of("\n"));
}

#[test]
fn dates_and_times_read_as_documented() {
    let date = |year, month, day| Date::from_ymd_opt(year, month, day).unwrap();
    assert_eq!(date(2024, 2, 29).to_text(), "2024-02-29");
    assert_eq!(date(7, 1, 2).to_text(), "0007-01-02");
    assert_eq!(date(0, 12, 31).to_text(), "0000-12-31");
    assert_eq!(date(-5, 1, 1).to_text(), "-0005-01-01");
    assert_eq!(date(-12_345, 1, 1).to_text(), "-12345-01-01");
    assert_eq!(date(10_000, 10, 20).to_text(), "+10000-10-20");
    assert_eq!(date(262_142, 12, 31).to_text(), "+262142-12-31");

    let time = |second, nano| Time::from_hms_nano_opt(9, 5, second, nano).unwrap();
    assert_eq!(time(3, 0).to_text(), "09:05:03");
    assert_eq!(time(3, 20_000_000).to_text(), "09:05:03.020");
    assert_eq!(time(3, 20_000).to_text(), "09:05:03.000020");
    assert_eq!(time(3, 20).to_text(), "09:05:03.000000020");
    assert_eq!(time(59, 1_500_000_000).to_text(), "09:05:60.500");

    let timestamp = Timestamp { date: date(2024, 2, 29), time: time(3, 20_000_000) };
    assert_eq!(timestamp.to_text(), "2024-02-29 09:05:03.020");
    assert_eq!(timestamp.to_utc_text(), "2024-02-29 09:05:03.020+00:00");
}

#[test]
fn refused_requests_name_their_status() {
    assert_eq!(refusal("404 Not Found", "gone"), "HTTP status 404 Not Found: gone");
}

#[test]
fn batches_are_inserted_in_order_with_the_latest_token() {
    let offsets: Vec<OffsetToken> = (0..3).map(|i| OffsetToken::new(PgLsn(1), i)).collect();
    let batches: Vec<RowBatch> = offsets.iter().map(one_batch).collect();
    let mut handle = ChannelHandle::new(9, "db".to_owned(), "public".to_owned(), "T".to_owned());
    let opened = |text: &str| OpenChannelResponse {
        continuation_token: text.to_owned(),
        offset_token: None,
    };
    handle.open(Ok(opened("0"))).unwrap();
    let (mut run, mut action) = BatchRun::begin(&handle, batches.len());
    let mut asked = Vec::new();
    let mut answers = VecDeque::from(vec![
        ChannelEvent::Insert(Ok(InsertRowsResponse { continuation_token: "1".to_owned() })),
        ChannelEvent::Insert(Err(http(404))),
        ChannelEvent::Open(Ok(opened("2"))),
        ChannelEvent::Insert(Ok(InsertRowsResponse { continuation_token: "3".to_owned() })),
        ChannelEvent::Insert(Err(http(404))),
        ChannelEvent::Open(Ok(opened("4"))),
        ChannelEvent::Insert(Ok(InsertRowsResponse { continuation_token: "5".to_owned() })),
    ]);
    while let Some(event) = answers.pop_front() {
        match action {
            ChannelAction::Insert { batch, continuation_token } => {
                asked.push(format!("{batch} with {continuation_token}"));
            }
            ChannelAction::Open => asked.push("open".to_owned()),
            action => panic!("{action:?}"),
        }
        action = run.on_event(&mut handle, &batches, event);
    }
    assert!(matches!(action, ChannelAction::Done));
    assert_eq!(
        asked,
        vec!["0 with 0", "1 with 1", "open", "1 with 2", "2 with 3", "open", "2 with 4"]
    );
    assert_eq!(handle.continuation_token.as_deref(), Some("5"));
    assert_eq!(handle.last_offset_token.as_ref(), offsets.last());
}

#[test]
fn compressor_failures_keep_their_reason() {
    assert_eq!(write_failure("full").to_text(), "Encoding error: zstd write: full");
    assert_eq!(flush_failure("full").to_text(), "Encoding error: zstd flush: full");
    assert_eq!(finish_failure("full").to_text(), "Encoding error: zstd finish: full");
    assert_eq!(within_limit(vec![7; 3]).unwrap(), vec![7; 3]);
    assert!(within_limit(vec![0; MAX_COMPRESSED_BYTES]).is_ok());
    assert_eq!(
        within_limit(vec![0; MAX_COMPRESSED_BYTES + 1]).unwrap_err().to_text(),
        "Encoding error: compressed batch exceeds 4194304B API limit (4194305B compressed)"
    );
}

#[test]
fn refused_rows_leave_the_builder_as_it_was() {
    let token = OffsetToken::new(PgLsn(1), 2);
    let columns = [col("id")];
    let meta = || CdcMeta::new(CdcOperation::Insert, "0");
    let mut builder = RowBatchBuilder::new();
    let row = |text: String| TableRow::new(vec![Cell::String(text)]);
    builder.push_row(&columns, &row("a".to_owned()), meta(), &token).unwrap();
    let large = "x".repeat(MAX_UNCOMPRESSED_ROW_BYTES + 1);
    assert!(builder.push_row(&columns, &row(large), meta(), &token).is_err());
    builder.push_row(&columns, &row("b".to_owned()), meta(), &token).unwrap();
    let batches = builder.finish().unwrap();
    assert_eq!(batches.len(), 1);
    assert_eq!(batches[0].row_count(), 2);
}

#[test]
fn snowflake_streams_are_written_in_order() {
    let schema = |column: &str| schema_of(5, vec![col(column)]);
    let insert = |column: &str, ordinal| {
        Event::Insert(InsertEvent {
            commit_lsn: PgLsn(1),
            tx_ordinal: ordinal,
            replicated_table_schema: schema(column),
            table_row: TableRow::new(vec![Cell::I32(ordinal as i32)]),
        })
    };
    let truncate = || Event::Truncate(TruncateEvent { truncated_tables: vec![schema("a")] });
    let mut run = Destination::process_events(VecDeque::from(vec![
        insert("a", 0),
        insert("b", 1),
        truncate(),
        truncate(),
        insert("b", 2),
        Event::Relation(RelationEvent { replicated_table_schema: schema("c") }),
        insert("c", 3),
    ]));
    let mut seen: Vec<String> = Vec::new();
    loop {
        match run.next().unwrap() {
            EventStep::PrepareTable => run.table_prepared(),
            EventStep::Flush(_, builder) => {
                for batch in builder.finish().unwrap() {
                    for line in decoded_lines(&batch) {
                        let row: serde_json::Map<String, Value> =
                            serde_json::from_str(&line).unwrap();
                        let columns = ["a", "b", "c"];
                        let name = columns.iter().find(|name| row.contains_key(**name)).unwrap();
                        seen.push(format!("{name}{}", row[*name]));
                    }
                }
            }
            EventStep::Relation(_) => seen.push("change".to_owned()),
            EventStep::Truncate(_) => seen.push("truncate".to_owned()),
            EventStep::Turn => {}
            EventStep::Done => break,
        }
    }
    assert_eq!(seen, vec!["a0", "a1", "truncate", "b2", "change", "c3"]);
}
