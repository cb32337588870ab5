//! ClickHouse: statements, timeouts, rows, passes and plans.
use std::collections::VecDeque;

use etl_destinations::cell::{ArrayCell, Cell, TableRow};
use etl_destinations::clickhouse::cache::TableCache;
use etl_destinations::clickhouse::config::{
    ensure_engine_supported, floor_secs, queried_version, server_version,
    table_engine, timeout_call, CallOutcome, ClickHouseClientConfig, ClickHouseEngine,
    ClickHouseInserterConfig, ClickHouseOperationKind, InsertFill,
};
use etl_destinations::clickhouse::events::next_pass;
use etl_destinations::clickhouse::flush::{Flush, FlushAction, PreparedTable};
use etl_destinations::clickhouse::plan::{
    apply_schema_diff, destination_table, drop_table_for_copy, ensure_engine_matches,
    ensure_table_exists, handle_relation_event, missing_schema_failure, recorded_state,
    relation_changes_schema, AlterAction, DropAction, EnsureAction, RelationAction, TableState,
};
use etl_destinations::clickhouse::rows::{
    cdc_lsn_to_clickhouse_value, copied_rows_values, default_cell, expand_key_row,
    expected_clickhouse_column_names, nullable_flags_from_clickhouse_columns, pending_row_values,
    pending_rows_values, reject_pk_alters_under_replacing_merge_tree,
    validate_replica_identity_for_clickhouse,
    CdcOperation, ClickHouseTableColumn, ClickHouseValue, PendingRow, CDC_LSN_COLUMN_NAME,
    CDC_OPERATION_COLUMN_NAME,
};
use etl_destinations::clickhouse::sql::{
    build_add_column_sql, build_drop_column_sql, build_drop_table_sql, build_insert_rows_sql,
    build_rename_column_sql, build_truncate_table_sql, DdlKind,
};
use etl_destinations::error::{ErrorKind, EtlError};
use etl_destinations::event::{
    DeleteEvent, Event, InsertEvent, OldTableRow, PgLsn, TruncateEvent, UpdateEvent,
    UpdatedTableRow,
};
use etl_destinations::schema::{
    ColumnRename, ColumnSchema, DestinationTableMetadata, IdentityType, ReplicatedTableSchema,
    SchemaDiff, TableId, TableName, Type,
};
use etl_destinations::steps::{PlanRun, PlanStep};
use etl_destinations::time::Duration;

fn clickhouse_column(name: &str, type_text: &str) -> ClickHouseTableColumn {
    ClickHouseTableColumn { name: name.to_owned(), type_text: type_text.to_owned() }
}

fn schema_of(
    name: &str,
    columns: Vec<ColumnSchema>,
    identity_type: IdentityType,
) -> ReplicatedTableSchema {
    ReplicatedTableSchema {
        id: TableId(1),
        name: TableName::new("public".to_owned(), name.to_owned()),
        snapshot_id: "0/1".to_owned(),
        replication_mask: vec![1; columns.len()],
        identity_columns: vec![],
        columns,
        omitted_primary_key: vec![],
        identity_type,
        identity_matches_primary_key: identity_type == IdentityType::PrimaryKey,
    }
}

fn replicated_schema(identity_type: IdentityType) -> ReplicatedTableSchema {
    schema_of(
        "users",
        vec![
            ColumnSchema::new("id".to_owned(), Type::INT4, -1, 1, Some(1), false),
            ColumnSchema::new("name".to_owned(), Type::TEXT, -1, 2, None, true),
        ],
        identity_type,
    )
}

fn replicated_schema_with_partial_primary_key() -> ReplicatedTableSchema {
    let mut schema = schema_of(
        "users",
        vec![
            ColumnSchema::new("id".to_owned(), Type::INT4, -1, 2, Some(2), false),
            ColumnSchema::new("name".to_owned(), Type::TEXT, -1, 3, None, true),
        ],
        IdentityType::AlternativeKey,
    );
    schema.replication_mask = vec![0, 1, 1];
    schema.omitted_primary_key = vec!["tenant_id".to_owned()];
    schema
}

fn replicated_schema_for_pk_alters() -> ReplicatedTableSchema {
    schema_of(
        "replacing_merge_tree_alter",
        vec![
            ColumnSchema::new("tenant_id".to_owned(), Type::INT4, -1, 1, Some(1), false),
            ColumnSchema::new("id".to_owned(), Type::INT4, -1, 2, Some(2), false),
            ColumnSchema::new("value".to_owned(), Type::TEXT, -1, 3, None, true),
        ],
        IdentityType::PrimaryKey,
    )
}

fn removal(column: ColumnSchema) -> SchemaDiff {
    SchemaDiff {
        columns_to_add: Vec::new(),
        columns_to_remove: vec![column],
        columns_to_rename: Vec::new(),
    }
}

fn renaming(old_name: &str, new_name: &str, ordinal_position: i32) -> SchemaDiff {
    SchemaDiff {
        columns_to_add: Vec::new(),
        columns_to_remove: Vec::new(),
        columns_to_rename: vec![ColumnRename {
            old_name: old_name.to_owned(),
            new_name: new_name.to_owned(),
            ordinal_position,
        }],
    }
}

#[test]
fn add_column_sql_quotes_identifiers() {
    let sql = build_add_column_sql(
        "table\"name",
        "new\"column",
        "Nullable(Int32)",
        Some("old\"column"),
    );

    assert_eq!(
        sql,
        "ALTER TABLE \"table\"\"name\" ADD COLUMN IF NOT EXISTS \"new\"\"column\" \
         Nullable(Int32) AFTER \"old\"\"column\""
    );
}

#[test]
fn add_column_sql_uses_first_when_anchor_is_none() {
    let sql = build_add_column_sql("test_table", "only_col", "Nullable(Int32)", None);

    assert_eq!(
        sql,
        "ALTER TABLE \"test_table\" ADD COLUMN IF NOT EXISTS \"only_col\" Nullable(Int32) FIRST"
    );
}

#[test]
fn drop_column_sql_quotes_identifiers() {
    let sql = build_drop_column_sql("table\"name", "old\"column");

    assert_eq!(sql, "ALTER TABLE \"table\"\"name\" DROP COLUMN IF EXISTS \"old\"\"column\"");
}

#[test]
fn rename_column_sql_quotes_identifiers() {
    let sql = build_rename_column_sql("table\"name", "old\"column", "new\"column");

    assert_eq!(
        sql,
        "ALTER TABLE \"table\"\"name\" RENAME COLUMN IF EXISTS \"old\"\"column\" TO \
         \"new\"\"column\""
    );
}

#[test]
fn truncate_table_sql_quotes_identifiers() {
    let sql = build_truncate_table_sql("table\"name");

    assert_eq!(sql, "TRUNCATE TABLE IF EXISTS \"table\"\"name\"");
}

#[test]
fn drop_table_sql_quotes_identifiers() {
    let sql = build_drop_table_sql("table\"name");

    assert_eq!(sql, "DROP TABLE IF EXISTS \"table\"\"name\"");
}

#[test]
fn insert_rows_sql_quotes_identifiers() {
    let sql = build_insert_rows_sql("table\"name");

    assert_eq!(sql, "INSERT INTO \"table\"\"name\" FORMAT RowBinary");
}

#[test]
fn client_timeout_adds_epsilon_to_server_timeout() {
    let config = ClickHouseClientConfig {
        connectivity_check_timeout: Duration::from_secs(10),
        client_timeout_epsilon: Duration::from_secs(3),
        ..Default::default()
    };
    assert_eq!(
        config.client_timeout_for(ClickHouseOperationKind::ConnectivityCheck),
        Duration::from_secs(13)
    );

    let config = ClickHouseClientConfig {
        connectivity_check_timeout: Duration { nanos: 0 },
        client_timeout_epsilon: Duration::from_secs(3),
        ..Default::default()
    };
    assert_eq!(
        config.client_timeout_for(ClickHouseOperationKind::ConnectivityCheck),
        Duration::from_secs(3)
    );
}

#[test]
fn operation_kind_display_matches_error_messages() {
    assert_eq!(ClickHouseOperationKind::ConnectivityCheck.as_str(), "connectivity check");
    assert_eq!(ClickHouseOperationKind::SchemaQuery.as_str(), "schema query");
    assert_eq!(ClickHouseOperationKind::Ddl.as_str(), "DDL");
    assert_eq!(ClickHouseOperationKind::Insert.as_str(), "insert");
}

#[test]
fn timeout_call_returns_destination_timeout_on_deadline() {
    let config = ClickHouseClientConfig::default();
    let outcome: CallOutcome<()> = CallOutcome::TimedOut;
    let err = timeout_call(ClickHouseOperationKind::ConnectivityCheck, &config, None, outcome).unwrap_err();
    assert_eq!(err.kind(), ErrorKind::DestinationTimeout);
    assert!(
        err.detail().is_some_and(|d| d.contains("connectivity check") && d.contains("timed out")),
        "unexpected detail: {:?}",
        err.detail()
    );
}

#[test]
fn timeout_call_appends_context_to_detail() {
    let config = ClickHouseClientConfig::default();
    let outcome: CallOutcome<()> = CallOutcome::TimedOut;
    let err = timeout_call(ClickHouseOperationKind::Insert, &config, Some("table: users"), outcome)
        .unwrap_err();
    assert!(
        err.detail().is_some_and(|d| d.contains("table: users")),
        "unexpected detail: {:?}",
        err.detail()
    );
}

#[test]
fn timeout_call_propagates_inner_error() {
    let config = ClickHouseClientConfig::default();
    let outcome: CallOutcome<()> = CallOutcome::Refused("not enough data".to_owned());
    let err = timeout_call(ClickHouseOperationKind::SchemaQuery, &config, None, outcome).unwrap_err();
    assert_eq!(err.kind(), ErrorKind::DestinationQueryFailed);
    assert!(
        err.detail().is_some_and(|d| d.contains("schema query") && d.contains("failed")),
        "unexpected detail: {:?}",
        err.detail()
    );
}

#[test]
fn timeout_call_passes_through_success() {
    let config = ClickHouseClientConfig::default();
    let value =
        timeout_call(ClickHouseOperationKind::Insert, &config, None, CallOutcome::Value(42)).unwrap();
    assert_eq!(value, 42);
}

#[test]
fn timeout_call_inner_error_includes_context() {
    let config = ClickHouseClientConfig::default();
    let outcome: CallOutcome<()> = CallOutcome::Refused("not enough data".to_owned());
    let err = timeout_call(ClickHouseOperationKind::Insert, &config, Some("table: users"), outcome)
        .unwrap_err();
    assert_eq!(err.kind(), ErrorKind::DestinationAtomicBatchRetryable);
    assert!(
        err.detail().is_some_and(|d| d.contains("insert failed") && d.contains("table: users")),
        "unexpected detail: {:?}",
        err.detail()
    );
    assert!(err.source().is_some(), "expected inner clickhouse error to be attached");
}

#[test]
fn deadlines_read_as_spans_of_time() {
    let mut config = ClickHouseClientConfig::default();
    let ended = |config: &ClickHouseClientConfig| {
        let outcome: CallOutcome<()> = CallOutcome::TimedOut;
        let op = ClickHouseOperationKind::Insert;
        timeout_call(op, config, Some("table: users"), outcome).unwrap_err()
    };
    assert_eq!(ended(&config).detail(), Some("insert timed out after 260s; table: users"));
    config.insert_timeout = Duration::from_millis(1_500);
    config.client_timeout_epsilon = Duration { nanos: 0 };
    assert_eq!(ended(&config).detail(), Some("insert timed out after 1.5s; table: users"));
}

#[test]
fn settings_carry_whole_seconds() {
    let config = ClickHouseClientConfig::default();
    let shown: Vec<(&str, String)> =
        config.connection_options().into_iter().map(|o| (o.name, o.value)).collect();
    assert_eq!(
        shown,
        vec![
            ("connect_timeout", "8".to_owned()),
            ("http_connection_timeout", "8".to_owned()),
            ("http_send_timeout", "256".to_owned()),
            ("http_receive_timeout", "256".to_owned()),
        ]
    );
    let ddl = config.call_options(ClickHouseOperationKind::Ddl);
    assert_eq!(ddl.len(), 2);
    assert_eq!((ddl[1].name, ddl[1].value.as_str()), ("lock_acquire_timeout", "128"));
    assert!(config.call_options(ClickHouseOperationKind::Insert).is_empty());
}

#[test]
fn null_markers_are_remembered_until_forgotten() {
    let mut cache = TableCache::new();
    assert!(cache.get("a").is_none());
    assert_eq!(cache.get_or_insert("a", vec![true, false]), vec![true, false]);
    assert_eq!(cache.get_or_insert("a", vec![false]), vec![true, false]);
    assert_eq!(cache.get("a"), Some(vec![true, false]));
    cache.remove("a");
    assert!(cache.get("a").is_none());
}

#[test]
fn server_timeout_per_operation_kind() {
    let config = ClickHouseClientConfig::default();
    assert_eq!(
        config.server_timeout_for(ClickHouseOperationKind::ConnectivityCheck),
        config.connectivity_check_timeout
    );
    assert_eq!(
        config.server_timeout_for(ClickHouseOperationKind::SchemaQuery),
        config.schema_query_timeout
    );
    assert_eq!(config.server_timeout_for(ClickHouseOperationKind::Ddl), config.ddl_timeout);
    assert_eq!(config.server_timeout_for(ClickHouseOperationKind::Insert), config.insert_timeout);
}

#[test]
fn operation_kind_failed_kind_per_bucket() {
    assert_eq!(
        ClickHouseOperationKind::ConnectivityCheck.failed_kind(),
        ErrorKind::DestinationConnectionFailed
    );
    assert_eq!(
        ClickHouseOperationKind::SchemaQuery.failed_kind(),
        ErrorKind::DestinationQueryFailed
    );
    assert_eq!(ClickHouseOperationKind::Ddl.failed_kind(), ErrorKind::DestinationQueryFailed);
    assert_eq!(
        ClickHouseOperationKind::Insert.failed_kind(),
        ErrorKind::DestinationAtomicBatchRetryable
    );
}

#[test]
fn floor_secs_floors_at_one_second() {
    // Whole seconds at or above 1 pass through unchanged.
    assert_eq!(floor_secs(Duration::from_secs(1)), "1");
    assert_eq!(floor_secs(Duration::from_secs(5)), "5");
    assert_eq!(floor_secs(Duration::from_secs(60)), "60");
    // ZERO is floored to 1 to avoid disabling the server-side timeout.
    assert_eq!(floor_secs(Duration { nanos: 0 }), "1");
    // Sub-second values are floored to 1 (would otherwise truncate to 0).
    assert_eq!(floor_secs(Duration { nanos: 1 }), "1");
    assert_eq!(floor_secs(Duration::from_millis(500)), "1");
    assert_eq!(floor_secs(Duration::from_millis(999)), "1");
    // Fractional seconds beyond 1s truncate to whole seconds (Duration::as_secs).
    assert_eq!(floor_secs(Duration::from_millis(1500)), "1");
    assert_eq!(floor_secs(Duration::from_millis(2999)), "2");
}

#[test]
fn validate_replica_identity_for_clickhouse_accepts_primary_key() {
    validate_replica_identity_for_clickhouse(
        &replicated_schema(IdentityType::PrimaryKey),
        ClickHouseEngine::MergeTree,
    )
    .unwrap();
}

#[test]
fn validate_replica_identity_for_clickhouse_accepts_full() {
    validate_replica_identity_for_clickhouse(
        &replicated_schema(IdentityType::Full),
        ClickHouseEngine::MergeTree,
    )
    .unwrap();
}

#[test]
fn validate_replica_identity_for_clickhouse_rejects_alternative_key() {
    let err = validate_replica_identity_for_clickhouse(
        &replicated_schema(IdentityType::AlternativeKey),
        ClickHouseEngine::MergeTree,
    )
    .unwrap_err();
    assert_eq!(err.kind(), ErrorKind::SourceSchemaError);
}

#[test]
fn validate_replica_identity_for_clickhouse_rejects_missing() {
    let err = validate_replica_identity_for_clickhouse(
        &replicated_schema(IdentityType::Missing),
        ClickHouseEngine::MergeTree,
    )
    .unwrap_err();
    assert_eq!(err.kind(), ErrorKind::SourceSchemaError);
}

#[test]
fn validate_replica_identity_for_clickhouse_rejects_partial_primary_key() {
    let err = validate_replica_identity_for_clickhouse(
        &replicated_schema_with_partial_primary_key(),
        ClickHouseEngine::MergeTree,
    )
    .unwrap_err();
    assert_eq!(err.kind(), ErrorKind::SourceSchemaError);
    assert!(err.detail().unwrap().contains("tenant_id"));
}

#[test]
fn validate_replica_identity_for_clickhouse_rejects_pkless_schema_under_replacing_merge_tree() {
    let schema = schema_of(
        "events",
        vec![ColumnSchema::new("value".to_owned(), Type::TEXT, -1, 1, None, true)],
        IdentityType::Full,
    );

    let err =
        validate_replica_identity_for_clickhouse(&schema, ClickHouseEngine::ReplacingMergeTree)
            .unwrap_err();

    assert_eq!(err.kind(), ErrorKind::SourceSchemaError);
}

#[test]
fn ensure_engine_supported_rejects_replacing_merge_tree_on_old_server() {
    let err = ensure_engine_supported(ClickHouseEngine::ReplacingMergeTree, (23, 4)).unwrap_err();
    assert_eq!(err.kind(), ErrorKind::ConfigError);
}

#[test]
fn ensure_engine_supported_accepts_merge_tree_on_any_server() {
    ensure_engine_supported(ClickHouseEngine::MergeTree, (20, 0)).unwrap();
}

#[test]
fn ensure_engine_supported_accepts_replacing_merge_tree_on_supported_server() {
    ensure_engine_supported(ClickHouseEngine::ReplacingMergeTree, (23, 5)).unwrap();
    ensure_engine_supported(ClickHouseEngine::ReplacingMergeTree, (24, 1)).unwrap();
}

#[test]
fn reject_pk_alters_under_replacing_merge_tree_allows_non_pk_drop() {
    let diff = removal(ColumnSchema::new("value".to_owned(), Type::TEXT, -1, 3, None, true));
    reject_pk_alters_under_replacing_merge_tree(
        "public_replacing_merge_tree__alter",
        &diff,
        &replicated_schema_for_pk_alters(),
    )
    .unwrap();
}

#[test]
fn reject_pk_alters_under_replacing_merge_tree_rejects_pk_drop() {
    let diff =
        removal(ColumnSchema::new("tenant_id".to_owned(), Type::INT4, -1, 1, Some(1), false));
    let err = reject_pk_alters_under_replacing_merge_tree(
        "public_replacing_merge_tree__alter",
        &diff,
        &replicated_schema_for_pk_alters(),
    )
    .unwrap_err();
    assert_eq!(err.kind(), ErrorKind::SourceSchemaError);
    assert!(err.detail().unwrap().contains("tenant_id"), "error must name the PK column: {err:?}");
}

#[test]
fn reject_pk_alters_under_replacing_merge_tree_allows_non_pk_rename() {
    reject_pk_alters_under_replacing_merge_tree(
        "public_replacing_merge_tree__alter",
        &renaming("value", "payload", 3),
        &replicated_schema_for_pk_alters(),
    )
    .unwrap();
}

#[test]
fn reject_pk_alters_under_replacing_merge_tree_rejects_pk_rename() {
    let err = reject_pk_alters_under_replacing_merge_tree(
        "public_replacing_merge_tree__alter",
        &renaming("id", "row_id", 2),
        &replicated_schema_for_pk_alters(),
    )
    .unwrap_err();
    assert_eq!(err.kind(), ErrorKind::SourceSchemaError);
    let detail = err.detail().unwrap();
    assert!(
        detail.contains("'id'") && detail.contains("'row_id'"),
        "error must name old + new names: {err:?}"
    );
}

#[test]
fn cdc_lsn_value_preserves_full_u64_range() {
    let value = cdc_lsn_to_clickhouse_value(PgLsn(u64::MAX));

    match value {
        ClickHouseValue::UInt64(lsn) => assert_eq!(lsn, u64::MAX),
        _ => panic!("expected UInt64 CDC LSN value"),
    }
}

#[test]
fn default_cell_money_values_are_strings() {
    assert!(matches!(default_cell(&Type::MONEY), Cell::String(s) if s.is_empty()));
    assert!(matches!(
        default_cell(&Type::MONEY_ARRAY),
        Cell::Array(ArrayCell::String(v)) if v.is_empty()
    ));
}

#[test]
fn nullable_flags_use_clickhouse_destination_nullability() {
    let expected_names = vec![
        "id".to_owned(),
        "score".to_owned(),
        "tags".to_owned(),
        CDC_OPERATION_COLUMN_NAME.to_owned(),
        CDC_LSN_COLUMN_NAME.to_owned(),
    ];
    let actual_columns = vec![
        clickhouse_column("id", "Int64"),
        clickhouse_column("score", "Nullable(Int32)"),
        clickhouse_column("tags", "Array(Nullable(String))"),
        clickhouse_column(CDC_OPERATION_COLUMN_NAME, "String"),
        clickhouse_column(CDC_LSN_COLUMN_NAME, "UInt64"),
    ];

    let flags =
        nullable_flags_from_clickhouse_columns("test_table", &expected_names, &actual_columns)
            .unwrap();

    assert_eq!(flags, [false, true, false, false, false]);
}

#[test]
fn nullable_flags_reject_clickhouse_column_count_mismatch() {
    let expected_names = vec!["id".to_owned(), CDC_OPERATION_COLUMN_NAME.to_owned()];
    let actual_columns = vec![clickhouse_column("id", "Int64")];

    let err =
        nullable_flags_from_clickhouse_columns("test_table", &expected_names, &actual_columns)
            .unwrap_err();

    assert_eq!(err.kind(), ErrorKind::CorruptedTableSchema);
    assert_eq!(err.detail(), Some("table 'test_table' has 1 columns, but 2 were expected"));
}

#[test]
fn nullable_flags_reject_clickhouse_column_order_mismatch() {
    let expected_names = vec!["id".to_owned(), "name".to_owned()];
    let actual_columns =
        vec![clickhouse_column("name", "String"), clickhouse_column("id", "Int64")];

    let err =
        nullable_flags_from_clickhouse_columns("test_table", &expected_names, &actual_columns)
            .unwrap_err();

    assert_eq!(err.kind(), ErrorKind::CorruptedTableSchema);
    assert_eq!(
        err.detail(),
        Some("table 'test_table' column 1 is named 'name', but 'id' was expected")
    );
}

#[test]
fn server_versions_are_read_from_their_first_parts() {
    assert_eq!(server_version("24.3.1.5").unwrap(), (24, 3));
    assert!(server_version("latest").is_err());
    assert_eq!(queried_version(Ok("23.8".to_owned())).unwrap(), (23, 8));
    assert!(queried_version(Ok("x".to_owned())).is_err());
    let error = queried_version(Err("down".to_owned())).unwrap_err();
    assert_eq!(error.description(), Some("ClickHouse version query failed"));
    assert_eq!((error.detail(), error.source()), (None, Some("down")));
    let rows = vec!["MergeTree".to_owned(), "Log".to_owned()];
    assert_eq!(table_engine("t", Ok(rows)).unwrap().as_deref(), Some("MergeTree"));
    assert!(table_engine("t", Ok(vec![])).unwrap().is_none());
    let error = table_engine("t", Err("down".to_owned())).unwrap_err();
    assert_eq!((error.detail(), error.source()), (Some("table: t"), Some("down")));
}

#[test]
fn inserts_are_cut_when_they_grow_too_large() {
    let mut fill = InsertFill::new();
    let mut taken = 0;
    while fill.takes_row(8) {
        fill.add_row(3);
        taken += 1;
    }
    assert_eq!((taken, fill.bytes), (3, 9));
    assert!(!InsertFill { bytes: 8 }.takes_row(8));
    fill.add_row(u64::MAX);
    assert_eq!(fill.bytes, u64::MAX);
    let config = ClickHouseInserterConfig::new(ClickHouseEngine::MergeTree);
    assert_eq!(config.max_bytes_per_insert, 64 * 1024 * 1024);
}

fn row(id: i32, name: &str) -> TableRow {
    TableRow::new(vec![Cell::I32(id), Cell::String(name.to_owned())])
}

#[test]
fn key_rows_are_filled_up_with_defaults() {
    let full = expand_key_row(
        TableRow::new(vec![Cell::I32(5)]),
        &replicated_schema(IdentityType::PrimaryKey),
    );
    assert_eq!(full.values.len(), 2);
    assert!(matches!(full.values[0], Cell::I32(5)));
}

#[test]
fn rows_end_with_their_change_columns() {
    let pending = PendingRow {
        operation: CdcOperation::Delete,
        commit_lsn: PgLsn(7),
        tx_ordinal: 1,
        cells: row(1, "a").values,
    };
    let names = expected_clickhouse_column_names(
        &replicated_schema(IdentityType::PrimaryKey),
        ClickHouseEngine::MergeTree,
    );
    let values = pending_row_values(pending, ClickHouseEngine::MergeTree);
    assert_eq!(values.len(), names.len());
    assert!(matches!(&values[2], ClickHouseValue::String(s) if s == "DELETE"));
    assert!(matches!(values[3], ClickHouseValue::UInt64(7)));
}

#[test]
fn clickhouse_passes_group_rows_and_skip_unknown_deletes() {
    let schema = || replicated_schema(IdentityType::PrimaryKey);
    let mut events = VecDeque::from(vec![
        Event::Insert(InsertEvent {
            commit_lsn: PgLsn(1),
            tx_ordinal: 0,
            replicated_table_schema: schema(),
            table_row: row(1, "a"),
        }),
        Event::Delete(DeleteEvent {
            commit_lsn: PgLsn(1),
            tx_ordinal: 1,
            replicated_table_schema: schema(),
            old_table_row: None,
        }),
        Event::Delete(DeleteEvent {
            commit_lsn: PgLsn(1),
            tx_ordinal: 2,
            replicated_table_schema: schema(),
            old_table_row: Some(OldTableRow::Full(row(1, "a"))),
        }),
        Event::Truncate(TruncateEvent { truncated_tables: vec![schema(), schema()] }),
    ]);
    let pass = next_pass(&mut events).unwrap();
    assert!(events.is_empty());
    assert_eq!(pass.tables.len(), 1);
    let operations: Vec<CdcOperation> =
        pass.tables[0].rows.iter().map(|r| r.operation).collect();
    assert_eq!(operations, vec![CdcOperation::Insert, CdcOperation::Delete]);
    assert_eq!(pass.truncates.len(), 1);
}

#[test]
fn clickhouse_refuses_partial_updates() {
    let mut events = VecDeque::from(vec![Event::Update(UpdateEvent {
        commit_lsn: PgLsn(1),
        tx_ordinal: 0,
        replicated_table_schema: replicated_schema(IdentityType::PrimaryKey),
        updated_table_row: UpdatedTableRow::Partial(row(1, "a")),
        old_table_row: None,
    })]);
    let error = next_pass(&mut events).unwrap_err();
    assert_eq!(error.description(), Some("ClickHouse update requires a full new row image"));
}

#[test]
fn tables_are_created_or_recovered_by_their_state() {
    let engine = ClickHouseEngine::ReplacingMergeTree;
    assert_eq!(
        ensure_table_exists(&TableState::Unknown, engine),
        vec![
            EnsureAction::StoreApplying,
            EnsureAction::CreateTable,
            EnsureAction::CreateView,
            EnsureAction::StoreApplied
        ]
    );
    let changed = TableState::Applying { previous_snapshot_id: Some("0/1".to_owned()) };
    assert_eq!(
        ensure_table_exists(&changed, engine),
        vec![EnsureAction::ReplaySchemaChange, EnsureAction::StoreApplied]
    );
    assert!(ensure_table_exists(&TableState::Applied, engine).is_empty());
    assert_eq!(
        drop_table_for_copy(ClickHouseEngine::MergeTree),
        vec![DropAction::DropTable, DropAction::Forget]
    );
}

#[test]
fn added_columns_stand_behind_the_last_user_column() {
    let schema = replicated_schema(IdentityType::PrimaryKey);
    let column = |name: &str| ColumnSchema::new(name.to_owned(), Type::TEXT, -1, 3, None, true);
    let diff = SchemaDiff {
        columns_to_add: vec![column("x"), column("y")],
        columns_to_remove: vec![],
        columns_to_rename: vec![],
    };
    let steps =
        apply_schema_diff("public_users", &diff, &schema, ClickHouseEngine::MergeTree).unwrap();
    assert_eq!(steps.len(), 2);
    assert!(
        matches!(&steps[0], AlterAction::Add { column: 0, after: Some(a) } if a == "name"),
        "{steps:?}"
    );
    assert!(
        matches!(&steps[1], AlterAction::Add { column: 1, after: Some(a) } if a == "x"),
        "{steps:?}"
    );
}

#[test]
fn schema_changes_are_recorded_before_and_after() {
    let schema = replicated_schema(IdentityType::PrimaryKey);
    let metadata = DestinationTableMetadata {
        destination_table_id: "public_users".to_owned(),
        snapshot_id: "0/0".to_owned(),
        replication_mask: vec![1, 1],
        previous_snapshot_id: None,
    };
    let diff = |dropped: &str, key: Option<i32>| SchemaDiff {
        columns_to_add: vec![],
        columns_to_remove: vec![ColumnSchema::new(
            dropped.to_owned(),
            Type::TEXT,
            -1,
            3,
            key,
            true,
        )],
        columns_to_rename: vec![],
    };
    let engine = ClickHouseEngine::ReplacingMergeTree;
    let plan = handle_relation_event(&schema, &metadata, &schema, &diff("x", None), engine);
    assert_eq!(plan.table, "public_users");
    assert_eq!(plan.metadata.snapshot_id, "0/1");
    assert_eq!(plan.metadata.previous_snapshot_id.as_deref(), Some("0/0"));
    let interrupted = recorded_state(Some(&plan.metadata), false);
    assert!(
        matches!(&interrupted, TableState::Applying { previous_snapshot_id: Some(id) } if id == "0/0")
    );
    assert_eq!(
        ensure_table_exists(&interrupted, ClickHouseEngine::MergeTree),
        vec![EnsureAction::ReplaySchemaChange, EnsureAction::StoreApplied]
    );
    assert!(matches!(recorded_state(Some(&plan.metadata), true), TableState::Applied));
    assert!(matches!(recorded_state(None, false), TableState::Unknown));
    assert_eq!(
        plan.actions,
        vec![
            RelationAction::StoreApplying,
            RelationAction::Alter(0),
            RelationAction::Alter(1),
            RelationAction::Alter(2),
            RelationAction::StoreApplied,
            RelationAction::Forget
        ]
    );
    let refused = handle_relation_event(&schema, &metadata, &schema, &diff("id", Some(1)), engine);
    assert_eq!(refused.actions, vec![RelationAction::StoreApplying, RelationAction::Fail]);
    let error = refused.alterations.unwrap_err();
    assert_eq!(error.kind(), ErrorKind::SourceSchemaError);
}

#[test]
fn whole_batches_get_change_columns() {
    let copied = copied_rows_values(vec![row(1, "a")], ClickHouseEngine::ReplacingMergeTree);
    assert_eq!(copied[0].len(), 4);
    assert!(matches!(copied[0][2], ClickHouseValue::UInt128(0)));
    assert!(matches!(copied[0][3], ClickHouseValue::UInt8(0)));
    let deleted = PendingRow {
        operation: CdcOperation::Delete,
        commit_lsn: PgLsn(7),
        tx_ordinal: 1,
        cells: vec![],
    };
    let streamed = pending_rows_values(vec![deleted], ClickHouseEngine::MergeTree);
    assert!(matches!(&streamed[0][0], ClickHouseValue::String(s) if s == "DELETE"));
    assert!(matches!(streamed[0][1], ClickHouseValue::UInt64(7)));
}

#[test]
fn engines_and_schemas_are_checked_against_what_is_there() {
    assert!(ensure_engine_matches("t", None, ClickHouseEngine::MergeTree).is_ok());
    assert!(ensure_engine_matches("t", Some("MergeTree"), ClickHouseEngine::MergeTree).is_ok());
    let error =
        ensure_engine_matches("t", Some("MergeTree"), ClickHouseEngine::ReplacingMergeTree)
            .unwrap_err();
    assert_eq!(error.kind(), ErrorKind::ConfigError);

    let schema = replicated_schema(IdentityType::PrimaryKey);
    assert_eq!(destination_table(&schema, ClickHouseEngine::MergeTree).unwrap(), "public_users");
    let same = DestinationTableMetadata {
        destination_table_id: "public_users".to_owned(),
        snapshot_id: "0/1".to_owned(),
        replication_mask: vec![1, 1],
        previous_snapshot_id: None,
    };
    assert!(!relation_changes_schema(&schema, ClickHouseEngine::MergeTree, Some(&same)).unwrap());
    let error =
        relation_changes_schema(&schema, ClickHouseEngine::MergeTree, None).unwrap_err();
    assert_eq!(error.kind(), ErrorKind::CorruptedTableSchema);
    let error = missing_schema_failure(TableId(4), &"0/9".to_owned(), true);
    assert_eq!(error.detail(), Some("Cannot find schema for table 4 at snapshot_id 0/9"));
}

#[test]
fn statements_are_labelled_by_kind() {
    assert_eq!(DdlKind::CreateTable.as_label(), "create_table");
    assert_eq!(DdlKind::CreateView.as_label(), "create_view");
    assert_eq!(DdlKind::DropTable.as_label(), "drop_table");
    assert_eq!(DdlKind::DropView.as_label(), "drop_view");
    assert_eq!(DdlKind::AddColumn.as_label(), "add_column");
    assert_eq!(DdlKind::DropColumn.as_label(), "drop_column");
    assert_eq!(DdlKind::RenameColumn.as_label(), "rename_column");
}

fn insert(id: u32, key: i32) -> Event {
    let mut schema = replicated_schema(IdentityType::PrimaryKey);
    schema.id = TableId(id);
    Event::Insert(InsertEvent {
        commit_lsn: PgLsn(1),
        tx_ordinal: 0,
        replicated_table_schema: schema,
        table_row: row(key, "a"),
    })
}

fn prepared(name: &str) -> PreparedTable {
    PreparedTable { name: name.to_owned(), nullable: vec![false, true] }
}

#[test]
fn tables_are_prepared_before_rows_are_inserted() {
    let engine = ClickHouseEngine::MergeTree;
    let pass = next_pass(&mut VecDeque::from(vec![insert(1, 10), insert(2, 20), insert(1, 11)]));
    let (mut flush, action) = Flush::begin(pass.unwrap().tables);
    assert!(matches!(action, FlushAction::Prepare(0)));
    assert_eq!(flush.table(1).id, TableId(2));
    let action = flush.on_prepared(Ok(prepared("first")));
    assert!(matches!(action, FlushAction::Prepare(1)));
    let action = flush.on_prepared(Ok(prepared("second")));
    assert!(matches!(action, FlushAction::Insert));
    let inserts = flush.inserts(engine);
    let names: Vec<&str> = inserts.iter().map(|i| i.table.name.as_str()).collect();
    assert_eq!(names, vec!["first", "second"]);
    assert_eq!(inserts[0].rows.len(), 2);
    assert!(matches!(inserts[0].rows[1][0], ClickHouseValue::Cell(Cell::I32(11))));
    assert!(matches!(inserts[1].rows[0][0], ClickHouseValue::Cell(Cell::I32(20))));

    let (flush, action) = Flush::begin(vec![]);
    assert!(matches!(action, FlushAction::Insert));
    assert!(flush.inserts(engine).is_empty());
}

#[test]
fn an_unprepared_table_ends_the_flush() {
    let pass = next_pass(&mut VecDeque::from(vec![insert(1, 10), insert(2, 20)])).unwrap();
    let (mut flush, _) = Flush::begin(pass.tables);
    flush.on_prepared(Ok(prepared("first")));
    let refused = EtlError::plain(ErrorKind::InvalidState, "no table");
    match flush.on_prepared(Err(refused)) {
        FlushAction::Fail(error) => assert_eq!(error.description(), Some("no table")),
        action => panic!("{action:?}"),
    }
}

#[test]
fn clickhouse_streams_are_written_in_order() {
    let truncate = |id: u32| {
        let mut schema = replicated_schema(IdentityType::PrimaryKey);
        schema.id = TableId(id);
        Event::Truncate(TruncateEvent { truncated_tables: vec![schema] })
    };
    let mut events = VecDeque::from(vec![
        insert(1, 10),
        insert(2, 20),
        insert(1, 11),
        truncate(1),
        truncate(1),
        insert(1, 12),
    ]);
    let mut shown = Vec::new();
    while !events.is_empty() {
        let pass = next_pass(&mut events).unwrap();
        for batch in pass.tables.iter().filter(|batch| batch.schema.id == TableId(1)) {
            for row in &batch.rows {
                shown.push(match row.cells[0] {
                    Cell::I32(id) => id.to_string(),
                    _ => "?".to_owned(),
                });
            }
        }
        shown.extend(pass.truncates.iter().map(|_| "truncate".to_owned()));
    }
    assert_eq!(shown, vec!["10", "11", "truncate", "12"]);
}

#[test]
fn faulty_changes_keep_back_those_they_stand_with() {
    let partial = Event::Update(UpdateEvent {
        commit_lsn: PgLsn(1),
        tx_ordinal: 0,
        replicated_table_schema: replicated_schema(IdentityType::PrimaryKey),
        updated_table_row: UpdatedTableRow::Partial(row(1, "a")),
        old_table_row: None,
    });
    let truncate = Event::Truncate(TruncateEvent {
        truncated_tables: vec![replicated_schema(IdentityType::PrimaryKey)],
    });
    let mut events = VecDeque::from(vec![insert(1, 10), truncate, insert(1, 11), partial]);
    assert_eq!(next_pass(&mut events).unwrap().tables[0].rows.len(), 1);
    assert_eq!(next_pass(&mut events).unwrap_err().kind(), ErrorKind::InvalidState);
}

#[test]
fn failed_alterations_leave_the_table_being_changed() {
    let schema = replicated_schema(IdentityType::PrimaryKey);
    let metadata = DestinationTableMetadata {
        destination_table_id: "public_users".to_owned(),
        snapshot_id: "0/0".to_owned(),
        replication_mask: vec![1, 1],
        previous_snapshot_id: None,
    };
    let diff = renaming("name", "title", 2);
    let engine = ClickHouseEngine::MergeTree;
    let plan = handle_relation_event(&schema, &metadata, &schema, &diff, engine);
    let mut applied = true;
    let (mut run, mut step) = PlanRun::begin(plan.actions.len());
    let error = loop {
        let result = match step {
            PlanStep::Done => panic!("the alteration fails"),
            PlanStep::Fail(error) => break error,
            PlanStep::Take(i) => match plan.actions[i] {
                RelationAction::StoreApplying => {
                    applied = false;
                    Ok(())
                }
                RelationAction::StoreApplied => {
                    applied = true;
                    Ok(())
                }
                RelationAction::Alter(_) => {
                    Err(EtlError::plain(ErrorKind::InvalidState, "refused"))
                }
                _ => Ok(()),
            },
        };
        step = run.on_result(result);
    };
    assert_eq!(error.description(), Some("refused"));
    assert!(!applied);
    assert!(matches!(
        recorded_state(Some(&plan.metadata), applied),
        TableState::Applying { previous_snapshot_id: Some(_) }
    ));
}
