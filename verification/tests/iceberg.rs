//! Iceberg: namespaces, change columns, passes and plans.
use std::collections::VecDeque;

use etl_destinations::cell::{Cell, TableRow};
use etl_destinations::error::{ErrorKind, EtlError};
use etl_destinations::event::{
    DeleteEvent, Event, InsertEvent, OldTableRow, PgLsn, RelationEvent, TruncateEvent, UpdateEvent,
    UpdatedTableRow,
};
use etl_destinations::iceberg::columns::{
    build_cdc_column_schemas, copied_rows, find_unique_column_name,
    validate_iceberg_replica_identity, IcebergOperationType, CDC_OPERATION_COLUMN_NAME,
};
use etl_destinations::iceberg::events::{announced_tables, next_pass};
use etl_destinations::iceberg::namespace::{
    lowercase_schema_to_namespace, schema_to_namespace, table_name_to_iceberg_table_name,
    DestinationNamespace,
};
use etl_destinations::iceberg::plan::{Inner, PrepareAction};
use etl_destinations::steps::{PlanRun, PlanStep};
use etl_destinations::schema::{
    ColumnSchema, DestinationTableMetadata, IdentityType, ReplicatedTableSchema, TableId,
    TableName, Type,
};

fn replicated_schema(identity_type: IdentityType) -> ReplicatedTableSchema {
    ReplicatedTableSchema {
        id: TableId(1),
        name: TableName::new("public".to_owned(), "users".to_owned()),
        snapshot_id: "0/1".to_owned(),
        replication_mask: vec![1, 1],
        columns: vec![
            ColumnSchema::new("id".to_owned(), Type::INT4, -1, 1, Some(1), false),
            ColumnSchema::new("name".to_owned(), Type::TEXT, -1, 2, None, true),
        ],
        identity_columns: vec![],
        omitted_primary_key: vec![],
        identity_type,
        identity_matches_primary_key: identity_type == IdentityType::PrimaryKey,
    }
}

fn test_column(
    name: &str,
    typ: Type,
    ordinal_position: i32,
    nullable: bool,
    primary_key_ordinal: Option<i32>,
) -> ColumnSchema {
    ColumnSchema::new(name.to_owned(), typ, -1, ordinal_position, primary_key_ordinal, nullable)
}

#[test]
fn can_find_unique_column_name() {
    let column_schemas = vec![];
    let col_name = find_unique_column_name(&column_schemas, CDC_OPERATION_COLUMN_NAME);
    assert_eq!(col_name, CDC_OPERATION_COLUMN_NAME.to_owned());

    let column_schemas = vec![test_column("id", Type::BOOL, 1, false, Some(1))];
    let col_name = find_unique_column_name(&column_schemas, CDC_OPERATION_COLUMN_NAME);
    assert_eq!(col_name, CDC_OPERATION_COLUMN_NAME.to_owned());

    let column_schemas = vec![
        test_column("id", Type::BOOL, 1, false, Some(1)),
        test_column(CDC_OPERATION_COLUMN_NAME, Type::BOOL, 2, false, Some(2)),
    ];
    let col_name = find_unique_column_name(&column_schemas, CDC_OPERATION_COLUMN_NAME);
    assert_eq!(col_name, format!("{CDC_OPERATION_COLUMN_NAME}_1"));

    let column_schemas = vec![
        test_column("id", Type::BOOL, 1, false, Some(1)),
        test_column(CDC_OPERATION_COLUMN_NAME, Type::BOOL, 2, false, Some(2)),
        test_column(&format!("{CDC_OPERATION_COLUMN_NAME}_1"), Type::BOOL, 3, false, Some(3)),
    ];
    let col_name = find_unique_column_name(&column_schemas, CDC_OPERATION_COLUMN_NAME);
    assert_eq!(col_name, format!("{CDC_OPERATION_COLUMN_NAME}_2"));
}

#[test]
fn schema_to_namespace_valid_names() {
    // Valid names that don't need transformation.
    assert_eq!(schema_to_namespace("public"), "public");
    assert_eq!(schema_to_namespace("my_schema"), "my_schema");
    assert_eq!(schema_to_namespace("schema123"), "schema123");
    assert_eq!(schema_to_namespace("a"), "a");
    assert_eq!(schema_to_namespace("test_123_schema"), "test_123_schema");
}

#[test]
fn schema_to_namespace_case_conversion() {
    // PostgreSQL unquoted identifiers are case-insensitive and folded to lowercase.
    assert_eq!(schema_to_namespace("UserSchema"), "userschema");
    assert_eq!(schema_to_namespace("MYSCHEMA"), "myschema");
    assert_eq!(schema_to_namespace("MixedCase"), "mixedcase");
    assert_eq!(schema_to_namespace("CamelCaseSchema"), "camelcaseschema");
}

#[test]
fn schema_to_namespace_invalid_chars_replaced() {
    // Invalid characters should be replaced with underscores.
    assert_eq!(schema_to_namespace("my-schema"), "my_schema");
    assert_eq!(schema_to_namespace("data$store"), "data_store");
    assert_eq!(schema_to_namespace("user schema"), "user_schema");
    assert_eq!(schema_to_namespace("schema.name"), "schema_name");
    assert_eq!(schema_to_namespace("test@schema"), "test_schema");
    assert_eq!(schema_to_namespace("schema#1"), "schema_1");
    assert_eq!(schema_to_namespace("my-complex.schema$name"), "my_complex_schema_name");
}

#[test]
fn schema_to_namespace_non_ascii_replaced() {
    // Non-ASCII characters should be replaced with underscores (one char = one
    // underscore).
    assert_eq!(schema_to_namespace("schémas"), "sch_mas");
    // All non-ASCII becomes underscores, then fixed to start/end with
    // letter/number.
    assert_eq!(schema_to_namespace("データ"), "s___e");
    assert_eq!(schema_to_namespace("test_α_beta"), "test___beta");
}

#[test]
fn schema_to_namespace_starts_with_underscore() {
    // Names starting with underscore should be prefixed with 's'.
    assert_eq!(schema_to_namespace("_private"), "s_private");
    assert_eq!(schema_to_namespace("_temp"), "s_temp");
    assert_eq!(schema_to_namespace("__double"), "s__double");
    assert_eq!(schema_to_namespace("___triple"), "s___triple");
}

#[test]
fn schema_to_namespace_ends_with_underscore() {
    // Names ending with underscore should be suffixed with 'e'.
    assert_eq!(schema_to_namespace("temp_"), "temp_e");
    assert_eq!(schema_to_namespace("schema__"), "schema__e");
    assert_eq!(schema_to_namespace("test___"), "test___e");
}

#[test]
fn schema_to_namespace_starts_and_ends_with_underscore() {
    // Names both starting and ending with underscore.
    assert_eq!(schema_to_namespace("_temp_"), "s_temp_e");
    assert_eq!(schema_to_namespace("__test__"), "s__test__e");
    assert_eq!(schema_to_namespace("_schema_name_"), "s_schema_name_e");
}

#[test]
fn schema_to_namespace_starts_with_aws() {
    // Names starting with 'aws' should be prefixed with 's_'.
    assert_eq!(schema_to_namespace("aws_internal"), "s_aws_internal");
    assert_eq!(schema_to_namespace("aws"), "s_aws");
    assert_eq!(schema_to_namespace("awsschema"), "s_awsschema");
    assert_eq!(schema_to_namespace("AWS"), "s_aws");
}

#[test]
fn schema_to_namespace_starts_with_underscore_and_aws() {
    // Names starting with underscore followed by 'aws'.
    assert_eq!(schema_to_namespace("_aws_internal"), "s_aws_internal");
    assert_eq!(schema_to_namespace("_aws"), "s_aws");
    // After removing leading underscore, it becomes 'aws', so needs 's_' prefix.
    assert_eq!(schema_to_namespace("__aws"), "s__aws");
}

#[test]
fn schema_to_namespace_all_underscores() {
    // Schema names that become all underscores after transformation.
    assert_eq!(schema_to_namespace("___"), "s___e");
    assert_eq!(schema_to_namespace("____"), "s____e");
}

#[test]
fn schema_to_namespace_only_invalid_chars_at_edges() {
    // Invalid characters only at start/end.
    assert_eq!(schema_to_namespace("-schema"), "s_schema");
    assert_eq!(schema_to_namespace("schema-"), "schema_e");
    assert_eq!(schema_to_namespace("-schema-"), "s_schema_e");
    assert_eq!(schema_to_namespace("$test$"), "s_test_e");
}

#[test]
fn schema_to_namespace_numeric_start() {
    // PostgreSQL allows identifiers starting with numbers in quoted form.
    // These are valid and should pass through.
    assert_eq!(schema_to_namespace("123schema"), "123schema");
    assert_eq!(schema_to_namespace("42"), "42");
    assert_eq!(schema_to_namespace("1_test"), "1_test");
}

#[test]
fn schema_to_namespace_consecutive_underscores() {
    // Consecutive underscores should be preserved.
    assert_eq!(schema_to_namespace("test__schema"), "test__schema");
    assert_eq!(schema_to_namespace("a___b"), "a___b");
    assert_eq!(schema_to_namespace("my____schema"), "my____schema");
}

#[test]
fn schema_to_namespace_multiple_invalid_chars_consecutive() {
    // Multiple consecutive invalid characters become multiple underscores.
    assert_eq!(schema_to_namespace("test---schema"), "test___schema");
    assert_eq!(schema_to_namespace("my...schema"), "my___schema");
    assert_eq!(schema_to_namespace("data$$$store"), "data___store");
}

#[test]
fn schema_to_namespace_max_length() {
    // PostgreSQL max identifier length is 63 bytes (NAMEDATALEN-1).
    // Test with a 63-character schema name.
    let long_schema = "a".repeat(63);
    let result = schema_to_namespace(&long_schema);
    assert_eq!(result, long_schema);
    assert_eq!(result.len(), 63);
}

#[test]
fn schema_to_namespace_common_patterns() {
    // Common real-world schema naming patterns.
    assert_eq!(schema_to_namespace("auth"), "auth");
    assert_eq!(schema_to_namespace("realtime"), "realtime");
    assert_eq!(schema_to_namespace("storage"), "storage");
    assert_eq!(schema_to_namespace("pg_catalog"), "pg_catalog");
    assert_eq!(schema_to_namespace("information_schema"), "information_schema");
}

#[test]
fn validate_iceberg_replica_identity_accepts_full() {
    let replicated_table_schema = replicated_schema(IdentityType::Full);

    validate_iceberg_replica_identity(&replicated_table_schema).unwrap();
}

#[test]
fn validate_iceberg_replica_identity_rejects_primary_key() {
    let replicated_table_schema = replicated_schema(IdentityType::PrimaryKey);

    let error = validate_iceberg_replica_identity(&replicated_table_schema).unwrap_err();
    assert_eq!(error.kind(), ErrorKind::SourceSchemaError);
}

#[test]
fn validate_iceberg_replica_identity_rejects_alternative_key() {
    let replicated_table_schema = replicated_schema(IdentityType::AlternativeKey);

    let error = validate_iceberg_replica_identity(&replicated_table_schema).unwrap_err();
    assert_eq!(error.kind(), ErrorKind::SourceSchemaError);
}

#[test]
fn validate_iceberg_replica_identity_rejects_missing() {
    let replicated_table_schema = replicated_schema(IdentityType::Missing);

    let error = validate_iceberg_replica_identity(&replicated_table_schema).unwrap_err();
    assert_eq!(error.kind(), ErrorKind::SourceSchemaError);
}

#[test]
fn lowercase_names_need_no_case_conversion() {
    assert_eq!(lowercase_schema_to_namespace("aws-data"), "s_aws_data");
    assert_eq!(lowercase_schema_to_namespace(""), "");
    // Capitals are not letters of a namespace.
    assert_eq!(lowercase_schema_to_namespace("aB"), "a_e");
}

#[test]
fn changelog_tables_are_named_after_their_source() {
    let name = TableName::new("my_app".to_owned(), "users".to_owned());
    assert_eq!(table_name_to_iceberg_table_name(&name, false).unwrap(), "users_changelog");
    assert_eq!(table_name_to_iceberg_table_name(&name, true).unwrap(), "my__app_users_changelog");
    let single = DestinationNamespace::Single("all".to_owned());
    assert!(single.is_single());
    assert_eq!(single.get_or("own"), "all");
    assert!(!DestinationNamespace::OnePerSchema.is_single());
    assert_eq!(DestinationNamespace::OnePerSchema.get_or("own"), "own");
}

fn row(id: i32) -> TableRow {
    TableRow::new(vec![Cell::I32(id), Cell::Null])
}

fn text(cell: &Cell) -> &str {
    match cell {
        Cell::String(s) => s,
        other => panic!("unexpected cell {other:?}"),
    }
}

#[test]
fn change_columns_are_added_under_free_names() {
    let mut schema = replicated_schema(IdentityType::Full);
    schema.columns.push(test_column("sequence_number", Type::TEXT, 3, true, None));
    let columns = build_cdc_column_schemas(&schema);
    assert_eq!(columns.len(), 5);
    assert_eq!(columns[3].name, "cdc_operation");
    assert_eq!(columns[4].name, "sequence_number_1");
    assert!(!columns[4].nullable);
    assert_eq!(IcebergOperationType::Update.as_str(), "UPDATE");
}

#[test]
fn copied_rows_are_inserts_at_position_zero() {
    let rows = copied_rows(vec![row(1)]);
    assert_eq!(rows[0].values.len(), 4);
    assert_eq!(text(&rows[0].values[2]), "INSERT");
    assert_eq!(text(&rows[0].values[3]), "0000000000000000/0000000000000000");
}

fn insert(schema: ReplicatedTableSchema, id: i32) -> Event {
    Event::Insert(InsertEvent {
        commit_lsn: PgLsn(16),
        tx_ordinal: 1,
        replicated_table_schema: schema,
        table_row: row(id),
    })
}

fn applied(snapshot: &str) -> DestinationTableMetadata {
    DestinationTableMetadata {
        destination_table_id: "users_changelog".to_owned(),
        snapshot_id: snapshot.to_owned(),
        replication_mask: vec![1, 1],
        previous_snapshot_id: None,
    }
}

#[test]
fn iceberg_passes_end_at_truncates() {
    let schema = || replicated_schema(IdentityType::Full);
    let mut newer = schema();
    newer.snapshot_id = "0/2".to_owned();
    let mut events = VecDeque::from(vec![
        insert(schema(), 1),
        Event::Relation(RelationEvent { replicated_table_schema: schema() }),
        Event::Delete(DeleteEvent {
            commit_lsn: PgLsn(16),
            tx_ordinal: 2,
            replicated_table_schema: schema(),
            old_table_row: Some(OldTableRow::Full(row(1))),
        }),
        Event::Truncate(TruncateEvent { truncated_tables: vec![schema(), newer] }),
        insert(schema(), 2),
    ]);
    assert_eq!(announced_tables(&events), vec![TableId(1)]);
    let known = vec![(TableId(1), applied("0/1"))];
    let pass = next_pass(&mut events, &known).unwrap();
    assert_eq!(events.len(), 1);
    assert_eq!(pass.tables.len(), 1);
    let rows = &pass.tables[0].rows;
    assert_eq!(text(&rows[0].values[2]), "INSERT");
    assert_eq!(text(&rows[1].values[2]), "DELETE");
    assert_eq!(text(&rows[1].values[3]), "0000000000000010/0000000000000002");
    assert_eq!(pass.truncates.len(), 1);
    assert_eq!(pass.truncates[0].snapshot_id, "0/2");
}

#[test]
fn iceberg_refuses_schema_changes_and_partial_images() {
    let schema = || replicated_schema(IdentityType::Full);
    let known = vec![(TableId(1), applied("0/0"))];
    let mut events = VecDeque::from(vec![Event::Relation(RelationEvent {
        replicated_table_schema: schema(),
    })]);
    let error = next_pass(&mut events, &known).unwrap_err();
    assert_eq!(error.kind(), ErrorKind::CorruptedTableSchema);
    assert_eq!(
        error.detail(),
        Some(
            "Iceberg destination does not support schema changes. Table 1 schema changed from \
             snapshot_id 0/0 to 0/1."
        )
    );

    let none = Vec::new();
    let mut events = VecDeque::from(vec![Event::Update(UpdateEvent {
        commit_lsn: PgLsn(1),
        tx_ordinal: 0,
        replicated_table_schema: schema(),
        updated_table_row: UpdatedTableRow::Partial(row(1)),
        old_table_row: None,
    })]);
    let error = next_pass(&mut events, &none).unwrap_err();
    assert_eq!(error.description(), Some("Iceberg update requires a full new row image"));

    let delete = |old_table_row| {
        VecDeque::from(vec![Event::Delete(DeleteEvent {
            commit_lsn: PgLsn(1),
            tx_ordinal: 0,
            replicated_table_schema: replicated_schema(IdentityType::Full),
            old_table_row,
        })])
    };
    let error = next_pass(&mut delete(None), &none).unwrap_err();
    assert_eq!(error.description(), Some("Iceberg delete requires an old row image"));
    let error = next_pass(&mut delete(Some(OldTableRow::Key(row(1)))), &none).unwrap_err();
    assert_eq!(error.description(), Some("Iceberg delete requires a full old row image"));
}

#[test]
fn tables_are_prepared_once() {
    let schema = replicated_schema(IdentityType::Full);
    let mut inner = Inner::new(DestinationNamespace::OnePerSchema);
    let plan = inner.prepare_table_for_streaming(&schema, None).unwrap();
    assert_eq!(plan.namespace, "public");
    assert_eq!(plan.table, "users_changelog");
    assert_eq!(
        plan.actions,
        vec![
            PrepareAction::CreateNamespace,
            PrepareAction::StoreApplying,
            PrepareAction::CreateTable,
            PrepareAction::StoreApplied,
            PrepareAction::RememberTable
        ]
    );
    inner.remember_namespace(plan.namespace);
    inner.remember_table(schema.id);
    let again = inner.prepare_table_for_streaming(&schema, None).unwrap();
    assert!(again.actions.is_empty());

    assert!(inner.truncate_table(&schema, None).is_none());
    let (namespace, table) = inner.truncate_table(&schema, Some(&applied("0/1"))).unwrap();
    assert_eq!((namespace.as_str(), table.as_str()), ("public", "users_changelog"));
    let mut other = replicated_schema(IdentityType::Full);
    other.id = TableId(2);
    let hidden = inner.prepare_table_for_streaming(&other, None).unwrap();
    assert_eq!(hidden.table, table);
    assert!(hidden.actions.contains(&PrepareAction::CreateTable));
    inner.forget_table(schema.id);
    let anew = inner.prepare_table_for_streaming(&schema, Some(&applied("0/1"))).unwrap();
    assert_eq!(anew.actions.len(), 4);
    let dropped = inner.drop_table_for_copy(&schema, None).unwrap();
    assert_eq!(dropped.1, "users_changelog");
}

#[test]
fn iceberg_streams_are_written_in_order() {
    let schema = || replicated_schema(IdentityType::Full);
    let truncate = || Event::Truncate(TruncateEvent { truncated_tables: vec![schema()] });
    let mut events = VecDeque::from(vec![
        insert(schema(), 1),
        insert(schema(), 2),
        truncate(),
        truncate(),
        insert(schema(), 3),
        truncate(),
    ]);
    let none: Vec<(TableId, DestinationTableMetadata)> = vec![];
    let mut shown = Vec::new();
    while !events.is_empty() {
        let pass = next_pass(&mut events, &none).unwrap();
        for batch in &pass.tables {
            for row in &batch.rows {
                shown.push(match row.values[0] {
                    Cell::I32(id) => id.to_string(),
                    _ => "?".to_owned(),
                });
            }
        }
        shown.extend(pass.truncates.iter().map(|_| "truncate".to_owned()));
    }
    assert_eq!(shown, vec!["1", "2", "truncate", "3", "truncate"]);
}

#[test]
fn failed_creations_are_not_recorded_as_done() {
    let schema = replicated_schema(IdentityType::Full);
    let inner = Inner::new(DestinationNamespace::OnePerSchema);
    let plan = inner.prepare_table_for_streaming(&schema, None).unwrap();
    let (mut run, mut step) = PlanRun::begin(plan.actions.len());
    let mut taken = Vec::new();
    while let PlanStep::Take(i) = step {
        taken.push(plan.actions[i]);
        step = run.on_result(match plan.actions[i] {
            PrepareAction::CreateTable => {
                Err(EtlError::plain(ErrorKind::InvalidState, "refused"))
            }
            _ => Ok(()),
        });
    }
    assert!(matches!(step, PlanStep::Fail(_)));
    assert_eq!(
        taken,
        vec![
            PrepareAction::CreateNamespace,
            PrepareAction::StoreApplying,
            PrepareAction::CreateTable
        ]
    );
}

#[test]
fn namespaces_are_kept_as_namespaces() {
    for name in ["abc", "Abc", "aws", "AWS_x", "_", "a-b", "9", "\u{c4}pfel"] {
        let once = schema_to_namespace(name);
        assert_eq!(schema_to_namespace(&once), once);
    }
    assert_eq!(schema_to_namespace("abc"), "abc");
    assert_eq!(schema_to_namespace("ABC"), "abc");
}
