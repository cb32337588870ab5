//! BigQuery: rows of changes, passes over events and plans.
use std::collections::VecDeque;

use etl_destinations::bigquery::events::next_pass;
use etl_destinations::bigquery::client::BigQueryClient;
use etl_destinations::bigquery::plan::{
    append_trace_id, copy_rows, create_append_trace_id, drop_table_for_copy,
    handle_relation_event,
    prepare_table_for_streaming, process_truncate, relation_changes_schema, versions_to_drop,
    PrepareAction, RelationAction, TruncateAction,
};
use etl_destinations::bigquery::rows::{
    bigquery_delete_row, bigquery_primary_key_changed, bigquery_sequence_key, bigquery_update_rows,
    bigquery_upsert_row, BigQueryTableRow,
};
use etl_destinations::bigquery::table_id::{Inner, SequencedBigQueryTableId};
use etl_destinations::cell::{Cell, TableRow};
use etl_destinations::error::ErrorKind;
use etl_destinations::event::{
    DeleteEvent, Event, EventSequenceKey, InsertEvent, OldTableRow, PgLsn, RelationEvent,
    TruncateEvent, UpdateEvent, UpdatedTableRow,
};
use etl_destinations::schema::{
    ColumnRename, ColumnSchema, DestinationTableMetadata, IdentityType, ReplicatedTableSchema,
    SchemaDiff, TableId, TableName, Type,
};

fn schema_of(
    id: u32,
    columns: Vec<ColumnSchema>,
    identity_type: IdentityType,
) -> ReplicatedTableSchema {
    let keys: Vec<ColumnSchema> = columns.iter().filter(|c| c.primary_key()).cloned().collect();
    ReplicatedTableSchema {
        id: TableId(id),
        name: TableName::new("public".to_owned(), "users".to_owned()),
        snapshot_id: "0/1".to_owned(),
        replication_mask: vec![1; columns.len()],
        identity_columns: match identity_type {
            IdentityType::Full => columns.clone(),
            IdentityType::PrimaryKey => keys,
            _ => vec![],
        },
        columns,
        omitted_primary_key: vec![],
        identity_type,
        identity_matches_primary_key: identity_type == IdentityType::PrimaryKey,
    }
}

fn replicated_schema(identity_type: IdentityType) -> ReplicatedTableSchema {
    schema_of(
        1,
        vec![
            ColumnSchema::new("id".to_owned(), Type::INT4, -1, 1, Some(1), false),
            ColumnSchema::new("name".to_owned(), Type::TEXT, -1, 2, None, true),
        ],
        identity_type,
    )
}

fn wide_schema(identity_type: IdentityType) -> ReplicatedTableSchema {
    schema_of(
        1,
        vec![
            ColumnSchema::new("id".to_owned(), Type::INT4, -1, 1, Some(1), false),
            ColumnSchema::new("name".to_owned(), Type::TEXT, -1, 2, None, false),
            ColumnSchema::new("age".to_owned(), Type::INT4, -1, 3, None, false),
        ],
        identity_type,
    )
}

fn shown(row: &BigQueryTableRow) -> Vec<(usize, String)> {
    row.cells
        .iter()
        .map(|(tag, cell)| match cell {
            Cell::I32(n) => (*tag, format!("{n}")),
            Cell::String(s) => (*tag, s.clone()),
            other => panic!("unexpected cell {other:?}"),
        })
        .collect()
}

fn cell(tag: usize, text: &str) -> (usize, String) {
    (tag, text.to_owned())
}

fn encoded(row: &BigQueryTableRow) -> Vec<u8> {
    let mut bytes = Vec::new();
    for (tag, cell) in &row.cells {
        match cell {
            Cell::I32(n) => prost::encoding::int32::encode(*tag as u32, n, &mut bytes),
            Cell::String(s) => prost::encoding::string::encode(*tag as u32, s, &mut bytes),
            other => panic!("unexpected cell {other:?}"),
        }
    }
    bytes
}

fn row(id: i32, name: &str) -> TableRow {
    TableRow::new(vec![Cell::I32(id), Cell::String(name.to_owned())])
}

#[test]
fn bigquery_delete_key_row_encodes_identity_and_cdc_tags_against_descriptor_numbers() {
    let row = bigquery_delete_row(
        &wide_schema(IdentityType::PrimaryKey),
        OldTableRow::Key(TableRow::new(vec![Cell::I32(42)])),
        "lsn:1".to_owned(),
    )
    .unwrap();

    let encoded = encoded(&row);

    // Field tags must line up with the descriptor numbering:
    // 1 => id, 4 => _CHANGE_TYPE, 5 => _CHANGE_SEQUENCE_NUMBER.
    assert!(encoded.windows(2).any(|window| window == [0x08, 0x2a]));
    assert!(encoded
        .windows(8)
        .any(|window| window == [0x22, 0x06, b'D', b'E', b'L', b'E', b'T', b'E']));
    assert!(encoded
        .windows(7)
        .any(|window| window == [0x2a, 0x05, b'l', b's', b'n', b':', b'1']));

    // Non-identity source columns are intentionally omitted from sparse
    // delete rows.
    assert!(!encoded.contains(&0x12));
    assert!(!encoded.contains(&0x18));
}

#[test]
fn bigquery_delete_full_row_omits_non_primary_key_source_columns() {
    let row = bigquery_delete_row(
        &wide_schema(IdentityType::Full),
        OldTableRow::Full(TableRow::new(vec![
            Cell::I32(42),
            Cell::String("alice".to_owned()),
            Cell::I32(7),
        ])),
        "lsn:1".to_owned(),
    )
    .unwrap();

    assert_eq!(shown(&row), vec![cell(1, "42"), cell(4, "DELETE"), cell(5, "lsn:1")]);
}

#[test]
fn bigquery_update_rows_emits_delete_before_upsert_when_primary_key_changes() {
    let rows = bigquery_update_rows(
        &replicated_schema(IdentityType::PrimaryKey),
        row(2, "updated"),
        Some(OldTableRow::Key(TableRow::new(vec![Cell::I32(1)]))),
        EventSequenceKey::new(PgLsn(1), 0),
    )
    .unwrap();

    assert_eq!(rows.len(), 2);
    assert_eq!(
        shown(&rows[0]),
        vec![
            cell(1, "1"),
            cell(3, "DELETE"),
            cell(4, "0000000000000001/0000000000000000/0000000000000000"),
        ]
    );
    assert_eq!(
        shown(&rows[1]),
        vec![
            cell(1, "2"),
            cell(2, "updated"),
            cell(3, "UPSERT"),
            cell(4, "0000000000000001/0000000000000000/0000000000000001"),
        ]
    );
}

#[test]
fn bigquery_update_rows_skips_delete_when_primary_key_is_unchanged() {
    let rows = bigquery_update_rows(
        &replicated_schema(IdentityType::PrimaryKey),
        row(1, "updated"),
        Some(OldTableRow::Key(TableRow::new(vec![Cell::I32(1)]))),
        EventSequenceKey::new(PgLsn(1), 0),
    )
    .unwrap();

    assert_eq!(rows.len(), 1);
    assert_eq!(
        shown(&rows[0]),
        vec![
            cell(1, "1"),
            cell(2, "updated"),
            cell(3, "UPSERT"),
            cell(4, "0000000000000001/0000000000000000/0000000000000000"),
        ]
    );
}

#[test]
fn bigquery_update_rows_emits_delete_before_upsert_for_full_identity_primary_key_change() {
    let rows = bigquery_update_rows(
        &replicated_schema(IdentityType::Full),
        row(2, "updated"),
        Some(OldTableRow::Full(row(1, "before"))),
        EventSequenceKey::new(PgLsn(1), 0),
    )
    .unwrap();

    assert_eq!(rows.len(), 2);
    assert_eq!(
        shown(&rows[0]),
        vec![
            cell(1, "1"),
            cell(3, "DELETE"),
            cell(4, "0000000000000001/0000000000000000/0000000000000000"),
        ]
    );
    assert_eq!(
        shown(&rows[1]),
        vec![
            cell(1, "2"),
            cell(2, "updated"),
            cell(3, "UPSERT"),
            cell(4, "0000000000000001/0000000000000000/0000000000000001"),
        ]
    );
}

#[test]
fn sequence_keys_sort_like_positions() {
    let early = bigquery_sequence_key(EventSequenceKey::new(PgLsn(9), 16), 1);
    let late = bigquery_sequence_key(EventSequenceKey::new(PgLsn(10), 0), 0);
    assert_eq!(early, "0000000000000009/0000000000000010/0000000000000001");
    assert!(early < late);
}

#[test]
fn upserts_carry_operation_and_position_behind_the_row() {
    let upsert = bigquery_upsert_row(row(1, "a"), "key".to_owned());
    assert_eq!(
        shown(&upsert),
        vec![cell(1, "1"), cell(2, "a"), cell(3, "UPSERT"), cell(4, "key")]
    );
}

#[test]
fn key_images_of_the_wrong_length_are_refused() {
    let schema = replicated_schema(IdentityType::PrimaryKey);
    let old = OldTableRow::Key(TableRow::new(vec![]));
    let error = bigquery_primary_key_changed(&schema, &old, &row(1, "a")).unwrap_err();
    assert_eq!(error.kind(), ErrorKind::InvalidState);
}

fn insert(id: u32, row: TableRow) -> Event {
    let mut schema = replicated_schema(IdentityType::PrimaryKey);
    schema.id = TableId(id);
    Event::Insert(InsertEvent {
        commit_lsn: PgLsn(1),
        tx_ordinal: 2,
        replicated_table_schema: schema,
        table_row: row,
    })
}

#[test]
fn a_pass_ends_with_schema_changes_and_truncates() {
    let mut events = VecDeque::from(vec![
        Event::Begin,
        insert(7, row(1, "a")),
        insert(8, row(2, "b")),
        insert(7, row(3, "c")),
        Event::Delete(DeleteEvent {
            commit_lsn: PgLsn(1),
            tx_ordinal: 3,
            replicated_table_schema: replicated_schema(IdentityType::PrimaryKey),
            old_table_row: Some(OldTableRow::Key(TableRow::new(vec![Cell::I32(9)]))),
        }),
        Event::Relation(RelationEvent {
            replicated_table_schema: replicated_schema(IdentityType::PrimaryKey),
        }),
        Event::Truncate(TruncateEvent {
            truncated_tables: vec![
                replicated_schema(IdentityType::PrimaryKey),
                replicated_schema(IdentityType::PrimaryKey),
            ],
        }),
        insert(7, row(4, "d")),
    ]);
    let pass = next_pass(&mut events).unwrap();
    assert_eq!(events.len(), 1);
    assert_eq!(pass.tables.len(), 3);
    let of_seven = pass.tables.iter().find(|t| t.schema.id == TableId(7)).unwrap();
    assert_eq!(of_seven.rows.len(), 2);
    assert_eq!(shown(&of_seven.rows[0])[1], cell(2, "a"));
    assert_eq!(shown(&of_seven.rows[1])[1], cell(2, "c"));
    assert_eq!(pass.relations.len(), 1);
    assert_eq!(pass.truncates.len(), 1);
}

#[test]
fn partial_updates_are_refused() {
    let mut events = VecDeque::from(vec![Event::Update(UpdateEvent {
        commit_lsn: PgLsn(1),
        tx_ordinal: 2,
        replicated_table_schema: replicated_schema(IdentityType::PrimaryKey),
        updated_table_row: UpdatedTableRow::Partial(row(1, "a")),
        old_table_row: None,
    })]);
    assert!(next_pass(&mut events).is_err());
}

#[test]
fn new_tables_are_recorded_before_they_are_created() {
    let schema = replicated_schema(IdentityType::PrimaryKey);
    let plan = prepare_table_for_streaming(&schema, None, &Inner::new()).unwrap();
    assert_eq!(plan.view_name, "public_users");
    assert_eq!(plan.table, SequencedBigQueryTableId("public_users".to_owned(), 0));
    assert_eq!(plan.actions.first(), Some(&PrepareAction::StoreApplying));
    assert!(plan.actions.contains(&PrepareAction::CreateTableIfMissing));
}

#[test]
fn known_tables_need_no_preparation() {
    let schema = replicated_schema(IdentityType::PrimaryKey);
    let id = SequencedBigQueryTableId("public_users".to_owned(), 3);
    let mut inner = Inner::new();
    inner.add_table(id.clone());
    inner.set_view("public_users".to_owned(), id.clone());
    let plan =
        prepare_table_for_streaming(&schema, Some(&"public_users_3".to_owned()), &inner).unwrap();
    assert_eq!(plan.table, id);
    assert!(plan.actions.is_empty());
}

fn metadata(snapshot: &str) -> DestinationTableMetadata {
    DestinationTableMetadata {
        destination_table_id: "public_users_3".to_owned(),
        snapshot_id: snapshot.to_owned(),
        replication_mask: vec![1, 1],
        previous_snapshot_id: None,
    }
}

#[test]
fn schema_changes_add_rename_and_drop_in_order() {
    let schema = replicated_schema(IdentityType::PrimaryKey);
    assert!(!relation_changes_schema(&schema, Some(&metadata("0/1"))).unwrap());
    assert!(relation_changes_schema(&schema, Some(&metadata("0/0"))).unwrap());
    let missing = relation_changes_schema(&schema, None).unwrap_err();
    assert_eq!(missing.kind(), ErrorKind::CorruptedTableSchema);

    let diff = SchemaDiff {
        columns_to_add: vec![ColumnSchema::new("c".to_owned(), Type::TEXT, -1, 3, None, true)],
        columns_to_remove: vec![ColumnSchema::new("d".to_owned(), Type::TEXT, -1, 4, None, true)],
        columns_to_rename: vec![ColumnRename {
            old_name: "a".to_owned(),
            new_name: "b".to_owned(),
            ordinal_position: 1,
        }],
    };
    let plan = handle_relation_event(&schema, &metadata("0/0"), Some(&diff)).unwrap();
    assert_eq!(plan.table, SequencedBigQueryTableId("public_users".to_owned(), 3));
    assert_eq!(plan.changes.len(), 3);
    assert_eq!(plan.metadata.snapshot_id, "0/1");
    assert_eq!(plan.metadata.previous_snapshot_id.as_deref(), Some("0/0"));
    assert_eq!(plan.actions[0], RelationAction::StoreApplying);
    assert_eq!(plan.actions[1], RelationAction::Change(0));
    assert!(plan.actions.contains(&RelationAction::StoreApplied));
}

#[test]
fn truncates_start_the_next_version() {
    let schema = replicated_schema(IdentityType::PrimaryKey);
    assert!(process_truncate(&schema, None, &Inner::new()).unwrap().is_none());
    let plan =
        process_truncate(&schema, Some(&"public_users_3".to_owned()), &Inner::new()).unwrap().unwrap();
    assert_eq!(plan.current, SequencedBigQueryTableId("public_users".to_owned(), 3));
    assert_eq!(plan.next, SequencedBigQueryTableId("public_users".to_owned(), 4));
    assert_eq!(plan.view_name, "public_users");
    assert_eq!(plan.actions[0], TruncateAction::CreateOrReplaceNext);
    assert_eq!(plan.actions.last(), Some(&TruncateAction::DropOld));
    assert_eq!(plan.metadata.destination_table_id, "public_users_4");
    assert_eq!(plan.metadata.snapshot_id, "0/1");
    assert!(!relation_changes_schema(&schema, Some(&plan.metadata)).unwrap());
}

#[test]
fn only_versions_of_the_table_are_dropped() {
    let names = vec![
        "users_0".to_owned(),
        "users_backup".to_owned(),
        "orders_1".to_owned(),
        "users_12".to_owned(),
    ];
    let dropped = versions_to_drop(&names, &"users".to_owned());
    assert_eq!(
        dropped,
        vec![
            SequencedBigQueryTableId("users".to_owned(), 0),
            SequencedBigQueryTableId("users".to_owned(), 12)
        ]
    );
}

#[test]
fn tables_are_dropped_with_their_view() {
    let schema = replicated_schema(IdentityType::PrimaryKey);
    let names = vec!["public_users_2".to_owned(), "public_users_2".to_owned()];
    let plan = drop_table_for_copy(&schema, &names).unwrap();
    assert_eq!(plan.view_name, "public_users");
    assert_eq!(plan.versions, vec![SequencedBigQueryTableId("public_users".to_owned(), 2)]);
}

#[test]
fn copies_are_split_into_addressed_requests() {
    let client = BigQueryClient::new("project".to_owned());
    let schema = replicated_schema(IdentityType::PrimaryKey);
    let descriptor = BigQueryClient::column_schemas_to_table_descriptor(&schema, false);
    let rows = copy_rows((0..5).map(|i| row(i, "a")).collect());
    let requests = client
        .create_table_copy_requests(
            5,
            &"dataset".to_owned(),
            &"users_0".to_owned(),
            &descriptor,
            rows,
            4_000_000,
        )
        .unwrap();
    let sizes: Vec<usize> = requests.iter().map(|r| r.rows.len()).collect();
    assert_eq!(sizes, vec![2, 2, 1]);
    assert_eq!(requests[1].project_id, "project");
    assert_eq!(requests[1].dataset_id, "dataset");
    assert_eq!(requests[1].table_id, "users_0");
    assert!(requests[1].trace_id.starts_with("supabase_etl_5_users_0_1_"));
    assert_eq!(requests[1].table_descriptor.field_descriptors.len(), 3);
    let none = client
        .create_table_copy_requests(
            5,
            &"dataset".to_owned(),
            &"users_0".to_owned(),
            &descriptor,
            vec![],
            0,
        )
        .unwrap();
    assert!(none.is_empty());
}

#[test]
fn copied_rows_are_upserts_in_order() {
    let rows = copy_rows(vec![row(1, "a"), row(2, "b")]);
    assert_eq!(rows.len(), 2);
    assert_eq!(shown(&rows[0])[2], cell(3, "UPSERT"));
    assert_eq!(shown(&rows[1])[1], cell(2, "b"));
}

#[test]
fn trace_ids_name_pipeline_table_and_batch() {
    let fixed = append_trace_id(5, "users_0", 2, 0xabc);
    let drawn = create_append_trace_id(5, "users_0", 2);
    assert_eq!(fixed, "supabase_etl_5_users_0_2_2748");
    let nonce = drawn.strip_prefix("supabase_etl_5_users_0_2_").unwrap();
    nonce.parse::<u32>().unwrap();
}

#[test]
fn bigquery_streams_are_written_in_order() {
    let truncate = || {
        let mut schema = replicated_schema(IdentityType::PrimaryKey);
        schema.id = TableId(7);
        Event::Truncate(TruncateEvent { truncated_tables: vec![schema] })
    };
    let mut events = VecDeque::from(vec![
        insert(7, row(1, "a")),
        insert(8, row(2, "b")),
        insert(7, row(3, "c")),
        truncate(),
        truncate(),
        insert(7, row(4, "d")),
    ]);
    let mut written = Vec::new();
    while !events.is_empty() {
        let pass = next_pass(&mut events).unwrap();
        for batch in pass.tables.iter().filter(|batch| batch.schema.id == TableId(7)) {
            written.extend(batch.rows.iter().map(|row| shown(row)[1].1.clone()));
        }
        written.extend(pass.truncates.iter().map(|_| "truncate".to_owned()));
    }
    let expected = vec![
        cell(2, "a").1,
        cell(2, "c").1,
        "truncate".to_owned(),
        cell(2, "d").1,
    ];
    assert_eq!(written, expected);
}
