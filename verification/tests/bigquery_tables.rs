//! BigQuery: table identifiers, batches and identity checks.
use etl_destinations::bigquery::batches::{
    calculate_target_batches_for_table_copy, split_table_rows,
};
use etl_destinations::bigquery::rows::{validate_bigquery_replica_identity, BigQueryTableRow};
use etl_destinations::bigquery::table_id::{
    table_name_to_bigquery_table_id, Inner, SequencedBigQueryTableId,
};
use etl_destinations::cell::TableRow;
use etl_destinations::error::ErrorKind;
use etl_destinations::schema::{
    ColumnSchema, IdentityType, ReplicatedTableSchema, TableId, TableName, Type,
};

fn replicated_schema(identity_type: IdentityType) -> ReplicatedTableSchema {
    let columns = vec![
        ColumnSchema::new("id".to_owned(), Type::INT4, -1, 1, Some(1), false),
        ColumnSchema::new("name".to_owned(), Type::TEXT, -1, 2, None, true),
    ];
    let identity_columns = match identity_type {
        IdentityType::Full => columns.clone(),
        IdentityType::PrimaryKey => vec![columns[0].clone()],
        IdentityType::AlternativeKey => vec![columns[1].clone()],
        IdentityType::Missing => vec![],
    };
    ReplicatedTableSchema {
        id: TableId(1),
        name: TableName::new("public".to_owned(), "users".to_owned()),
        snapshot_id: "0/0".to_owned(),
        replication_mask: vec![1, 1],
        columns,
        identity_columns,
        omitted_primary_key: vec![],
        identity_type,
        identity_matches_primary_key: identity_type == IdentityType::PrimaryKey,
    }
}

fn replicated_schema_with_partial_primary_key() -> ReplicatedTableSchema {
    let columns = vec![
        ColumnSchema::new("id".to_owned(), Type::INT4, -1, 2, Some(2), false),
        ColumnSchema::new("name".to_owned(), Type::TEXT, -1, 3, None, true),
    ];
    ReplicatedTableSchema {
        id: TableId(1),
        name: TableName::new("public".to_owned(), "users".to_owned()),
        snapshot_id: "0/0".to_owned(),
        replication_mask: vec![0, 1, 1],
        identity_columns: vec![columns[0].clone()],
        columns,
        omitted_primary_key: vec!["tenant_id".to_owned()],
        identity_type: IdentityType::AlternativeKey,
        identity_matches_primary_key: false,
    }
}

fn parse_error(text: &str) -> (ErrorKind, String) {
    let result = text.parse::<SequencedBigQueryTableId>();
    assert!(result.is_err());
    let err = result.unwrap_err();
    (err.kind(), err.detail().unwrap().to_owned())
}

fn empty_row() -> BigQueryTableRow {
    BigQueryTableRow::from_row(TableRow::new(vec![]))
}

#[test]
fn table_name_to_bigquery_table_id_no_underscores() {
    let table_name = TableName::new("schema".to_owned(), "table".to_owned());
    assert_eq!(table_name_to_bigquery_table_id(&table_name).unwrap(), "schema_table");
}

#[test]
fn table_name_to_bigquery_table_id_with_underscores() {
    let table_name = TableName::new("a_b".to_owned(), "c_d".to_owned());
    assert_eq!(table_name_to_bigquery_table_id(&table_name).unwrap(), "a__b_c__d");
}

#[test]
fn table_name_to_bigquery_table_id_collision_prevention() {
    let table_name1 = TableName::new("a_b".to_owned(), "c".to_owned());
    let table_name2 = TableName::new("a".to_owned(), "b_c".to_owned());

    let id1 = table_name_to_bigquery_table_id(&table_name1).unwrap();
    let id2 = table_name_to_bigquery_table_id(&table_name2).unwrap();

    assert_eq!(id1, "a__b_c");
    assert_eq!(id2, "a_b__c");
    assert_ne!(id1, id2, "Table IDs should not collide");
}

#[test]
fn table_name_to_bigquery_table_id_multiple_underscores() {
    let table_name = TableName::new("a__b".to_owned(), "c__d".to_owned());
    assert_eq!(table_name_to_bigquery_table_id(&table_name).unwrap(), "a____b_c____d");
}

#[test]
fn sequenced_bigquery_table_id_from_str_valid() {
    let table_id = "users_table_123";
    let parsed = table_id.parse::<SequencedBigQueryTableId>().unwrap();
    assert_eq!(parsed.to_bigquery_table_id(), "users_table");
    assert_eq!(parsed.1, 123);
}

#[test]
fn sequenced_bigquery_table_id_from_str_zero_sequence() {
    let table_id = "simple_table_0";
    let parsed = table_id.parse::<SequencedBigQueryTableId>().unwrap();
    assert_eq!(parsed.to_bigquery_table_id(), "simple_table");
    assert_eq!(parsed.1, 0);
}

#[test]
fn sequenced_bigquery_table_id_from_str_large_sequence() {
    let table_id = "test_table_18446744073709551615"; // u64::MAX
    let parsed = table_id.parse::<SequencedBigQueryTableId>().unwrap();
    assert_eq!(parsed.to_bigquery_table_id(), "test_table");
    assert_eq!(parsed.1, u64::MAX);
}

#[test]
fn sequenced_bigquery_table_id_from_str_escaped_underscores() {
    let table_id = "a__b_c__d_42";
    let parsed = table_id.parse::<SequencedBigQueryTableId>().unwrap();
    assert_eq!(parsed.to_bigquery_table_id(), "a__b_c__d");
    assert_eq!(parsed.1, 42);
}

#[test]
fn sequenced_bigquery_table_id_new() {
    let table_id = SequencedBigQueryTableId::new("users_table".to_owned());
    assert_eq!(table_id.to_bigquery_table_id(), "users_table");
    assert_eq!(table_id.1, 0);
}

#[test]
fn sequenced_bigquery_table_id_new_with_underscores() {
    let table_id = SequencedBigQueryTableId::new("a__b_c__d".to_owned());
    assert_eq!(table_id.to_bigquery_table_id(), "a__b_c__d");
    assert_eq!(table_id.1, 0);
}

#[test]
fn sequenced_bigquery_table_id_next() {
    let table_id = SequencedBigQueryTableId::new("users_table".to_owned());
    let next_table_id = table_id.next();

    assert_eq!(table_id.1, 0);
    assert_eq!(next_table_id.1, 1);
    assert_eq!(next_table_id.to_bigquery_table_id(), "users_table");
}

#[test]
fn sequenced_bigquery_table_id_next_increments_correctly() {
    let table_id = SequencedBigQueryTableId("test_table".to_owned(), 42);
    let next_table_id = table_id.next();

    assert_eq!(next_table_id.1, 43);
    assert_eq!(next_table_id.to_bigquery_table_id(), "test_table");
}

#[test]
fn sequenced_bigquery_table_id_next_max_value() {
    let table_id = SequencedBigQueryTableId("test_table".to_owned(), u64::MAX - 1);
    let next_table_id = table_id.next();

    assert_eq!(next_table_id.1, u64::MAX);
    assert_eq!(next_table_id.to_bigquery_table_id(), "test_table");
}

#[test]
fn sequenced_bigquery_table_id_to_bigquery_table_id() {
    let table_id = SequencedBigQueryTableId("users_table".to_owned(), 123);
    assert_eq!(table_id.to_bigquery_table_id(), "users_table");
}

#[test]
fn sequenced_bigquery_table_id_to_bigquery_table_id_with_underscores() {
    let table_id = SequencedBigQueryTableId("a__b_c__d".to_owned(), 42);
    assert_eq!(table_id.to_bigquery_table_id(), "a__b_c__d");
}

#[test]
fn sequenced_bigquery_table_id_to_bigquery_table_id_zero_sequence() {
    let table_id = SequencedBigQueryTableId("simple_table".to_owned(), 0);
    assert_eq!(table_id.to_bigquery_table_id(), "simple_table");
}

#[test]
fn sequenced_bigquery_table_id_belongs_to_base() {
    let base_table_id = "users_table".to_owned();
    let users_table_id = SequencedBigQueryTableId(base_table_id.clone(), 2);
    let orders_table_id = SequencedBigQueryTableId("orders_table".to_owned(), 2);

    assert!(users_table_id.belongs_to_base(&base_table_id));
    assert!(!orders_table_id.belongs_to_base(&base_table_id));
}

#[test]
fn sequenced_bigquery_table_id_parse_for_base_ignores_unrelated_tables() {
    let base_table_id = "users_table".to_owned();

    assert_eq!(
        SequencedBigQueryTableId::parse_for_base("users_table_2", &base_table_id),
        Some(SequencedBigQueryTableId("users_table".to_owned(), 2))
    );
    assert_eq!(
        SequencedBigQueryTableId::parse_for_base("users_table_backup", &base_table_id),
        None
    );
    assert_eq!(SequencedBigQueryTableId::parse_for_base("orders_table_2", &base_table_id), None);
    assert_eq!(SequencedBigQueryTableId::parse_for_base("users_table", &base_table_id), None);
}

#[test]
fn clear_table_cache_removes_all_cached_table_state_for_base() {
    let base_table_id = "users_table".to_owned();
    let orders = "orders_table".to_owned();
    let mut inner = Inner::new();

    inner.add_table(SequencedBigQueryTableId(base_table_id.clone(), 0));
    inner.add_table(SequencedBigQueryTableId(base_table_id.clone(), 1));
    inner.add_table(SequencedBigQueryTableId(orders.clone(), 0));
    inner.set_view(base_table_id.clone(), SequencedBigQueryTableId(base_table_id.clone(), 1));
    inner.set_view(orders.clone(), SequencedBigQueryTableId(orders.clone(), 0));

    inner.clear_table_cache(&base_table_id);

    assert!(!inner.contains_table(&SequencedBigQueryTableId(base_table_id.clone(), 0)));
    assert!(!inner.contains_table(&SequencedBigQueryTableId(base_table_id.clone(), 1)));
    assert!(inner.contains_table(&SequencedBigQueryTableId(orders.clone(), 0)));
    assert!(!inner.view_shows(
        &base_table_id,
        &SequencedBigQueryTableId(base_table_id.clone(), 1)
    ));
    assert!(inner.view_shows(&orders, &SequencedBigQueryTableId(orders.clone(), 0)));
}

#[test]
fn validate_bigquery_replica_identity_accepts_primary_key() {
    let replicated_table_schema = replicated_schema(IdentityType::PrimaryKey);

    validate_bigquery_replica_identity(&replicated_table_schema).unwrap();
}

#[test]
fn validate_bigquery_replica_identity_accepts_full() {
    let replicated_table_schema = replicated_schema(IdentityType::Full);

    validate_bigquery_replica_identity(&replicated_table_schema).unwrap();
}

#[test]
fn validate_bigquery_replica_identity_rejects_alternative_key() {
    let replicated_table_schema = replicated_schema(IdentityType::AlternativeKey);

    let error = validate_bigquery_replica_identity(&replicated_table_schema).unwrap_err();
    assert_eq!(error.kind(), ErrorKind::SourceSchemaError);
}

#[test]
fn validate_bigquery_replica_identity_rejects_missing() {
    let replicated_table_schema = replicated_schema(IdentityType::Missing);

    let error = validate_bigquery_replica_identity(&replicated_table_schema).unwrap_err();
    assert_eq!(error.kind(), ErrorKind::SourceSchemaError);
}

#[test]
fn validate_bigquery_replica_identity_rejects_partial_primary_key() {
    let replicated_table_schema = replicated_schema_with_partial_primary_key();

    let error = validate_bigquery_replica_identity(&replicated_table_schema).unwrap_err();
    assert_eq!(error.kind(), ErrorKind::SourceSchemaError);
    assert!(error.detail().unwrap().contains("tenant_id"));
}

#[test]
fn sequenced_bigquery_table_id_from_str_no_underscore() {
    let (kind, detail) = parse_error("tablewithoutsequence");
    assert_eq!(kind, ErrorKind::DestinationTableNameInvalid);
    assert!(detail.contains("No underscore found"));
    assert!(detail.contains("tablewithoutsequence"));
    assert!(detail.contains("Expected format: 'table_name_sequence'"));
}

#[test]
fn sequenced_bigquery_table_id_from_str_invalid_sequence_number() {
    let (kind, detail) = parse_error("users_table_not_a_number");
    assert_eq!(kind, ErrorKind::DestinationTableNameInvalid);
    assert!(detail.contains("Failed to parse sequence number"));
    assert!(detail.contains("not_a_number"));
    assert!(detail.contains("users_table_not_a_number"));
    assert!(detail.contains("Expected a non-negative integer"));
}

#[test]
fn sequenced_bigquery_table_id_from_str_sequence_is_word() {
    let (kind, detail) = parse_error("table_word");
    assert_eq!(kind, ErrorKind::DestinationTableNameInvalid);
    assert!(detail.contains("Failed to parse sequence number"));
    assert!(detail.contains("word"));
    assert!(detail.contains("table_word"));
    assert!(detail.contains("Expected a non-negative integer"));
}

#[test]
fn sequenced_bigquery_table_id_from_str_negative_sequence() {
    let (kind, detail) = parse_error("users_table_-123");
    assert_eq!(kind, ErrorKind::DestinationTableNameInvalid);
    assert!(detail.contains("Failed to parse sequence number"));
    assert!(detail.contains("-123"));
    assert!(detail.contains("users_table_-123"));
}

#[test]
fn sequenced_bigquery_table_id_from_str_sequence_overflow() {
    let (kind, detail) = parse_error("users_table_18446744073709551616"); // u64::MAX + 1
    assert_eq!(kind, ErrorKind::DestinationTableNameInvalid);
    assert!(detail.contains("Failed to parse sequence number"));
    assert!(detail.contains("18446744073709551616"));
    assert!(detail.contains("users_table_18446744073709551616"));
}

#[test]
fn sequenced_bigquery_table_id_from_str_empty_string() {
    let (kind, detail) = parse_error("");
    assert_eq!(kind, ErrorKind::DestinationTableNameInvalid);
    assert!(detail.contains("No underscore found"));
    assert!(detail.contains("''"));
    assert!(detail.contains("Expected format: 'table_name_sequence'"));
}

#[test]
fn sequenced_bigquery_table_id_from_str_empty_sequence() {
    let (kind, detail) = parse_error("users_table_");
    assert_eq!(kind, ErrorKind::DestinationTableNameInvalid);
    assert!(detail.contains("Sequence number cannot be empty"));
    assert!(detail.contains("users_table_"));
    assert!(detail.contains("Expected format: 'table_name_sequence'"));
}

#[test]
fn sequenced_bigquery_table_id_from_str_empty_table_name() {
    let (kind, detail) = parse_error("_123");
    assert_eq!(kind, ErrorKind::DestinationTableNameInvalid);
    assert!(detail.contains("Table name cannot be empty"));
    assert!(detail.contains("_123"));
    assert!(detail.contains("Expected format: 'table_name_sequence'"));
}

#[test]
fn sequenced_bigquery_table_id_round_trip() {
    let original = "users_table_123";
    let parsed = original.parse::<SequencedBigQueryTableId>().unwrap();
    let formatted = parsed.to_text();
    assert_eq!(original, formatted);
}

#[test]
fn sequenced_bigquery_table_id_round_trip_complex() {
    let original = "a__b_c__d_999";
    let parsed = original.parse::<SequencedBigQueryTableId>().unwrap();
    let formatted = parsed.to_text();
    assert_eq!(original, formatted);
    assert_eq!(parsed.to_bigquery_table_id(), "a__b_c__d");
    assert_eq!(parsed.1, 999);
}

#[test]
fn split_table_rows_empty_input() {
    let rows: Vec<BigQueryTableRow> = vec![];
    let result = split_table_rows(rows, 4);
    assert!(result.is_empty());
}

#[test]
fn split_table_rows_zero_concurrent_streams() {
    let rows = vec![empty_row()];
    let result = split_table_rows(rows, 0);
    assert_eq!(result.len(), 1);
    assert_eq!(result[0].len(), 1);
}

#[test]
fn split_table_rows_single_concurrent_stream() {
    let rows = vec![empty_row(), empty_row()];
    let result = split_table_rows(rows, 1);
    assert_eq!(result.len(), 1);
    assert_eq!(result[0].len(), 2);
}

#[test]
fn split_table_rows_fewer_rows_than_streams() {
    let rows = vec![empty_row(), empty_row()];
    let result = split_table_rows(rows, 5);
    assert_eq!(result.len(), 1);
    assert_eq!(result[0].len(), 2);
}

#[test]
fn split_table_rows_equal_distribution() {
    let rows = (0..4).map(|_| empty_row()).collect();
    let result = split_table_rows(rows, 2);
    assert_eq!(result.len(), 2);
    assert_eq!(result[0].len(), 2);
    assert_eq!(result[1].len(), 2);
}

#[test]
fn split_table_rows_uneven_distribution() {
    let rows = (0..5).map(|_| empty_row()).collect();
    let result = split_table_rows(rows, 3);
    assert_eq!(result.len(), 3);
    assert_eq!(result[0].len(), 2); // Gets extra row
    assert_eq!(result[1].len(), 2); // Gets extra row
    assert_eq!(result[2].len(), 1);
}

#[test]
fn split_table_rows_many_streams() {
    let rows = (0..10).map(|_| empty_row()).collect();
    let result = split_table_rows(rows, 4);
    assert_eq!(result.len(), 4);

    // Verify all rows are accounted for
    let total_rows: usize = result.iter().map(Vec::len).sum();
    assert_eq!(total_rows, 10);

    // Verify approximately equal distribution
    assert_eq!(result[0].len(), 3); // Gets extra row
    assert_eq!(result[1].len(), 3); // Gets extra row
    assert_eq!(result[2].len(), 2);
    assert_eq!(result[3].len(), 2);
}

#[test]
fn split_table_rows_single_row() {
    let rows = vec![empty_row()];
    let result = split_table_rows(rows, 5);
    assert_eq!(result.len(), 1);
    assert_eq!(result[0].len(), 1);
}

#[test]
fn split_keeps_the_order_of_rows() {
    let result = split_table_rows(vec![1, 2, 3, 4, 5], 2);
    assert_eq!(result, vec![vec![1, 2, 3], vec![4, 5]]);
    let result = split_table_rows(vec![1, 2, 3, 4, 5], 4);
    assert_eq!(result, vec![vec![1, 2], vec![3], vec![4], vec![5]]);
}

fn string_row_size(value: &str) -> usize {
    prost::encoding::string::encoded_len(1, &value.to_owned())
}

#[test]
fn calculate_target_batches_empty_rows() {
    assert_eq!(calculate_target_batches_for_table_copy(0, 0), 0);
}

#[test]
fn calculate_target_batches_single_small_row() {
    assert_eq!(calculate_target_batches_for_table_copy(string_row_size("test"), 1), 1);
}

#[test]
fn calculate_target_batches_many_small_rows() {
    let size = string_row_size("value_0");
    assert_eq!(calculate_target_batches_for_table_copy(size, 100_000), 1);
}

#[test]
fn calculate_target_batches_large_rows() {
    let large_string = "x".repeat(1024 * 1024); // 1MB string
    let size = string_row_size(&large_string);
    assert_eq!(calculate_target_batches_for_table_copy(size, 50), 7);
}

#[test]
fn calculate_target_batches_very_large_single_row() {
    let huge_string = "x".repeat(15 * 1024 * 1024); // 15MB string
    let size = string_row_size(&huge_string);
    assert_eq!(calculate_target_batches_for_table_copy(size, 1), 1);
}

#[test]
fn versions_compare_by_table_and_number() {
    let a = SequencedBigQueryTableId("users".to_owned(), 1);
    let b = SequencedBigQueryTableId("users".to_owned(), 2);
    assert!(a.equals(&a.clone()));
    assert!(!a.equals(&b));
    assert_ne!(a.to_text(), b.to_text());
}

#[test]
fn cached_tables_are_forgotten_one_by_one() {
    let mut inner = Inner::new();
    let id = SequencedBigQueryTableId("users".to_owned(), 1);
    assert!(!inner.contains_table(&id));
    inner.add_table(id.clone());
    assert!(inner.contains_table(&id));
    inner.remove_table(&id);
    assert!(!inner.contains_table(&id));
}
