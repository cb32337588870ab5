//! BigQuery: statements, descriptors and the handling of append results.
use etl_destinations::bigquery::append::{
    bq_error_to_etl_error, compute_max_inflight_requests,
    decode_storage_error_codes, error_code_label, is_retryable_table_recreation_error,
    row_error_to_etl_error, schema_propagation_lags, storage_write_metadata_lag_timeout_error,
    BigQueryCause, BigQueryError, GrpcCode, GrpcStatus, RowError,
};
use etl_destinations::bigquery::client::{
    BigQueryClient, ColumnMode, ColumnType, BIGQUERY_CDC_SEQUENCE_COLUMN,
    BIGQUERY_CDC_SPECIAL_COLUMN,
};
use etl_destinations::bigquery::retry::{
    append_processing_result_from_request_error, append_table_batches_once,
    process_single_batch_append_result, AppendProcessingResult, AppendResponse, AppendRun,
    AppendStep, BatchAppendResult, BatchProcessResult,
};
use etl_destinations::error::ErrorKind;
use etl_destinations::schema::{
    ColumnSchema, IdentityType, ReplicatedTableSchema, TableId, TableName, Type,
};
use etl_destinations::time::Duration;

fn successful_append_response() -> AppendResponse {
    AppendResponse { encoded_len: 10, row_errors: Vec::new() }
}

fn status(code: GrpcCode, message: &str) -> BigQueryError {
    BigQueryError {
        cause: BigQueryCause::TonicStatusError(GrpcStatus {
            code,
            message: message.to_owned(),
            details: Vec::new(),
        }),
        text: message.to_owned(),
    }
}

fn test_column(
    name: &str,
    typ: Type,
    ordinal_position: i32,
    nullable: bool,
    primary_key_ordinal: Option<i32>,
) -> ColumnSchema {
    ColumnSchema::new(name.to_owned(), typ, -1, ordinal_position, primary_key_ordinal, nullable)
}

fn schema_with_identity(
    columns: Vec<ColumnSchema>,
    identity_type: IdentityType,
) -> ReplicatedTableSchema {
    ReplicatedTableSchema {
        id: TableId(1),
        name: TableName::new("public".to_owned(), "test_table".to_owned()),
        snapshot_id: "0/0".to_owned(),
        replication_mask: vec![1; columns.len()],
        identity_columns: vec![],
        columns,
        omitted_primary_key: vec![],
        identity_type,
        identity_matches_primary_key: identity_type == IdentityType::PrimaryKey,
    }
}

fn test_replicated_schema(columns: Vec<ColumnSchema>) -> ReplicatedTableSchema {
    schema_with_identity(columns, IdentityType::PrimaryKey)
}

#[test]
fn postgres_to_bigquery_type_basic_types() {
    assert_eq!(BigQueryClient::postgres_to_bigquery_type(&Type::BOOL), "bool");
    assert_eq!(BigQueryClient::postgres_to_bigquery_type(&Type::TEXT), "string");
    assert_eq!(BigQueryClient::postgres_to_bigquery_type(&Type::INT2), "int64");
    assert_eq!(BigQueryClient::postgres_to_bigquery_type(&Type::INT4), "int64");
    assert_eq!(BigQueryClient::postgres_to_bigquery_type(&Type::INT8), "int64");
    assert_eq!(BigQueryClient::postgres_to_bigquery_type(&Type::FLOAT4), "float64");
    assert_eq!(BigQueryClient::postgres_to_bigquery_type(&Type::FLOAT8), "float64");
    assert_eq!(BigQueryClient::postgres_to_bigquery_type(&Type::NUMERIC), "bignumeric");
    assert_eq!(BigQueryClient::postgres_to_bigquery_type(&Type::MONEY), "string");
    assert_eq!(BigQueryClient::postgres_to_bigquery_type(&Type::OID), "int64");
    assert_eq!(BigQueryClient::postgres_to_bigquery_type(&Type::TIMESTAMP), "timestamp");
    assert_eq!(BigQueryClient::postgres_to_bigquery_type(&Type::JSON), "json");
    assert_eq!(BigQueryClient::postgres_to_bigquery_type(&Type::BYTEA), "bytes");
}

#[test]
fn postgres_to_bigquery_type_array_types() {
    assert_eq!(BigQueryClient::postgres_to_bigquery_type(&Type::BOOL_ARRAY), "array<bool>");
    assert_eq!(BigQueryClient::postgres_to_bigquery_type(&Type::TEXT_ARRAY), "array<string>");
    assert_eq!(BigQueryClient::postgres_to_bigquery_type(&Type::INT2_ARRAY), "array<int64>");
    assert_eq!(BigQueryClient::postgres_to_bigquery_type(&Type::INT4_ARRAY), "array<int64>");
    assert_eq!(BigQueryClient::postgres_to_bigquery_type(&Type::INT8_ARRAY), "array<int64>");
    assert_eq!(BigQueryClient::postgres_to_bigquery_type(&Type::FLOAT4_ARRAY), "array<float64>");
    assert_eq!(BigQueryClient::postgres_to_bigquery_type(&Type::FLOAT8_ARRAY), "array<float64>");
    assert_eq!(
        BigQueryClient::postgres_to_bigquery_type(&Type::NUMERIC_ARRAY),
        "array<bignumeric>"
    );
    assert_eq!(BigQueryClient::postgres_to_bigquery_type(&Type::MONEY_ARRAY), "array<string>");
    assert_eq!(BigQueryClient::postgres_to_bigquery_type(&Type::OID_ARRAY), "array<int64>");
    assert_eq!(
        BigQueryClient::postgres_to_bigquery_type(&Type::TIMESTAMP_ARRAY),
        "array<timestamp>"
    );
    assert_eq!(BigQueryClient::postgres_to_bigquery_type(&Type::INTERVAL_ARRAY), "array<string>");
    assert_eq!(BigQueryClient::postgres_to_bigquery_type(&Type::INET_ARRAY), "array<string>");
    assert_eq!(
        BigQueryClient::postgres_to_bigquery_type(&Type::INT4_RANGE_ARRAY),
        "array<string>"
    );
}

#[test]
fn column_spec() {
    let column_schema = test_column("test_col", Type::TEXT, 1, true, None);
    let spec = BigQueryClient::column_spec(&column_schema).expect("column spec generation");
    assert_eq!(spec, "`test_col` string");

    let not_null_column = test_column("id", Type::INT4, 1, false, Some(1));
    let not_null_spec =
        BigQueryClient::column_spec(&not_null_column).expect("not null column spec");
    assert_eq!(not_null_spec, "`id` int64 not null");

    let array_column = test_column("tags", Type::TEXT_ARRAY, 1, false, None);
    let array_spec = BigQueryClient::column_spec(&array_column).expect("array column spec");
    assert_eq!(array_spec, "`tags` array<string>");
}

#[test]
fn column_spec_escapes_backticks() {
    let column_schema = test_column("pwn`name", Type::TEXT, 1, true, None);

    let spec = BigQueryClient::column_spec(&column_schema).expect("escaped column spec");

    assert_eq!(spec, "`pwn\\`name` string");
}

#[test]
fn sanitize_identifier_rejects_control_chars() {
    let result = BigQueryClient::sanitize_identifier("bad\nname", "column");

    assert!(matches!(
        result,
        Err(err) if err.kind() == ErrorKind::DestinationTableNameInvalid
    ));
}

#[test]
fn add_primary_key_clause() {
    let columns_with_pk = vec![
        test_column("id", Type::INT4, 1, false, Some(1)),
        test_column("name", Type::TEXT, 2, true, None),
    ];
    let schema_with_pk = test_replicated_schema(columns_with_pk);
    let pk_clause =
        BigQueryClient::add_primary_key_clause(&schema_with_pk).expect("pk clause").unwrap();
    assert_eq!(pk_clause, ", primary key (`id`) not enforced");

    // Composite primary key with correct ordinal positions.
    let columns_with_composite_pk = vec![
        test_column("tenant_id", Type::INT4, 1, false, Some(1)),
        test_column("id", Type::INT4, 2, false, Some(2)),
        test_column("name", Type::TEXT, 3, true, None),
    ];
    let schema_with_composite_pk = test_replicated_schema(columns_with_composite_pk);
    let composite_pk_clause = BigQueryClient::add_primary_key_clause(&schema_with_composite_pk)
        .unwrap()
        .expect("composite pk clause");
    assert_eq!(composite_pk_clause, ", primary key (`tenant_id`,`id`) not enforced");

    // BigQuery declares composite primary keys in primary-key ordinal
    // order, even when the table's physical column order differs.
    let columns_with_reversed_pk = vec![
        test_column("id", Type::INT4, 1, false, Some(2)),
        test_column("tenant_id", Type::INT4, 2, false, Some(1)),
        test_column("name", Type::TEXT, 3, true, None),
    ];
    let schema_with_reversed_pk = test_replicated_schema(columns_with_reversed_pk);
    let reversed_pk_clause = BigQueryClient::add_primary_key_clause(&schema_with_reversed_pk)
        .unwrap()
        .expect("reversed pk clause");
    assert_eq!(reversed_pk_clause, ", primary key (`tenant_id`,`id`) not enforced");

    let columns_with_full_identity = vec![
        test_column("id", Type::INT4, 1, false, Some(1)),
        test_column("name", Type::TEXT, 2, true, None),
    ];
    let schema_with_full_identity =
        schema_with_identity(columns_with_full_identity, IdentityType::Full);
    let full_identity_pk_clause =
        BigQueryClient::add_primary_key_clause(&schema_with_full_identity)
            .unwrap()
            .expect("full identity pk clause");
    assert_eq!(full_identity_pk_clause, ", primary key (`id`) not enforced");

    let columns_no_pk = vec![
        test_column("name", Type::TEXT, 1, true, None),
        test_column("age", Type::INT4, 2, true, None),
    ];
    let schema_no_pk = test_replicated_schema(columns_no_pk);
    let no_pk_clause =
        BigQueryClient::add_primary_key_clause(&schema_no_pk).expect("no pk clause");
    assert!(no_pk_clause.is_none());
}

#[test]
fn column_schemas_to_table_descriptor() {
    let columns = vec![
        test_column("id", Type::INT4, 1, false, Some(1)),
        test_column("name", Type::TEXT, 2, true, None),
        test_column("active", Type::BOOL, 3, false, None),
        test_column("tags", Type::TEXT_ARRAY, 4, false, None),
    ];
    let schema = test_replicated_schema(columns);

    let descriptor = BigQueryClient::column_schemas_to_table_descriptor(&schema, true);

    assert_eq!(descriptor.field_descriptors.len(), 6); // 4 columns + CDC columns

    // Check regular columns
    assert_eq!(descriptor.field_descriptors[0].name, "id");
    assert!(matches!(descriptor.field_descriptors[0].typ, ColumnType::Int32));
    assert!(matches!(descriptor.field_descriptors[0].mode, ColumnMode::Nullable));

    assert_eq!(descriptor.field_descriptors[1].name, "name");
    assert!(matches!(descriptor.field_descriptors[1].typ, ColumnType::String));
    assert!(matches!(descriptor.field_descriptors[1].mode, ColumnMode::Nullable));

    assert_eq!(descriptor.field_descriptors[2].name, "active");
    assert!(matches!(descriptor.field_descriptors[2].typ, ColumnType::Bool));
    assert!(matches!(descriptor.field_descriptors[2].mode, ColumnMode::Nullable));

    // Check array column
    assert_eq!(descriptor.field_descriptors[3].name, "tags");
    assert!(matches!(descriptor.field_descriptors[3].typ, ColumnType::String));
    assert!(matches!(descriptor.field_descriptors[3].mode, ColumnMode::Repeated));

    // Check CDC columns
    assert_eq!(descriptor.field_descriptors[4].name, BIGQUERY_CDC_SPECIAL_COLUMN);
    assert!(matches!(descriptor.field_descriptors[4].typ, ColumnType::String));
    assert!(matches!(descriptor.field_descriptors[4].mode, ColumnMode::Required));

    assert_eq!(descriptor.field_descriptors[5].name, BIGQUERY_CDC_SEQUENCE_COLUMN);
    assert!(matches!(descriptor.field_descriptors[5].typ, ColumnType::String));
    assert!(matches!(descriptor.field_descriptors[5].mode, ColumnMode::Required));
    let field_numbers: Vec<u32> =
        descriptor.field_descriptors.iter().map(|field| field.number).collect();
    assert_eq!(field_numbers, vec![1, 2, 3, 4, 5, 6]);
}

#[test]
fn column_schemas_to_table_descriptor_preserves_required_mode_for_table_copy() {
    let columns = vec![
        test_column("id", Type::INT4, 1, false, Some(1)),
        test_column("name", Type::TEXT, 2, true, None),
    ];
    let schema = test_replicated_schema(columns);

    let descriptor = BigQueryClient::column_schemas_to_table_descriptor(&schema, false);

    assert!(matches!(descriptor.field_descriptors[0].mode, ColumnMode::Required));
    assert!(matches!(descriptor.field_descriptors[1].mode, ColumnMode::Nullable));
    assert_eq!(descriptor.field_descriptors.len(), 3);
}

#[test]
fn column_schemas_to_table_descriptor_complex_types() {
    let columns = vec![
        test_column("uuid_col", Type::UUID, 1, true, None),
        test_column("json_col", Type::JSON, 2, true, None),
        test_column("bytea_col", Type::BYTEA, 3, true, None),
        test_column("numeric_col", Type::NUMERIC, 4, true, None),
        test_column("date_col", Type::DATE, 5, true, None),
        test_column("time_col", Type::TIME, 6, true, None),
    ];
    let schema = test_replicated_schema(columns);

    let descriptor = BigQueryClient::column_schemas_to_table_descriptor(&schema, true);

    assert_eq!(descriptor.field_descriptors.len(), 8); // 6 columns + CDC columns

    // Check that UUID, JSON, DATE, TIME are all mapped to String in storage
    assert!(matches!(descriptor.field_descriptors[0].typ, ColumnType::String)); // UUID
    assert!(matches!(descriptor.field_descriptors[1].typ, ColumnType::String)); // JSON
    assert!(matches!(descriptor.field_descriptors[2].typ, ColumnType::Bytes)); // BYTEA
    assert!(matches!(descriptor.field_descriptors[3].typ, ColumnType::String)); // NUMERIC
    assert!(matches!(descriptor.field_descriptors[4].typ, ColumnType::String)); // DATE
    assert!(matches!(descriptor.field_descriptors[5].typ, ColumnType::String)); // TIME
}

#[test]
fn process_single_batch_append_result_retries_pure_schema_propagation_errors() {
    let result = process_single_batch_append_result(BatchAppendResult {
        batch_index: 0,
        responses: vec![Err(status(GrpcCode::InvalidArgument, "schema_mismatch_extra_fields"))],
        bytes_sent: 128,
    });

    assert!(matches!(result, BatchProcessResult::RetryableStorageWriteMetadataLag { .. }));
}

#[test]
fn process_single_batch_append_result_retries_extra_proto_fields_schema_lag() {
    let result = process_single_batch_append_result(BatchAppendResult {
        batch_index: 0,
        responses: vec![Err(status(
            GrpcCode::InvalidArgument,
            "Found incompatible fields: 'id' and/or mismatch fields, extra proto fields: \
             'ddl_col_1_0' extra bq fields: ''",
        ))],
        bytes_sent: 128,
    });

    assert!(matches!(result, BatchProcessResult::RetryableStorageWriteMetadataLag { .. }));
}

#[test]
fn process_single_batch_append_result_retries_partial_success_schema_propagation() {
    let result = process_single_batch_append_result(BatchAppendResult {
        batch_index: 0,
        responses: vec![
            Ok(successful_append_response()),
            Err(status(GrpcCode::InvalidArgument, "schema_mismatch_extra_fields")),
        ],
        bytes_sent: 128,
    });

    assert!(matches!(result, BatchProcessResult::RetryableStorageWriteMetadataLag { .. }));
}

#[test]
fn process_single_batch_append_result_retries_table_recreation_propagation() {
    let result = process_single_batch_append_result(BatchAppendResult {
        batch_index: 0,
        responses: vec![Err(status(
            GrpcCode::NotFound,
            "Table 123:dataset.test_users_0 is re-created. Entity: \
             projects/project/datasets/dataset/tables/test_users_0/streams/_default",
        ))],
        bytes_sent: 128,
    });

    assert!(matches!(result, BatchProcessResult::RetryableStorageWriteMetadataLag { .. }));
}

#[test]
fn process_single_batch_append_result_does_not_retry_generic_not_found() {
    let result = process_single_batch_append_result(BatchAppendResult {
        batch_index: 0,
        responses: vec![Err(status(
            GrpcCode::NotFound,
            "Table 123:dataset.test_users_0 was not found.",
        ))],
        bytes_sent: 128,
    });

    assert!(matches!(result, BatchProcessResult::RequestError { .. }));
}

#[test]
fn storage_write_metadata_lag_timeout_error_is_worker_retryable() {
    let error = storage_write_metadata_lag_timeout_error("storage write metadata lag");

    assert_eq!(error.kind(), ErrorKind::DestinationAtomicBatchRetryable);
    assert_eq!(error.description(), Some("BigQuery storage write metadata lag timed out"));
}

#[test]
fn statements_quote_their_names() {
    let client = BigQueryClient::new("project".to_owned());
    let (dataset, table) = ("data".to_owned(), "users_0".to_owned());
    assert_eq!(client.full_table_name(&dataset, &table).unwrap(), "`project.data.users_0`");
    let sql = client.truncate_table(&dataset, &table).unwrap();
    assert!(sql.contains("`project.data.users_0`"), "{sql}");
    let sql = client.rename_column(&dataset, &table, "a", "b").unwrap();
    assert!(sql.contains("`a`") && sql.contains("`b`"), "{sql}");
    let sql = client.drop_column(&dataset, &table, "a").unwrap();
    assert!(sql.contains("`a`"), "{sql}");
}

#[test]
fn inflight_requests_follow_the_pool_up_to_a_limit() {
    assert_eq!(compute_max_inflight_requests(1), 100);
    assert_eq!(compute_max_inflight_requests(32), 3_200);
    assert_eq!(compute_max_inflight_requests(usize::MAX), 100_000);
}

fn storage_error_details(code: i32) -> Vec<u8> {
    let mut inner = Vec::new();
    prost::encoding::int32::encode(1, &code, &mut inner);
    let mut any = Vec::new();
    let url = "type.googleapis.com/google.cloud.bigquery.storage.v1.StorageError".to_owned();
    prost::encoding::string::encode(1, &url, &mut any);
    prost::encoding::bytes::encode(2, &inner, &mut any);
    let mut details = Vec::new();
    prost::encoding::bytes::encode(3, &any, &mut details);
    details
}

#[test]
fn storage_error_codes_are_read_from_details() {
    let status = GrpcStatus {
        code: GrpcCode::InvalidArgument,
        message: "refused".to_owned(),
        details: storage_error_details(9),
    };
    let codes = decode_storage_error_codes(&status);
    assert_eq!(codes.len(), 1);
    let none = GrpcStatus {
        code: GrpcCode::InvalidArgument,
        message: "refused".to_owned(),
        details: Vec::new(),
    };
    assert!(decode_storage_error_codes(&none).is_empty());
}

#[test]
fn failures_are_told_apart_by_status() {
    let unavailable = bq_error_to_etl_error(&status(GrpcCode::Unavailable, "down"));
    let denied = bq_error_to_etl_error(&status(GrpcCode::PermissionDenied, "no"));
    assert_eq!(unavailable.kind(), ErrorKind::DestinationError);
    assert_eq!(unavailable.description(), Some("BigQuery unavailable"));
    assert_ne!(unavailable.description(), denied.description());
    let missing = bq_error_to_etl_error(&BigQueryError {
        cause: BigQueryCause::ResponseError { code: 404 },
        text: "gone".to_owned(),
    });
    assert_eq!(missing.kind(), ErrorKind::DestinationQueryFailed);
    let token = bq_error_to_etl_error(&BigQueryError {
        cause: BigQueryCause::NoToken,
        text: "none".to_owned(),
    });
    assert_eq!(token.kind(), ErrorKind::DestinationAuthenticationError);
    assert_eq!(token.source(), Some("none"));
    let rows = row_error_to_etl_error(&RowError {
        index: 7,
        code: 1,
        message: "bad row".to_owned(),
    });
    assert_eq!(
        rows.detail(),
        Some("RowError { index: 7, code: FieldsError, message: \"bad row\" }")
    );
    assert_ne!(
        error_code_label(&status(GrpcCode::Unavailable, "down")),
        error_code_label(&status(GrpcCode::NotFound, "gone"))
    );
}

#[test]
fn lookups_say_whether_tables_and_datasets_exist() {
    let not_found = |code: i64| BigQueryError {
        cause: BigQueryCause::ResponseError { code },
        text: "answer".to_owned(),
    };
    assert!(BigQueryClient::table_exists(&Ok(())).unwrap());
    assert!(!BigQueryClient::table_exists(&Err(not_found(404))).unwrap());
    assert!(BigQueryClient::table_exists(&Err(not_found(500))).is_err());
    assert!(BigQueryClient::dataset_exists(&Ok(())).unwrap());
    assert!(!BigQueryClient::dataset_exists(&Err(not_found(404))).unwrap());
    assert!(BigQueryClient::dataset_exists(&Err(not_found(500))).is_err());
    assert!(!is_retryable_table_recreation_error(&not_found(404)));

    let client = BigQueryClient::new("p".to_owned());
    let schema = test_replicated_schema(vec![test_column("id", Type::INT4, 1, false, Some(1))]);
    let (dataset, table) = ("d".to_owned(), "t".to_owned());
    let create = |lookup: &Result<(), BigQueryError>| {
        client.create_table_if_missing(lookup, &dataset, &table, &schema, Some(15)).unwrap()
    };
    assert!(create(&Ok(())).is_none());
    assert_eq!(
        create(&Err(not_found(404))).unwrap(),
        "create table `p.d.t` (`id` int64 not null, primary key (`id`) not enforced) options \
         (max_staleness = interval 15 minute)"
    );
    let failed = Err(not_found(500));
    assert!(client
        .create_table_if_missing(&failed, &dataset, &table, &schema, Some(15))
        .is_err());
    let replace = |lookup: &Result<(), BigQueryError>| {
        client.create_or_replace_table(lookup, &dataset, &table, &schema, None)
    };
    let statement =
        "create or replace table `p.d.t` (`id` int64 not null, primary key (`id`) not enforced) ";
    assert_eq!(replace(&Ok(())).unwrap(), (statement.to_owned(), false));
    assert_eq!(replace(&Err(not_found(404))).unwrap(), (statement.to_owned(), true));
    assert!(replace(&failed).is_err());
    assert_eq!(
        client.create_or_replace_view(&dataset, &"v".to_owned(), &table).unwrap(),
        "create or replace view `p.d.v` as select * from `p.d.t`"
    );
    assert_eq!(
        client.drop_view_if_exists(&dataset, &table).unwrap(),
        "drop view if exists `p.d.t`"
    );
    assert_eq!(
        client.drop_table_if_exists(&dataset, &table).unwrap(),
        "drop table if exists `p.d.t`"
    );
    assert_eq!(BigQueryClient::version_prefix(&table), "t_");
    assert!(client.list_sequenced_table_ids(&dataset).unwrap().contains("`p.d.INFORMATION_SCHEMA"));
}

fn batch(batch_index: usize, responses: Vec<Result<AppendResponse, BigQueryError>>) -> BatchAppendResult {
    BatchAppendResult { batch_index, responses, bytes_sent: 5 }
}

#[test]
fn only_lagging_requests_are_pending() {
    let results = vec![
        batch(0, vec![Ok(successful_append_response())]),
        batch(1, vec![Err(status(GrpcCode::InvalidArgument, "schema_mismatch_extra_fields"))]),
    ];
    match append_table_batches_once(vec!["first", "second"], results) {
        AppendProcessingResult::Retry { pending_requests, .. } => {
            let names: Vec<&str> = pending_requests.iter().map(|p| p.request).collect();
            assert_eq!(names, vec!["second"]);
        }
        other => panic!("unexpected {other:?}"),
    }
}

#[test]
fn appends_wait_longer_each_time_until_the_deadline() {
    let lag = || {
        append_table_batches_once(
            vec![1u8],
            vec![batch(
                0,
                vec![Err(status(GrpcCode::InvalidArgument, "schema_mismatch_extra_fields"))],
            )],
        )
    };
    let mut run = AppendRun::new();
    match run.on_result(lag(), Duration::from_secs(0)) {
        AppendStep::Wait { delay, requests } => {
            assert_eq!(delay, Duration::from_secs(1));
            assert_eq!(requests, vec![1u8]);
        }
        other => panic!("unexpected {other:?}"),
    }
    match run.on_result(lag(), Duration::from_secs(1)) {
        AppendStep::Wait { delay, .. } => assert_eq!(delay, Duration::from_secs(2)),
        other => panic!("unexpected {other:?}"),
    }
    match run.on_result(lag(), Duration::from_secs(180)) {
        AppendStep::Failed(errors) => {
            assert_eq!(errors[0].kind(), ErrorKind::DestinationAtomicBatchRetryable)
        }
        other => panic!("unexpected {other:?}"),
    }
}

#[test]
fn attempts_that_fail_as_a_whole_are_sorted_too() {
    let lagging = status(GrpcCode::InvalidArgument, "schema_mismatch_extra_fields");
    match append_processing_result_from_request_error(lagging, vec![1u8, 2]) {
        AppendProcessingResult::Retry { bytes_sent, bytes_received, pending_requests } => {
            assert_eq!((bytes_sent, bytes_received), (0, 0));
            let requests: Vec<u8> = pending_requests.iter().map(|p| p.request).collect();
            assert_eq!(requests, vec![1, 2]);
            assert_eq!(pending_requests[0].detail, "schema_mismatch_extra_fields");
        }
        other => panic!("unexpected {other:?}"),
    }
    let denied = status(GrpcCode::PermissionDenied, "no");
    match append_processing_result_from_request_error(denied, vec![1u8]) {
        AppendProcessingResult::Error(errors) => assert_eq!(errors.len(), 1),
        other => panic!("unexpected {other:?}"),
    }
}

#[test]
fn messages_count_only_without_storage_codes() {
    let codes = |names: &[&str]| names.iter().map(|name| (*name).to_owned()).collect::<Vec<_>>();
    let lags = |code, codes: &Vec<String>| {
        schema_propagation_lags(code, "Extra PROTO fields: 'a'", codes)
    };
    assert!(lags(GrpcCode::InvalidArgument, &codes(&[])));
    assert!(!lags(GrpcCode::InvalidArgument, &codes(&["TABLE_NOT_FOUND"])));
    assert!(lags(
        GrpcCode::InvalidArgument,
        &codes(&["TABLE_NOT_FOUND", "SCHEMA_MISMATCH_EXTRA_FIELDS"])
    ));
    assert!(!lags(GrpcCode::NotFound, &codes(&[])));
}
