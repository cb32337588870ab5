//! Publications, benchmark helpers, the server's parts and shared pieces.
use etl_destinations::benchmark::{
    classify_events, duration_millis, format_decimal_text, format_duration_ms, format_integer,
    format_integer_str, pipeline_config, quote_identifier, quote_qualified_table_name,
    replication_slots, split_table_name, unless_blank, BenchDestination, CountingDestination,
    DestinationArgs, DestinationStats, DestinationType, InvalidatedSlotBehavior, LogTarget,
    NameError,
    NullDestination, PgConnectionArgs, PipelineDefaults, PipelineTuningArgs,
};
use etl_destinations::cell::{Cell, TableRow};
use etl_destinations::error::{ErrorKind, EtlError};
use etl_destinations::event::{
    Event, EventSequenceKey, InsertEvent, PgLsn, RelationEvent, TruncateEvent,
};
use etl_destinations::names::NameSet;
use etl_destinations::publications::{
    add_tables_statement, add_tables_to_publication, create_publication, create_statement,
    drop_publication, drop_statement, drop_tables_from_publication, drop_tables_statement,
    read_all_publications, read_publication, update_publication,
    update_statement, Publication, PublicationRow, Table,
};
use etl_destinations::schema::{IdentityType, ReplicatedTableSchema, TableId, TableName};
use etl_destinations::startup::{
    all_services, bind_address, decide_access, decide_path_access, encryption_key, identified_key,
    is_documented, key_of, kube_access, middleware_of, registered_data, scope_of, Admission, AppData,
    Environment, KeyError, KubeAccess, Middleware, Scope, Service,
};
use etl_destinations::steps::{PlanRun, PlanStep};
use etl_destinations::time::Duration;

#[test]
fn bigquery_destination_uses_bigquery_for_cli() {
    assert_eq!(DestinationType::from_str("bigquery", false), Ok(DestinationType::BigQuery));
}

#[test]
fn bigquery_destination_uses_snake_case_for_serde() {
    assert_eq!(DestinationType::BigQuery.report_name(), "big_query");
}

#[test]
fn destinations_are_read_by_name() {
    assert_eq!(DestinationType::from_str("null", false), Ok(DestinationType::Null));
    assert_eq!(DestinationType::from_str("BigQuery", true), Ok(DestinationType::BigQuery));
    assert_eq!(
        DestinationType::from_str("BigQuery", false),
        Err("invalid variant: BigQuery".to_owned())
    );
    assert_eq!(NullDestination::name(), "null");
    assert_eq!(Environment::from(LogTarget::Terminal), Environment::Dev);
    assert_eq!(Environment::from(LogTarget::File), Environment::Prod);
}

#[test]
fn integers_are_grouped_by_thousands() {
    assert_eq!(format_integer(0), "0");
    assert_eq!(format_integer(999), "999");
    assert_eq!(format_integer(1_000), "1,000");
    assert_eq!(format_integer(12_345_678), "12,345,678");
    assert_eq!(format_integer(u128::MAX), "340,282,366,920,938,463,463,374,607,431,768,211,455");
    assert_eq!(format_integer_str("-1234567"), "-1,234,567");
    assert_eq!(format_integer_str("x"), "0");
}

#[test]
fn decimals_and_durations_are_grouped() {
    assert_eq!(format_decimal_text("1234.50"), "1,234.50");
    assert_eq!(format_decimal_text("1234567"), "1,234,567");
    assert_eq!(format_decimal_text("-1234567"), "-1,234,567");
    assert_eq!(format_decimal_text("-1234.5"), "-1,234.5");
    assert_eq!(format_decimal_text("inf"), "inf");
    assert_eq!(format_decimal_text("-inf"), "-inf");
    let large = format_decimal_text("1000000000000000000000000000000000000000.00");
    assert_eq!(large, "1,000,000,000,000,000,000,000,000,000,000,000,000,000.00");
    assert_eq!(format_duration_ms(999, "1.00"), "999 ms");
    assert_eq!(format_duration_ms(1_234_560, "1234.56"), "1,234.56 s");
    assert_eq!(duration_millis(Duration::from_secs(2)), 2_000);
}

#[test]
fn identifiers_are_checked_before_they_are_quoted() {
    assert_eq!(quote_identifier("a_1").unwrap(), "\"a_1\"");
    assert!(matches!(quote_identifier(""), Err(NameError::Empty)));
    let error = quote_identifier("a-b").unwrap_err();
    assert_eq!(error.to_text(), "identifier 'a-b' contains unsupported characters");
    assert_eq!(quote_qualified_table_name("s.t").unwrap(), "\"s\".\"t\"");
    let error = quote_qualified_table_name("s..t").unwrap_err();
    assert_eq!(error.to_text(), "identifier cannot be empty");
    assert_eq!(split_table_name("t").unwrap(), ("public".to_owned(), "t".to_owned()));
    assert_eq!(split_table_name("s.t").unwrap(), ("s".to_owned(), "t".to_owned()));
    let error = split_table_name("a.b.c").unwrap_err();
    assert_eq!(error.to_text(), "table name must be either table or schema.table");
}

fn schema() -> ReplicatedTableSchema {
    ReplicatedTableSchema {
        id: TableId(1),
        name: TableName::new("public".to_owned(), "users".to_owned()),
        snapshot_id: "0/1".to_owned(),
        replication_mask: vec![],
        columns: vec![],
        identity_columns: vec![],
        omitted_primary_key: vec![],
        identity_type: IdentityType::Full,
        identity_matches_primary_key: false,
    }
}

#[test]
fn events_are_counted_by_kind() {
    let events = vec![
        Event::Begin,
        Event::Insert(InsertEvent {
            commit_lsn: PgLsn(1),
            tx_ordinal: 0,
            replicated_table_schema: schema(),
            table_row: TableRow::new(vec![Cell::Null]),
        }),
        Event::Relation(RelationEvent { replicated_table_schema: schema() }),
        Event::Truncate(TruncateEvent { truncated_tables: vec![] }),
        Event::Commit,
        Event::Unsupported,
    ];
    let counts = classify_events(&events, &[1, 10, 2, 3, 4, 5]);
    assert_eq!(counts.total_events, 6);
    assert_eq!(counts.total_event_bytes, 25);
    assert_eq!((counts.data_events, counts.data_event_bytes), (1, 10));
    assert_eq!((counts.inserts, counts.relations, counts.truncates), (1, 1, 1));
    assert_eq!(counts.transaction_events, 2);

    let mut stats = DestinationStats::new();
    assert!(!stats.set_cdc_target(1));
    stats.count_events(&counts);
    assert!(stats.target_reached());
    stats.count_table_rows(3, 30);
    stats.count_table_rows(0, 0);
    let shown = stats.snapshot();
    assert_eq!((shown.event_batches, shown.max_event_batch_size), (1, 6));
    assert_eq!((shown.table_rows, shown.table_row_bytes, shown.table_row_batches), (3, 30, 1));
    stats.reset_cdc();
    assert_eq!(stats.snapshot().total_events, 0);
    assert_eq!(stats.snapshot().table_rows, 3);
}

#[test]
fn only_writes_that_went_through_are_counted() {
    let counts = classify_events(&[Event::Begin, Event::Commit], &[3, 4]);
    let failed = || Err(EtlError::plain(ErrorKind::DestinationError, "down"));
    let mut destination = CountingDestination::new(NullDestination);
    assert!(destination.write_table_rows(5, 50, failed()).is_err());
    assert!(destination.write_events(&counts, failed()).is_err());
    assert_eq!(destination.stats(), DestinationStats::new().snapshot());
    destination.write_table_rows(5, 50, Ok(())).unwrap();
    assert!(destination.write_events(&counts, Ok(())).unwrap());
    assert!(!destination.set_cdc_target(1));
    assert!(!destination.wait_for_cdc_target());
    assert!(!destination.write_events(&counts, Ok(())).unwrap());
    assert_eq!(destination.stats().transaction_events, 4);
    let mut bench: BenchDestination<NullDestination> = BenchDestination::Null(destination);
    bench.reset_cdc_stats();
    assert_eq!(bench.stats().transaction_events, 0);
    assert_eq!(bench.stats().table_rows, 5);
    assert!(bench.set_cdc_target(0));
    assert_eq!(BenchDestination::<NullDestination>::name(), "bench_destination");
}

#[test]
fn bigquery_benchmarks_need_their_arguments() {
    let mut args = DestinationArgs {
        destination: DestinationType::BigQuery,
        bq_project_id: Some("p".to_owned()),
        bq_dataset_id: Some(" \t".to_owned()),
        bq_sa_key_file: None,
        bq_max_staleness_mins: Some(5),
        bq_connection_pool_size: 32,
    };
    assert_eq!(
        args.bigquery_settings().unwrap_err(),
        "BigQuery dataset ID is required for BigQuery benchmarks"
    );
    for blank in ["", "\u{b}\u{85}\u{a0}", "\u{1680}\u{200a}\u{2028}", "\u{202f}\u{205f}\u{3000}"] {
        args.bq_dataset_id = Some(blank.to_owned());
        assert!(args.bigquery_settings().is_err());
    }
    for kept in ["\u{200b}", "\u{180e}", "\u{feff}", " \u{1c} "] {
        args.bq_dataset_id = Some(kept.to_owned());
        assert_eq!(
            args.bigquery_settings().unwrap_err(),
            "BigQuery service account key file is required"
        );
    }
    args.bq_dataset_id = Some(" d ".to_owned());
    assert_eq!(
        args.bigquery_settings().unwrap_err(),
        "BigQuery service account key file is required"
    );
    args.bq_sa_key_file = Some("key.json".to_owned());
    let settings = args.bigquery_settings().unwrap();
    assert_eq!(settings.dataset_id, " d ");
    assert_eq!(settings.connection_pool_size, 32);
}

#[test]
fn pipelines_are_configured_from_arguments() {
    let pg = PgConnectionArgs {
        host: "localhost".to_owned(),
        port: 5432,
        database: "bench".to_owned(),
        username: "postgres".to_owned(),
        password: None,
        tls_enabled: true,
        tls_certs: "certs".to_owned(),
    };
    let tuning = PipelineTuningArgs {
        batch_max_fill_ms: 1_000,
        memory_budget_ratio: "0.2".to_owned(),
        max_table_sync_workers: 4,
        max_copy_connections_per_table: 2,
        disable_memory_backpressure: true,
    };
    let defaults = PipelineDefaults {
        batch_max_bytes: 1,
        table_error_retry_delay_ms: 2,
        table_error_retry_max_attempts: 3,
        memory_refresh_interval_ms: 4,
    };
    let config = pipeline_config(7, "pub".to_owned(), &pg, &tuning, "all", defaults);
    assert_eq!(config.table_sync_copy, "all");
    assert_eq!(config.invalidated_slot_behavior, InvalidatedSlotBehavior::Error);
    assert_eq!(config.pg_connection.name, "bench");
    assert!(config.pg_connection.password.is_none());
    assert!(!config.memory_backpressure);
    assert_eq!(
        replication_slots(7, &[1, 2]),
        vec!["supabase_etl_apply_7", "supabase_etl_table_sync_7_1", "supabase_etl_table_sync_7_2"]
    );
}

fn table(schema: &str, name: &str) -> Table {
    Table { schema: schema.to_owned(), name: name.to_owned() }
}

#[test]
fn publication_statements_quote_their_names() {
    let publication = Publication {
        name: "My Pub".to_owned(),
        tables: vec![table("public", "users"), table("public", "select")],
    };
    assert_eq!(
        create_publication(&publication),
        "create publication \"My Pub\" for table only public.users,public.\"select\" with \
         (publish_via_partition_root = true)"
    );
    assert_eq!(
        update_publication(&publication),
        "alter publication \"My Pub\" set table only public.users,public.\"select\""
    );
    assert_eq!(
        add_tables_to_publication(&publication),
        "alter publication \"My Pub\" add table only public.users, public.\"select\""
    );
    assert_eq!(
        drop_tables_from_publication(&publication),
        "alter publication \"My Pub\" drop table only public.users, public.\"select\""
    );
    assert_eq!(drop_publication("a\"b"), "drop publication if exists \"a\"\"b\"");
    assert_eq!(
        create_statement("p", &[]),
        "create publication p with (publish_via_partition_root = true)"
    );
    assert_eq!(
        update_statement("p", &["s.t".to_owned()]),
        "alter publication p set table only s.t"
    );
}

fn listed(name: &str, table: Option<&str>) -> PublicationRow {
    PublicationRow {
        name: name.to_owned(),
        schema: table.map(|_| "public".to_owned()),
        table: table.map(|t| t.to_owned()),
    }
}

#[test]
fn publications_are_gathered_from_catalog_rows() {
    assert!(read_publication(vec![]).is_none());
    let one = read_publication(vec![listed("a", Some("x")), listed("a", Some("y"))]).unwrap();
    assert_eq!(one.name, "a");
    assert_eq!(one.tables.len(), 2);
    let empty = read_publication(vec![listed("a", None)]).unwrap();
    assert!(empty.tables.is_empty());

    let all = read_all_publications(vec![
        listed("a", Some("x")),
        listed("b", None),
        listed("a", Some("y")),
    ]);
    assert_eq!(all.len(), 2);
    let a = all.iter().find(|p| p.name == "a").unwrap();
    let names: Vec<&str> = a.tables.iter().map(|t| t.name.as_str()).collect();
    assert_eq!(names, vec!["x", "y"]);
    assert!(all.iter().find(|p| p.name == "b").unwrap().tables.is_empty());
}

#[test]
fn encryption_keys_are_thirty_two_bytes() {
    // 32 zero bytes.
    let text = "AAAAAAAAAAAAAAAAAAAAAAAAAAAAAAAAAAAAAAAAAAA=";
    assert_eq!(encryption_key(3, text).unwrap().id, 3);
    assert!(matches!(encryption_key(3, "AAAA"), Err(KeyError::Key)));
    assert!(matches!(encryption_key(3, "*"), Err(KeyError::Encoding(_))));
    assert!(key_of(1, &[7; 32]).is_ok());
    assert!(key_of(1, &[7; 31]).is_err());
    assert!(matches!(identified_key(1, None), Err(KeyError::Key)));
}

#[test]
fn services_are_registered_and_guarded() {
    let services = all_services();
    assert_eq!(services.len(), 53);
    assert_eq!(scope_of(Service::HealthCheck), Scope::Public);
    assert_eq!(scope_of(Service::ReadTenant), Scope::Authenticated);
    assert_eq!(scope_of(Service::CreateSource), Scope::Sensitive);
    assert!(is_documented(Service::CreateSource));
    assert!(!is_documented(Service::StartPipeline));
    assert_eq!(middleware_of(Scope::Sensitive)[0], Middleware::ErrorReports);
    assert!(middleware_of(Scope::Sensitive).contains(&Middleware::ErrorReportScrubbing));
    assert!(!middleware_of(Scope::Public).contains(&Middleware::Authentication));
    assert_eq!(registered_data(false, false, false).len(), 4);
    assert_eq!(registered_data(true, true, true).last(), Some(&AppData::FeatureFlags));
    assert_eq!(bind_address("0.0.0.0", 8080), "0.0.0.0:8080");
    assert_eq!(kube_access(Some(Environment::Prod)), KubeAccess::Default);
    assert_eq!(kube_access(Some(Environment::Dev)), KubeAccess::Orbstack);
    assert_eq!(kube_access(None), KubeAccess::Unavailable);
}

#[test]
fn names_are_recorded_once() {
    let mut names = NameSet::new();
    names.insert("a".to_owned());
    names.insert("a".to_owned());
    assert!(names.contains(&"a".to_owned()));
    names.remove(&"a".to_owned());
    assert!(!names.contains(&"a".to_owned()));
}

#[test]
fn sequence_keys_read_as_two_numbers() {
    let key = EventSequenceKey::new(PgLsn(255), 1);
    assert_eq!(key.to_text(), "00000000000000ff/0000000000000001");
    assert_eq!(key.as_u128(), (255u128 << 64) + 1);
}

#[test]
fn publication_statements_take_quoted_names() {
    assert_eq!(drop_statement("\"P\""), "drop publication if exists \"P\"");
    assert_eq!(add_tables_statement("p", "a.b, c.d"), "alter publication p add table only a.b, c.d");
    assert_eq!(drop_tables_statement("p", "a.b"), "alter publication p drop table only a.b");
}

#[test]
fn blank_arguments_are_missing() {
    let argument = " x ".to_owned();
    assert_eq!(unless_blank(&argument, "x", "none"), Ok(" x ".to_owned()));
    assert_eq!(unless_blank(&argument, "", "none"), Err("none"));
}

#[test]
fn only_tokens_open_the_version() {
    for service in all_services() {
        assert_eq!(decide_access(service, true), Admission::Admitted);
        let public =
            matches!(service, Service::HealthCheck | Service::Metrics | Service::SwaggerUi);
        let expected = if public { Admission::Admitted } else { Admission::Refused };
        assert_eq!(decide_access(service, false), expected);
    }
    for path in ["/v1", "/v1/", "/v1/pipelines/3/start", "/v1/nothing"] {
        assert_eq!(decide_path_access(path, false), Admission::Refused);
        assert_eq!(decide_path_access(path, true), Admission::Admitted);
    }
    for path in ["/v10", "/", "", "/swagger-ui/index.html", "/api-docs/openapi.json"] {
        assert_eq!(decide_path_access(path, false), Admission::Admitted);
    }
}

#[test]
fn each_optional_part_may_be_missing() {
    let required =
        [AppData::MetricsHandle, AppData::Config, AppData::ConnectionPool, AppData::EncryptionKey];
    for k8s in [false, true] {
        for certs in [false, true] {
            for flags in [false, true] {
                let data = registered_data(k8s, certs, flags);
                assert!(required.iter().all(|part| data.contains(part)));
                assert_eq!(data.contains(&AppData::K8sClient), k8s);
                assert_eq!(data.contains(&AppData::TrustedRootCerts), certs);
                assert_eq!(data.contains(&AppData::FeatureFlags), flags);
            }
        }
    }
}

#[test]
fn no_step_is_taken_behind_a_failed_one() {
    let failure = || EtlError::plain(ErrorKind::InvalidState, "step failed");
    let (mut run, step) = PlanRun::begin(3);
    assert!(matches!(step, PlanStep::Take(0)));
    assert!(matches!(run.on_result(Ok(())), PlanStep::Take(1)));
    match run.on_result(Err(failure())) {
        PlanStep::Fail(error) => assert_eq!(error.description(), Some("step failed")),
        step => panic!("{step:?}"),
    }
    let (mut run, _) = PlanRun::begin(1);
    assert!(matches!(run.on_result(Ok(())), PlanStep::Done));
    assert!(matches!(PlanRun::begin(0).1, PlanStep::Done));
}
