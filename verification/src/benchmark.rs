//! Parts that the benchmark programs share: arguments, counters and report texts.
use vstd::prelude::*;

use crate::error::{EtlError, EtlResult};
use crate::event::Event;
use crate::startup::Environment;
use crate::text::{
    cat2, cat3, cat4, chars_of, decimal, decimal_of, find_first, first_place, join, joined,
    lower_ascii, parse_u128, parse_unsigned, split, split_at_char, str_eq, string_of,
    to_lower_ascii, views,
};
use crate::time::Duration;

verus! {

/// Default batch fill time for benchmark runs.
pub const BENCHMARK_DEFAULT_BATCH_MAX_FILL_MS: u64 = 1_000;

/// Where benchmark logs should be written.
#[derive(Clone, Copy, Debug, PartialEq, Eq, Structural)]
pub enum LogTarget {
    /// Send logs to terminal with colors and pretty formatting.
    Terminal,
    /// Send logs to files in the logs directory.
    File,
}

impl LogTarget {
    /// The environment that logs in this way.
    pub open spec fn environment(self) -> Environment {
        match self {
            LogTarget::Terminal => Environment::Dev,
            LogTarget::File => Environment::Prod,
        }
    }
}

impl From<LogTarget> for Environment {
    fn from(log_target: LogTarget) -> (r: Self) {
        match log_target {
            LogTarget::Terminal => Environment::Dev,
            LogTarget::File => Environment::Prod,
        }
    }
}

impl vstd::std_specs::convert::FromSpecImpl<LogTarget> for Environment {
    open spec fn obeys_from_spec() -> bool {
        true
    }

    open spec fn from_spec(log_target: LogTarget) -> Self {
        log_target.environment()
    }
}

/// Destination used by benchmark runs.
#[derive(Clone, Copy, Debug, PartialEq, Eq, Structural)]
pub enum DestinationType {
    /// Use a null destination that acknowledges all writes.
    Null,
    /// Use BigQuery as the destination.
    BigQuery,
}

/// Whether an argument is a name, if asked to without regard to case.
pub open spec fn names(input: Seq<char>, name: Seq<char>, ignore_case: bool) -> bool {
    if ignore_case {
        lower_ascii(input) == lower_ascii(name)
    } else {
        input == name
    }
}

fn is_named(input: &str, name: &str, ignore_case: bool) -> (r: bool)
    ensures
        r == names(input@, name@, ignore_case),
{
    if ignore_case {
        let a = to_lower_ascii(input);
        let b = to_lower_ascii(name);
        a == b
    } else {
        str_eq(input, name)
    }
}

impl DestinationType {
    /// The destination that an argument names.
    pub open spec fn parsed(input: Seq<char>, ignore_case: bool) -> Option<DestinationType> {
        if names(input, "null"@, ignore_case) {
            Some(DestinationType::Null)
        } else if names(input, "bigquery"@, ignore_case) {
            Some(DestinationType::BigQuery)
        } else {
            None
        }
    }

    /// Reads the destination that an argument names.
    pub fn from_str(input: &str, ignore_case: bool) -> (r: Result<DestinationType, String>)
        ensures
            match Self::parsed(input@, ignore_case) {
                Some(destination) => r == Ok::<DestinationType, String>(destination),
                None => r matches Err(e) && e@ == "invalid variant: "@ + input@,
            },
    {
        if is_named(input, "null", ignore_case) {
            Ok(DestinationType::Null)
        } else if is_named(input, "bigquery", ignore_case) {
            Ok(DestinationType::BigQuery)
        } else {
            Err(cat2("invalid variant: ", input))
        }
    }

    /// Returns the name in reports.
    pub fn report_name(&self) -> (r: &'static str)
        ensures
            r@ == match *self {
                DestinationType::Null => "null"@,
                DestinationType::BigQuery => "big_query"@,
            },
    {
        match self {
            DestinationType::Null => "null",
            DestinationType::BigQuery => "big_query",
        }
    }
}

/// Postgres connection arguments shared by benchmark commands.
#[derive(Debug)]
pub struct PgConnectionArgs {
    /// Postgres host.
    pub host: String,
    /// Postgres port.
    pub port: u16,
    /// Database name.
    pub database: String,
    /// Postgres username.
    pub username: String,
    /// Postgres password.
    pub password: Option<String>,
    /// Enable TLS.
    pub tls_enabled: bool,
    /// TLS trusted root certificates.
    pub tls_certs: String,
}

/// Pipeline tuning arguments shared by benchmark commands.
#[derive(Debug)]
pub struct PipelineTuningArgs {
    /// Maximum batch fill time in milliseconds.
    pub batch_max_fill_ms: u64,
    /// Ratio of process memory reserved for stream batch bytes, by its decimal text.
    pub memory_budget_ratio: String,
    /// Maximum number of table sync workers.
    pub max_table_sync_workers: u16,
    /// Maximum number of parallel copy connections per table.
    pub max_copy_connections_per_table: u16,
    /// Disable memory backpressure.
    pub disable_memory_backpressure: bool,
}

/// Destination arguments shared by benchmark commands.
#[derive(Debug)]
pub struct DestinationArgs {
    /// Destination type to use.
    pub destination: DestinationType,
    /// BigQuery project ID.
    pub bq_project_id: Option<String>,
    /// BigQuery dataset ID.
    pub bq_dataset_id: Option<String>,
    /// BigQuery service account key file path.
    pub bq_sa_key_file: Option<String>,
    /// BigQuery maximum staleness in minutes.
    pub bq_max_staleness_mins: Option<u16>,
    /// BigQuery connection pool size.
    pub bq_connection_pool_size: usize,
}

/// Whether a character is white space, by the Unicode property `White_Space`.
pub open spec fn white_space(c: char) -> bool {
    let n = c as nat;
    ||| 0x9 <= n <= 0xd
    ||| n == 0x20 || n == 0x85 || n == 0xa0 || n == 0x1680
    ||| 0x2000 <= n <= 0x200a
    ||| n == 0x2028 || n == 0x2029 || n == 0x202f || n == 0x205f || n == 0x3000
}

/// A text without the white space at its start.
pub open spec fn trimmed_start(s: Seq<char>) -> Seq<char>
    decreases s.len(),
{
    if s.len() > 0 && white_space(s[0]) {
        trimmed_start(s.skip(1))
    } else {
        s
    }
}

/// A text without the white space at its end.
pub open spec fn trimmed_end(s: Seq<char>) -> Seq<char>
    decreases s.len(),
{
    if s.len() > 0 && white_space(s.last()) {
        trimmed_end(s.drop_last())
    } else {
        s
    }
}

/// A text without the white space around it.
pub open spec fn trimmed(s: Seq<char>) -> Seq<char> {
    trimmed_end(trimmed_start(s))
}

/// Returns a text without the white space around it, by `str::trim` of the standard library. White
/// space is what has the Unicode property `White_Space`.
#[verifier::external_body]
fn trim(s: &str) -> (r: String)
    ensures
        r@ == trimmed(s@),
{
    s.trim().to_owned()
}

/// Whether an argument is there and holds more than white space.
pub open spec fn given(argument: Option<String>) -> bool {
    argument matches Some(s) && trimmed(s@).len() > 0
}

/// Returns an argument if something is left of it without the white space around it.
pub fn unless_blank(argument: &String, inner: &str, missing: &'static str) -> (r: Result<
    String,
    &'static str,
>)
    ensures
        inner@.len() > 0 ==> (r matches Ok(s) && s@ == argument@),
        inner@.len() == 0 ==> (r matches Err(e) && e@ == missing@),
{
    let chars = chars_of(inner);
    if chars.len() > 0 {
        Ok(argument.clone())
    } else {
        Err(missing)
    }
}

fn required(argument: &Option<String>, missing: &'static str) -> (r: Result<String, &'static str>)
    ensures
        r is Ok <==> given(*argument),
        r matches Ok(s) ==> s@ == argument->Some_0@,
        r matches Err(e) ==> e@ == missing@,
{
    match argument {
        Some(s) => {
            let inner = trim(s.as_str());
            unless_blank(s, inner.as_str(), missing)
        },
        None => Err(missing),
    }
}

/// What a BigQuery destination is made of.
#[derive(Debug)]
pub struct BigQuerySettings {
    /// Project.
    pub project_id: String,
    /// Dataset.
    pub dataset_id: String,
    /// Path of the service account key.
    pub sa_key_file: String,
    /// Maximum staleness in minutes.
    pub max_staleness_mins: Option<u16>,
    /// Connection pool size.
    pub connection_pool_size: usize,
}

impl DestinationArgs {
    /// Checks the arguments that a BigQuery destination needs; the first missing one decides the
    /// error.
    pub fn bigquery_settings(&self) -> (r: Result<BigQuerySettings, &'static str>)
        ensures
            r is Ok <==> given(self.bq_project_id) && given(self.bq_dataset_id) && given(
                self.bq_sa_key_file,
            ),
            r matches Ok(s) ==> {
                &&& s.project_id@ == self.bq_project_id->Some_0@
                &&& s.dataset_id@ == self.bq_dataset_id->Some_0@
                &&& s.sa_key_file@ == self.bq_sa_key_file->Some_0@
                &&& s.max_staleness_mins == self.bq_max_staleness_mins
                &&& s.connection_pool_size == self.bq_connection_pool_size
            },
            r matches Err(e) ==> e@ == if !given(self.bq_project_id) {
                "BigQuery project ID is required for BigQuery benchmarks"@
            } else if !given(self.bq_dataset_id) {
                "BigQuery dataset ID is required for BigQuery benchmarks"@
            } else {
                "BigQuery service account key file is required"@
            },
    {
        let project_id = match required(
            &self.bq_project_id,
            "BigQuery project ID is required for BigQuery benchmarks",
        ) {
            Ok(s) => s,
            Err(e) => {
                return Err(e);
            },
        };
        let dataset_id = match required(
            &self.bq_dataset_id,
            "BigQuery dataset ID is required for BigQuery benchmarks",
        ) {
            Ok(s) => s,
            Err(e) => {
                return Err(e);
            },
        };
        let sa_key_file = match required(
            &self.bq_sa_key_file,
            "BigQuery service account key file is required",
        ) {
            Ok(s) => s,
            Err(e) => {
                return Err(e);
            },
        };
        Ok(
            BigQuerySettings {
                project_id,
                dataset_id,
                sa_key_file,
                max_staleness_mins: self.bq_max_staleness_mins,
                connection_pool_size: self.bq_connection_pool_size,
            },
        )
    }
}

/// Settings of a pipeline that benchmarks leave as they are.
#[derive(Clone, Copy, Debug, PartialEq, Eq, Structural)]
pub struct PipelineDefaults {
    /// Largest batch, in bytes.
    pub batch_max_bytes: usize,
    /// Delay before a failed table is tried again, in milliseconds.
    pub table_error_retry_delay_ms: u64,
    /// How often a failed table is tried again.
    pub table_error_retry_max_attempts: u32,
    /// How often memory is looked at, in milliseconds.
    pub memory_refresh_interval_ms: u64,
}

/// Connection of a pipeline to its source.
#[derive(Debug)]
pub struct PgConnectionConfig {
    /// Host.
    pub host: String,
    /// Address of the host, where it is not looked up.
    pub hostaddr: Option<String>,
    /// Port.
    pub port: u16,
    /// Database.
    pub name: String,
    /// User.
    pub username: String,
    /// Password.
    pub password: Option<String>,
    /// Trusted root certificates.
    pub trusted_root_certs: String,
    /// Whether TLS is used.
    pub tls_enabled: bool,
}

/// What happens when a replication slot is no longer valid.
#[derive(Clone, Copy, Debug, PartialEq, Eq, Structural)]
pub enum InvalidatedSlotBehavior {
    /// The pipeline stops with an error.
    Error,
    /// The slot is made again.
    Recreate,
}

/// Settings of a benchmarked pipeline, with those of type `C` for the tables that it copies.
#[derive(Debug)]
pub struct PipelineConfig<C> {
    /// Identifier of the pipeline.
    pub id: u64,
    /// Publication that it reads.
    pub publication_name: String,
    /// Connection to the source.
    pub pg_connection: PgConnectionConfig,
    /// Maximum batch fill time in milliseconds.
    pub batch_max_fill_ms: u64,
    /// Ratio of process memory reserved for stream batch bytes, by its decimal text.
    pub memory_budget_ratio: String,
    /// Maximum number of table sync workers.
    pub max_table_sync_workers: u16,
    /// Maximum number of parallel copy connections per table.
    pub max_copy_connections_per_table: u16,
    /// Whether the pipeline slows down when memory runs short.
    pub memory_backpressure: bool,
    /// Which tables are copied.
    pub table_sync_copy: C,
    /// What happens when a replication slot is no longer valid.
    pub invalidated_slot_behavior: InvalidatedSlotBehavior,
    /// Settings that benchmarks leave as they are.
    pub defaults: PipelineDefaults,
}

/// Builds an ETL pipeline config for a benchmark.
pub fn pipeline_config<C>(
    pipeline_id: u64,
    publication_name: String,
    pg: &PgConnectionArgs,
    tuning: &PipelineTuningArgs,
    table_sync_copy: C,
    defaults: PipelineDefaults,
) -> (r: PipelineConfig<C>)
    ensures
        r.id == pipeline_id,
        r.publication_name == publication_name,
        r.pg_connection.host@ == pg.host@,
        r.pg_connection.hostaddr is None,
        r.pg_connection.port == pg.port,
        r.pg_connection.name@ == pg.database@,
        r.pg_connection.username@ == pg.username@,
        match pg.password {
            Some(p) => r.pg_connection.password matches Some(q) && q@ == p@,
            None => r.pg_connection.password is None,
        },
        r.pg_connection.trusted_root_certs@ == pg.tls_certs@,
        r.pg_connection.tls_enabled == pg.tls_enabled,
        r.batch_max_fill_ms == tuning.batch_max_fill_ms,
        r.memory_budget_ratio@ == tuning.memory_budget_ratio@,
        r.max_table_sync_workers == tuning.max_table_sync_workers,
        r.max_copy_connections_per_table == tuning.max_copy_connections_per_table,
        r.memory_backpressure == !tuning.disable_memory_backpressure,
        r.table_sync_copy == table_sync_copy,
        r.invalidated_slot_behavior == InvalidatedSlotBehavior::Error,
        r.defaults == defaults,
{
    PipelineConfig {
        id: pipeline_id,
        publication_name,
        pg_connection: PgConnectionConfig {
            host: pg.host.clone(),
            hostaddr: None,
            port: pg.port,
            name: pg.database.clone(),
            username: pg.username.clone(),
            password: match &pg.password {
                Some(p) => Some(p.clone()),
                None => None,
            },
            trusted_root_certs: pg.tls_certs.clone(),
            tls_enabled: pg.tls_enabled,
        },
        batch_max_fill_ms: tuning.batch_max_fill_ms,
        memory_budget_ratio: tuning.memory_budget_ratio.clone(),
        max_table_sync_workers: tuning.max_table_sync_workers,
        max_copy_connections_per_table: tuning.max_copy_connections_per_table,
        memory_backpressure: !tuning.disable_memory_backpressure,
        table_sync_copy,
        invalidated_slot_behavior: InvalidatedSlotBehavior::Error,
        defaults,
    }
}

/// Destination that acknowledges and discards all writes.
#[derive(Clone, Copy, Debug, PartialEq, Eq, Structural)]
pub struct NullDestination;

impl NullDestination {
    /// Returns the identifier name for this destination type.
    pub fn name() -> (r: &'static str)
        ensures
            r@ == "null"@,
    {
        "null"
    }
}

/// Name of the replication slot that a pipeline applies changes from.
pub open spec fn apply_slot(pipeline_id: u64) -> Seq<char> {
    "supabase_etl_apply_"@ + decimal(pipeline_id as nat)
}

/// Name of the replication slot that a pipeline copies a table from.
pub open spec fn table_sync_slot(pipeline_id: u64, table_id: u32) -> Seq<char> {
    "supabase_etl_table_sync_"@ + decimal(pipeline_id as nat) + "_"@ + decimal(table_id as nat)
}

/// Returns the replication slots that a benchmark pipeline has made: the one it applies changes
/// from, then one for each table.
pub fn replication_slots(pipeline_id: u64, table_ids: &[u32]) -> (r: Vec<String>)
    ensures
        r@.len() == table_ids@.len() + 1,
        r@[0]@ == apply_slot(pipeline_id),
        forall|i: int|
            0 <= i < table_ids@.len() ==> (#[trigger] r@[i + 1])@ == table_sync_slot(
                pipeline_id,
                table_ids@[i],
            ),
{
    let pipeline = decimal_of(pipeline_id as u128);
    let mut slots: Vec<String> = Vec::new();
    slots.push(cat2("supabase_etl_apply_", pipeline.as_str()));
    let n: usize = table_ids.len();
    let mut i: usize = 0;
    while i < n
        invariant
            i <= n,
            n == table_ids@.len(),
            pipeline@ == decimal(pipeline_id as nat),
            slots@.len() == i + 1,
            slots@[0]@ == apply_slot(pipeline_id),
            forall|j: int|
                0 <= j < i ==> (#[trigger] slots@[j + 1])@ == table_sync_slot(
                    pipeline_id,
                    table_ids@[j],
                ),
        decreases n - i,
    {
        let table = decimal_of(table_ids[i] as u128);
        slots.push(cat4("supabase_etl_table_sync_", pipeline.as_str(), "_", table.as_str()));
        i = i + 1;
    }
    slots
}

/// Snapshot of destination-side benchmark counters.
#[derive(Clone, Copy, Debug, PartialEq, Eq, Structural)]
pub struct DestinationStatsSnapshot {
    /// Rows written through the table-copy path.
    pub table_rows: u64,
    /// Estimated bytes written through the table-copy path.
    pub table_row_bytes: u64,
    /// Number of table-row batches written.
    pub table_row_batches: u64,
    /// Row-level CDC mutation events observed.
    pub cdc_data_events: u64,
    /// Estimated bytes for row-level CDC mutation events.
    pub cdc_data_event_bytes: u64,
    /// Insert events observed.
    pub inserts: u64,
    /// Update events observed.
    pub updates: u64,
    /// Delete events observed.
    pub deletes: u64,
    /// Truncate events observed.
    pub truncates: u64,
    /// Relation events observed.
    pub relations: u64,
    /// Begin and commit events observed.
    pub transaction_events: u64,
    /// Total logical replication events observed.
    pub total_events: u64,
    /// Estimated bytes for all observed logical replication events.
    pub total_event_bytes: u64,
    /// Number of event batches written.
    pub event_batches: u64,
    /// Largest event batch observed.
    pub max_event_batch_size: u64,
}

/// What a batch of events holds.
#[derive(Clone, Copy, Debug, PartialEq, Eq, Structural)]
pub struct EventBatchCounts {
    pub data_events: u64,
    pub data_event_bytes: u64,
    pub inserts: u64,
    pub updates: u64,
    pub deletes: u64,
    pub truncates: u64,
    pub relations: u64,
    pub transaction_events: u64,
    pub total_events: u64,
    pub total_event_bytes: u64,
}

/// Kinds of events that are counted apart.
#[derive(Clone, Copy, Debug, PartialEq, Eq, Structural)]
pub enum EventKind {
    Insert,
    Update,
    Delete,
    Truncate,
    Relation,
    Transaction,
    Other,
}

/// The kind of an event.
pub open spec fn kind_of(e: Event) -> EventKind {
    match e {
        Event::Insert(_) => EventKind::Insert,
        Event::Update(_) => EventKind::Update,
        Event::Delete(_) => EventKind::Delete,
        Event::Truncate(_) => EventKind::Truncate,
        Event::Relation(_) => EventKind::Relation,
        Event::Begin | Event::Commit => EventKind::Transaction,
        Event::Unsupported => EventKind::Other,
    }
}

/// How many events are of a kind.
pub open spec fn counted(events: Seq<Event>, kind: EventKind) -> nat
    decreases events.len(),
{
    if events.len() == 0 {
        0
    } else {
        counted(events.drop_last(), kind) + (if kind_of(events.last()) == kind {
            1nat
        } else {
            0
        })
    }
}

/// Whether an event changes a row.
pub open spec fn changes_row(e: Event) -> bool {
    e is Insert || e is Update || e is Delete
}

/// The sum of sizes.
pub open spec fn total(sizes: Seq<u64>) -> nat
    decreases sizes.len(),
{
    if sizes.len() == 0 {
        0
    } else {
        total(sizes.drop_last()) + sizes.last() as nat
    }
}

/// The sum of the sizes of events that change a row.
pub open spec fn data_total(events: Seq<Event>, sizes: Seq<u64>) -> nat
    decreases events.len(),
{
    if events.len() == 0 {
        0
    } else {
        data_total(events.drop_last(), sizes.drop_last()) + (if changes_row(events.last()) {
            sizes.last() as nat
        } else {
            0
        })
    }
}

proof fn lemma_total_grows(sizes: Seq<u64>, n: int)
    requires
        0 <= n <= sizes.len(),
    ensures
        total(sizes.take(n)) <= total(sizes),
    decreases sizes.len() - n,
{
    if n < sizes.len() {
        assert(sizes.take(n + 1).drop_last() =~= sizes.take(n));
        lemma_total_grows(sizes, n + 1);
    } else {
        assert(sizes.take(n) =~= sizes);
    }
}

/// Whether the counts are those of a batch of events with the given sizes.
pub open spec fn counts_are(c: EventBatchCounts, events: Seq<Event>, sizes: Seq<u64>) -> bool {
    &&& c.inserts == counted(events, EventKind::Insert)
    &&& c.updates == counted(events, EventKind::Update)
    &&& c.deletes == counted(events, EventKind::Delete)
    &&& c.truncates == counted(events, EventKind::Truncate)
    &&& c.relations == counted(events, EventKind::Relation)
    &&& c.transaction_events == counted(events, EventKind::Transaction)
    &&& c.data_events == c.inserts + c.updates + c.deletes
    &&& c.total_event_bytes == total(sizes)
    &&& c.data_event_bytes == data_total(events, sizes)
}

/// Counts the events of a batch by kind, and their estimated sizes.
pub fn classify_events(events: &[Event], sizes: &[u64]) -> (r: EventBatchCounts)
    requires
        events@.len() == sizes@.len(),
        total(sizes@) <= u64::MAX,
    ensures
        r.total_events == events@.len(),
        counts_are(r, events@, sizes@),
{
    let n: usize = events.len();
    let mut counts = EventBatchCounts {
        data_events: 0,
        data_event_bytes: 0,
        inserts: 0,
        updates: 0,
        deletes: 0,
        truncates: 0,
        relations: 0,
        transaction_events: 0,
        total_events: n as u64,
        total_event_bytes: 0,
    };
    let mut i: usize = 0;
    while i < n
        invariant
            i <= n,
            n == events@.len(),
            n == sizes@.len(),
            total(sizes@) <= u64::MAX,
            counts.total_events == n,
            counts_are(counts, events@.take(i as int), sizes@.take(i as int)),
            counts.data_event_bytes <= counts.total_event_bytes,
            counts.data_events + counts.truncates + counts.relations + counts.transaction_events
                <= i,
        decreases n - i,
    {
        let event_bytes = sizes[i];
        proof {
            let (e, s) = (events@.take(i + 1), sizes@.take(i + 1));
            assert(e.drop_last() =~= events@.take(i as int));
            assert(s.drop_last() =~= sizes@.take(i as int));
            assert(e.last() == events@[i as int]);
            assert(s.last() == event_bytes);
            lemma_total_grows(sizes@, i + 1);
        }
        counts.total_event_bytes = counts.total_event_bytes + event_bytes;
        match &events[i] {
            Event::Insert(_) => {
                counts.inserts = counts.inserts + 1;
                counts.data_events = counts.data_events + 1;
                counts.data_event_bytes = counts.data_event_bytes + event_bytes;
            },
            Event::Update(_) => {
                counts.updates = counts.updates + 1;
                counts.data_events = counts.data_events + 1;
                counts.data_event_bytes = counts.data_event_bytes + event_bytes;
            },
            Event::Delete(_) => {
                counts.deletes = counts.deletes + 1;
                counts.data_events = counts.data_events + 1;
                counts.data_event_bytes = counts.data_event_bytes + event_bytes;
            },
            Event::Truncate(_) => {
                counts.truncates = counts.truncates + 1;
            },
            Event::Relation(_) => {
                counts.relations = counts.relations + 1;
            },
            Event::Begin | Event::Commit => {
                counts.transaction_events = counts.transaction_events + 1;
            },
            Event::Unsupported => {},
        }
        i = i + 1;
    }
    proof {
        assert(events@.take(n as int) =~= events@);
        assert(sizes@.take(n as int) =~= sizes@);
    }
    counts
}

/// A counter after an addition; counters wrap around.
pub open spec fn added(counter: u64, amount: u64) -> u64 {
    if counter + amount <= u64::MAX {
        (counter + amount) as u64
    } else {
        (counter + amount - 0x1_0000_0000_0000_0000) as u64
    }
}

fn plus(counter: u64, amount: u64) -> (r: u64)
    ensures
        r == added(counter, amount),
{
    counter.wrapping_add(amount)
}

/// Counters of a destination.
#[derive(Clone, Copy, Debug, PartialEq, Eq, Structural)]
pub struct DestinationStats {
    /// The counts.
    pub counts: DestinationStatsSnapshot,
    /// Number of row-level events that is waited for.
    pub cdc_target: u64,
}

impl DestinationStats {
    /// Creates counters at zero.
    pub fn new() -> (r: Self)
        ensures
            r.counts == Self::zero_counts(),
            r.cdc_target == 0,
    {
        DestinationStats {
            counts: DestinationStatsSnapshot {
                table_rows: 0,
                table_row_bytes: 0,
                table_row_batches: 0,
                cdc_data_events: 0,
                cdc_data_event_bytes: 0,
                inserts: 0,
                updates: 0,
                deletes: 0,
                truncates: 0,
                relations: 0,
                transaction_events: 0,
                total_events: 0,
                total_event_bytes: 0,
                event_batches: 0,
                max_event_batch_size: 0,
            },
            cdc_target: 0,
        }
    }

    /// Counts that are all zero.
    pub open spec fn zero_counts() -> DestinationStatsSnapshot {
        DestinationStatsSnapshot {
            table_rows: 0,
            table_row_bytes: 0,
            table_row_batches: 0,
            cdc_data_events: 0,
            cdc_data_event_bytes: 0,
            inserts: 0,
            updates: 0,
            deletes: 0,
            truncates: 0,
            relations: 0,
            transaction_events: 0,
            total_events: 0,
            total_event_bytes: 0,
            event_batches: 0,
            max_event_batch_size: 0,
        }
    }

    /// Returns the current counts.
    pub fn snapshot(&self) -> (r: DestinationStatsSnapshot)
        ensures
            r == self.counts,
    {
        self.counts
    }

    /// The counters with those of events at zero.
    pub open spec fn without_events(self) -> Self {
        DestinationStats {
            counts: DestinationStatsSnapshot {
                table_rows: self.counts.table_rows,
                table_row_bytes: self.counts.table_row_bytes,
                table_row_batches: self.counts.table_row_batches,
                ..Self::zero_counts()
            },
            cdc_target: self.cdc_target,
        }
    }

    /// Resets CDC counters without touching table-copy counters.
    pub fn reset_cdc(&mut self)
        ensures
            *final(self) == old(self).without_events(),
    {
        let fresh = DestinationStats::new();
        self.counts = DestinationStatsSnapshot {
            table_rows: self.counts.table_rows,
            table_row_bytes: self.counts.table_row_bytes,
            table_row_batches: self.counts.table_row_batches,
            ..fresh.counts
        };
    }

    /// Sets the number of row-level events that is waited for. Returns whether it is reached.
    pub fn set_cdc_target(&mut self, target: u64) -> (r: bool)
        ensures
            final(self).cdc_target == target,
            final(self).counts == old(self).counts,
            r == (old(self).counts.cdc_data_events >= target),
    {
        self.cdc_target = target;
        self.target_reached()
    }

    /// Returns whether the number of row-level events that is waited for is reached.
    pub fn target_reached(&self) -> (r: bool)
        ensures
            r == (self.counts.cdc_data_events >= self.cdc_target),
    {
        self.counts.cdc_data_events >= self.cdc_target
    }

    /// The counters after a batch of copied rows.
    pub open spec fn with_table_rows(self, row_count: u64, row_bytes: u64) -> Self {
        let c = self.counts;
        DestinationStats {
            counts: DestinationStatsSnapshot {
                table_rows: added(c.table_rows, row_count),
                table_row_bytes: added(c.table_row_bytes, row_bytes),
                table_row_batches: if row_count > 0 {
                    added(c.table_row_batches, 1)
                } else {
                    c.table_row_batches
                },
                ..c
            },
            cdc_target: self.cdc_target,
        }
    }

    /// Counts a batch of copied rows.
    pub fn count_table_rows(&mut self, row_count: u64, row_bytes: u64)
        ensures
            *final(self) == old(self).with_table_rows(row_count, row_bytes),
    {
        self.counts.table_rows = plus(self.counts.table_rows, row_count);
        self.counts.table_row_bytes = plus(self.counts.table_row_bytes, row_bytes);
        if row_count > 0 {
            self.counts.table_row_batches = plus(self.counts.table_row_batches, 1);
        }
    }

    /// The counters after a batch of events.
    pub open spec fn with_events(self, counts: EventBatchCounts) -> Self {
        let c = self.counts;
        DestinationStats {
            counts: DestinationStatsSnapshot {
                table_rows: c.table_rows,
                table_row_bytes: c.table_row_bytes,
                table_row_batches: c.table_row_batches,
                cdc_data_events: added(c.cdc_data_events, counts.data_events),
                cdc_data_event_bytes: added(c.cdc_data_event_bytes, counts.data_event_bytes),
                inserts: added(c.inserts, counts.inserts),
                updates: added(c.updates, counts.updates),
                deletes: added(c.deletes, counts.deletes),
                truncates: added(c.truncates, counts.truncates),
                relations: added(c.relations, counts.relations),
                transaction_events: added(c.transaction_events, counts.transaction_events),
                total_events: added(c.total_events, counts.total_events),
                total_event_bytes: added(c.total_event_bytes, counts.total_event_bytes),
                event_batches: if counts.total_events > 0 {
                    added(c.event_batches, 1)
                } else {
                    c.event_batches
                },
                max_event_batch_size: if counts.total_events > c.max_event_batch_size {
                    counts.total_events
                } else {
                    c.max_event_batch_size
                },
            },
            cdc_target: self.cdc_target,
        }
    }

    /// Counts a batch of events.
    pub fn count_events(&mut self, counts: &EventBatchCounts)
        ensures
            *final(self) == old(self).with_events(*counts),
    {
        let c = self.counts;
        self.counts = DestinationStatsSnapshot {
            table_rows: c.table_rows,
            table_row_bytes: c.table_row_bytes,
            table_row_batches: c.table_row_batches,
            cdc_data_events: plus(c.cdc_data_events, counts.data_events),
            cdc_data_event_bytes: plus(c.cdc_data_event_bytes, counts.data_event_bytes),
            inserts: plus(c.inserts, counts.inserts),
            updates: plus(c.updates, counts.updates),
            deletes: plus(c.deletes, counts.deletes),
            truncates: plus(c.truncates, counts.truncates),
            relations: plus(c.relations, counts.relations),
            transaction_events: plus(c.transaction_events, counts.transaction_events),
            total_events: plus(c.total_events, counts.total_events),
            total_event_bytes: plus(c.total_event_bytes, counts.total_event_bytes),
            event_batches: if counts.total_events > 0 {
                plus(c.event_batches, 1)
            } else {
                c.event_batches
            },
            max_event_batch_size: if counts.total_events > c.max_event_batch_size {
                counts.total_events
            } else {
                c.max_event_batch_size
            },
        };
    }
}

/// Destination that forwards writes while keeping lightweight counters.
#[derive(Debug)]
pub struct CountingDestination<D> {
    /// The destination that writes are forwarded to.
    pub inner: D,
    /// The counters.
    pub stats: DestinationStats,
}

impl<D> CountingDestination<D> {
    /// Wraps a destination in lightweight benchmark counters.
    pub fn new(inner: D) -> (r: Self)
        ensures
            r.inner == inner,
            r.stats.counts == DestinationStats::zero_counts(),
            r.stats.cdc_target == 0,
    {
        CountingDestination { inner, stats: DestinationStats::new() }
    }

    /// Returns the current destination counter snapshot.
    pub fn stats(&self) -> (r: DestinationStatsSnapshot)
        ensures
            r == self.stats.counts,
    {
        self.stats.snapshot()
    }

    /// Resets CDC counters without touching table-copy counters.
    pub fn reset_cdc_stats(&mut self)
        ensures
            final(self).inner == old(self).inner,
            final(self).stats == old(self).stats.without_events(),
    {
        self.stats.reset_cdc();
    }

    /// Sets the CDC row-event target. Returns whether those that wait for it are to be woken.
    pub fn set_cdc_target(&mut self, target: u64) -> (r: bool)
        ensures
            final(self).inner == old(self).inner,
            final(self).stats.cdc_target == target,
            final(self).stats.counts == old(self).stats.counts,
            r == (old(self).stats.counts.cdc_data_events >= target),
    {
        self.stats.set_cdc_target(target)
    }

    /// Returns whether the CDC row-event target is reached, so that nobody has to wait for it.
    pub fn wait_for_cdc_target(&self) -> (r: bool)
        ensures
            r == (self.stats.counts.cdc_data_events >= self.stats.cdc_target),
    {
        self.stats.target_reached()
    }

    /// Takes up how forwarding copied rows went; rows that were not written are not counted.
    pub fn write_table_rows(
        &mut self,
        row_count: u64,
        row_bytes: u64,
        written: EtlResult<()>,
    ) -> (r: EtlResult<()>)
        ensures
            r == written,
            final(self).inner == old(self).inner,
            final(self).stats == if written is Ok {
                old(self).stats.with_table_rows(row_count, row_bytes)
            } else {
                old(self).stats
            },
    {
        match written {
            Ok(done) => {
                self.stats.count_table_rows(row_count, row_bytes);
                Ok(done)
            },
            Err(e) => Err(e),
        }
    }

    /// Takes up how forwarding events went; events that were not written are not counted. Returns
    /// whether those that wait for the CDC row-event target are to be woken.
    pub fn write_events(&mut self, counts: &EventBatchCounts, written: EtlResult<()>) -> (r:
        EtlResult<bool>)
        ensures
            final(self).inner == old(self).inner,
            match written {
                Ok(_) => {
                    &&& final(self).stats == old(self).stats.with_events(*counts)
                    &&& r == Ok::<bool, EtlError>(
                        final(self).stats.counts.cdc_data_events >= old(self).stats.cdc_target,
                    )
                },
                Err(e) => r == Err::<bool, EtlError>(e) && final(self).stats == old(self).stats,
            },
    {
        match written {
            Ok(_) => {
                self.stats.count_events(counts);
                Ok(self.stats.target_reached())
            },
            Err(e) => Err(e),
        }
    }
}

/// Benchmark destination variants; `B` stands for the BigQuery destination.
#[derive(Debug)]
pub enum BenchDestination<B> {
    /// Null destination variant.
    Null(CountingDestination<NullDestination>),
    /// BigQuery destination variant.
    BigQuery(CountingDestination<B>),
}

impl<B> BenchDestination<B> {
    /// The counters.
    pub open spec fn counters(&self) -> DestinationStats {
        match *self {
            BenchDestination::Null(destination) => destination.stats,
            BenchDestination::BigQuery(destination) => destination.stats,
        }
    }

    /// Whether `other` wraps the same destination, whatever it counted.
    pub open spec fn wraps_as(&self, other: &Self) -> bool {
        match (*self, *other) {
            (BenchDestination::Null(a), BenchDestination::Null(b)) => a.inner == b.inner,
            (BenchDestination::BigQuery(a), BenchDestination::BigQuery(b)) => a.inner == b.inner,
            _ => false,
        }
    }

    /// Returns the identifier name for this destination type.
    pub fn name() -> (r: &'static str)
        ensures
            r@ == "bench_destination"@,
    {
        "bench_destination"
    }

    /// Returns destination counter snapshots.
    pub fn stats(&self) -> (r: DestinationStatsSnapshot)
        ensures
            r == self.counters().counts,
    {
        match self {
            BenchDestination::Null(destination) => destination.stats(),
            BenchDestination::BigQuery(destination) => destination.stats(),
        }
    }

    /// Resets CDC counters.
    pub fn reset_cdc_stats(&mut self)
        ensures
            final(self).counters() == old(self).counters().without_events(),
            final(self).wraps_as(old(self)),
    {
        match self {
            BenchDestination::Null(destination) => destination.reset_cdc_stats(),
            BenchDestination::BigQuery(destination) => destination.reset_cdc_stats(),
        }
    }

    /// Sets the target number of CDC mutation events. Returns whether those that wait for it are to
    /// be woken.
    pub fn set_cdc_target(&mut self, target: u64) -> (r: bool)
        ensures
            final(self).counters().cdc_target == target,
            final(self).counters().counts == old(self).counters().counts,
            final(self).wraps_as(old(self)),
            r == (old(self).counters().counts.cdc_data_events >= target),
    {
        match self {
            BenchDestination::Null(destination) => destination.set_cdc_target(target),
            BenchDestination::BigQuery(destination) => destination.set_cdc_target(target),
        }
    }
}

/// Digits with a comma before each group of three, counted from the right.
pub open spec fn grouped(digits: Seq<char>) -> Seq<char>
    decreases digits.len(),
{
    if digits.len() <= 3 {
        digits
    } else {
        grouped(digits.take(digits.len() - 3)) + ","@ + digits.skip(digits.len() - 3)
    }
}

/// The first `n` digits with the commas that stand before them.
spec fn grouped_front(digits: Seq<char>, n: nat) -> Seq<char>
    decreases n,
{
    if n == 0 {
        Seq::empty()
    } else {
        let at = n - 1;
        let before = grouped_front(digits, at as nat);
        if at > 0 && (digits.len() - at) % 3 == 0 {
            before.push(',').push(digits[at])
        } else {
            before.push(digits[at])
        }
    }
}

proof fn lemma_front_of_part(digits: Seq<char>, n: nat)
    requires
        digits.len() > 3,
        n <= digits.len() - 3,
    ensures
        grouped_front(digits.take(digits.len() - 3), n) == grouped_front(digits, n),
    decreases n,
{
    if n > 0 {
        lemma_front_of_part(digits, (n - 1) as nat);
        let at = n - 1;
        assert((digits.len() - 3 - at) % 3 == (digits.len() - at) % 3);
    }
}

proof fn lemma_grouped_front(digits: Seq<char>)
    ensures
        grouped_front(digits, digits.len()) == grouped(digits),
    decreases digits.len(),
{
    let n = digits.len() as int;
    reveal_with_fuel(grouped_front, 4);
    if n <= 3 {
        assert(grouped_front(digits, digits.len()) =~= digits);
    } else {
        reveal_strlit(",");
        let front = digits.take(n - 3);
        lemma_grouped_front(front);
        lemma_front_of_part(digits, (n - 3) as nat);
        let x = grouped_front(digits, (n - 3) as nat);
        assert(grouped_front(digits, (n - 2) as nat) == x.push(',').push(digits[n - 3]));
        assert(grouped_front(digits, (n - 1) as nat) == x.push(',').push(digits[n - 3]).push(
            digits[n - 2],
        ));
        assert(grouped_front(digits, n as nat) =~= x + ","@ + digits.skip(n - 3));
    }
}

/// Formats an integer with thousands separators.
pub fn format_integer(value: u128) -> (r: String)
    ensures
        r@ == grouped(decimal(value as nat)),
{
    let text = decimal_of(value);
    let digits = chars_of(text.as_str());
    group_digits(digits.as_slice())
}

/// Returns digits with thousands separators.
fn group_digits(digits: &[char]) -> (r: String)
    ensures
        r@ == grouped(digits@),
{
    let n: usize = digits.len();
    let mut formatted = String::new();
    let mut idx: usize = 0;
    while idx < n
        invariant
            idx <= n,
            n == digits@.len(),
            formatted@ == grouped_front(digits@, idx as nat),
        decreases n - idx,
    {
        if idx > 0 && (n - idx) % 3 == 0 {
            formatted.push(',');
        }
        formatted.push(digits[idx]);
        idx = idx + 1;
    }
    proof {
        lemma_grouped_front(digits@);
    }
    formatted
}

/// A text without its commas.
pub open spec fn without_commas(s: Seq<char>) -> Seq<char> {
    s.filter(|c: char| c != ',')
}

/// Separators change no digit: without them the number's own text is left.
pub proof fn law_grouping_keeps_digits(digits: Seq<char>)
    requires
        forall|i: int| 0 <= i < digits.len() ==> #[trigger] digits[i] != ',',
    ensures
        without_commas(grouped(digits)) == digits,
    decreases digits.len(),
{
    let keep = |c: char| c != ',';
    if digits.len() > 3 {
        reveal_strlit(",");
        let n = digits.len() as int;
        let (front, back) = (digits.take(n - 3), digits.skip(n - 3));
        law_grouping_keeps_digits(front);
        lemma_nothing_filtered(back);
        Seq::filter_distributes_over_add(grouped(front), ","@, keep);
        Seq::filter_distributes_over_add(grouped(front) + ","@, back, keep);
        assert(","@.filter(keep) =~= Seq::<char>::empty()) by {
            reveal(Seq::filter);
            assert(","@.drop_last() =~= Seq::<char>::empty());
            assert(","@.drop_last().filter(keep) =~= Seq::<char>::empty());
        }
        assert(front + Seq::<char>::empty() + back =~= digits);
    } else {
        lemma_nothing_filtered(digits);
    }
}

proof fn lemma_nothing_filtered(s: Seq<char>)
    requires
        forall|i: int| 0 <= i < s.len() ==> #[trigger] s[i] != ',',
    ensures
        s.filter(|c: char| c != ',') == s,
    decreases s.len(),
{
    reveal(Seq::filter);
    if s.len() > 0 {
        assert forall|i: int| 0 <= i < s.drop_last().len() implies #[trigger] s.drop_last()[i]
            != ',' by {
            assert(s.drop_last()[i] == s[i]);
        }
        lemma_nothing_filtered(s.drop_last());
        assert(s.last() != ',');
        assert(s.drop_last().push(s.last()) =~= s);
    }
}

/// The number that a text reads as, or zero.
pub open spec fn number_or_zero(s: Seq<char>) -> nat {
    match parse_unsigned(s, 10, u128::MAX as int) {
        Ok(n) => n as nat,
        Err(_) => 0,
    }
}

/// A whole number's text with separators; a leading minus is kept.
pub open spec fn grouped_text(value: Seq<char>) -> Seq<char> {
    if value.len() > 0 && value[0] == '-' {
        "-"@ + grouped(decimal(number_or_zero(value.skip(1))))
    } else {
        grouped(decimal(number_or_zero(value)))
    }
}

/// Formats the text of a whole number with thousands separators.
pub fn format_integer_str(value: &str) -> (r: String)
    ensures
        r@ == grouped_text(value@),
{
    let chars = chars_of(value);
    let n: usize = chars.len();
    if n > 0 && chars[0] == '-' {
        let unsigned = string_of(chars.as_slice(), 1, n);
        proof {
            assert(unsigned@ =~= value@.skip(1));
        }
        let number: u128 = match parse_u128(unsigned.as_str()) {
            Ok(number) => number,
            Err(_) => 0,
        };
        let formatted = format_integer(number);
        return cat2("-", formatted.as_str());
    }
    let number: u128 = match parse_u128(value) {
        Ok(number) => number,
        Err(_) => 0,
    };
    format_integer(number)
}

/// Whether a text is made of decimal digits, at least one.
pub open spec fn all_digits(s: Seq<char>) -> bool {
    s.len() > 0 && forall|i: int| 0 <= i < s.len() ==> '0' <= #[trigger] s[i] && s[i] <= '9'
}

/// A number's text with separators in the whole part, whether or not a point follows; a leading
/// minus is kept. A text that is no number, such as that of an infinity, is kept.
pub open spec fn grouped_decimal(raw: Seq<char>) -> Seq<char> {
    let at = first_place(raw, '.') as int;
    let (whole, rest) = (raw.take(at), raw.skip(at));
    if all_digits(whole) {
        grouped(whole) + rest
    } else if whole.len() > 0 && whole[0] == '-' && all_digits(whole.skip(1)) {
        "-"@ + grouped(whole.skip(1)) + rest
    } else {
        raw
    }
}

/// Returns whether the characters from `from` to `to` are decimal digits, at least one.
fn are_digits(chars: &[char], from: usize, to: usize) -> (r: bool)
    requires
        from <= to <= chars@.len(),
    ensures
        r == all_digits(chars@.subrange(from as int, to as int)),
{
    let ghost part = chars@.subrange(from as int, to as int);
    let mut i: usize = from;
    while i < to
        invariant
            from <= i <= to <= chars@.len(),
            part == chars@.subrange(from as int, to as int),
            forall|j: int| 0 <= j < i - from ==> '0' <= #[trigger] part[j] && part[j] <= '9',
        decreases to - i,
    {
        if chars[i] < '0' || chars[i] > '9' {
            proof {
                assert(part[i - from] == chars@[i as int]);
            }
            return false;
        }
        i = i + 1;
    }
    from < to
}

/// Returns the characters from `from` to `to`.
fn whole_part(chars: &Vec<char>, from: usize, to: usize) -> (r: Vec<char>)
    requires
        from <= to <= chars@.len(),
    ensures
        r@ == chars@.subrange(from as int, to as int),
{
    let mut part: Vec<char> = Vec::new();
    let mut i: usize = from;
    while i < to
        invariant
            from <= i <= to <= chars@.len(),
            part@ == chars@.subrange(from as int, i as int),
        decreases to - i,
    {
        part.push(chars[i]);
        i = i + 1;
        proof {
            assert(part@ =~= chars@.subrange(from as int, i as int));
        }
    }
    part
}

/// Formats the text of a number with thousands separators in the whole part.
pub fn format_decimal_text(raw: &str) -> (r: String)
    ensures
        r@ == grouped_decimal(raw@),
{
    let chars = chars_of(raw);
    let n: usize = chars.len();
    let at: usize = match find_first(&chars, '.') {
        None => n,
        Some(at) => at,
    };
    let rest = string_of(chars.as_slice(), at, n);
    let ghost whole = raw@.take(at as int);
    proof {
        assert(rest@ =~= raw@.skip(at as int));
        assert(chars@.subrange(0, at as int) =~= whole);
    }
    if are_digits(chars.as_slice(), 0, at) {
        let digits = whole_part(&chars, 0, at);
        let shown = group_digits(digits.as_slice());
        return cat2(shown.as_str(), rest.as_str());
    }
    if at > 0 && chars[0] == '-' {
        proof {
            assert(chars@.subrange(1, at as int) =~= whole.skip(1));
        }
        if are_digits(chars.as_slice(), 1, at) {
            let digits = whole_part(&chars, 1, at);
            let shown = group_digits(digits.as_slice());
            return cat3("-", shown.as_str(), rest.as_str());
        }
    }
    raw.to_string()
}

/// Formats a millisecond duration for terminal output. From one second on the text of the seconds,
/// with two decimals, is shown.
pub fn format_duration_ms(ms: u128, seconds: &str) -> (r: String)
    ensures
        r@ == if ms >= 1_000 {
            grouped_decimal(seconds@) + " s"@
        } else {
            grouped(decimal(ms as nat)) + " ms"@
        },
{
    if ms >= 1_000 {
        let shown = format_decimal_text(seconds);
        cat2(shown.as_str(), " s")
    } else {
        let shown = format_integer(ms);
        cat2(shown.as_str(), " ms")
    }
}

/// Returns duration as milliseconds.
pub fn duration_millis(duration: Duration) -> (r: u128)
    ensures
        r == duration.nanos / 1_000_000,
{
    duration.as_millis()
}

/// Why a name cannot be used.
#[derive(Debug)]
pub enum NameError {
    /// The identifier is empty.
    Empty,
    /// The identifier holds a character that is not supported.
    Unsupported(String),
    /// The table name has too many parts.
    Parts,
}

impl NameError {
    /// The error in words.
    pub open spec fn text(&self) -> Seq<char> {
        match *self {
            NameError::Empty => "identifier cannot be empty"@,
            NameError::Unsupported(identifier) => "identifier '"@ + identifier@
                + "' contains unsupported characters"@,
            NameError::Parts => "table name must be either table or schema.table"@,
        }
    }

    /// Returns the error in words.
    pub fn to_text(&self) -> (r: String)
        ensures
            r@ == self.text(),
    {
        match self {
            NameError::Empty => "identifier cannot be empty".to_string(),
            NameError::Unsupported(identifier) => cat3(
                "identifier '",
                identifier.as_str(),
                "' contains unsupported characters",
            ),
            NameError::Parts => "table name must be either table or schema.table".to_string(),
        }
    }
}

/// Whether a character may stand in an identifier.
pub open spec fn supported(c: char) -> bool {
    c == '_' || ('0' <= c && c <= '9') || ('a' <= c && c <= 'z') || ('A' <= c && c <= 'Z')
}

/// Whether an identifier can be quoted.
pub open spec fn plain(identifier: Seq<char>) -> bool {
    identifier.len() > 0 && forall|i: int|
        0 <= i < identifier.len() ==> supported(#[trigger] identifier[i])
}

/// Whether an error says why an identifier cannot be quoted.
pub open spec fn refuses(e: NameError, identifier: Seq<char>) -> bool {
    if identifier.len() == 0 {
        e is Empty
    } else {
        e matches NameError::Unsupported(s) && s@ == identifier
    }
}

/// Quotes a simple SQL identifier.
pub fn quote_identifier(identifier: &str) -> (r: Result<String, NameError>)
    ensures
        r is Ok <==> plain(identifier@),
        r matches Ok(s) ==> s@ == "\""@ + identifier@ + "\""@,
        r matches Err(e) ==> refuses(e, identifier@),
{
    let chars = chars_of(identifier);
    let n: usize = chars.len();
    if n == 0 {
        return Err(NameError::Empty);
    }
    let mut i: usize = 0;
    while i < n
        invariant
            i <= n,
            n == chars@.len(),
            0 < n,
            chars@ == identifier@,
            forall|j: int| 0 <= j < i ==> supported(#[trigger] chars@[j]),
        decreases n - i,
    {
        let c = chars[i];
        if !(c == '_' || ('0' <= c && c <= '9') || ('a' <= c && c <= 'z') || ('A' <= c && c <= 'Z'))
        {
            proof {
                assert(!supported(identifier@[i as int]));
            }
            return Err(NameError::Unsupported(identifier.to_string()));
        }
        i = i + 1;
    }
    Ok(cat3("\"", identifier, "\""))
}

/// Identifiers in quotes.
pub open spec fn all_quoted(parts: Seq<Seq<char>>) -> Seq<Seq<char>> {
    Seq::new(parts.len(), |i: int| "\""@ + parts[i] + "\""@)
}

/// Whether part `i` is the first that cannot be quoted.
pub open spec fn first_refused(parts: Seq<Seq<char>>, i: int) -> bool {
    &&& 0 <= i < parts.len()
    &&& !plain(parts[i])
    &&& forall|j: int| 0 <= j < i ==> plain(#[trigger] parts[j])
}

/// Quotes a schema-qualified table name.
pub fn quote_qualified_table_name(table_name: &str) -> (r: Result<String, NameError>)
    ensures
        ({
            let parts = split(table_name@, '.');
            &&& r is Ok <==> forall|i: int| 0 <= i < parts.len() ==> plain(#[trigger] parts[i])
            &&& r matches Ok(s) ==> s@ == joined(all_quoted(parts), "."@)
            &&& r matches Err(e) ==> exists|i: int| #[trigger]
                first_refused(parts, i) && refuses(e, parts[i])
        }),
{
    let parts = split_at_char(table_name, '.');
    let ghost model = split(table_name@, '.');
    let n: usize = parts.len();
    let mut quoted: Vec<String> = Vec::new();
    let mut i: usize = 0;
    while i < n
        invariant
            i <= n,
            n == parts@.len(),
            model == split(table_name@, '.'),
            views(parts@) == model,
            quoted@.len() == i,
            forall|j: int| 0 <= j < i ==> plain(#[trigger] model[j]),
            forall|j: int| 0 <= j < i ==> (#[trigger] quoted@[j])@ == "\""@ + model[j] + "\""@,
        decreases n - i,
    {
        proof {
            assert(views(parts@)[i as int] == parts@[i as int]@);
        }
        match quote_identifier(parts[i].as_str()) {
            Ok(s) => {
                quoted.push(s);
            },
            Err(e) => {
                proof {
                    assert(first_refused(model, i as int));
                }
                return Err(e);
            },
        }
        i = i + 1;
    }
    proof {
        assert(views(quoted@) =~= all_quoted(model));
    }
    Ok(join(quoted.as_slice(), "."))
}

/// Splits a schema-qualified table name into schema and table components.
pub fn split_table_name(table_name: &str) -> (r: Result<(String, String), NameError>)
    ensures
        ({
            let parts = split(table_name@, '.');
            match r {
                Ok(t) => if parts.len() == 1 {
                    t.0@ == "public"@ && t.1@ == parts[0]
                } else {
                    parts.len() == 2 && t.0@ == parts[0] && t.1@ == parts[1]
                },
                Err(e) => e is Parts && parts.len() > 2,
            }
        }),
{
    let parts = split_at_char(table_name, '.');
    proof {
        assert(forall|i: int|
            0 <= i < parts@.len() ==> views(parts@)[i] == (#[trigger] parts@[i])@);
    }
    if parts.len() == 1 {
        Ok(("public".to_string(), parts[0].clone()))
    } else if parts.len() == 2 {
        Ok((parts[0].clone(), parts[1].clone()))
    } else {
        Err(NameError::Parts)
    }
}

/// A benchmark that writes to the terminal logs as in development, one that writes to a file as in
/// production.
pub proof fn law_logs_follow_their_target()
    ensures
        LogTarget::Terminal.environment() == Environment::Dev,
        LogTarget::File.environment() == Environment::Prod,
{
}

/// Two destinations have names; case counts unless it is to be ignored.
pub proof fn law_destinations_have_these_names(input: Seq<char>)
    ensures
        DestinationType::parsed("null"@, false) == Some(DestinationType::Null),
        DestinationType::parsed("bigquery"@, false) == Some(DestinationType::BigQuery),
        input != "null"@ && input != "bigquery"@ ==> DestinationType::parsed(input, false) is None,
        lower_ascii(input) == lower_ascii("null"@) ==> DestinationType::parsed(input, true) == Some(
            DestinationType::Null,
        ),
        lower_ascii(input) == lower_ascii("bigquery"@) ==> DestinationType::parsed(input, true)
            == Some(DestinationType::BigQuery),
        lower_ascii(input) != lower_ascii("null"@) && lower_ascii(input) != lower_ascii("bigquery"@)
            ==> DestinationType::parsed(input, true) is None,
{
    reveal_strlit("null");
    reveal_strlit("bigquery");
    assert("null"@.len() != "bigquery"@.len());
    assert(lower_ascii("null"@).len() != lower_ascii("bigquery"@).len());
}

/// A trimmed text neither starts nor ends with white space, and only white space was taken away at its
/// ends.
pub proof fn law_trimming_takes_white_space_only(s: Seq<char>)
    ensures
        trimmed(s).len() > 0 ==> !white_space(trimmed(s)[0]) && !white_space(trimmed(s).last()),
        exists|a: int, b: int|
            0 <= a <= b <= s.len() && trimmed(s) == #[trigger] s.subrange(a, b) && (forall|i: int|
                0 <= i < a ==> white_space(#[trigger] s[i])) && (forall|i: int|
                b <= i < s.len() ==> white_space(#[trigger] s[i])),
{
    lemma_trimmed_start(s);
    let t = trimmed_start(s);
    let a = s.len() - t.len();
    lemma_trimmed_end(t);
    let u = trimmed_end(t);
    let b = a + u.len();
    assert(u =~= s.subrange(a, b));
    assert forall|i: int| b <= i < s.len() implies white_space(#[trigger] s[i]) by {
        assert(t[i - a] == s[i]);
    }
    if u.len() > 0 {
        assert(u[0] == t[0]);
    }
}

proof fn lemma_trimmed_start(s: Seq<char>)
    ensures
        trimmed_start(s).len() <= s.len(),
        trimmed_start(s) == s.skip(s.len() - trimmed_start(s).len()),
        trimmed_start(s).len() > 0 ==> !white_space(trimmed_start(s)[0]),
        forall|i: int|
            0 <= i < s.len() - trimmed_start(s).len() ==> white_space(#[trigger] s[i]),
    decreases s.len(),
{
    if s.len() > 0 && white_space(s[0]) {
        let rest = s.skip(1);
        lemma_trimmed_start(rest);
        let n = s.len() - trimmed_start(s).len();
        assert(s.skip(n) =~= rest.skip(n - 1));
        assert forall|i: int| 0 <= i < n implies white_space(#[trigger] s[i]) by {
            if i > 0 {
                assert(rest[i - 1] == s[i]);
            }
        }
    } else {
        assert(s.skip(0) =~= s);
    }
}

proof fn lemma_trimmed_end(s: Seq<char>)
    ensures
        trimmed_end(s).len() <= s.len(),
        trimmed_end(s) == s.take(trimmed_end(s).len() as int),
        trimmed_end(s).len() > 0 ==> !white_space(trimmed_end(s).last()),
        forall|i: int|
            trimmed_end(s).len() <= i < s.len() ==> white_space(#[trigger] s[i]),
    decreases s.len(),
{
    if s.len() > 0 && white_space(s.last()) {
        let rest = s.drop_last();
        lemma_trimmed_end(rest);
        let n = trimmed_end(s).len() as int;
        assert(s.take(n) =~= rest.take(n));
        assert forall|i: int| n <= i < s.len() implies white_space(#[trigger] s[i]) by {
            if i < s.len() - 1 {
                assert(rest[i] == s[i]);
            }
        }
    } else {
        assert(s.take(s.len() as int) =~= s);
    }
}

/// Blanks, tabs and line ends are white space; letters, digits and punctuation are not.
pub proof fn law_white_space_characters(c: char)
    ensures
        white_space(' '),
        white_space('\t'),
        white_space('\n'),
        white_space('\r'),
        33 <= c as int && 126 >= c as int ==> !white_space(c),
{
}

/// Every event is of one kind, and the events of a kind are counted.
pub proof fn law_events_are_counted_by_kind(events: Seq<Event>, e: Event, kind: EventKind)
    ensures
        kind_of(e) == EventKind::Insert <==> e is Insert,
        kind_of(e) == EventKind::Update <==> e is Update,
        kind_of(e) == EventKind::Delete <==> e is Delete,
        kind_of(e) == EventKind::Truncate <==> e is Truncate,
        kind_of(e) == EventKind::Relation <==> e is Relation,
        kind_of(e) == EventKind::Transaction <==> e is Begin || e is Commit,
        kind_of(e) == EventKind::Other <==> e is Unsupported,
        counted(Seq::empty(), kind) == 0,
        kind_of(e) == kind ==> counted(events.push(e), kind) == counted(events, kind) + 1,
        kind_of(e) != kind ==> counted(events.push(e), kind) == counted(events, kind),
{
    assert(events.push(e).drop_last() =~= events);
}

/// All events are counted in the total of bytes; only inserts, updates and deletes in that of data.
pub proof fn law_bytes_are_summed(events: Seq<Event>, e: Event, sizes: Seq<u64>, size: u64)
    ensures
        total(Seq::empty()) == 0,
        total(sizes.push(size)) == total(sizes) + size,
        data_total(Seq::empty(), sizes) == 0,
        e is Insert || e is Update || e is Delete ==> data_total(events.push(e), sizes.push(size))
            == data_total(events, sizes) + size,
        !(e is Insert) && !(e is Update) && !(e is Delete) ==> data_total(
            events.push(e),
            sizes.push(size),
        ) == data_total(events, sizes),
{
    assert(events.push(e).drop_last() =~= events);
    assert(sizes.push(size).drop_last() =~= sizes);
}

/// The counts of a batch of events add up.
pub proof fn law_counts_add_up(c: EventBatchCounts, events: Seq<Event>, sizes: Seq<u64>)
    requires
        counts_are(c, events, sizes),
    ensures
        c.data_events == counted(events, EventKind::Insert) + counted(events, EventKind::Update)
            + counted(events, EventKind::Delete),
        c.data_events + c.truncates + c.relations + c.transaction_events <= events.len(),
        c.total_event_bytes == total(sizes),
{
    lemma_kinds_are_disjoint(events);
}

proof fn lemma_kinds_are_disjoint(events: Seq<Event>)
    ensures
        counted(events, EventKind::Insert) + counted(events, EventKind::Update) + counted(
            events,
            EventKind::Delete,
        ) + counted(events, EventKind::Truncate) + counted(events, EventKind::Relation) + counted(
            events,
            EventKind::Transaction,
        ) <= events.len(),
    decreases events.len(),
{
    if events.len() > 0 {
        lemma_kinds_are_disjoint(events.drop_last());
    }
}

/// Counters count on from zero behind their largest value.
pub proof fn law_counters_wrap_around(counter: u64, amount: u64)
    ensures
        added(counter, amount) == (counter + amount) % 0x1_0000_0000_0000_0000,
        added(counter, 0) == counter,
        counter + amount <= u64::MAX ==> added(counter, amount) == counter + amount,
{
}

/// A batch of copied rows adds to the counters of copied rows and to no others; an empty one is no
/// batch.
pub proof fn law_copied_rows_are_counted(stats: DestinationStats, rows: u64, bytes: u64)
    ensures
        ({
            let (c, d) = (stats.counts, stats.with_table_rows(rows, bytes).counts);
            &&& d.table_rows == added(c.table_rows, rows)
            &&& d.table_row_bytes == added(c.table_row_bytes, bytes)
            &&& rows > 0 ==> d.table_row_batches == added(c.table_row_batches, 1)
            &&& rows == 0 ==> d.table_row_batches == c.table_row_batches
            &&& d.total_events == c.total_events
            &&& d.cdc_data_events == c.cdc_data_events
            &&& d.event_batches == c.event_batches
            &&& d.inserts == c.inserts && d.updates == c.updates && d.deletes == c.deletes
            &&& stats.with_table_rows(rows, bytes).cdc_target == stats.cdc_target
        }),
{
}

/// A batch of events adds to the counters of events and to no others; the largest batch is kept, and an
/// empty one is no batch.
pub proof fn law_events_are_counted(stats: DestinationStats, n: EventBatchCounts)
    ensures
        ({
            let (c, d) = (stats.counts, stats.with_events(n).counts);
            &&& d.table_rows == c.table_rows
            &&& d.table_row_bytes == c.table_row_bytes
            &&& d.table_row_batches == c.table_row_batches
            &&& d.cdc_data_events == added(c.cdc_data_events, n.data_events)
            &&& d.cdc_data_event_bytes == added(c.cdc_data_event_bytes, n.data_event_bytes)
            &&& d.inserts == added(c.inserts, n.inserts)
            &&& d.updates == added(c.updates, n.updates)
            &&& d.deletes == added(c.deletes, n.deletes)
            &&& d.truncates == added(c.truncates, n.truncates)
            &&& d.relations == added(c.relations, n.relations)
            &&& d.transaction_events == added(c.transaction_events, n.transaction_events)
            &&& d.total_events == added(c.total_events, n.total_events)
            &&& d.total_event_bytes == added(c.total_event_bytes, n.total_event_bytes)
            &&& n.total_events > 0 ==> d.event_batches == added(c.event_batches, 1)
            &&& n.total_events == 0 ==> d.event_batches == c.event_batches
            &&& d.max_event_batch_size >= n.total_events && d.max_event_batch_size
                >= c.max_event_batch_size
            &&& d.max_event_batch_size == n.total_events || d.max_event_batch_size
                == c.max_event_batch_size
            &&& stats.with_events(n).cdc_target == stats.cdc_target
        }),
{
}

/// Without the counts of events only those of copied rows are left.
pub proof fn law_only_copied_rows_are_left(stats: DestinationStats)
    ensures
        ({
            let (c, d) = (stats.counts, stats.without_events().counts);
            &&& d.table_rows == c.table_rows
            &&& d.table_row_bytes == c.table_row_bytes
            &&& d.table_row_batches == c.table_row_batches
            &&& d.cdc_data_events == 0 && d.cdc_data_event_bytes == 0
            &&& d.inserts == 0 && d.updates == 0 && d.deletes == 0 && d.truncates == 0
            &&& d.relations == 0 && d.transaction_events == 0
            &&& d.total_events == 0 && d.total_event_bytes == 0
            &&& d.event_batches == 0 && d.max_event_batch_size == 0
            &&& stats.without_events().cdc_target == stats.cdc_target
        }),
{
}

/// Commas stand before every group of three digits from the right, and nowhere else: up to three digits
/// stand alone, and three more digits put a comma before them.
pub proof fn law_digits_are_grouped_by_three(digits: Seq<char>, a: char, b: char, c: char)
    ensures
        digits.len() <= 3 ==> grouped(digits) == digits,
        digits.len() > 0 ==> grouped(digits + seq![a, b, c]) == grouped(digits) + seq![',', a, b, c],
{
    reveal_strlit(",");
    if digits.len() > 0 {
        let all = digits + seq![a, b, c];
        assert(all.take(all.len() - 3) =~= digits);
        assert(all.skip(all.len() - 3) =~= seq![a, b, c]);
        assert(grouped(all) =~= grouped(digits) + seq![',', a, b, c]);
    }
}

/// Replication slots are named after the pipeline, and those of table copies after the table as well.
pub proof fn law_slots_have_these_names(pipeline_id: u64, table_id: u32)
    ensures
        apply_slot(pipeline_id) == "supabase_etl_apply_"@ + decimal(pipeline_id as nat),
        table_sync_slot(pipeline_id, table_id) == "supabase_etl_table_sync_"@ + decimal(
            pipeline_id as nat,
        ) + "_"@ + decimal(table_id as nat),
{
}

/// An identifier is plain if and only if it is not empty and holds nothing but letters, digits and
/// underscores.
pub proof fn law_plain_identifiers(identifier: Seq<char>)
    ensures
        plain(identifier) <==> identifier.len() > 0 && forall|i: int|
            0 <= i < identifier.len() ==> (#[trigger] identifier[i] == '_' || '0' <= identifier[i]
                <= '9' || 'a' <= identifier[i] <= 'z' || 'A' <= identifier[i] <= 'Z'),
{
    if plain(identifier) {
        assert forall|i: int| 0 <= i < identifier.len() implies (#[trigger] identifier[i] == '_'
            || '0' <= identifier[i] <= '9' || 'a' <= identifier[i] <= 'z' || 'A' <= identifier[i]
            <= 'Z') by {
            assert(supported(identifier[i]));
        }
    }
    if identifier.len() > 0 && forall|i: int|
        0 <= i < identifier.len() ==> (#[trigger] identifier[i] == '_' || '0' <= identifier[i]
            <= '9' || 'a' <= identifier[i] <= 'z' || 'A' <= identifier[i] <= 'Z') {
        assert forall|i: int| 0 <= i < identifier.len() implies supported(
            #[trigger] identifier[i],
        ) by {
            assert(identifier[i] == '_' || '0' <= identifier[i] <= '9' || 'a' <= identifier[i]
                <= 'z' || 'A' <= identifier[i] <= 'Z');
        }
    }
}

/// Numbers are shown with their groups and their sign; what is no number is shown as zero.
pub proof fn law_numbers_are_shown_in_groups(n: u64)
    ensures
        grouped_text(decimal(n as nat)) == grouped(decimal(n as nat)),
        grouped_text("-"@ + decimal(n as nat)) == "-"@ + grouped(decimal(n as nat)),
        grouped_text(Seq::empty()) == grouped(decimal(0)),
{
    reveal_strlit("-");
    crate::text::law_decimal_reads_back(n as nat, u128::MAX as int);
    let d = decimal(n as nat);
    assert(d[0] != '-');
    let s = "-"@ + d;
    assert(s[0] == '-');
    assert(s.skip(1) =~= d);
}

/// A plain number keeps what stands behind its point, and its digits before the point are grouped; any
/// other text is shown as it is.
pub proof fn law_decimals_are_shown_in_groups(whole: Seq<char>, rest: Seq<char>)
    requires
        all_digits(whole),
    ensures
        grouped_decimal(whole) == grouped(whole),
        grouped_decimal(whole.push('.') + rest) == grouped(whole) + (seq!['.'] + rest),
        grouped_decimal(rest) == rest || all_digits(rest.take(first_place(rest, '.') as int)) || (
        rest.len() > 0 && rest[0] == '-'),
{
    assert forall|i: int| 0 <= i < whole.len() implies #[trigger] whole[i] != '.' by {}
    crate::text::lemma_is_first_place(whole, '.', whole.len());
    assert(whole.take(whole.len() as int) =~= whole);
    assert(whole.skip(whole.len() as int) =~= Seq::<char>::empty());
    assert(grouped(whole) + Seq::<char>::empty() =~= grouped(whole));
    let s = whole.push('.') + rest;
    let n = whole.len();
    assert(s[n as int] == '.');
    assert forall|i: int| 0 <= i < n implies #[trigger] s[i] != '.' by {
        assert(s[i] == whole[i]);
    }
    crate::text::lemma_is_first_place(s, '.', n);
    assert(s.take(n as int) =~= whole);
    assert(s.skip(n as int) =~= seq!['.'] + rest);
    crate::text::lemma_first_place(rest, '.');
    let at = first_place(rest, '.') as int;
    if rest.take(at).len() > 0 {
        assert(rest.take(at)[0] == rest[0]);
    }
}

/// An argument is given if and only if it holds more than white space.
pub proof fn law_blank_arguments_are_not_given(argument: Option<String>)
    ensures
        argument is None ==> !given(argument),
        argument matches Some(s) ==> (given(argument) <==> exists|i: int|
            0 <= i < s@.len() && !white_space(#[trigger] s@[i])),
{
    match argument {
        Some(s) => {
            law_trimming_takes_white_space_only(s@);
            let (a, b) = choose|a: int, b: int|
                0 <= a <= b <= s@.len() && trimmed(s@) == #[trigger] s@.subrange(a, b) && (forall|
                    i: int,
                |
                    0 <= i < a ==> white_space(#[trigger] s@[i])) && (forall|i: int|
                    b <= i < s@.len() ==> white_space(#[trigger] s@[i]));
            if given(argument) {
                assert(trimmed(s@)[0] == s@[a]);
                assert(!white_space(s@[a]));
            }
            if exists|i: int| 0 <= i < s@.len() && !white_space(#[trigger] s@[i]) {
                let i = choose|i: int| 0 <= i < s@.len() && !white_space(#[trigger] s@[i]);
                assert(a <= i < b);
            }
        },
        None => {},
    }
}

/// A destination is reported by its name.
pub proof fn law_destinations_are_reported(destination: &DestinationType, r: &'static str)
    requires
        call_ensures(DestinationType::report_name, (destination,), r),
    ensures
        *destination == DestinationType::Null ==> r@ == "null"@,
        *destination == DestinationType::BigQuery ==> r@ == "big_query"@,
{
}

/// A span's milliseconds are the whole ones.
pub proof fn law_milliseconds_are_whole(duration: Duration, r: u128)
    requires
        call_ensures(duration_millis, (duration,), r),
    ensures
        1_000_000 * r <= duration.nanos,
        duration.nanos < 1_000_000 * (r + 1),
{
}

/// A blank argument is missing; any other is taken as it was given.
pub proof fn law_given_arguments_are_taken(
    argument: &String,
    inner: &str,
    missing: &'static str,
    r: Result<String, &'static str>,
)
    requires
        call_ensures(unless_blank, (argument, inner, missing), r),
    ensures
        r is Ok <==> inner@.len() > 0,
        r matches Ok(s) ==> s@ == argument@,
        r matches Err(e) ==> e@ == missing@,
{
}

/// A target is reached once as many row-level events were observed.
pub proof fn law_targets_are_reached(
    stats: &DestinationStats,
    reached: bool,
    snapshot: DestinationStatsSnapshot,
)
    requires
        call_ensures(DestinationStats::target_reached, (stats,), reached),
        call_ensures(DestinationStats::snapshot, (stats,), snapshot),
    ensures
        reached <==> snapshot.cdc_data_events >= stats.cdc_target,
        snapshot == stats.counts,
{
}

/// A pipeline is set up from its arguments: each setting is the one that was given.
pub proof fn law_pipelines_are_set_up_as_given(
    id: u64,
    publication: String,
    pg: &PgConnectionArgs,
    tuning: &PipelineTuningArgs,
    copy: bool,
    defaults: PipelineDefaults,
    r: PipelineConfig<bool>,
)
    requires
        call_ensures(pipeline_config::<bool>, (id, publication, pg, tuning, copy, defaults), r),
    ensures
        r.id == id,
        r.publication_name == publication,
        r.pg_connection.host@ == pg.host@,
        r.pg_connection.port == pg.port,
        r.pg_connection.name@ == pg.database@,
        r.pg_connection.username@ == pg.username@,
        r.pg_connection.password is Some <==> pg.password is Some,
        pg.password matches Some(p) ==> r.pg_connection.password->Some_0@ == p@,
        r.pg_connection.trusted_root_certs@ == pg.tls_certs@,
        r.pg_connection.tls_enabled == pg.tls_enabled,
        r.batch_max_fill_ms == tuning.batch_max_fill_ms,
        r.max_table_sync_workers == tuning.max_table_sync_workers,
        r.max_copy_connections_per_table == tuning.max_copy_connections_per_table,
        r.memory_backpressure <==> !tuning.disable_memory_backpressure,
        r.table_sync_copy == copy,
        r.invalidated_slot_behavior == InvalidatedSlotBehavior::Error,
        r.defaults == defaults,
{
}

/// BigQuery needs a project, a dataset and a key file, and misses the first of them that is not given;
/// what is given is taken over.
pub proof fn law_bigquery_needs_three_arguments(
    args: &DestinationArgs,
    r: Result<BigQuerySettings, &'static str>,
)
    requires
        call_ensures(DestinationArgs::bigquery_settings, (args,), r),
    ensures
        r is Ok <==> given(args.bq_project_id) && given(args.bq_dataset_id) && given(
            args.bq_sa_key_file,
        ),
        r matches Ok(s) ==> args.bq_project_id is Some && s.project_id@
            == args.bq_project_id->Some_0@ && s.dataset_id@ == args.bq_dataset_id->Some_0@
            && s.sa_key_file@ == args.bq_sa_key_file->Some_0@ && s.max_staleness_mins
            == args.bq_max_staleness_mins && s.connection_pool_size
            == args.bq_connection_pool_size,
        !given(args.bq_project_id) ==> (r matches Err(e) && e@
            == "BigQuery project ID is required for BigQuery benchmarks"@),
        given(args.bq_project_id) && !given(args.bq_dataset_id) ==> (r matches Err(e) && e@
            == "BigQuery dataset ID is required for BigQuery benchmarks"@),
{
}

/// A written batch is counted, a failed one is not; its outcome is handed on.
pub proof fn law_only_written_rows_are_counted<D>(
    destination: &mut CountingDestination<D>,
    rows: u64,
    bytes: u64,
    written: EtlResult<()>,
    r: EtlResult<()>,
)
    requires
        call_ensures(
            CountingDestination::<D>::write_table_rows,
            (destination, rows, bytes, written),
            r,
        ),
    ensures
        r == written,
        written is Err ==> final(destination).stats == old(destination).stats,
        written is Ok ==> final(destination).stats == old(destination).stats.with_table_rows(
            rows,
            bytes,
        ),
        final(destination).inner == old(destination).inner,
{
}

/// Written events are counted, failed ones are not; the target is reached once as many were observed.
pub proof fn law_only_written_events_are_counted<D>(
    destination: &mut CountingDestination<D>,
    counts: &EventBatchCounts,
    written: EtlResult<()>,
    r: EtlResult<bool>,
)
    requires
        call_ensures(CountingDestination::<D>::write_events, (destination, counts, written), r),
    ensures
        r is Ok <==> written is Ok,
        written is Err ==> final(destination).stats == old(destination).stats && r->Err_0
            == written->Err_0,
        written is Ok ==> final(destination).stats == old(destination).stats.with_events(*counts),
        r matches Ok(reached) ==> (reached <==> final(destination).stats.counts.cdc_data_events
            >= old(destination).stats.cdc_target),
{
}

/// A new target leaves the counts alone, and is reached at once if as many events were observed.
pub proof fn law_new_targets_keep_the_counts(stats: &mut DestinationStats, target: u64, r: bool)
    requires
        call_ensures(DestinationStats::set_cdc_target, (stats, target), r),
    ensures
        final(stats).cdc_target == target,
        final(stats).counts == old(stats).counts,
        r <==> old(stats).counts.cdc_data_events >= target,
{
}

/// A table's name has one or two parts; without a schema it is public.
pub proof fn law_table_names_have_two_parts(
    name: &str,
    r: Result<(String, String), NameError>,
)
    requires
        call_ensures(split_table_name, (name,), r),
    ensures
        ({
            let parts = split(name@, '.');
            &&& r is Err ==> parts.len() > 2
            &&& r is Ok ==> parts.len() == 1 || parts.len() == 2
            &&& r matches Ok(t) ==> t.1@ == parts.last()
            &&& r matches Ok(t) ==> (parts.len() == 1 ==> t.0@ == "public"@)
            &&& r matches Ok(t) ==> (parts.len() == 2 ==> t.0@ == parts[0])
        }),
{
}

/// A plain identifier is quoted as it is; an empty or unusual one is refused.
pub proof fn law_plain_identifiers_are_quoted(
    identifier: &str,
    r: Result<String, NameError>,
)
    requires
        call_ensures(quote_identifier, (identifier,), r),
    ensures
        r matches Ok(s) ==> plain(identifier@) && s@ == "\""@ + identifier@ + "\""@,
        plain(identifier@) ==> r is Ok,
        identifier@.len() == 0 && r is Err ==> r->Err_0 is Empty,
        identifier@.len() > 0 && r is Err ==> r->Err_0 is Unsupported,
{
}

/// A pipeline's slots are its own and one for each table, in order.
pub proof fn law_every_table_has_a_slot(pipeline_id: u64, tables: &[u32], r: Vec<String>)
    requires
        call_ensures(replication_slots, (pipeline_id, tables), r),
    ensures
        r@.len() == tables@.len() + 1,
        r@[0]@ == apply_slot(pipeline_id),
        forall|i: int|
            0 <= i < tables@.len() ==> (#[trigger] r@[i + 1])@ == table_sync_slot(
                pipeline_id,
                tables@[i],
            ),
{
}

/// A time is shown in seconds from one second on, and in milliseconds below.
pub proof fn law_times_are_shown_in_seconds_or_milliseconds(ms: u128, seconds: &str, r: String)
    requires
        call_ensures(format_duration_ms, (ms, seconds), r),
    ensures
        ms >= 1_000 ==> r@ == grouped_decimal(seconds@) + " s"@,
        ms < 1_000 ==> r@ == grouped(decimal(ms as nat)) + " ms"@,
{
}

/// Counters begin at zero.
pub proof fn law_counters_begin_at_zero(r: DestinationStats)
    requires
        call_ensures(DestinationStats::new, (), r),
    ensures
        r.cdc_target == 0,
        r.counts.table_rows == 0,
        r.counts.table_row_bytes == 0,
        r.counts.table_row_batches == 0,
        r.counts.cdc_data_events == 0,
        r.counts.cdc_data_event_bytes == 0,
        r.counts.inserts == 0,
        r.counts.updates == 0,
        r.counts.deletes == 0,
        r.counts.truncates == 0,
        r.counts.relations == 0,
        r.counts.transaction_events == 0,
        r.counts.total_events == 0,
        r.counts.total_event_bytes == 0,
        r.counts.event_batches == 0,
        r.counts.max_event_batch_size == 0,
{
}

/// A qualified name is quoted part by part; it is refused if any part is not plain.
pub proof fn law_qualified_names_are_quoted_by_part(name: &str, r: Result<String, NameError>)
    requires
        call_ensures(quote_qualified_table_name, (name,), r),
    ensures
        ({
            let parts = split(name@, '.');
            &&& r is Ok <==> forall|i: int| 0 <= i < parts.len() ==> plain(#[trigger] parts[i])
            &&& r matches Ok(s) ==> s@ == joined(
                Seq::new(parts.len(), |i: int| "\""@ + parts[i] + "\""@),
                "."@,
            )
        }),
{
}

} // verus!
