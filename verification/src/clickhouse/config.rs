//! Engines, timeouts and call outcomes.
use vstd::prelude::*;

use crate::error::{error_of, ErrorKind, ErrorModel, EtlError, EtlResult};
use crate::text::{
    cat2, cat3, cat4, cat5, cat7, decimal, decimal_of, law_decimal_reads_back,
    law_decimal_stands_for_its_number, law_plain_text_is_one_piece, law_separator_ends_a_piece,
    lemma_split_nonempty, parse_u64, parse_unsigned, positional, split, split_at_char, views,
};
use crate::time::{Duration, MAX_NANOS, NANOS_PER_SEC};

verus! {

/// Table engine of replicated tables.
#[derive(Clone, Copy, Debug, PartialEq, Eq, Structural)]
pub enum ClickHouseEngine {
    /// Keeps every change as a row.
    MergeTree,
    /// Keeps the latest row of every key.
    ReplacingMergeTree,
}

impl ClickHouseEngine {
    /// Name of the engine at the server.
    pub open spec fn text(self) -> Seq<char> {
        match self {
            ClickHouseEngine::MergeTree => "MergeTree"@,
            ClickHouseEngine::ReplacingMergeTree => "ReplacingMergeTree"@,
        }
    }

    /// Oldest server version that the engine needs, if any.
    pub open spec fn minimum(self) -> Option<(u32, u32)> {
        match self {
            ClickHouseEngine::MergeTree => None,
            ClickHouseEngine::ReplacingMergeTree => Some((23u32, 5u32)),
        }
    }

    /// Returns the name of the engine at the server.
    pub fn as_clickhouse_str(&self) -> (r: &'static str)
        ensures
            r@ == self.text(),
    {
        match self {
            ClickHouseEngine::MergeTree => "MergeTree",
            ClickHouseEngine::ReplacingMergeTree => "ReplacingMergeTree",
        }
    }

    /// Returns the oldest server version that the engine needs, if any.
    pub fn min_server_version(&self) -> (r: Option<(u32, u32)>)
        ensures
            r == self.minimum(),
    {
        match self {
            ClickHouseEngine::MergeTree => None,
            ClickHouseEngine::ReplacingMergeTree => Some((23, 5)),
        }
    }
}

/// Categories of calls to the server.
#[derive(Clone, Copy, Debug, PartialEq, Eq, Structural)]
pub enum ClickHouseOperationKind {
    /// Connectivity check.
    ConnectivityCheck,
    /// Lookup of a table's columns.
    SchemaQuery,
    /// Data definition.
    Ddl,
    /// Insert of rows.
    Insert,
}

impl ClickHouseOperationKind {
    /// The error kind of a call that the server refused.
    pub open spec fn failure(self) -> ErrorKind {
        match self {
            ClickHouseOperationKind::ConnectivityCheck => ErrorKind::DestinationConnectionFailed,
            ClickHouseOperationKind::SchemaQuery => ErrorKind::DestinationQueryFailed,
            ClickHouseOperationKind::Ddl => ErrorKind::DestinationQueryFailed,
            ClickHouseOperationKind::Insert => ErrorKind::DestinationAtomicBatchRetryable,
        }
    }

    /// The category's name in messages.
    pub open spec fn text(self) -> Seq<char> {
        match self {
            ClickHouseOperationKind::ConnectivityCheck => "connectivity check"@,
            ClickHouseOperationKind::SchemaQuery => "schema query"@,
            ClickHouseOperationKind::Ddl => "DDL"@,
            ClickHouseOperationKind::Insert => "insert"@,
        }
    }

    /// Returns the error kind of a call that the server refused.
    pub fn failed_kind(self) -> (r: ErrorKind)
        ensures
            r == self.failure(),
    {
        match self {
            ClickHouseOperationKind::ConnectivityCheck => ErrorKind::DestinationConnectionFailed,
            ClickHouseOperationKind::SchemaQuery
            | ClickHouseOperationKind::Ddl => ErrorKind::DestinationQueryFailed,
            ClickHouseOperationKind::Insert => ErrorKind::DestinationAtomicBatchRetryable,
        }
    }

    /// Returns the category's name in messages.
    pub fn as_str(&self) -> (r: &'static str)
        ensures
            r@ == self.text(),
    {
        match self {
            ClickHouseOperationKind::ConnectivityCheck => "connectivity check",
            ClickHouseOperationKind::SchemaQuery => "schema query",
            ClickHouseOperationKind::Ddl => "DDL",
            ClickHouseOperationKind::Insert => "insert",
        }
    }
}

/// Limits on what one insert statement holds, and the engine of new tables.
#[derive(Clone, Copy, Debug, PartialEq, Eq, Structural)]
pub struct ClickHouseInserterConfig {
    /// Uncompressed bytes after which a new insert statement is started.
    pub max_bytes_per_insert: u64,
    /// Engine of new tables.
    pub engine: ClickHouseEngine,
}

impl ClickHouseInserterConfig {
    /// Bytes per insert statement unless configured otherwise.
    pub const DEFAULT_MAX_BYTES_PER_INSERT: u64 = 67_108_864;

    /// Creates the usual configuration for an engine.
    pub fn new(engine: ClickHouseEngine) -> (r: Self)
        ensures
            r.engine == engine,
            r.max_bytes_per_insert == Self::DEFAULT_MAX_BYTES_PER_INSERT,
    {
        ClickHouseInserterConfig {
            max_bytes_per_insert: Self::DEFAULT_MAX_BYTES_PER_INSERT,
            engine,
        }
    }
}

/// Time budgets of calls to the server.
#[derive(Clone, Copy, Debug, PartialEq, Eq, Structural)]
pub struct ClickHouseClientConfig {
    /// Server's budget for the connectivity check.
    pub connectivity_check_timeout: Duration,
    /// Server's budget for lookups of columns.
    pub schema_query_timeout: Duration,
    /// Server's budget for data definition.
    pub ddl_timeout: Duration,
    /// Server's budget for one insert statement.
    pub insert_timeout: Duration,
    /// What the client waits beyond the server's budget.
    pub client_timeout_epsilon: Duration,
}

impl ClickHouseClientConfig {
    /// Seconds of the server's budget for the connectivity check.
    pub const DEFAULT_CONNECTIVITY_CHECK_TIMEOUT_SECS: u64 = 8;

    /// Seconds of the server's budget for lookups of columns.
    pub const DEFAULT_SCHEMA_QUERY_TIMEOUT_SECS: u64 = 16;

    /// Seconds of the server's budget for data definition.
    pub const DEFAULT_DDL_TIMEOUT_SECS: u64 = 128;

    /// Seconds of the server's budget for one insert statement.
    pub const DEFAULT_INSERT_TIMEOUT_SECS: u64 = 256;

    /// Seconds that the client waits beyond the server's budget.
    pub const DEFAULT_CLIENT_TIMEOUT_EPSILON_SECS: u64 = 4;

    /// The server's budget for a call.
    pub open spec fn server_timeout(&self, op: ClickHouseOperationKind) -> Duration {
        match op {
            ClickHouseOperationKind::ConnectivityCheck => self.connectivity_check_timeout,
            ClickHouseOperationKind::SchemaQuery => self.schema_query_timeout,
            ClickHouseOperationKind::Ddl => self.ddl_timeout,
            ClickHouseOperationKind::Insert => self.insert_timeout,
        }
    }

    /// How many nanoseconds the client waits for a call: the server's budget and the slack.
    pub open spec fn client_timeout(&self, op: ClickHouseOperationKind) -> int {
        self.server_timeout(op).nanos + self.client_timeout_epsilon.nanos
    }

    /// Returns the server's budget for a call.
    pub fn server_timeout_for(&self, op: ClickHouseOperationKind) -> (r: Duration)
        ensures
            r == self.server_timeout(op),
    {
        match op {
            ClickHouseOperationKind::ConnectivityCheck => self.connectivity_check_timeout,
            ClickHouseOperationKind::SchemaQuery => self.schema_query_timeout,
            ClickHouseOperationKind::Ddl => self.ddl_timeout,
            ClickHouseOperationKind::Insert => self.insert_timeout,
        }
    }

    /// Returns how long the client waits for a call: the server's budget and the slack.
    pub fn client_timeout_for(&self, op: ClickHouseOperationKind) -> (r: Duration)
        requires
            self.client_timeout(op) <= MAX_NANOS,
        ensures
            r.nanos == self.client_timeout(op),
    {
        self.server_timeout_for(op).plus(&self.client_timeout_epsilon)
    }
}

impl Default for ClickHouseClientConfig {
    fn default() -> (r: Self)
        ensures
            r.connectivity_check_timeout.nanos == 8 * NANOS_PER_SEC,
            r.schema_query_timeout.nanos == 16 * NANOS_PER_SEC,
            r.ddl_timeout.nanos == 128 * NANOS_PER_SEC,
            r.insert_timeout.nanos == 256 * NANOS_PER_SEC,
            r.client_timeout_epsilon.nanos == 4 * NANOS_PER_SEC,
    {
        ClickHouseClientConfig {
            connectivity_check_timeout: Duration::from_secs(Self::DEFAULT_CONNECTIVITY_CHECK_TIMEOUT_SECS),
            schema_query_timeout: Duration::from_secs(Self::DEFAULT_SCHEMA_QUERY_TIMEOUT_SECS),
            ddl_timeout: Duration::from_secs(Self::DEFAULT_DDL_TIMEOUT_SECS),
            insert_timeout: Duration::from_secs(Self::DEFAULT_INSERT_TIMEOUT_SECS),
            client_timeout_epsilon: Duration::from_secs(Self::DEFAULT_CLIENT_TIMEOUT_EPSILON_SECS),
        }
    }
}

/// The client always waits longer than the server's budget, when the slack is not zero.
pub proof fn law_client_outwaits_server(
    config: ClickHouseClientConfig,
    op: ClickHouseOperationKind,
)
    requires
        config.client_timeout_epsilon.nanos > 0,
    ensures
        config.client_timeout(op) > config.server_timeout(op).nanos,
{
}

/// A budget in whole seconds, at least one.
pub open spec fn floored(d: Duration) -> Seq<char> {
    decimal(
        if d.nanos < NANOS_PER_SEC {
            1
        } else {
            (d.nanos / NANOS_PER_SEC) as nat
        },
    )
}

/// Writes a budget in whole seconds for the server. Zero would switch the limit off, so one is
/// the least.
pub fn floor_secs(d: Duration) -> (r: String)
    requires
        d.nanos <= MAX_NANOS,
    ensures
        r@ == floored(d),
{
    let secs: u64 = d.as_secs();
    if secs < 1 {
        decimal_of(1)
    } else {
        decimal_of(secs as u128)
    }
}

/// A setting of the server, by its name and its value.
#[derive(Debug)]
pub struct ClickHouseOption {
    /// Name of the setting.
    pub name: &'static str,
    /// Value of the setting.
    pub value: String,
}

impl View for ClickHouseOption {
    type V = (Seq<char>, Seq<char>);

    open spec fn view(&self) -> (Seq<char>, Seq<char>) {
        (self.name@, self.value@)
    }
}

/// What the settings say.
pub open spec fn option_views(options: Seq<ClickHouseOption>) -> Seq<(Seq<char>, Seq<char>)> {
    Seq::new(options.len(), |i: int| options[i]@)
}

fn setting(name: &'static str, budget: Duration) -> (r: ClickHouseOption)
    requires
        budget.nanos <= MAX_NANOS,
    ensures
        r@ == (name@, floored(budget)),
{
    ClickHouseOption { name, value: floor_secs(budget) }
}

impl ClickHouseClientConfig {
    /// Returns the settings of every connection.
    pub fn connection_options(&self) -> (r: Vec<ClickHouseOption>)
        requires
            self.connectivity_check_timeout.nanos <= MAX_NANOS,
            self.insert_timeout.nanos <= MAX_NANOS,
        ensures
            option_views(r@) == seq![
                ("connect_timeout"@, floored(self.connectivity_check_timeout)),
                ("http_connection_timeout"@, floored(self.connectivity_check_timeout)),
                ("http_send_timeout"@, floored(self.insert_timeout)),
                ("http_receive_timeout"@, floored(self.insert_timeout)),
            ],
    {
        let options = vec![
            setting("connect_timeout", self.connectivity_check_timeout),
            setting("http_connection_timeout", self.connectivity_check_timeout),
            setting("http_send_timeout", self.insert_timeout),
            setting("http_receive_timeout", self.insert_timeout),
        ];
        proof {
            assert(option_views(options@) =~= seq![
                ("connect_timeout"@, floored(self.connectivity_check_timeout)),
                ("http_connection_timeout"@, floored(self.connectivity_check_timeout)),
                ("http_send_timeout"@, floored(self.insert_timeout)),
                ("http_receive_timeout"@, floored(self.insert_timeout)),
            ]);
        }
        options
    }

    /// The settings of a call: how long it may run and, for data definition, wait for locks.
    pub open spec fn call_settings(&self, op: ClickHouseOperationKind) -> Seq<
        (Seq<char>, Seq<char>),
    > {
        let budget = floored(self.server_timeout(op));
        match op {
            ClickHouseOperationKind::ConnectivityCheck
            | ClickHouseOperationKind::SchemaQuery => seq![("max_execution_time"@, budget)],
            ClickHouseOperationKind::Ddl => seq![
                ("max_execution_time"@, budget),
                ("lock_acquire_timeout"@, budget),
            ],
            ClickHouseOperationKind::Insert => Seq::empty(),
        }
    }

    /// Returns the settings of a call.
    pub fn call_options(&self, op: ClickHouseOperationKind) -> (r: Vec<ClickHouseOption>)
        requires
            self.server_timeout(op).nanos <= MAX_NANOS,
        ensures
            option_views(r@) == self.call_settings(op),
    {
        let budget = self.server_timeout_for(op);
        let mut options: Vec<ClickHouseOption> = Vec::new();
        match op {
            ClickHouseOperationKind::ConnectivityCheck | ClickHouseOperationKind::SchemaQuery => {
                options.push(setting("max_execution_time", budget));
            },
            ClickHouseOperationKind::Ddl => {
                options.push(setting("max_execution_time", budget));
                options.push(setting("lock_acquire_timeout", budget));
            },
            ClickHouseOperationKind::Insert => {},
        }
        proof {
            assert(option_views(options@) =~= self.call_settings(op));
        }
        options
    }
}

/// How a call ended.
#[derive(Debug)]
pub enum CallOutcome<T> {
    /// The server answered.
    Value(T),
    /// The server refused the call, with this text.
    Refused(String),
    /// The client's deadline passed.
    TimedOut,
}

/// Particulars of a failed call.
pub open spec fn call_detail(
    op: ClickHouseOperationKind,
    what: Seq<char>,
    context: Option<Seq<char>>,
) -> Seq<char> {
    match context {
        Some(c) => op.text() + " "@ + what + "; "@ + c,
        None => op.text() + " "@ + what,
    }
}

fn write_call_detail(
    op: ClickHouseOperationKind,
    what: &str,
    context: Option<&str>,
) -> (r: String)
    ensures
        r@ == call_detail(
            op,
            what@,
            match context {
                Some(c) => Some(c@),
                None => None,
            },
        ),
{
    match context {
        Some(c) => cat5(op.as_str(), " ", what, "; ", c),
        None => cat3(op.as_str(), " ", what),
    }
}

/// The error of a call whose deadline passed, by how the deadline reads.
pub open spec fn timed_out_error(
    op: ClickHouseOperationKind,
    after: Seq<char>,
    context: Option<Seq<char>>,
) -> ErrorModel {
    error_of(
        ErrorKind::DestinationTimeout,
        "ClickHouse call timed out"@,
        call_detail(op, "timed out after "@ + after, context),
    )
}

/// Makes the error of a call whose deadline passed from how the deadline reads.
pub fn timed_out(
    op: ClickHouseOperationKind,
    after: &str,
    context: Option<&str>,
) -> (r: EtlError)
    ensures
        r@ == timed_out_error(
            op,
            after@,
            match context {
                Some(c) => Some(c@),
                None => None,
            },
        ),
{
    let what = cat2("timed out after ", after);
    EtlError::new(
        ErrorKind::DestinationTimeout,
        "ClickHouse call timed out",
        write_call_detail(op, what.as_str(), context),
    )
}

/// Turns the end of a call into its result.
pub fn timeout_call<T>(
    op: ClickHouseOperationKind,
    config: &ClickHouseClientConfig,
    context: Option<&str>,
    outcome: CallOutcome<T>,
) -> (r: EtlResult<T>)
    requires
        config.client_timeout(op) <= MAX_NANOS,
    ensures
        ({
            let c = match context {
                Some(c) => Some(c@),
                None => None,
            };
            match outcome {
                CallOutcome::Value(v) => r == Ok::<T, EtlError>(v),
                CallOutcome::Refused(text) => r matches Err(e) && e@ == (ErrorModel {
                    source: Some(text@),
                    ..error_of(
                        op.failure(),
                        "ClickHouse call failed"@,
                        call_detail(op, "failed"@, c),
                    )
                }),
                CallOutcome::TimedOut => r matches Err(e) && e@ == timed_out_error(
                    op,
                    (Duration { nanos: config.client_timeout(op) as u128 }).text(),
                    c,
                ),
            }
        }),
{
    match outcome {
        CallOutcome::Value(v) => Ok(v),
        CallOutcome::Refused(text) => {
            let error = EtlError::new(
                op.failed_kind(),
                "ClickHouse call failed",
                write_call_detail(op, "failed", context),
            );
            Err(error.with_source(text))
        },
        CallOutcome::TimedOut => {
            let after = config.client_timeout_for(op).to_text();
            Err(timed_out(op, after.as_str(), context))
        },
    }
}

/// The leading two numbers of a version text, if it has them.
pub open spec fn version_numbers(raw: Seq<char>) -> Option<(int, int)> {
    let parts = split(raw, '.');
    if parts.len() < 2 {
        None
    } else {
        match (
            parse_unsigned(parts[0], 10, u32::MAX as int),
            parse_unsigned(parts[1], 10, u32::MAX as int),
        ) {
            (Ok(major), Ok(minor)) => Some((major, minor)),
            _ => None,
        }
    }
}

/// Parses an unsigned 32-bit number.
fn parse_u32(s: &str) -> (r: Option<u32>)
    ensures
        match parse_unsigned(s@, 10, u32::MAX as int) {
            Ok(v) => r == Some(v as u32) && 0 <= v <= u32::MAX,
            Err(_) => r is None,
        },
{
    proof {
        lemma_narrower_parse(s@);
    }
    match parse_u64(s, 10) {
        Ok(v) => if v <= 0xffff_ffff {
            Some(v as u32)
        } else {
            None
        },
        Err(_) => None,
    }
}

proof fn lemma_narrower_digits(s: Seq<char>)
    ensures
        ({
            let narrow = crate::text::parse_digits(s, 10, u32::MAX as int);
            let wide = crate::text::parse_digits(s, 10, u64::MAX as int);
            &&& narrow matches Ok(v) ==> wide == narrow && 0 <= v <= u32::MAX
            &&& narrow is Err && wide is Ok ==> wide->Ok_0 > u32::MAX
            &&& wide matches Ok(v) ==> v >= 0
        }),
    decreases s.len(),
{
    if s.len() > 0 {
        lemma_narrower_digits(s.drop_last());
    }
}

proof fn lemma_narrower_parse(s: Seq<char>)
    ensures
        ({
            let narrow = parse_unsigned(s, 10, u32::MAX as int);
            let wide = parse_unsigned(s, 10, u64::MAX as int);
            &&& narrow matches Ok(v) ==> wide == narrow && 0 <= v <= u32::MAX
            &&& narrow is Err && wide is Ok ==> wide->Ok_0 > u32::MAX
        }),
{
    lemma_narrower_digits(s);
    if s.len() > 0 {
        lemma_narrower_digits(s.skip(1));
    }
}

/// Reads the server's version; what follows the first two numbers does not matter.
pub fn server_version(raw: &str) -> (r: EtlResult<(u32, u32)>)
    ensures
        match version_numbers(raw@) {
            Some(v) => r matches Ok(w) && w.0 == v.0 && w.1 == v.1,
            None => r matches Err(e) && e@ == error_of(
                ErrorKind::Unknown,
                "Unable to parse ClickHouse server version"@,
                "server returned '"@ + raw@ + "'"@,
            ),
        },
{
    let parts = split_at_char(raw, '.');
    proof {
        assert(views(parts@).len() == parts@.len());
        if parts@.len() >= 2 {
            assert(views(parts@)[0] == parts@[0]@);
            assert(views(parts@)[1] == parts@[1]@);
        }
    }
    if parts.len() >= 2 {
        let major = parse_u32(parts[0].as_str());
        let minor = parse_u32(parts[1].as_str());
        if let (Some(major), Some(minor)) = (major, minor) {
            return Ok((major, minor));
        }
    }
    Err(
        EtlError::new(
            ErrorKind::Unknown,
            "Unable to parse ClickHouse server version",
            cat3("server returned '", raw, "'"),
        ),
    )
}

/// Reads the server's answer to the question for its version.
pub fn queried_version(answer: Result<String, String>) -> (r: EtlResult<(u32, u32)>)
    ensures
        match answer {
            Ok(raw) => match version_numbers(raw@) {
                Some(v) => r matches Ok(w) && w.0 == v.0 && w.1 == v.1,
                None => r matches Err(e) && e@ == error_of(
                    ErrorKind::Unknown,
                    "Unable to parse ClickHouse server version"@,
                    "server returned '"@ + raw@ + "'"@,
                ),
            },
            Err(reason) => r matches Err(e) && e@ == (ErrorModel {
                kind: ErrorKind::Unknown,
                description: "ClickHouse version query failed"@,
                detail: None,
                source: Some(reason@),
            }),
        },
{
    match answer {
        Ok(raw) => server_version(raw.as_str()),
        Err(reason) => Err(
            EtlError::plain(ErrorKind::Unknown, "ClickHouse version query failed").with_source(
                reason,
            ),
        ),
    }
}

/// Reads the server's answer to the question for a table's engine: the engine, or nothing if there
/// is no such table.
pub fn table_engine(table_name: &str, answer: Result<Vec<String>, String>) -> (r: EtlResult<
    Option<String>,
>)
    ensures
        match answer {
            Ok(rows) => r == Ok::<Option<String>, EtlError>(
                if rows@.len() > 0 {
                    Some(rows@[0])
                } else {
                    None
                },
            ),
            Err(reason) => r matches Err(e) && e@ == (ErrorModel {
                source: Some(reason@),
                ..error_of(
                    ErrorKind::Unknown,
                    "ClickHouse engine lookup failed"@,
                    "table: "@ + table_name@,
                )
            }),
        },
{
    match answer {
        Ok(rows) => {
            let mut rows = rows;
            if rows.len() > 0 {
                Ok(Some(rows.swap_remove(0)))
            } else {
                Ok(None)
            }
        },
        Err(reason) => Err(
            EtlError::new(
                ErrorKind::Unknown,
                "ClickHouse engine lookup failed",
                cat2("table: ", table_name),
            ).with_source(reason),
        ),
    }
}

/// Whether version `a` is older than version `b`.
pub open spec fn older(a: (u32, u32), b: (u32, u32)) -> bool {
    a.0 < b.0 || (a.0 == b.0 && a.1 < b.1)
}

/// The server is too old for the engine.
pub open spec fn version_error(
    engine: ClickHouseEngine,
    server: (u32, u32),
    min: (u32, u32),
) -> ErrorModel {
    error_of(
        ErrorKind::ConfigError,
        "ClickHouse server version is too old for the configured engine"@,
        "Detected ClickHouse "@ + decimal(server.0 as nat) + "."@ + decimal(server.1 as nat)
            + "; engine `"@ + engine.text() + "` requires "@ + (decimal(min.0 as nat) + "."@
            + decimal(min.1 as nat)
            + " or newer. Upgrade ClickHouse or set `engine: merge_tree`."@),
    )
}

/// Checks that the server is new enough for the engine.
pub fn ensure_engine_supported(
    engine: ClickHouseEngine,
    server_version: (u32, u32),
) -> (r: EtlResult<()>)
    ensures
        match engine.minimum() {
            Some(min) => if older(server_version, min) {
                r matches Err(e) && e@ == version_error(engine, server_version, min)
            } else {
                r is Ok
            },
            None => r is Ok,
        },
{
    if let Some(min) = engine.min_server_version() {
        if server_version.0 < min.0 || (server_version.0 == min.0 && server_version.1 < min.1) {
            let major = decimal_of(server_version.0 as u128);
            let minor = decimal_of(server_version.1 as u128);
            let min_major = decimal_of(min.0 as u128);
            let min_minor = decimal_of(min.1 as u128);
            let tail = cat4(
                min_major.as_str(),
                ".",
                min_minor.as_str(),
                " or newer. Upgrade ClickHouse or set `engine: merge_tree`.",
            );
            let mut detail = cat7(
                "Detected ClickHouse ",
                major.as_str(),
                ".",
                minor.as_str(),
                "; engine `",
                engine.as_clickhouse_str(),
                "` requires ",
            );
            detail.append(tail.as_str());
            return Err(
                EtlError::new(
                    ErrorKind::ConfigError,
                    "ClickHouse server version is too old for the configured engine",
                    detail,
                ),
            );
        }
    }
    Ok(())
}

/// Bytes of rows together.
pub open spec fn total_size(sizes: Seq<u64>) -> nat
    decreases sizes.len(),
{
    if sizes.len() == 0 {
        0
    } else {
        total_size(sizes.drop_last()) + sizes.last() as nat
    }
}

/// A number of bytes as it is counted: more than can be told apart count as the largest number.
pub open spec fn counted(bytes: nat) -> u64 {
    if bytes <= u64::MAX {
        bytes as u64
    } else {
        u64::MAX
    }
}

/// How far an insert statement is filled.
#[derive(Clone, Copy, Debug, PartialEq, Eq)]
pub struct InsertFill {
    /// Bytes of the rows that it holds.
    pub bytes: u64,
}

impl InsertFill {
    /// Begins a statement without rows.
    pub fn new() -> (r: Self)
        ensures
            r.bytes == 0,
    {
        InsertFill { bytes: 0 }
    }

    /// Returns whether the statement takes another row: it does while it is below the limit.
    pub fn takes_row(&self, max_bytes: u64) -> (r: bool)
        ensures
            r == (self.bytes < max_bytes),
    {
        self.bytes < max_bytes
    }

    /// Takes up that a row of so many bytes was written.
    pub fn add_row(&mut self, size: u64)
        ensures
            final(self).bytes == counted((old(self).bytes + size) as nat),
    {
        self.bytes = if self.bytes <= u64::MAX - size {
            self.bytes + size
        } else {
            u64::MAX
        };
    }
}

/// How far a statement is filled by rows of these sizes, written one after another.
pub open spec fn filled(sizes: Seq<u64>) -> u64
    decreases sizes.len(),
{
    if sizes.len() == 0 {
        0
    } else {
        counted((filled(sizes.drop_last()) + sizes.last()) as nat)
    }
}

/// A statement takes another row exactly while its rows together are below the limit, however many
/// bytes they have.
pub proof fn law_statement_takes_rows_below_the_limit(sizes: Seq<u64>, max_bytes: u64)
    ensures
        filled(sizes) == counted(total_size(sizes)),
        filled(sizes) < max_bytes <==> total_size(sizes) < max_bytes,
    decreases sizes.len(),
{
    if sizes.len() > 0 {
        law_statement_takes_rows_below_the_limit(sizes.drop_last(), max_bytes);
    }
}

/// The engines by their names; only ReplacingMergeTree asks for a server of version 23.5 or later.
pub proof fn law_engines_have_these_needs()
    ensures
        ClickHouseEngine::MergeTree.text() == "MergeTree"@,
        ClickHouseEngine::ReplacingMergeTree.text() == "ReplacingMergeTree"@,
        ClickHouseEngine::MergeTree.minimum() is None,
        ClickHouseEngine::ReplacingMergeTree.minimum() == Some((23u32, 5u32)),
{
}

/// A server is older than another if and only if its major version is lower, or it has the same major
/// version and a lower minor one; versions are ordered.
pub proof fn law_versions_are_ordered(a: (u32, u32), b: (u32, u32), c: (u32, u32))
    ensures
        !older(a, a),
        a == b || older(a, b) || older(b, a),
        older(a, b) ==> !older(b, a),
        older(a, b) && older(b, c) ==> older(a, c),
        a.0 < b.0 ==> older(a, b),
        a.0 == b.0 && a.1 < b.1 ==> older(a, b),
{
}

/// A server takes an engine if and only if it is not older than the engine's minimum.
pub proof fn law_only_old_servers_are_refused(
    engine: ClickHouseEngine,
    version: (u32, u32),
    r: EtlResult<()>,
)
    requires
        call_ensures(ensure_engine_supported, (engine, version), r),
    ensures
        engine == ClickHouseEngine::MergeTree ==> r is Ok,
        engine == ClickHouseEngine::ReplacingMergeTree ==> (r is Err <==> version.0 < 23 || (
        version.0 == 23 && version.1 < 5)),
        r matches Err(e) ==> e@.kind == ErrorKind::ConfigError,
{
}

/// The server's version is read from the first two numbers, whatever follows them.
pub proof fn law_versions_are_read(major: u32, minor: u32, tail: Seq<char>)
    ensures
        version_numbers(decimal(major as nat).push('.') + decimal(minor as nat)) == Some(
            (major as int, minor as int),
        ),
        version_numbers(
            decimal(major as nat).push('.') + (decimal(minor as nat).push('.') + tail),
        ) == Some((major as int, minor as int)),
        !tail.contains('.') ==> version_numbers(tail) is None,
{
    let (a, b) = (decimal(major as nat), decimal(minor as nat));
    law_decimal_reads_back(major as nat, u32::MAX as int);
    law_decimal_reads_back(minor as nat, u32::MAX as int);
    assert(!a.contains('.'));
    assert(!b.contains('.'));
    law_plain_text_is_one_piece(a, '.');
    law_plain_text_is_one_piece(b, '.');
    law_separator_ends_a_piece(a, b, '.');
    law_separator_ends_a_piece(b, tail, '.');
    law_separator_ends_a_piece(a, b.push('.') + tail, '.');
    let short = split(a.push('.') + b, '.');
    assert(short[0] == a && short[1] == b);
    let long = split(a.push('.') + (b.push('.') + tail), '.');
    lemma_split_nonempty(tail, '.');
    assert(long[0] == a && long[1] == b);
    if !tail.contains('.') {
        law_plain_text_is_one_piece(tail, '.');
    }
}

/// Each kind of call has its own budget, and each failure its own kind and name. Only a failed insert
/// is tried again as a whole.
pub proof fn law_calls_have_their_own_budgets(config: ClickHouseClientConfig)
    ensures
        config.server_timeout(ClickHouseOperationKind::ConnectivityCheck)
            == config.connectivity_check_timeout,
        config.server_timeout(ClickHouseOperationKind::SchemaQuery) == config.schema_query_timeout,
        config.server_timeout(ClickHouseOperationKind::Ddl) == config.ddl_timeout,
        config.server_timeout(ClickHouseOperationKind::Insert) == config.insert_timeout,
        forall|op: ClickHouseOperationKind|
            #[trigger] config.client_timeout(op) - config.server_timeout(op).nanos
                == config.client_timeout_epsilon.nanos,
        ClickHouseOperationKind::ConnectivityCheck.failure()
            == ErrorKind::DestinationConnectionFailed,
        ClickHouseOperationKind::SchemaQuery.failure() == ErrorKind::DestinationQueryFailed,
        ClickHouseOperationKind::Ddl.failure() == ErrorKind::DestinationQueryFailed,
        ClickHouseOperationKind::Insert.failure() == ErrorKind::DestinationAtomicBatchRetryable,
        ClickHouseOperationKind::ConnectivityCheck.text() == "connectivity check"@,
        ClickHouseOperationKind::SchemaQuery.text() == "schema query"@,
        ClickHouseOperationKind::Ddl.text() == "DDL"@,
        ClickHouseOperationKind::Insert.text() == "insert"@,
{
}

/// A budget is given to the server in whole seconds, rounded down, but never as less than one second.
pub proof fn law_budgets_are_whole_seconds(d: Duration)
    ensures
        ({
            let secs = positional(floored(d), 10);
            &&& secs >= 1
            &&& d.nanos >= 1_000_000_000 ==> secs * 1_000_000_000 <= d.nanos < (secs + 1)
                * 1_000_000_000
            &&& d.nanos < 1_000_000_000 ==> secs == 1
        }),
{
    law_decimal_stands_for_its_number(
        if d.nanos < NANOS_PER_SEC {
            1
        } else {
            (d.nanos / NANOS_PER_SEC) as nat
        },
    );
}

/// Queries and definitions are bounded by the server itself; only definitions wait for locks, and no
/// longer than they may run. Inserts carry no such setting.
pub proof fn law_calls_carry_their_budgets(config: ClickHouseClientConfig)
    ensures
        config.call_settings(ClickHouseOperationKind::ConnectivityCheck) == seq![
            ("max_execution_time"@, floored(config.connectivity_check_timeout)),
        ],
        config.call_settings(ClickHouseOperationKind::SchemaQuery) == seq![
            ("max_execution_time"@, floored(config.schema_query_timeout)),
        ],
        config.call_settings(ClickHouseOperationKind::Ddl) == seq![
            ("max_execution_time"@, floored(config.ddl_timeout)),
            ("lock_acquire_timeout"@, floored(config.ddl_timeout)),
        ],
        config.call_settings(ClickHouseOperationKind::Insert).len() == 0,
{
}

/// A connection is opened within the budget of the connectivity check, and sends and receives within
/// that of an insert.
pub proof fn law_connections_carry_their_budgets(
    config: &ClickHouseClientConfig,
    options: Vec<ClickHouseOption>,
)
    requires
        call_ensures(ClickHouseClientConfig::connection_options, (config,), options),
    ensures
        option_views(options@) == seq![
            ("connect_timeout"@, floored(config.connectivity_check_timeout)),
            ("http_connection_timeout"@, floored(config.connectivity_check_timeout)),
            ("http_send_timeout"@, floored(config.insert_timeout)),
            ("http_receive_timeout"@, floored(config.insert_timeout)),
        ],
{
}

/// The total size of rows is the sum of their sizes, and a counter that cannot hold it stays at its
/// largest value.
pub proof fn law_sizes_are_summed(sizes: Seq<u64>, size: u64)
    ensures
        total_size(Seq::empty()) == 0,
        total_size(sizes.push(size)) == total_size(sizes) + size,
        total_size(sizes) <= u64::MAX ==> counted(total_size(sizes)) == total_size(sizes),
        total_size(sizes) > u64::MAX ==> counted(total_size(sizes)) == 0xffff_ffff_ffff_ffff,
{
    assert(sizes.push(size).drop_last() =~= sizes);
}

/// A statement takes another row if and only if it is below the limit.
pub proof fn law_statement_is_closed_at_the_limit(fill: &InsertFill, max_bytes: u64, takes: bool)
    requires
        call_ensures(InsertFill::takes_row, (fill, max_bytes), takes),
    ensures
        takes <==> fill.bytes < max_bytes,
{
}

/// What is said of a failed call names the kind of call first.
pub proof fn law_failures_name_the_call(
    op: ClickHouseOperationKind,
    after: Seq<char>,
    context: Seq<char>,
)
    ensures
        timed_out_error(op, after, None).kind == ErrorKind::DestinationTimeout,
        timed_out_error(op, after, None).detail == Some(
            op.text() + " "@ + ("timed out after "@ + after),
        ),
        timed_out_error(op, after, Some(context)).detail == Some(
            op.text() + " "@ + ("timed out after "@ + after) + "; "@ + context,
        ),
{
}

/// A server that was not asked otherwise has eight seconds for a connection, sixteen for a schema, 128
/// for a change and 256 for an insert, and the client waits four seconds more.
pub proof fn law_default_budgets(r: ClickHouseClientConfig)
    requires
        call_ensures(<ClickHouseClientConfig as Default>::default, (), r),
    ensures
        r.connectivity_check_timeout.nanos == 8_000_000_000,
        r.schema_query_timeout.nanos == 16_000_000_000,
        r.ddl_timeout.nanos == 128_000_000_000,
        r.insert_timeout.nanos == 256_000_000_000,
        r.client_timeout_epsilon.nanos == 4_000_000_000,
{
}

/// A table's engine is the first that the server lists; a table that it does not list has none.
pub proof fn law_first_listed_engine_is_the_tables(
    table: &str,
    rows: Vec<String>,
    reason: String,
    found: EtlResult<Option<String>>,
    failed: EtlResult<Option<String>>,
)
    requires
        call_ensures(table_engine, (table, Ok(rows)), found),
        call_ensures(table_engine, (table, Err(reason)), failed),
    ensures
        rows@.len() == 0 ==> found == Ok::<Option<String>, EtlError>(None),
        rows@.len() > 0 ==> found == Ok::<Option<String>, EtlError>(Some(rows@[0])),
        failed matches Err(e) && e@.source == Some(reason@) && e@.detail == Some(
            "table: "@ + table@,
        ) && e@.kind == ErrorKind::Unknown,
{
}

/// A call that was answered gives its value; a refused or late one fails with the kind of the call.
pub proof fn law_calls_give_their_value<T>(
    op: ClickHouseOperationKind,
    config: &ClickHouseClientConfig,
    context: Option<&str>,
    outcome: CallOutcome<T>,
    r: EtlResult<T>,
)
    requires
        call_ensures(timeout_call::<T>, (op, config, context, outcome), r),
    ensures
        outcome is Value <==> r is Ok,
        outcome matches CallOutcome::Value(v) ==> r->Ok_0 == v,
        outcome matches CallOutcome::Refused(text) ==> (r matches Err(e) && e@.kind == op.failure()
            && e@.source == Some(text@)),
        outcome is TimedOut ==> (r matches Err(e) && e@.source is None),
{
}

/// A server's version is read from its answer; an answer that has none is refused, and so is no answer.
pub proof fn law_versions_are_asked_for(
    raw: String,
    reason: String,
    answered: EtlResult<(u32, u32)>,
    failed: EtlResult<(u32, u32)>,
)
    requires
        call_ensures(queried_version, (Ok(raw),), answered),
        call_ensures(queried_version, (Err(reason),), failed),
    ensures
        answered is Ok <==> version_numbers(raw@) is Some,
        answered matches Ok(v) ==> v.0 == version_numbers(raw@)->Some_0.0 && v.1
            == version_numbers(raw@)->Some_0.1,
        failed matches Err(e) && e@.source == Some(reason@),
{
}

/// A server that is too old is an error of the configuration that names both versions.
pub proof fn law_old_servers_are_described(
    engine: ClickHouseEngine,
    server: (u32, u32),
    min: (u32, u32),
)
    ensures
        version_error(engine, server, min).kind == ErrorKind::ConfigError,
        version_error(engine, server, min).description
            == "ClickHouse server version is too old for the configured engine"@,
        version_error(engine, server, min).detail == Some(
            "Detected ClickHouse "@ + decimal(server.0 as nat) + "."@ + decimal(server.1 as nat)
                + "; engine `"@ + engine.text() + "` requires "@ + (decimal(min.0 as nat) + "."@
                + decimal(min.1 as nat)
                + " or newer. Upgrade ClickHouse or set `engine: merge_tree`."@),
        ),
        version_error(engine, server, min).source is None,
{
}

} // verus!
