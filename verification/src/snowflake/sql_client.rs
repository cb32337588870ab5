//! Statements for the SQL interface, and what its answers mean.
use vstd::prelude::*;

use crate::snowflake::config::Config;
use crate::snowflake::error::{server_error, Error, HttpStatus, SnowflakeResult};
use crate::snowflake::schema::{quote_identifier, quoted};
use crate::text::{cat2, cat3, cat4, cat5, cat6, chars_of};
use crate::time::Duration;

verus! {

/// How often a failed request is made again.
pub const SQL_MAX_RETRIES: u32 = 3;

/// Delay before a request is made again for the first time, in milliseconds.
pub const SQL_INITIAL_DELAY_MILLIS: u64 = 500;

/// Longest delay before a request is made again, in milliseconds.
pub const SQL_MAX_DELAY_MILLIS: u64 = 10_000;

/// Starting delay between polls when waiting for an async statement (HTTP 202), in milliseconds.
pub const POLL_INITIAL_DELAY_MILLIS: u64 = 100;

/// Upper bound on exponential backoff between poll requests, in milliseconds.
pub const POLL_MAX_DELAY_MILLIS: u64 = 5_000;

/// Hard deadline for async statement completion before returning a timeout
/// error, in seconds.
pub const POLL_TIMEOUT_SECS: u64 = 30;

/// Sent with every request to the Snowflake SQL REST API.
pub const USER_AGENT: &'static str = "supabase-etl/0.1.0";

/// Snowflake SQL REST API response body.
#[derive(Debug)]
pub struct StatementResponse {
    /// Handle of the statement.
    pub statement_handle: Option<String>,
    /// What the server says of the statement.
    pub message: Option<String>,
    /// Result rows, each value by its JSON text.
    pub data: Option<Vec<Vec<String>>>,
}

/// Body of a request that runs a statement.
#[derive(Debug)]
pub struct StatementRequest {
    /// The statement.
    pub statement: String,
    /// Database to run it in.
    pub database: String,
    /// Schema to run it in.
    pub schema: String,
    /// Role to run it as, or the user's default role.
    pub role: Option<String>,
}

/// Builds statements for the configured database and schema.
#[derive(Debug)]
pub struct SqlClient {
    /// Connection parameters.
    pub config: Config,
}

/// A `LIKE` pattern that stands for exactly one name.
pub open spec fn like_escaped(name: Seq<char>) -> Seq<char>
    decreases name.len(),
{
    if name.len() == 0 {
        Seq::empty()
    } else {
        like_escaped(name.drop_last()) + match name.last() {
            '\\' => seq!['\\', '\\'],
            '\'' => seq!['\'', '\''],
            '_' => seq!['\\', '_'],
            '%' => seq!['\\', '%'],
            c => seq![c],
        }
    }
}

/// Returns a `LIKE` pattern that stands for exactly one name.
pub fn like_pattern(name: &str) -> (r: String)
    ensures
        r@ == like_escaped(name@),
{
    let chars = chars_of(name);
    let n: usize = chars.len();
    let mut out = String::new();
    let mut i: usize = 0;
    while i < n
        invariant
            i <= n,
            n == chars@.len(),
            out@ == like_escaped(chars@.take(i as int)),
        decreases n - i,
    {
        let c = chars[i];
        let ghost before = out@;
        if c == '\\' || c == '_' || c == '%' {
            out.push('\\');
        } else if c == '\'' {
            out.push('\'');
        }
        out.push(c);
        i = i + 1;
        proof {
            let now = chars@.take(i as int);
            assert(now.drop_last() =~= chars@.take(i - 1));
            assert(now.last() == c);
            assert(out@ =~= like_escaped(now));
        }
    }
    proof {
        assert(chars@.take(n as int) =~= name@);
    }
    out
}

/// What a pattern stands for: a mark is dropped, what it marks is kept.
pub open spec fn like_unescaped(pattern: Seq<char>) -> Seq<char>
    decreases pattern.len(),
{
    if pattern.len() == 0 {
        Seq::empty()
    } else if pattern.len() >= 2 && (pattern[0] == '\\' || pattern[0] == '\'') {
        seq![pattern[1]] + like_unescaped(pattern.skip(2))
    } else {
        seq![pattern[0]] + like_unescaped(pattern.skip(1))
    }
}

/// Whether a pattern has a wildcard: `_` or `%` without a mark before it.
pub open spec fn has_wildcard(pattern: Seq<char>) -> bool
    decreases pattern.len(),
{
    if pattern.len() == 0 {
        false
    } else if pattern.len() >= 2 && (pattern[0] == '\\' || pattern[0] == '\'') {
        has_wildcard(pattern.skip(2))
    } else {
        pattern[0] == '_' || pattern[0] == '%' || has_wildcard(pattern.skip(1))
    }
}

proof fn lemma_like_front(name: Seq<char>)
    requires
        name.len() > 0,
    ensures
        like_escaped(name) == like_escaped(name.take(1)) + like_escaped(name.skip(1)),
    decreases name.len(),
{
    if name.len() == 1 {
        assert(name.take(1) =~= name);
        assert(name.skip(1) =~= Seq::<char>::empty());
        assert(like_escaped(name) =~= like_escaped(name.take(1)) + like_escaped(name.skip(1)));
    } else {
        lemma_like_front(name.drop_last());
        assert(name.drop_last().take(1) =~= name.take(1));
        assert(name.drop_last().skip(1) =~= name.skip(1).drop_last());
        assert(name.skip(1).last() == name.last());
        assert(like_escaped(name) =~= like_escaped(name.take(1)) + like_escaped(name.skip(1)));
    }
}

/// A pattern has no wildcard and stands for the name that it was made of.
pub proof fn law_like_pattern_is_literal(name: Seq<char>)
    ensures
        !has_wildcard(like_escaped(name)),
        like_unescaped(like_escaped(name)) == name,
    decreases name.len(),
{
    if name.len() > 0 {
        lemma_like_front(name);
        law_like_pattern_is_literal(name.skip(1));
        reveal_with_fuel(like_escaped, 2);
        let one = name.take(1);
        let rest = like_escaped(name.skip(1));
        assert(one.drop_last() =~= Seq::<char>::empty());
        assert(one.last() == name[0]);
        let first = like_escaped(one);
        let all = first + rest;
        if first.len() == 2 {
            assert(all.skip(2) =~= rest);
            assert(all[0] == first[0] && all[1] == first[1]);
        } else {
            assert(first =~= seq![name[0]]);
            assert(all.skip(1) =~= rest);
        }
        assert(like_unescaped(all) =~= seq![name[0]] + name.skip(1));
        assert(seq![name[0]] + name.skip(1) =~= name);
    } else {
        assert(like_unescaped(like_escaped(name)) =~= name);
    }
}

impl SqlClient {
    /// Creates a client for the configured database and schema.
    pub fn new(config: Config) -> (r: Self)
        ensures
            r.config == config,
    {
        SqlClient { config }
    }

    /// The full name of a table.
    pub open spec fn full_name(&self, name: Seq<char>) -> Seq<char> {
        quoted(self.config.database@) + "."@ + quoted(self.config.schema@) + "."@ + quoted(name)
    }

    /// Returns the full name of a table.
    pub fn fully_qualified_name(&self, name: &str) -> (r: String)
        ensures
            r@ == self.full_name(name@),
    {
        let database = quote_identifier(self.config.database());
        let schema = quote_identifier(self.config.schema());
        let table = quote_identifier(name);
        cat5(database.as_str(), ".", schema.as_str(), ".", table.as_str())
    }

    /// Create a table with the given columns, enabling schema evolution.
    pub fn create_table_if_not_exists(&self, table_name: &str, column_defs: &str) -> (r: String)
        ensures
            r@ == "CREATE TABLE IF NOT EXISTS "@ + self.full_name(table_name@) + " ("@
                + column_defs@ + ") ENABLE_SCHEMA_EVOLUTION = TRUE"@,
    {
        let fqn = self.fully_qualified_name(table_name);
        cat5(
            "CREATE TABLE IF NOT EXISTS ",
            fqn.as_str(),
            " (",
            column_defs,
            ") ENABLE_SCHEMA_EVOLUTION = TRUE",
        )
    }

    /// Remove all rows from a table without dropping it.
    pub fn truncate_table(&self, table_name: &str) -> (r: String)
        ensures
            r@ == "TRUNCATE TABLE "@ + self.full_name(table_name@),
    {
        let fqn = self.fully_qualified_name(table_name);
        cat2("TRUNCATE TABLE ", fqn.as_str())
    }

    /// Drop a table if it exists.
    pub fn drop_table(&self, table_name: &str) -> (r: String)
        ensures
            r@ == "DROP TABLE IF EXISTS "@ + self.full_name(table_name@),
    {
        let fqn = self.fully_qualified_name(table_name);
        cat2("DROP TABLE IF EXISTS ", fqn.as_str())
    }

    /// Asks for a table in the configured database and schema.
    pub fn show_table(&self, table_name: &str) -> (r: String)
        ensures
            r@ == "SHOW TABLES LIKE '"@ + like_escaped(table_name@) + "' IN SCHEMA "@ + quoted(
                self.config.database@,
            ) + "."@ + quoted(self.config.schema@),
    {
        let db = quote_identifier(self.config.database());
        let schema = quote_identifier(self.config.schema());
        let escaped = like_pattern(table_name);
        cat6(
            "SHOW TABLES LIKE '",
            escaped.as_str(),
            "' IN SCHEMA ",
            db.as_str(),
            ".",
            schema.as_str(),
        )
    }

    /// Whether the answer to [`SqlClient::show_table`] says that the table exists.
    pub fn table_exists(response: &StatementResponse) -> (r: bool)
        ensures
            r == (response.data matches Some(rows) && rows@.len() > 0),
    {
        match &response.data {
            Some(rows) => rows.len() > 0,
            None => false,
        }
    }

    /// The statement that adds a column.
    pub open spec fn add_column_text(
        &self,
        table_name: Seq<char>,
        column_name: Seq<char>,
        column_type: Seq<char>,
    ) -> Seq<char> {
        "ALTER TABLE "@ + self.full_name(table_name) + " ADD COLUMN "@ + quoted(column_name) + " "@
            + column_type
    }

    /// Add a nullable column to an existing table.
    pub fn add_column(&self, table_name: &str, column_name: &str, column_type: &str) -> (r: String)
        ensures
            r@ == self.add_column_text(table_name@, column_name@, column_type@),
    {
        let fqn = self.fully_qualified_name(table_name);
        let col = quote_identifier(column_name);
        cat6("ALTER TABLE ", fqn.as_str(), " ADD COLUMN ", col.as_str(), " ", column_type)
    }

    /// The statement that drops a column.
    pub open spec fn drop_column_text(
        &self,
        table_name: Seq<char>,
        column_name: Seq<char>,
    ) -> Seq<char> {
        "ALTER TABLE "@ + self.full_name(table_name) + " DROP COLUMN "@ + quoted(column_name)
    }

    /// Remove a column from an existing table.
    pub fn drop_column(&self, table_name: &str, column_name: &str) -> (r: String)
        ensures
            r@ == self.drop_column_text(table_name@, column_name@),
    {
        let fqn = self.fully_qualified_name(table_name);
        let col = quote_identifier(column_name);
        cat4("ALTER TABLE ", fqn.as_str(), " DROP COLUMN ", col.as_str())
    }

    /// The statement that renames a column.
    pub open spec fn rename_column_text(
        &self,
        table_name: Seq<char>,
        old_name: Seq<char>,
        new_name: Seq<char>,
    ) -> Seq<char> {
        "ALTER TABLE "@ + self.full_name(table_name) + " RENAME COLUMN "@ + quoted(old_name)
            + " TO "@ + quoted(new_name)
    }

    /// Rename a column in an existing table.
    pub fn rename_column(&self, table_name: &str, old_name: &str, new_name: &str) -> (r: String)
        ensures
            r@ == self.rename_column_text(table_name@, old_name@, new_name@),
    {
        let fqn = self.fully_qualified_name(table_name);
        let before = quote_identifier(old_name);
        let after = quote_identifier(new_name);
        cat6(
            "ALTER TABLE ",
            fqn.as_str(),
            " RENAME COLUMN ",
            before.as_str(),
            " TO ",
            after.as_str(),
        )
    }

    /// Returns the body of the request that runs a statement.
    pub fn statement_request(&self, sql: &str) -> (r: StatementRequest)
        ensures
            r.statement@ == sql@,
            r.database@ == self.config.database@,
            r.schema@ == self.config.schema@,
            match self.config.role {
                Some(role) => r.role matches Some(s) && s@ == role@,
                None => r.role is None,
            },
    {
        StatementRequest {
            statement: sql.to_owned(),
            database: self.config.database.clone(),
            schema: self.config.schema.clone(),
            role: match &self.config.role {
                Some(role) => Some(role.clone()),
                None => None,
            },
        }
    }

    /// Returns the address that statements are sent to.
    pub fn statements_url(&self) -> (r: String)
        ensures
            r@ == self.config.account_url@ + "/api/v2/statements"@,
    {
        cat2(self.config.account_url(), "/api/v2/statements")
    }

    /// Returns the address at which a statement is asked about.
    pub fn statement_url(&self, statement_handle: &str) -> (r: String)
        ensures
            r@ == self.config.account_url@ + "/api/v2/statements/"@ + statement_handle@,
    {
        cat3(self.config.account_url(), "/api/v2/statements/", statement_handle)
    }
}

/// What is to be done with an answer.
#[derive(Clone, Copy, Debug, PartialEq, Eq, Structural)]
pub enum ResponseAction {
    /// The body is the result.
    Return,
    /// The body names a statement to ask about.
    Poll,
    /// The body says why the statement failed.
    SqlError,
    /// The token is to be renewed, and the request made again.
    RenewToken,
    /// Ask again later.
    Wait,
    /// The request was refused.
    HttpError,
}

/// What an answer to a new statement means.
pub open spec fn statement_action(status: u16, retried_auth: bool) -> ResponseAction {
    if status == 200 {
        ResponseAction::Return
    } else if status == 202 {
        ResponseAction::Poll
    } else if status == 422 {
        ResponseAction::SqlError
    } else if status == 401 && !retried_auth {
        ResponseAction::RenewToken
    } else {
        ResponseAction::HttpError
    }
}

/// Says what an answer to a new statement means. A refused token is renewed once.
pub fn on_statement_response(status: HttpStatus, retried_auth: bool) -> (r: ResponseAction)
    ensures
        r == statement_action(status.number(), retried_auth),
{
    let code = status.as_u16();
    if code == 200 {
        ResponseAction::Return
    } else if code == 202 {
        ResponseAction::Poll
    } else if code == 422 {
        ResponseAction::SqlError
    } else if code == 401 && !retried_auth {
        ResponseAction::RenewToken
    } else {
        ResponseAction::HttpError
    }
}

/// What an answer to a question about a statement means.
pub open spec fn poll_action(status: u16) -> ResponseAction {
    if status == 200 {
        ResponseAction::Return
    } else if status == 202 || status == 429 {
        ResponseAction::Wait
    } else if status == 422 {
        ResponseAction::SqlError
    } else {
        ResponseAction::HttpError
    }
}

/// Says what an answer to a question about a statement means.
pub fn on_poll_response(status: HttpStatus) -> (r: ResponseAction)
    ensures
        r == poll_action(status.number()),
{
    let code = status.as_u16();
    if code == 200 {
        ResponseAction::Return
    } else if code == 202 || code == 429 {
        ResponseAction::Wait
    } else if code == 422 {
        ResponseAction::SqlError
    } else {
        ResponseAction::HttpError
    }
}

/// Returns the handle of a statement that goes on in the background.
pub fn accepted_handle(response: StatementResponse) -> (r: SnowflakeResult<String>)
    ensures
        match response.statement_handle {
            Some(handle) => r == Ok::<String, Error>(handle),
            None => r matches Err(Error::Sql { statement_handle, message }) && statement_handle
                is None && message@ == "received 202 without a statement handle"@,
        },
{
    match response.statement_handle {
        Some(handle) => Ok(handle),
        None => Err(
            Error::Sql {
                statement_handle: None,
                message: "received 202 without a statement handle".to_string(),
            },
        ),
    }
}

/// Makes the error of a statement that failed.
pub fn failed_statement(response: StatementResponse) -> (r: Error)
    ensures
        r matches Error::Sql { statement_handle, message } && statement_handle
            == response.statement_handle && message@ == match response.message {
            Some(m) => m@,
            None => Seq::empty(),
        },
{
    Error::Sql {
        statement_handle: response.statement_handle,
        message: match response.message {
            Some(m) => m,
            None => String::new(),
        },
    }
}

/// Makes the error of a request that was refused.
pub fn refused(status: HttpStatus, body: String) -> (r: Error)
    ensures
        r == (Error::HttpStatus { status, body }),
{
    Error::HttpStatus { status, body }
}

/// Where the questions about a statement stand.
#[derive(Debug)]
pub struct Poll {
    /// How long to wait before the next question.
    pub delay: Duration,
}

impl Poll {
    /// Begins to ask about a statement.
    pub fn new() -> (r: Self)
        ensures
            r.delay.nanos == POLL_INITIAL_DELAY_MILLIS * 1_000_000,
    {
        Poll { delay: Duration::from_millis(POLL_INITIAL_DELAY_MILLIS) }
    }

    /// Says how long to wait before the next question, given how long the questions have gone on.
    /// Each wait is twice as long as the one before, up to a limit, and the deadline ends them.
    pub fn next(&mut self, statement_handle: &str, elapsed: Duration) -> (r: SnowflakeResult<
        Duration,
    >)
        requires
            old(self).delay.nanos <= POLL_MAX_DELAY_MILLIS * 1_000_000,
        ensures
            final(self).delay.nanos <= POLL_MAX_DELAY_MILLIS * 1_000_000,
            if elapsed.nanos >= POLL_TIMEOUT_SECS * 1_000_000_000 {
                &&& r matches Err(Error::Sql { statement_handle: h, message }) && h matches Some(s)
                    && s@ == statement_handle@ && message@
                    == "statement did not complete within 30s"@
                &&& final(self).delay == old(self).delay
            } else {
                &&& r == Ok::<Duration, Error>(old(self).delay)
                &&& final(self).delay.nanos == if 2 * old(self).delay.nanos
                    <= POLL_MAX_DELAY_MILLIS * 1_000_000 {
                    2 * old(self).delay.nanos
                } else {
                    POLL_MAX_DELAY_MILLIS * 1_000_000
                }
            },
    {
        let limit = Duration::from_secs(POLL_TIMEOUT_SECS);
        if elapsed.nanos >= limit.nanos {
            return Err(
                Error::Sql {
                    statement_handle: Some(statement_handle.to_string()),
                    message: "statement did not complete within 30s".to_string(),
                },
            );
        }
        let delay = self.delay;
        let longest = Duration::from_millis(POLL_MAX_DELAY_MILLIS);
        self.delay = delay.doubled_up_to(&longest);
        Ok(delay)
    }
}

/// Whether a failed request is to be made again.
#[derive(Clone, Copy, Debug, PartialEq, Eq, Structural)]
pub enum RetryDecision {
    /// Make it again.
    Retry,
    /// Hand the error on.
    Stop,
}

/// Whether an error may pass by itself.
pub open spec fn transient(e: Error) -> bool {
    match e {
        Error::HttpTransport(_) => true,
        Error::HttpStatus { status, body: _ } => status.number() == 408 || status.number() == 429
            || server_error(status.number()),
        _ => false,
    }
}

/// Says whether a failed request is to be made again: transport errors, timeouts, throttling and
/// server errors may pass.
pub fn classify_for_retry(error: &Error) -> (r: RetryDecision)
    ensures
        r == if transient(*error) {
            RetryDecision::Retry
        } else {
            RetryDecision::Stop
        },
{
    match error {
        Error::HttpTransport(_) => RetryDecision::Retry,
        Error::HttpStatus { status, body: _ } => {
            let code = status.as_u16();
            if code == 408 || code == 429 || status.is_server_error() {
                RetryDecision::Retry
            } else {
                RetryDecision::Stop
            }
        },
        _ => RetryDecision::Stop,
    }
}

/// An answer to a request.
#[derive(Debug)]
pub struct StatementAnswer {
    /// Status of the answer.
    pub status: HttpStatus,
    /// The body, or why it cannot be read.
    pub parsed: Result<StatementResponse, String>,
    /// The body as text, empty if it cannot be read.
    pub text: String,
}

/// What happened to the last request.
#[derive(Debug)]
pub enum StatementEvent {
    /// No token could be had for it.
    NoToken(Error),
    /// It could not be made; what the transport says of it.
    NotAnswered(String),
    /// It was answered.
    Answered(StatementAnswer),
}

/// What is to be done next in an attempt to run a statement.
#[derive(Debug)]
pub enum AttemptStep {
    /// Forget the token and send the statement again with a new one.
    RenewToken,
    /// Ask about the statement after a delay.
    Ask { statement_handle: String, delay: Duration },
    /// The attempt succeeded.
    Done(StatementResponse),
    /// The attempt failed.
    Fail(Error),
}

/// What is to be done next to run a statement.
#[derive(Debug)]
pub enum StatementAction {
    /// Forget the token and send the statement again with a new one.
    RenewToken,
    /// Ask about the statement after a delay.
    Ask { statement_handle: String, delay: Duration },
    /// The statement is done.
    Done(StatementResponse),
    /// Send the statement again after a delay.
    Retry(Duration),
    /// The statement failed.
    Fail(Error),
}

/// Where the run of a statement stands.
#[derive(Debug)]
pub struct StatementRun {
    /// Whether the token was renewed in this attempt.
    pub retried_auth: bool,
    /// Handle of the statement, if it goes on in the background.
    pub asked: Option<String>,
    /// The questions about the statement.
    pub poll: Poll,
    /// How often the statement was sent again.
    pub retries: u32,
    /// Delay before it is sent again.
    pub delay: Duration,
}

/// What a body that should be the result comes to.
pub open spec fn gives_result(answer: StatementAnswer, step: AttemptStep) -> bool {
    match answer.parsed {
        Ok(response) => step == AttemptStep::Done(response),
        Err(reason) => step == AttemptStep::Fail(Error::HttpTransport(reason)),
    }
}

/// What a body that says why a statement failed comes to.
pub open spec fn gives_error(answer: StatementAnswer, step: AttemptStep) -> bool {
    match answer.parsed {
        Ok(response) => step matches AttemptStep::Fail(Error::Sql { statement_handle, message })
            && statement_handle == response.statement_handle && message@
            == match response.message {
            Some(m) => m@,
            None => Seq::empty(),
        },
        Err(reason) => step == AttemptStep::Fail(Error::HttpTransport(reason)),
    }
}

/// Whether a step asks about a statement after a delay.
pub open spec fn asks(step: AttemptStep, handle: Seq<char>, delay: int) -> bool {
    step matches AttemptStep::Ask { statement_handle, delay: d } && statement_handle@ == handle
        && d.nanos == delay
}

/// How an attempt goes on.
pub open spec fn attempted(
    run: StatementRun,
    event: StatementEvent,
    elapsed: Duration,
    after: StatementRun,
    step: AttemptStep,
) -> bool {
    match event {
        StatementEvent::NoToken(e) => step == AttemptStep::Fail(e),
        StatementEvent::NotAnswered(reason) => step == AttemptStep::Fail(
            Error::HttpTransport(reason),
        ),
        StatementEvent::Answered(answer) => match run.asked {
            None => match statement_action(answer.status.number(), run.retried_auth) {
                ResponseAction::Return => gives_result(answer, step),
                ResponseAction::Poll => match answer.parsed {
                    Err(reason) => step == AttemptStep::Fail(Error::HttpTransport(reason)),
                    Ok(response) => match response.statement_handle {
                        None => step matches AttemptStep::Fail(
                            Error::Sql { statement_handle, message },
                        ) && statement_handle is None && message@
                            == "received 202 without a statement handle"@,
                        Some(handle) => {
                            &&& asks(step, handle@, POLL_INITIAL_DELAY_MILLIS * 1_000_000)
                            &&& after.asked matches Some(h) && h@ == handle@
                            &&& after.poll.delay.nanos == 2 * POLL_INITIAL_DELAY_MILLIS * 1_000_000
                        },
                    },
                },
                ResponseAction::SqlError => gives_error(answer, step),
                ResponseAction::RenewToken => {
                    &&& step is RenewToken
                    &&& after.retried_auth
                    &&& after.asked is None
                },
                _ => step == AttemptStep::Fail(
                    Error::HttpStatus { status: answer.status, body: answer.text },
                ),
            },
            Some(handle) => match poll_action(answer.status.number()) {
                ResponseAction::Return => gives_result(answer, step),
                ResponseAction::Wait => if elapsed.nanos >= POLL_TIMEOUT_SECS * 1_000_000_000 {
                    step matches AttemptStep::Fail(Error::Sql { statement_handle, message })
                        && statement_handle matches Some(h) && h@ == handle@ && message@
                        == "statement did not complete within 30s"@
                } else {
                    &&& asks(step, handle@, run.poll.delay.nanos as int)
                    &&& after.asked matches Some(h) && h@ == handle@
                    &&& after.poll.delay.nanos == if 2 * run.poll.delay.nanos
                        <= POLL_MAX_DELAY_MILLIS * 1_000_000 {
                        2 * run.poll.delay.nanos
                    } else {
                        POLL_MAX_DELAY_MILLIS * 1_000_000
                    }
                },
                ResponseAction::SqlError => gives_error(answer, step),
                _ => step == AttemptStep::Fail(
                    Error::HttpStatus { status: answer.status, body: answer.text },
                ),
            },
        },
    }
}

impl StatementRun {
    /// Delays and retries are within their limits.
    pub open spec fn wf(&self) -> bool {
        &&& self.retries <= SQL_MAX_RETRIES
        &&& self.poll.delay.nanos <= POLL_MAX_DELAY_MILLIS * 1_000_000
        &&& self.delay.nanos <= SQL_MAX_DELAY_MILLIS * 1_000_000
    }

    /// Begins to run a statement, which is to be sent.
    pub fn new() -> (r: Self)
        ensures
            r.wf(),
            !r.retried_auth,
            r.asked is None,
            r.retries == 0,
            r.delay.nanos == SQL_INITIAL_DELAY_MILLIS * 1_000_000,
    {
        StatementRun {
            retried_auth: false,
            asked: None,
            poll: Poll::new(),
            retries: 0,
            delay: Duration::from_millis(SQL_INITIAL_DELAY_MILLIS),
        }
    }

    /// Goes on with an attempt after a request, given how long the statement has been asked
    /// about. A refused token is renewed once; a statement that goes on in the background is
    /// asked about until it is done or the deadline is past.
    pub fn attempt_statement(&mut self, event: StatementEvent, elapsed: Duration) -> (r:
        AttemptStep)
        requires
            old(self).wf(),
        ensures
            final(self).wf(),
            final(self).retries == old(self).retries,
            final(self).delay == old(self).delay,
            attempted(*old(self), event, elapsed, *final(self), r),
    {
        let answer = match event {
            StatementEvent::NoToken(e) => {
                return AttemptStep::Fail(e);
            },
            StatementEvent::NotAnswered(reason) => {
                return AttemptStep::Fail(Error::HttpTransport(reason));
            },
            StatementEvent::Answered(answer) => answer,
        };
        let action = match &self.asked {
            None => on_statement_response(answer.status, self.retried_auth),
            Some(_) => on_poll_response(answer.status),
        };
        match action {
            ResponseAction::RenewToken => {
                self.retried_auth = true;
                AttemptStep::RenewToken
            },
            ResponseAction::Wait => self.poll_until_complete(elapsed),
            ResponseAction::HttpError => AttemptStep::Fail(refused(answer.status, answer.text)),
            _ => match answer.parsed {
                Err(reason) => AttemptStep::Fail(Error::HttpTransport(reason)),
                Ok(response) => match action {
                    ResponseAction::Return => AttemptStep::Done(response),
                    ResponseAction::Poll => match accepted_handle(response) {
                        Ok(handle) => {
                            self.asked = Some(handle);
                            self.poll = Poll::new();
                            self.poll_until_complete(Duration::from_secs(0))
                        },
                        Err(e) => AttemptStep::Fail(e),
                    },
                    _ => AttemptStep::Fail(failed_statement(response)),
                },
            },
        }
    }

    /// Asks about the statement again, unless the deadline is past.
    fn poll_until_complete(&mut self, elapsed: Duration) -> (r: AttemptStep)
        requires
            old(self).wf(),
            old(self).asked is Some,
        ensures
            final(self).wf(),
            final(self).retried_auth == old(self).retried_auth,
            final(self).asked == old(self).asked,
            final(self).retries == old(self).retries,
            final(self).delay == old(self).delay,
            ({
                let handle = old(self).asked->Some_0@;
                if elapsed.nanos >= POLL_TIMEOUT_SECS * 1_000_000_000 {
                    r matches AttemptStep::Fail(Error::Sql { statement_handle, message })
                        && statement_handle matches Some(h) && h@ == handle && message@
                        == "statement did not complete within 30s"@
                } else {
                    &&& asks(r, handle, old(self).poll.delay.nanos as int)
                    &&& final(self).poll.delay.nanos == if 2 * old(self).poll.delay.nanos
                        <= POLL_MAX_DELAY_MILLIS * 1_000_000 {
                        2 * old(self).poll.delay.nanos
                    } else {
                        POLL_MAX_DELAY_MILLIS * 1_000_000
                    }
                }
            }),
    {
        let statement_handle = match &self.asked {
            Some(handle) => handle.clone(),
            None => String::new(),
        };
        match self.poll.next(statement_handle.as_str(), elapsed) {
            Ok(delay) => AttemptStep::Ask { statement_handle, delay },
            Err(e) => AttemptStep::Fail(e),
        }
    }

    /// Goes on after a request. An attempt that failed for a reason that may pass is made again,
    /// after a delay that doubles up to a limit, as often as the limit on retries allows.
    pub fn execute_statement(&mut self, event: StatementEvent, elapsed: Duration) -> (r:
        StatementAction)
        requires
            old(self).wf(),
        ensures
            final(self).wf(),
            r is RenewToken || r is Ask ==> final(self).retries == old(self).retries,
            r is RenewToken || r is Ask ==> final(self).delay == old(self).delay,
            exists|after: StatementRun, step: AttemptStep| #[trigger]
                attempted(*old(self), event, elapsed, after, step) && match step {
                    AttemptStep::RenewToken => r is RenewToken && *final(self) == after,
                    AttemptStep::Ask { statement_handle, delay } => *final(self) == after && r
                        == (StatementAction::Ask { statement_handle, delay }),
                    AttemptStep::Done(response) => r == StatementAction::Done(response),
                    AttemptStep::Fail(e) => if transient(e) && old(self).retries
                        < SQL_MAX_RETRIES {
                        &&& r == StatementAction::Retry(old(self).delay)
                        &&& final(self).retries == old(self).retries + 1
                        &&& !final(self).retried_auth
                        &&& final(self).asked is None
                        &&& final(self).delay.nanos == if 2 * old(self).delay.nanos
                            <= SQL_MAX_DELAY_MILLIS * 1_000_000 {
                            2 * old(self).delay.nanos
                        } else {
                            SQL_MAX_DELAY_MILLIS * 1_000_000
                        }
                    } else {
                        r == StatementAction::Fail(e)
                    },
                },
    {
        let step = self.attempt_statement(event, elapsed);
        let ghost after = *self;
        let ghost taken = step;
        proof {
            assert(attempted(*old(self), event, elapsed, after, taken));
        }
        match step {
            AttemptStep::RenewToken => StatementAction::RenewToken,
            AttemptStep::Ask { statement_handle, delay } => StatementAction::Ask {
                statement_handle,
                delay,
            },
            AttemptStep::Done(response) => StatementAction::Done(response),
            AttemptStep::Fail(e) => {
                if classify_for_retry(&e) == RetryDecision::Retry && self.retries
                    < SQL_MAX_RETRIES {
                    let delay = self.delay;
                    let longest = Duration::from_millis(SQL_MAX_DELAY_MILLIS);
                    self.retries = self.retries + 1;
                    self.retried_auth = false;
                    self.asked = None;
                    self.delay = delay.doubled_up_to(&longest);
                    StatementAction::Retry(delay)
                } else {
                    StatementAction::Fail(e)
                }
            },
        }
    }
}

/// A statement is done by the answer 200, asked about by 202, refused by 422, and sent again with a new
/// token by 401, but only once; every other answer is an error.
pub proof fn law_answers_to_statements(status: u16, retried: bool)
    ensures
        statement_action(200, retried) == ResponseAction::Return,
        statement_action(202, retried) == ResponseAction::Poll,
        statement_action(422, retried) == ResponseAction::SqlError,
        statement_action(401, false) == ResponseAction::RenewToken,
        statement_action(401, true) == ResponseAction::HttpError,
        status != 200 && status != 202 && status != 422 && status != 401 ==> statement_action(
            status,
            retried,
        ) == ResponseAction::HttpError,
{
}

/// A statement that is asked about is done by the answer 200, not yet done by 202 and 429, and refused by
/// 422; every other answer is an error.
pub proof fn law_answers_to_questions(status: u16)
    ensures
        poll_action(200) == ResponseAction::Return,
        poll_action(202) == ResponseAction::Wait,
        poll_action(429) == ResponseAction::Wait,
        poll_action(422) == ResponseAction::SqlError,
        status != 200 && status != 202 && status != 429 && status != 422 ==> poll_action(status)
            == ResponseAction::HttpError,
{
}

/// A call is tried again after a broken transport, a timeout of the server, too many requests and every
/// server error, and after nothing else.
pub proof fn law_only_passing_errors_are_tried_again(e: Error)
    ensures
        e is HttpTransport ==> transient(e),
        e matches Error::HttpStatus { status, body } ==> (transient(e) <==> status.number() == 408
            || status.number() == 429 || 500 <= status.number() <= 599),
        e is Auth || e is Sql || e is Snowpipe || e is Channel || e is Encoding || e is Config
            ==> !transient(e),
{
}

/// A table's full name is its database, schema and name, each quoted, with dots between them; the
/// statements are about that table.
pub proof fn law_statements_name_their_table(
    client: SqlClient,
    table: &str,
    defs: &str,
    create: String,
    truncate: String,
    drop_table: String,
    show: String,
)
    requires
        call_ensures(SqlClient::create_table_if_not_exists, (&client, table, defs), create),
        call_ensures(SqlClient::truncate_table, (&client, table), truncate),
        call_ensures(SqlClient::drop_table, (&client, table), drop_table),
        call_ensures(SqlClient::show_table, (&client, table), show),
    ensures
        ({
            let full = quoted(client.config.database@) + "."@ + quoted(client.config.schema@) + "."@
                + quoted(table@);
            &&& create@ == "CREATE TABLE IF NOT EXISTS "@ + full + " ("@ + defs@
                + ") ENABLE_SCHEMA_EVOLUTION = TRUE"@
            &&& truncate@ == "TRUNCATE TABLE "@ + full
            &&& drop_table@ == "DROP TABLE IF EXISTS "@ + full
            &&& show@ == "SHOW TABLES LIKE '"@ + like_escaped(table@) + "' IN SCHEMA "@ + quoted(
                client.config.database@,
            ) + "."@ + quoted(client.config.schema@)
        }),
{
}

/// A statement is sent with the configured database, schema and role, and asked about under its handle.
pub proof fn law_statements_are_sent_as_configured(
    client: SqlClient,
    sql: &str,
    handle: &str,
    request: StatementRequest,
    all: String,
    one: String,
)
    requires
        call_ensures(SqlClient::statement_request, (&client, sql), request),
        call_ensures(SqlClient::statements_url, (&client,), all),
        call_ensures(SqlClient::statement_url, (&client, handle), one),
    ensures
        request.statement@ == sql@,
        request.database@ == client.config.database@,
        request.schema@ == client.config.schema@,
        request.role is Some <==> client.config.role is Some,
        request.role is Some ==> request.role->Some_0@ == client.config.role->Some_0@,
        all@ == client.config.account_url@ + "/api/v2/statements"@,
        one@ == client.config.account_url@ + "/api/v2/statements/"@ + handle@,
{
}

/// A table exists if and only if the answer lists a row.
pub proof fn law_listed_tables_exist(response: &StatementResponse, r: bool)
    requires
        call_ensures(SqlClient::table_exists, (response,), r),
    ensures
        response.data is None ==> !r,
        response.data matches Some(rows) ==> (r <==> rows@.len() > 0),
{
}

/// Every character is written by itself, but for the backslash, the quotation mark and the two
/// wildcards, which are escaped.
pub proof fn law_patterns_are_escaped(name: Seq<char>, c: char)
    ensures
        like_escaped(Seq::empty()).len() == 0,
        like_escaped(name.push('\\')) == like_escaped(name) + seq!['\\', '\\'],
        like_escaped(name.push('\'')) == like_escaped(name) + seq!['\'', '\''],
        like_escaped(name.push('_')) == like_escaped(name) + seq!['\\', '_'],
        like_escaped(name.push('%')) == like_escaped(name) + seq!['\\', '%'],
        c != '\\' && c != '\'' && c != '_' && c != '%' ==> like_escaped(name.push(c))
            == like_escaped(name) + seq![c],
{
    assert(name.push('\\').drop_last() =~= name);
    assert(name.push('\'').drop_last() =~= name);
    assert(name.push('_').drop_last() =~= name);
    assert(name.push('%').drop_last() =~= name);
    assert(name.push(c).drop_last() =~= name);
}

/// A statement that is still running is asked about after 100 milliseconds, then after twice as long
/// each time but at most five seconds, until 30 seconds are over.
pub proof fn law_questions_come_slower_and_end(
    run: StatementRun,
    answer: StatementAnswer,
    elapsed: Duration,
    after: StatementRun,
    step: AttemptStep,
)
    requires
        attempted(run, StatementEvent::Answered(answer), elapsed, after, step),
        answer.status.number() == 202,
    ensures
        run.asked is Some && elapsed.nanos >= 30_000_000_000 ==> step is Fail,
        run.asked is Some && elapsed.nanos < 30_000_000_000 ==> (step matches AttemptStep::Ask {
            statement_handle,
            delay,
        } && statement_handle@ == run.asked->Some_0@ && delay.nanos == run.poll.delay.nanos),
        run.asked is Some && elapsed.nanos < 30_000_000_000 && run.poll.delay.nanos
            <= 2_500_000_000 ==> after.poll.delay.nanos == 2 * run.poll.delay.nanos,
        run.asked is Some && elapsed.nanos < 30_000_000_000 && run.poll.delay.nanos > 2_500_000_000
            ==> after.poll.delay.nanos == 5_000_000_000,
        run.asked is None && answer.parsed is Ok && answer.parsed->Ok_0.statement_handle is Some
            ==> (step matches AttemptStep::Ask { statement_handle, delay } && delay.nanos
            == 100_000_000 && statement_handle@ == answer.parsed->Ok_0.statement_handle->Some_0@
            && after.poll.delay.nanos == 200_000_000),
        run.asked is None && answer.parsed is Ok && answer.parsed->Ok_0.statement_handle is None
            ==> step is Fail,
{
}

/// A statement is tried again three times at most, first after half a second and at most after ten.
pub proof fn law_statements_are_tried_again_three_times(run: StatementRun)
    ensures
        run.wf() <==> run.retries <= 3 && run.poll.delay.nanos <= 5_000_000_000 && run.delay.nanos
            <= 10_000_000_000,
        SQL_MAX_RETRIES == 3,
        SQL_INITIAL_DELAY_MILLIS == 500,
        SQL_MAX_DELAY_MILLIS == 10_000,
{
}

/// Columns are added with their type, dropped and renamed by their quoted names.
pub proof fn law_statements_change_columns(
    client: SqlClient,
    table: Seq<char>,
    name: Seq<char>,
    other: Seq<char>,
)
    ensures
        client.add_column_text(table, name, other) == "ALTER TABLE "@ + client.full_name(table)
            + " ADD COLUMN "@ + quoted(name) + " "@ + other,
        client.drop_column_text(table, name) == "ALTER TABLE "@ + client.full_name(table)
            + " DROP COLUMN "@ + quoted(name),
        client.rename_column_text(table, name, other) == "ALTER TABLE "@ + client.full_name(table)
            + " RENAME COLUMN "@ + quoted(name) + " TO "@ + quoted(other),
{
}

/// An accepted statement is asked for by its handle; one without a handle fails. A refused one keeps
/// its status and its body.
pub proof fn law_accepted_and_refused_statements(
    response: StatementResponse,
    handle: SnowflakeResult<String>,
    status: HttpStatus,
    body: String,
    e: Error,
)
    requires
        call_ensures(accepted_handle, (response,), handle),
        call_ensures(refused, (status, body), e),
    ensures
        response.statement_handle matches Some(h) ==> handle == Ok::<String, Error>(h),
        response.statement_handle is None ==> handle is Err,
        e matches Error::HttpStatus { status: s, body: b } && s == status && b == body,
{
}

/// A result is handed on as it was read, an error with its handle and its message; what could not be
/// read is a failure of the transport.
pub proof fn law_results_are_handed_on(answer: StatementAnswer, step: AttemptStep)
    ensures
        gives_result(answer, step) && answer.parsed is Ok ==> step == AttemptStep::Done(
            answer.parsed->Ok_0,
        ),
        gives_error(answer, step) ==> step is Fail,
        gives_error(answer, step) && answer.parsed is Ok ==> (step matches AttemptStep::Fail(
            Error::Sql { statement_handle, message },
        ) && statement_handle == answer.parsed->Ok_0.statement_handle && (
        answer.parsed->Ok_0.message matches Some(m) ==> message@ == m@)),
        gives_result(answer, step) && answer.parsed is Err ==> step == AttemptStep::Fail(
            Error::HttpTransport(answer.parsed->Err_0),
        ),
{
}

/// A failed statement keeps its handle and its message. Only transport errors, timeouts, throttling
/// and server errors are tried again.
pub proof fn law_failures_keep_handle_and_message(
    response: StatementResponse,
    failed: Error,
    error: &Error,
    decision: RetryDecision,
)
    requires
        call_ensures(failed_statement, (response,), failed),
        call_ensures(classify_for_retry, (error,), decision),
    ensures
        failed matches Error::Sql { statement_handle, message } && statement_handle
            == response.statement_handle && (response.message matches Some(m) ==> message@ == m@)
            && (response.message is None ==> message@.len() == 0),
        error is HttpTransport ==> decision == RetryDecision::Retry,
        *error matches Error::HttpStatus { status, body } ==> (decision == RetryDecision::Retry
            <==> status.number() == 408 || status.number() == 429 || 500 <= status.number() <= 599),
        !(error is HttpTransport) && !(error is HttpStatus) ==> decision == RetryDecision::Stop,
{
}

/// Questions come at doubled distances of up to five seconds, until half a minute has passed.
pub proof fn law_polling_slows_down(
    poll: &mut Poll,
    handle: &str,
    elapsed: Duration,
    r: SnowflakeResult<Duration>,
)
    requires
        call_ensures(Poll::next, (poll, handle, elapsed), r),
    ensures
        r is Ok <==> elapsed.nanos < 30_000_000_000,
        r matches Ok(delay) ==> delay == old(poll).delay,
        r is Ok && old(poll).delay.nanos <= 2_500_000_000 ==> final(poll).delay.nanos == 2 * old(
            poll,
        ).delay.nanos,
        r is Ok && old(poll).delay.nanos > 2_500_000_000 ==> final(poll).delay.nanos
            == 5_000_000_000,
        r is Err ==> final(poll).delay == old(poll).delay,
{
}

/// A failed statement is tried again up to three times, and only where the failure may pass; each wait
/// is twice the one before, up to the limit.
pub proof fn law_statements_are_run_again(
    run: &mut StatementRun,
    event: StatementEvent,
    elapsed: Duration,
    r: StatementAction,
)
    requires
        call_ensures(StatementRun::execute_statement, (run, event, elapsed), r),
    ensures
        r matches StatementAction::Retry(delay) ==> delay == old(run).delay && old(run).retries < 3
            && final(run).retries == old(run).retries + 1 && final(run).asked is None,
        r matches StatementAction::Retry(delay) ==> final(run).delay.nanos == 2 * delay.nanos
            || final(run).delay.nanos < 2 * delay.nanos,
        r matches StatementAction::Fail(e) ==> !transient(e) || old(run).retries >= 3,
        r is RenewToken || r is Ask ==> final(run).retries == old(run).retries,
{
}

} // verus!
