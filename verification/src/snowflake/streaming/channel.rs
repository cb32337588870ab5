//! The state of a streaming channel.
use vstd::prelude::*;

use crate::snowflake::error::{Error, SnowflakeResult};
use crate::snowflake::streaming::batch::RowBatch;
use crate::snowflake::streaming::offset_token::OffsetToken;
use crate::text::{cat7, decimal, decimal_of};

verus! {

/// Identifier of a pipeline.
pub type PipelineId = u64;

/// Response from opening or reopening a channel.
#[derive(Debug)]
pub struct OpenChannelResponse {
    /// Server-managed sequencer token.
    ///
    /// Must be passed to subsequent `insert_rows` calls on this channel.
    pub continuation_token: String,
    /// Last committed offset token.
    ///
    /// `None` if the channel has never committed data.
    pub offset_token: Option<OffsetToken>,
}

/// Response from inserting rows into a channel.
#[derive(Debug)]
pub struct InsertRowsResponse {
    /// Updated continuation token for the next `insert_rows` call.
    pub continuation_token: String,
}

/// Per-channel status from a bulk status check.
#[derive(Debug)]
pub struct ChannelStatusResponse {
    /// Channel name.
    pub channel: String,
    /// Snowflake-assigned status code (e.g. `ACTIVE`, `SUCCESS`).
    pub status_code: String,
    /// Last committed offset token, or `None` if no data has been committed.
    pub offset_token: Option<OffsetToken>,
}

/// Manages the state and lifecycle of a single Snowpipe Streaming channel.
///
/// Channel is a conduit via which we push data to Snowflake system.
#[derive(Debug)]
pub struct ChannelHandle {
    /// Snowflake database name.
    pub database: String,
    /// Snowflake schema name.
    pub schema: String,
    /// Snowflake target table name.
    pub table: String,
    /// Derived channel name.
    pub channel: String,
    /// Last offset token returned by Snowflake API (on open or insert).
    pub last_offset_token: Option<OffsetToken>,
    /// Continuation token for the next API call on this channel.
    pub continuation_token: Option<String>,
}

/// The name of a table's channel.
pub open spec fn channel_name(pipeline: PipelineId, schema: Seq<char>, table: Seq<char>) -> Seq<
    char,
> {
    "supabase_etl_"@ + decimal(pipeline as nat) + "_"@ + schema + "_"@ + table + "_ch0"@
}

/// Whether an error says that the channel is gone.
pub open spec fn stale(e: Error) -> bool {
    match e {
        Error::Snowpipe { status_code, message: _ } => status_code == 4,
        Error::HttpStatus { status, body: _ } => status.number() == 404,
        _ => false,
    }
}

/// Returns whether an error says that the channel is gone.
pub fn is_stale_channel(e: &Error) -> (r: bool)
    ensures
        r == stale(*e),
{
    match e {
        Error::Snowpipe { status_code, message: _ } => *status_code == 4,
        Error::HttpStatus { status, body: _ } => status.as_u16() == 404,
        _ => false,
    }
}

impl ChannelHandle {
    /// New handle with no offset or continuation tokens.
    pub fn new(pipeline: PipelineId, database: String, schema: String, table: String) -> (r: Self)
        ensures
            r.database == database,
            r.schema == schema,
            r.table == table,
            r.channel@ == channel_name(pipeline, schema@, table@),
            r.last_offset_token is None,
            r.continuation_token is None,
    {
        let number = decimal_of(pipeline as u128);
        let channel = cat7(
            "supabase_etl_",
            number.as_str(),
            "_",
            schema.as_str(),
            "_",
            table.as_str(),
            "_ch0",
        );
        ChannelHandle {
            database,
            schema,
            table,
            channel,
            last_offset_token: None,
            continuation_token: None,
        }
    }

    /// Whether the other handle is of the same channel.
    pub open spec fn same_channel(&self, other: &Self) -> bool {
        &&& self.database == other.database
        &&& self.schema == other.schema
        &&& self.table == other.table
        &&& self.channel == other.channel
    }

    /// Whether a handle of the same channel has the state that opening it returned.
    pub open spec fn opened(&self, before: &Self, response: OpenChannelResponse) -> bool {
        &&& self.same_channel(before)
        &&& self.last_offset_token == response.offset_token
        &&& self.continuation_token == Some(response.continuation_token)
    }

    /// Whether a handle of the same channel has no offset or continuation tokens.
    pub open spec fn dropped(&self, before: &Self) -> bool {
        &&& self.same_channel(before)
        &&& self.last_offset_token is None
        &&& self.continuation_token is None
    }

    /// Takes up how opening (or reopening) the channel went.
    pub fn open(&mut self, result: SnowflakeResult<OpenChannelResponse>) -> (r: SnowflakeResult<()>)
        ensures
            match result {
                Ok(response) => r is Ok && final(self).opened(old(self), response),
                Err(e) => r == Err::<(), Error>(e) && *final(self) == *old(self),
            },
    {
        match result {
            Ok(response) => {
                self.last_offset_token = response.offset_token;
                self.continuation_token = Some(response.continuation_token);
                Ok(())
            },
            Err(e) => Err(e),
        }
    }

    /// Takes up how dropping the channel went.
    ///
    /// Committed data remains in the table.
    pub fn drop_channel(&mut self, result: SnowflakeResult<()>) -> (r: SnowflakeResult<()>)
        ensures
            match result {
                Ok(_) => r is Ok && final(self).dropped(old(self)),
                Err(e) => r == Err::<(), Error>(e) && *final(self) == *old(self),
            },
    {
        match result {
            Ok(_) => {
                self.last_offset_token = None;
                self.continuation_token = None;
                Ok(())
            },
            Err(e) => Err(e),
        }
    }

    /// Takes up how dropping and reopening the channel went, which resets offsets. A channel that
    /// could not be dropped is not opened again; one that could not be opened again stays dropped.
    pub fn reset(
        &mut self,
        dropped: SnowflakeResult<()>,
        opened: SnowflakeResult<OpenChannelResponse>,
    ) -> (r: SnowflakeResult<()>)
        ensures
            match (dropped, opened) {
                (Err(e), _) => r == Err::<(), Error>(e) && *final(self) == *old(self),
                (Ok(_), Err(e)) => r == Err::<(), Error>(e) && final(self).dropped(old(self)),
                (Ok(_), Ok(response)) => r is Ok && final(self).opened(old(self), response),
            },
    {
        match self.drop_channel(dropped) {
            Ok(_) => self.open(opened),
            Err(e) => Err(e),
        }
    }

    /// Returns the last offset token committed by Snowflake for this channel, given how asking
    /// for its status went.
    pub fn committed_offset(status: SnowflakeResult<ChannelStatusResponse>) -> (r: SnowflakeResult<
        Option<OffsetToken>,
    >)
        ensures
            r == match status {
                Ok(status) => Ok::<Option<OffsetToken>, Error>(status.offset_token),
                Err(e) => Err::<Option<OffsetToken>, Error>(e),
            },
    {
        match status {
            Ok(status) => Ok(status.offset_token),
            Err(e) => Err(e),
        }
    }

    /// Whether an error says that the channel is not open.
    pub open spec fn not_open(e: Error) -> bool {
        e matches Error::Channel(text) && text@
            == "send_batch called on channel without continuation token"@
    }

    /// Returns the token that the next batch is to be sent with.
    pub fn send_token(&self) -> (r: SnowflakeResult<String>)
        ensures
            match self.continuation_token {
                Some(token) => r matches Ok(s) && s@ == token@,
                None => r matches Err(e) && Self::not_open(e),
            },
    {
        match &self.continuation_token {
            Some(token) => Ok(token.clone()),
            None => Err(
                Error::Channel(
                    "send_batch called on channel without continuation token".to_string(),
                ),
            ),
        }
    }

    /// Takes up how inserting a batch went.
    pub fn send_batch(
        &mut self,
        batch: &RowBatch,
        result: SnowflakeResult<InsertRowsResponse>,
    ) -> (r: SnowflakeResult<()>)
        ensures
            match result {
                Ok(response) => {
                    &&& r is Ok
                    &&& final(self).same_channel(old(self))
                    &&& final(self).continuation_token == Some(response.continuation_token)
                    &&& final(self).last_offset_token == Some(batch.token())
                },
                Err(e) => r == Err::<(), Error>(e) && *final(self) == *old(self),
            },
    {
        match result {
            Ok(response) => {
                self.continuation_token = Some(response.continuation_token);
                self.last_offset_token = Some(batch.offset().clone());
                Ok(())
            },
            Err(e) => Err(e),
        }
    }
}

/// What happened to the last request of a run.
#[derive(Debug)]
pub enum ChannelEvent {
    /// The batch was inserted, or refused.
    Insert(SnowflakeResult<InsertRowsResponse>),
    /// The channel was opened again, or could not be.
    Open(SnowflakeResult<OpenChannelResponse>),
}

/// What is to be done next in a run.
#[derive(Debug)]
pub enum ChannelAction {
    /// Insert a batch, by its place.
    Insert { batch: usize, continuation_token: String },
    /// Open the channel again.
    Open,
    /// All batches are inserted.
    Done,
    /// The run ends with an error.
    Fail(Error),
}

/// Where a run of batches stands: batches before `next` are inserted.
#[derive(Debug)]
pub struct BatchRun {
    /// Place of the batch that is being sent.
    pub next: usize,
    /// Number of batches.
    pub total: usize,
    /// Whether the channel was opened again for this batch.
    pub reopened: bool,
    /// Whether the last request was to open the channel.
    pub opening: bool,
}

/// Whether an action inserts the batch that is next, with the channel's token, or fails because the
/// channel is not open.
pub open spec fn sends(action: ChannelAction, handle: ChannelHandle, next: int) -> bool {
    match handle.continuation_token {
        Some(token) => action matches ChannelAction::Insert { batch, continuation_token } && batch
            == next && continuation_token@ == token@,
        None => action matches ChannelAction::Fail(e) && ChannelHandle::not_open(e),
    }
}

/// Where a run, its channel and the next action stand.
pub struct RunState {
    pub run: BatchRun,
    pub handle: ChannelHandle,
    pub action: ChannelAction,
}

impl RunState {
    /// Whether a run of so many batches begins here: with the first batch, if there is one.
    pub open spec fn begins(&self, total: nat) -> bool {
        &&& self.run.next == 0
        &&& self.run.total == total
        &&& !self.run.reopened
        &&& !self.run.opening
        &&& if total == 0 {
            self.action is Done
        } else {
            sends(self.action, self.handle, 0)
        }
    }

    /// Whether a request is to be made.
    pub open spec fn goes_on(&self) -> bool {
        self.action is Insert || self.action is Open
    }
}

/// Where a run stands after a request was answered.
pub open spec fn steps(
    run: BatchRun,
    handle: ChannelHandle,
    batches: Seq<RowBatch>,
    event: ChannelEvent,
    after: RunState,
) -> bool {
    &&& after.run.total == run.total
    &&& after.handle.same_channel(&handle)
    &&& match event {
        ChannelEvent::Insert(Ok(response)) => {
            &&& after.run.next == run.next + 1
            &&& !after.run.reopened
            &&& !after.run.opening
            &&& after.handle.continuation_token == Some(response.continuation_token)
            &&& after.handle.last_offset_token == Some(batches[run.next as int].token())
            &&& if after.run.next == after.run.total {
                after.action is Done
            } else {
                sends(after.action, after.handle, after.run.next as int)
            }
        },
        ChannelEvent::Insert(Err(e)) => {
            &&& after.run.next == run.next
            &&& after.handle == handle
            &&& if stale(e) && !run.reopened {
                after.action is Open && after.run.reopened && after.run.opening
            } else {
                after.action == ChannelAction::Fail(e)
            }
        },
        ChannelEvent::Open(Ok(response)) => {
            &&& after.run.next == run.next
            &&& after.run.reopened == run.reopened
            &&& !after.run.opening
            &&& after.handle.opened(&handle, response)
            &&& sends(after.action, after.handle, after.run.next as int)
        },
        ChannelEvent::Open(Err(e)) => {
            &&& after.run.next == run.next
            &&& after.handle == handle
            &&& after.action == ChannelAction::Fail(e)
        },
    }
}

/// Whether a run of batches went through these states as its requests were answered by these
/// events.
pub open spec fn is_run(
    batches: Seq<RowBatch>,
    states: Seq<RunState>,
    events: Seq<ChannelEvent>,
) -> bool
    decreases events.len(),
{
    &&& states.len() == events.len() + 1
    &&& if events.len() == 0 {
        states[0].begins(batches.len())
    } else {
        let before = states.drop_last().last();
        &&& is_run(batches, states.drop_last(), events.drop_last())
        &&& before.goes_on()
        &&& before.run.answers(events.last())
        &&& steps(before.run, before.handle, batches, events.last(), states.last())
    }
}

/// The places of the batches whose insertion was accepted, in order.
pub open spec fn inserted(states: Seq<RunState>, events: Seq<ChannelEvent>) -> Seq<int>
    decreases events.len(),
{
    if events.len() == 0 {
        Seq::empty()
    } else {
        let earlier = inserted(states.drop_last(), events.drop_last());
        match (states.drop_last().last().action, events.last()) {
            (
                ChannelAction::Insert { batch, continuation_token: _ },
                ChannelEvent::Insert(Ok(_)),
            ) => earlier.push(batch as int),
            _ => earlier,
        }
    }
}

/// The latest continuation token: that of the last answer that held one, or else the one that the
/// channel began with.
pub open spec fn latest_token(first: Option<String>, events: Seq<ChannelEvent>) -> Option<String>
    decreases events.len(),
{
    if events.len() == 0 {
        first
    } else {
        match events.last() {
            ChannelEvent::Insert(Ok(response)) => Some(response.continuation_token),
            ChannelEvent::Open(Ok(response)) => Some(response.continuation_token),
            _ => latest_token(first, events.drop_last()),
        }
    }
}

/// How often the channel was asked to open again since the last batch was accepted.
pub open spec fn reopenings(events: Seq<ChannelEvent>) -> nat
    decreases events.len(),
{
    if events.len() == 0 {
        0
    } else {
        match events.last() {
            ChannelEvent::Insert(Ok(_)) => 0,
            ChannelEvent::Insert(Err(_)) => reopenings(events.drop_last()),
            ChannelEvent::Open(_) => reopenings(events.drop_last()) + 1,
        }
    }
}

proof fn lemma_run(batches: Seq<RowBatch>, states: Seq<RunState>, events: Seq<ChannelEvent>)
    requires
        is_run(batches, states, events),
    ensures
        ({
            let last = states.last();
            let n = inserted(states, events).len();
            &&& inserted(states, events) == Seq::new(n, |i: int| i)
            &&& last.run.next == n
            &&& last.run.total == batches.len()
            &&& n <= batches.len()
            &&& last.action is Done <==> n == batches.len()
            &&& last.action is Done && n > 0 ==> last.handle.last_offset_token == Some(
                batches[n - 1].token(),
            )
            &&& last.handle.continuation_token == latest_token(
                states[0].handle.continuation_token,
                events,
            )
            &&& last.action is Insert ==> sends(last.action, last.handle, n as int)
            &&& last.goes_on() ==> last.run.opening == (last.action is Open) && reopenings(events)
                + (if last.run.opening {
                1nat
            } else {
                0
            }) == (if last.run.reopened {
                1nat
            } else {
                0
            })
            &&& reopenings(events) <= 1
            &&& last.handle.same_channel(&states[0].handle)
        }),
    decreases events.len(),
{
    if events.len() > 0 {
        let earlier = states.drop_last();
        lemma_run(batches, earlier, events.drop_last());
        assert(earlier[0] == states[0]);
        let n = inserted(states, events).len();
        assert(inserted(states, events) =~= Seq::new(n, |i: int| i));
    }
}

/// The batches of a run are inserted in order, each of them once: the accepted insertions are those
/// of the first batches, and every insertion asked for is that of the batch after them, with the
/// latest continuation token. The run is done exactly when all batches are inserted, and the channel
/// then has the offset of the last of them. The channel is opened again at most once for each batch.
pub proof fn law_batches_are_inserted_in_order(
    batches: Seq<RowBatch>,
    states: Seq<RunState>,
    events: Seq<ChannelEvent>,
)
    requires
        is_run(batches, states, events),
    ensures
        inserted(states, events) == Seq::new(inserted(states, events).len(), |i: int| i),
        inserted(states, events).len() <= batches.len(),
        states.last().action is Done <==> inserted(states, events).len() == batches.len(),
        states.last().action matches ChannelAction::Insert { batch, continuation_token } ==> {
            &&& batch == inserted(states, events).len()
            &&& latest_token(states[0].handle.continuation_token, events) matches Some(token)
                && token@ == continuation_token@
        },
        states.last().action is Done && batches.len() > 0 ==> states.last().handle.last_offset_token
            == Some(batches.last().token()),
        states.last().handle.same_channel(&states[0].handle),
        reopenings(events) <= 1,
{
    lemma_run(batches, states, events);
}

impl BatchRun {
    /// Whether an event answers the last request.
    pub open spec fn answers(&self, event: ChannelEvent) -> bool {
        self.opening == (event is Open)
    }

    fn send(&self, handle: &ChannelHandle) -> (r: ChannelAction)
        ensures
            sends(r, *handle, self.next as int),
    {
        match handle.send_token() {
            Ok(continuation_token) => ChannelAction::Insert {
                batch: self.next,
                continuation_token,
            },
            Err(e) => ChannelAction::Fail(e),
        }
    }

    /// Begins to send batches through a channel.
    pub fn begin(handle: &ChannelHandle, total: usize) -> (r: (Self, ChannelAction))
        ensures
            (RunState { run: r.0, handle: *handle, action: r.1 }).begins(total as nat),
    {
        let run = BatchRun { next: 0, total, reopened: false, opening: false };
        if total == 0 {
            return (run, ChannelAction::Done);
        }
        let action = run.send(handle);
        (run, action)
    }

    /// Goes on after a request was answered. A channel that is gone is opened again once for each
    /// batch; any other error ends the run.
    pub fn on_event(
        &mut self,
        handle: &mut ChannelHandle,
        batches: &[RowBatch],
        event: ChannelEvent,
    ) -> (r: ChannelAction)
        requires
            old(self).next < old(self).total,
            old(self).total == batches@.len(),
            old(self).answers(event),
        ensures
            steps(
                *old(self),
                *old(handle),
                batches@,
                event,
                RunState { run: *final(self), handle: *final(handle), action: r },
            ),
    {
        match event {
            ChannelEvent::Insert(result) => match handle.send_batch(&batches[self.next], result) {
                Ok(_) => {
                    self.next = self.next + 1;
                    self.reopened = false;
                    if self.next == self.total {
                        ChannelAction::Done
                    } else {
                        self.send(handle)
                    }
                },
                Err(e) => {
                    if is_stale_channel(&e) && !self.reopened {
                        self.reopened = true;
                        self.opening = true;
                        ChannelAction::Open
                    } else {
                        ChannelAction::Fail(e)
                    }
                },
            },
            ChannelEvent::Open(result) => match handle.open(result) {
                Ok(_) => {
                    self.opening = false;
                    self.send(handle)
                },
                Err(e) => ChannelAction::Fail(e),
            },
        }
    }
}

/// A channel is named after its pipeline, schema and table.
pub proof fn law_channels_have_these_names(pipeline: PipelineId, schema: Seq<char>, table: Seq<char>)
    ensures
        channel_name(pipeline, schema, table) == "supabase_etl_"@ + decimal(pipeline as nat) + "_"@
            + schema + "_"@ + table + "_ch0"@,
{
}

/// A channel is stale by the service's code 4 or by the answer 404, and by nothing else.
pub proof fn law_only_stale_channels_are_reopened(e: Error)
    ensures
        e matches Error::Snowpipe { status_code, message } ==> (stale(e) <==> status_code == 4),
        e matches Error::HttpStatus { status, body } ==> (stale(e) <==> status.number() == 404),
        e is HttpTransport || e is Auth || e is Sql || e is Channel || e is Encoding || e is Config
            ==> !stale(e),
{
}

/// A batch that a stale channel refused is sent again once the channel is opened again, with the token
/// of the new opening; a second refusal, and any other one, ends the run with its error. An accepted
/// batch moves the channel to its position and the run to the next batch.
pub proof fn law_refused_batches_are_sent_again_once(
    run: BatchRun,
    handle: ChannelHandle,
    batches: Seq<RowBatch>,
    event: ChannelEvent,
    after: RunState,
)
    requires
        steps(run, handle, batches, event, after),
    ensures
        event matches ChannelEvent::Insert(Err(e)) ==> (stale(e) && !run.reopened ==> after.action
            is Open && after.run.next == run.next && after.run.reopened),
        event matches ChannelEvent::Insert(Err(e)) ==> (!stale(e) || run.reopened ==> after.action
            == ChannelAction::Fail(e)),
        event matches ChannelEvent::Open(Err(e)) ==> after.action == ChannelAction::Fail(e),
        event matches ChannelEvent::Open(Ok(response)) ==> (after.action matches
            ChannelAction::Insert { batch, continuation_token } && batch == run.next
            && continuation_token@ == response.continuation_token@ && after.handle.last_offset_token
            == response.offset_token),
        event matches ChannelEvent::Insert(Ok(response)) ==> after.run.next == run.next + 1
            && !after.run.reopened && after.handle.continuation_token == Some(
            response.continuation_token,
        ) && after.handle.last_offset_token == Some(batches[run.next as int].token()),
        event matches ChannelEvent::Insert(Ok(response)) ==> (run.next + 1 == run.total
            ==> after.action is Done),
        event matches ChannelEvent::Insert(Ok(response)) ==> (run.next + 1 < run.total ==> (
        after.action matches ChannelAction::Insert { batch, continuation_token } && batch == run.next
            + 1 && continuation_token@ == response.continuation_token@)),
{
}

/// A channel that was opened has what the answer says; one that was dropped has nothing left, and both
/// stay the channels that they were.
pub proof fn law_channels_have_what_was_answered(
    before: ChannelHandle,
    after: ChannelHandle,
    response: OpenChannelResponse,
)
    ensures
        after.opened(&before, response) ==> after.last_offset_token == response.offset_token
            && after.continuation_token == Some(response.continuation_token) && after.channel
            == before.channel && after.table == before.table && after.schema == before.schema
            && after.database == before.database,
        after.dropped(&before) ==> after.last_offset_token is None && after.continuation_token
            is None && after.channel == before.channel && after.table == before.table
            && after.schema == before.schema && after.database == before.database,
{
}

/// What is committed is what the channel's status says.
pub proof fn law_committed_offsets_are_answered(
    status: SnowflakeResult<ChannelStatusResponse>,
    r: SnowflakeResult<Option<OffsetToken>>,
)
    requires
        call_ensures(ChannelHandle::committed_offset, (status,), r),
    ensures
        status matches Ok(s) ==> r == Ok::<Option<OffsetToken>, Error>(s.offset_token),
        status matches Err(e) ==> r == Err::<Option<OffsetToken>, Error>(e),
{
}

/// A batch is sent under the channel's continuation token; a channel without one is not open.
pub proof fn law_batches_need_a_continuation_token(
    handle: &ChannelHandle,
    r: SnowflakeResult<String>,
    action: ChannelAction,
    next: int,
)
    requires
        call_ensures(ChannelHandle::send_token, (handle,), r),
        sends(action, *handle, next),
    ensures
        handle.continuation_token matches Some(token) ==> (r matches Ok(s) && s@ == token@),
        handle.continuation_token matches Some(token) ==> (action matches ChannelAction::Insert {
            batch,
            continuation_token,
        } && batch == next && continuation_token@ == token@),
        handle.continuation_token is None ==> (r matches Err(e) && e is Channel),
        handle.continuation_token is None ==> action is Fail,
{
}

/// A run begins with its first batch; a run without batches is done.
pub proof fn law_runs_begin_with_the_first_batch(
    handle: &ChannelHandle,
    total: usize,
    r: (BatchRun, ChannelAction),
)
    requires
        call_ensures(BatchRun::begin, (handle, total), r),
    ensures
        r.0.next == 0,
        r.0.total == total,
        !r.0.reopened,
        total == 0 ==> r.1 is Done,
        total > 0 && handle.continuation_token is Some ==> (r.1 matches ChannelAction::Insert {
            batch,
            continuation_token,
        } && batch == 0 && continuation_token@ == handle.continuation_token->Some_0@),
        total > 0 && handle.continuation_token is None ==> r.1 is Fail,
{
}

/// An opened channel has the tokens that were answered, a dropped one has none; a failure changes
/// nothing and is handed on.
pub proof fn law_channels_are_opened_and_dropped(
    handle: &mut ChannelHandle,
    answer: SnowflakeResult<OpenChannelResponse>,
    r: SnowflakeResult<()>,
)
    requires
        call_ensures(ChannelHandle::open, (handle, answer), r),
    ensures
        answer is Ok <==> r is Ok,
        answer matches Ok(a) ==> final(handle).last_offset_token == a.offset_token
            && final(handle).continuation_token == Some(a.continuation_token),
        answer matches Err(e) ==> r == Err::<(), Error>(e) && *final(handle) == *old(handle),
        final(handle).channel == old(handle).channel,
        final(handle).table == old(handle).table,
        final(handle).schema == old(handle).schema,
        final(handle).database == old(handle).database,
{
}

/// A dropped channel has no tokens; a failure changes nothing and is handed on.
pub proof fn law_dropped_channels_have_no_tokens(
    handle: &mut ChannelHandle,
    answer: SnowflakeResult<()>,
    r: SnowflakeResult<()>,
)
    requires
        call_ensures(ChannelHandle::drop_channel, (handle, answer), r),
    ensures
        answer is Ok <==> r is Ok,
        answer is Ok ==> final(handle).last_offset_token is None
            && final(handle).continuation_token is None,
        answer matches Err(e) ==> r == Err::<(), Error>(e) && *final(handle) == *old(handle),
        final(handle).channel == old(handle).channel,
        final(handle).table == old(handle).table,
{
}

/// A sent batch leaves its own position and the answered continuation token; a failure changes nothing
/// and is handed on.
pub proof fn law_sent_batches_leave_their_position(
    handle: &mut ChannelHandle,
    batch: &RowBatch,
    answer: SnowflakeResult<InsertRowsResponse>,
    r: SnowflakeResult<()>,
)
    requires
        call_ensures(ChannelHandle::send_batch, (handle, batch, answer), r),
    ensures
        answer is Ok <==> r is Ok,
        answer matches Ok(a) ==> final(handle).last_offset_token == Some(batch.token())
            && final(handle).continuation_token == Some(a.continuation_token),
        answer matches Err(e) ==> r == Err::<(), Error>(e) && *final(handle) == *old(handle),
        final(handle).channel == old(handle).channel,
        final(handle).table == old(handle).table,
{
}

/// A reset channel is dropped first; only then is it opened.
pub proof fn law_reset_channels_are_dropped_first(
    handle: &mut ChannelHandle,
    dropped: SnowflakeResult<()>,
    opened: SnowflakeResult<OpenChannelResponse>,
    r: SnowflakeResult<()>,
)
    requires
        call_ensures(ChannelHandle::reset, (handle, dropped, opened), r),
    ensures
        r is Ok <==> dropped is Ok && opened is Ok,
        dropped matches Err(e) ==> r == Err::<(), Error>(e) && *final(handle) == *old(handle),
        dropped is Ok && opened is Err ==> r->Err_0 == opened->Err_0
            && final(handle).continuation_token is None,
        dropped is Ok && opened is Ok ==> final(handle).continuation_token == Some(
            opened->Ok_0.continuation_token,
        ) && final(handle).last_offset_token == opened->Ok_0.offset_token,
{
}

} // verus!
