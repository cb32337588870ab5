//! What is to be done at Snowflake for a table.
use vstd::prelude::*;

use crate::schema::{ColumnSchema, SchemaDiff, TableId};
use crate::snowflake::config::Config;
use crate::snowflake::error::{Error, SnowflakeResult};
use crate::snowflake::schema::{
    all_column_defs, build_column_defs, collision, first_reserved, quoted, reserved, snowflake_type,
    snowflake_type_of, validate_no_cdc_collisions,
};
use crate::snowflake::sql_client::SqlClient;
use crate::snowflake::streaming::channel::{
    channel_name, ChannelHandle, OpenChannelResponse, PipelineId,
};
use crate::snowflake::streaming::channel_map::{no_channel, ChannelMap};
use crate::text::{joined, views};

verus! {

/// Unifies the SQL REST API (DDL) and the Snowpipe Streaming API (channel
/// lifecycle and row ingestion).
#[derive(Debug)]
pub struct Client {
    /// Statements.
    pub sql_client: SqlClient,
    /// Database of the tables.
    pub database: String,
    /// Schema of the tables.
    pub schema: String,
    /// Pipeline that the channels belong to.
    pub pipeline_id: PipelineId,
    /// The open channels.
    pub channels: ChannelMap,
}

/// How to set up a table: run the statement, then open the channel.
#[derive(Debug)]
pub struct TableSetup {
    /// Statement that creates the table unless it is there.
    pub create_table: String,
    /// The channel to open.
    pub handle: ChannelHandle,
}

/// How to drop a table: drop the channel, then run the statement.
#[derive(Debug)]
pub struct TableDrop {
    /// The channel to drop.
    pub handle: ChannelHandle,
    /// Statement that drops the table if it is there.
    pub drop_table: String,
}

impl Client {
    /// Creates a client for the configured database and schema.
    pub fn new(config: Config, pipeline_id: PipelineId) -> (r: Self)
        ensures
            r.sql_client.config == config,
            r.database@ == config.database@,
            r.schema@ == config.schema@,
            r.pipeline_id == pipeline_id,
            forall|id: TableId| r.channels.channel(id) is None,
    {
        let database = config.database.clone();
        let schema = config.schema.clone();
        Self::with_clients(SqlClient::new(config), database, schema, pipeline_id)
    }

    /// Creates a client around one for statements.
    pub fn with_clients(
        sql_client: SqlClient,
        database: String,
        schema: String,
        pipeline_id: PipelineId,
    ) -> (r: Self)
        ensures
            r.sql_client == sql_client,
            r.database == database,
            r.schema == schema,
            r.pipeline_id == pipeline_id,
            forall|id: TableId| r.channels.channel(id) is None,
    {
        Client { sql_client, database, schema, pipeline_id, channels: ChannelMap::new() }
    }

    /// Whether two clients differ in their channels alone.
    pub open spec fn same_but_channels(&self, other: &Self) -> bool {
        &&& self.sql_client == other.sql_client
        &&& self.database == other.database
        &&& self.schema == other.schema
        &&& self.pipeline_id == other.pipeline_id
    }

    /// Whether a handle is a new one of a table's channel.
    pub open spec fn new_handle(&self, handle: ChannelHandle, table_name: Seq<char>) -> bool {
        &&& handle.database@ == self.database@
        &&& handle.schema@ == self.schema@
        &&& handle.table@ == table_name
        &&& handle.channel@ == channel_name(self.pipeline_id, self.schema@, table_name)
        &&& handle.last_offset_token is None
        &&& handle.continuation_token is None
    }

    /// Returns a new handle of a table's channel.
    pub fn channel_of(&self, table_name: &str) -> (r: ChannelHandle)
        ensures
            self.new_handle(r, table_name@),
    {
        ChannelHandle::new(
            self.pipeline_id,
            self.database.clone(),
            self.schema.clone(),
            table_name.to_string(),
        )
    }

    /// Ensure the table exists in Snowflake and is ready to receive data.
    ///
    /// Returns `None` when the table's channel is already open in this process.
    pub fn ensure_table(
        &self,
        table_id: TableId,
        table_name: &str,
        columns: &[ColumnSchema],
    ) -> (r: SnowflakeResult<Option<TableSetup>>)
        ensures
            self.channels.channel(table_id) is Some ==> r == Ok::<Option<TableSetup>, Error>(None),
            r is Err <==> self.channels.channel(table_id) is None && exists|i: int|
                0 <= i < columns@.len() && reserved(#[trigger] columns@[i]),
            r matches Err(e) ==> exists|i: int| #[trigger]
                first_reserved(columns@, i) && collision(e, columns@[i].name@),
            r matches Ok(Some(setup)) ==> {
                &&& setup.create_table@ == "CREATE TABLE IF NOT EXISTS "@
                    + self.sql_client.full_name(table_name@) + " ("@ + joined(
                    all_column_defs(columns@),
                    ", "@,
                ) + ") ENABLE_SCHEMA_EVOLUTION = TRUE"@
                &&& self.new_handle(setup.handle, table_name@)
            },
            self.channels.channel(table_id) is None && r is Ok ==> r->Ok_0 is Some,
    {
        if self.channels.contains(table_id) {
            return Ok(None);
        }
        match validate_no_cdc_collisions(columns) {
            Ok(_) => {},
            Err(e) => {
                proof {
                    let i = choose|i: int| #[trigger]
                        first_reserved(columns@, i) && collision(e, columns@[i].name@);
                    assert(reserved(columns@[i]));
                }
                return Err(e);
            },
        }
        let column_defs = build_column_defs(columns);
        let create_table = self.sql_client.create_table_if_not_exists(
            table_name,
            column_defs.as_str(),
        );
        let handle = self.channel_of(table_name);
        Ok(Some(TableSetup { create_table, handle }))
    }

    /// Takes up how opening the channel of a table that was set up went. The channel is kept if it
    /// is open.
    pub fn table_opened(
        &mut self,
        table_id: TableId,
        handle: ChannelHandle,
        opened: SnowflakeResult<OpenChannelResponse>,
    ) -> (r: SnowflakeResult<()>)
        ensures
            match opened {
                Err(e) => r == Err::<(), Error>(e) && *final(self) == *old(self),
                Ok(response) => {
                    &&& r is Ok
                    &&& final(self).same_but_channels(old(self))
                    &&& final(self).channels.channel(table_id) matches Some(h) && h.opened(
                        &handle,
                        response,
                    )
                    &&& forall|id: TableId|
                        id != table_id ==> #[trigger] final(self).channels.channel(id) == old(
                            self,
                        ).channels.channel(id)
                },
            },
    {
        let mut handle = handle;
        match handle.open(opened) {
            Ok(_) => {
                self.channels.insert(table_id, handle);
                Ok(())
            },
            Err(e) => Err(e),
        }
    }

    /// The statements of a schema change: additions, renames, removals.
    pub open spec fn schema_statements(&self, table_name: Seq<char>, diff: SchemaDiff) -> Seq<
        Seq<char>,
    > {
        Seq::new(
            diff.columns_to_add@.len(),
            |i: int|
                self.sql_client.add_column_text(
                    table_name,
                    diff.columns_to_add@[i].name@,
                    snowflake_type(diff.columns_to_add@[i].typ),
                ),
        ) + Seq::new(
            diff.columns_to_rename@.len(),
            |i: int|
                self.sql_client.rename_column_text(
                    table_name,
                    diff.columns_to_rename@[i].old_name@,
                    diff.columns_to_rename@[i].new_name@,
                ),
        ) + Seq::new(
            diff.columns_to_remove@.len(),
            |i: int|
                self.sql_client.drop_column_text(table_name, diff.columns_to_remove@[i].name@),
        )
    }

    /// Returns the statements for column additions, renames, and removals from a schema diff.
    pub fn apply_schema_diff(&self, table_name: &str, diff: &SchemaDiff) -> (r: Vec<String>)
        ensures
            views(r@) == self.schema_statements(table_name@, *diff),
    {
        let mut out: Vec<String> = Vec::new();
        let ghost target = self.schema_statements(table_name@, *diff);
        let (a, b, c) = (
            diff.columns_to_add.len(),
            diff.columns_to_rename.len(),
            diff.columns_to_remove.len(),
        );
        let mut i: usize = 0;
        while i < a
            invariant
                i <= a,
                a == diff.columns_to_add@.len(),
                target == self.schema_statements(table_name@, *diff),
                out@.len() == i,
                forall|j: int| 0 <= j < out@.len() ==> (#[trigger] out@[j])@ == target[j],
            decreases a - i,
        {
            let column = &diff.columns_to_add[i];
            out.push(
                self.sql_client.add_column(
                    table_name,
                    column.name.as_str(),
                    snowflake_type_of(&column.typ),
                ),
            );
            i = i + 1;
        }
        let mut j: usize = 0;
        while j < b
            invariant
                j <= b,
                a == diff.columns_to_add@.len(),
                b == diff.columns_to_rename@.len(),
                target == self.schema_statements(table_name@, *diff),
                out@.len() == a + j,
                forall|k: int| 0 <= k < out@.len() ==> (#[trigger] out@[k])@ == target[k],
            decreases b - j,
        {
            let rename = &diff.columns_to_rename[j];
            out.push(
                self.sql_client.rename_column(
                    table_name,
                    rename.old_name.as_str(),
                    rename.new_name.as_str(),
                ),
            );
            j = j + 1;
        }
        let mut k: usize = 0;
        while k < c
            invariant
                k <= c,
                a == diff.columns_to_add@.len(),
                b == diff.columns_to_rename@.len(),
                c == diff.columns_to_remove@.len(),
                target == self.schema_statements(table_name@, *diff),
                out@.len() == a + b + k,
                forall|m: int| 0 <= m < out@.len() ==> (#[trigger] out@[m])@ == target[m],
            decreases c - k,
        {
            out.push(self.sql_client.drop_column(table_name, diff.columns_to_remove[k].name.as_str()));
            k = k + 1;
        }
        proof {
            assert(views(out@) =~= target);
        }
        out
    }

    /// Returns the statement that truncates a table, whose channel must be open. The channel is to
    /// be reset after it, so that offsets restart.
    pub fn truncate_table(&self, table_id: TableId, table_name: &str) -> (r: SnowflakeResult<
        String,
    >)
        ensures
            match self.channels.channel(table_id) {
                Some(_) => r matches Ok(sql) && sql@ == "TRUNCATE TABLE "@
                    + self.sql_client.full_name(table_name@),
                None => r matches Err(e) && no_channel(e, table_id),
            },
    {
        match self.channels.get_channel(table_id) {
            Ok(_) => Ok(self.sql_client.truncate_table(table_name)),
            Err(e) => Err(e),
        }
    }

    /// Says how to drop a table and its channel before a fresh copy. A table without a channel
    /// may have one from an earlier process, which is dropped too.
    pub fn drop_table_for_copy(&mut self, table_id: TableId, table_name: &str) -> (r: TableDrop)
        ensures
            final(self).same_but_channels(old(self)),
            forall|id: TableId| #[trigger]
                final(self).channels.channel(id) == if id == table_id {
                    None
                } else {
                    old(self).channels.channel(id)
                },
            match old(self).channels.channel(table_id) {
                Some(handle) => r.handle == handle,
                None => old(self).new_handle(r.handle, table_name@),
            },
            r.drop_table@ == "DROP TABLE IF EXISTS "@ + old(self).sql_client.full_name(table_name@),
    {
        let handle = match self.channels.remove(table_id) {
            Some(handle) => handle,
            None => self.channel_of(table_name),
        };
        let drop_table = self.sql_client.drop_table(table_name);
        TableDrop { handle, drop_table }
    }

    /// Takes up how opening the table's channel again after a schema change went.
    pub fn refresh_table(
        &mut self,
        table_id: TableId,
        opened: SnowflakeResult<OpenChannelResponse>,
    ) -> (r: SnowflakeResult<()>)
        ensures
            final(self).same_but_channels(old(self)),
            match (old(self).channels.channel(table_id), opened) {
                (None, _) => r matches Err(e) && no_channel(e, table_id) && *final(self) == *old(
                    self,
                ),
                (Some(handle), Err(e)) => r == Err::<(), Error>(e) && forall|id: TableId|
                    #[trigger]
                    final(self).channels.channel(id) == old(self).channels.channel(id),
                (Some(handle), Ok(response)) => {
                    &&& r is Ok
                    &&& final(self).channels.channel(table_id) matches Some(h) && h.opened(
                        &handle,
                        response,
                    )
                    &&& forall|id: TableId|
                        id != table_id ==> #[trigger] final(self).channels.channel(id) == old(
                            self,
                        ).channels.channel(id)
                },
            },
    {
        match self.channels.get_channel_mut(table_id) {
            Ok(handle) => handle.open(opened),
            Err(e) => Err(e),
        }
    }

    /// Says what dropping a channel before a table is dropped comes to: a channel that is not
    /// there is no failure.
    pub fn dropped_channel(result: SnowflakeResult<()>) -> (r: SnowflakeResult<()>)
        ensures
            match result {
                Ok(_) => r is Ok,
                Err(e) => if e matches Error::HttpStatus { status, body: _ } && status.number()
                    == 404 {
                    r is Ok
                } else {
                    r == Err::<(), Error>(e)
                },
            },
    {
        match result {
            Ok(_) => Ok(()),
            Err(e) => {
                let missing = match &e {
                    Error::HttpStatus { status, body: _ } => status.as_u16() == 404,
                    _ => false,
                };
                if missing {
                    Ok(())
                } else {
                    Err(e)
                }
            },
        }
    }
}

/// A schema change adds every column that only the new version has, with its type, then makes every
/// rename, then drops every column that only the old version has.
pub proof fn law_every_difference_is_one_statement(client: Client, table: Seq<char>, diff: SchemaDiff)
    ensures
        ({
            let all = client.schema_statements(table, diff);
            let full = client.sql_client.full_name(table);
            let a = diff.columns_to_add@.len() as int;
            let b = diff.columns_to_rename@.len() as int;
            let c = diff.columns_to_remove@.len() as int;
            &&& all.len() == a + b + c
            &&& forall|i: int|
                0 <= i < a ==> #[trigger] all[i] == "ALTER TABLE "@ + full + " ADD COLUMN "@
                    + quoted(diff.columns_to_add@[i].name@) + " "@ + snowflake_type(
                    diff.columns_to_add@[i].typ,
                )
            &&& forall|i: int|
                a <= i < a + b ==> #[trigger] all[i] == "ALTER TABLE "@ + full
                    + " RENAME COLUMN "@ + quoted(diff.columns_to_rename@[i - a].old_name@)
                    + " TO "@ + quoted(diff.columns_to_rename@[i - a].new_name@)
            &&& forall|i: int|
                a + b <= i < a + b + c ==> #[trigger] all[i] == "ALTER TABLE "@ + full
                    + " DROP COLUMN "@ + quoted(diff.columns_to_remove@[i - a - b].name@)
        }),
{
}

/// A new channel belongs to the client's database and schema and to its table, and is not open.
pub proof fn law_new_channels_are_not_open(client: Client, handle: ChannelHandle, table: Seq<char>)
    requires
        client.new_handle(handle, table),
    ensures
        handle.database@ == client.database@,
        handle.schema@ == client.schema@,
        handle.table@ == table,
        handle.channel@ == channel_name(client.pipeline_id, client.schema@, table),
        handle.continuation_token is None,
        handle.last_offset_token is None,
{
}

/// A channel that is not there any more counts as dropped; every other failure is handed on.
pub proof fn law_missing_channels_count_as_dropped(
    result: SnowflakeResult<()>,
    r: SnowflakeResult<()>,
)
    requires
        call_ensures(Client::dropped_channel, (result,), r),
    ensures
        result is Ok ==> r is Ok,
        result matches Err(Error::HttpStatus { status, body }) ==> (r is Ok <==> status.number()
            == 404),
        result is Err && !(result->Err_0 is HttpStatus) ==> r is Err,
        r is Err ==> r->Err_0 == result->Err_0,
{
}

/// A table with a channel needs no setup; one without is created and gets its own channel, unless a
/// column has a reserved name.
pub proof fn law_tables_are_set_up_once(
    client: &Client,
    table: TableId,
    name: &str,
    columns: &[ColumnSchema],
    r: SnowflakeResult<Option<TableSetup>>,
)
    requires
        call_ensures(Client::ensure_table, (client, table, name, columns), r),
    ensures
        client.channels.channel(table) is Some <==> r is Ok && r->Ok_0 is None,
        r is Err ==> exists|i: int| 0 <= i < columns@.len() && reserved(#[trigger] columns@[i]),
        r matches Ok(Some(setup)) ==> {
            &&& setup.handle.table@ == name@
            &&& setup.handle.database@ == client.database@
            &&& setup.handle.schema@ == client.schema@
            &&& setup.handle.continuation_token is None
            &&& forall|i: int| 0 <= i < columns@.len() ==> !reserved(#[trigger] columns@[i])
        },
{
}

/// An opened table has its channel under its own identifier; no other table's channel changes.
pub proof fn law_opened_tables_have_channels(
    client: &mut Client,
    table: TableId,
    handle: ChannelHandle,
    opened: SnowflakeResult<OpenChannelResponse>,
    other: TableId,
    r: SnowflakeResult<()>,
)
    requires
        call_ensures(Client::table_opened, (client, table, handle, opened), r),
        other != table,
    ensures
        r is Ok <==> opened is Ok,
        opened matches Ok(a) ==> (final(client).channels.channel(table) matches Some(h)
            && h.channel == handle.channel && h.table == handle.table && h.continuation_token
            == Some(a.continuation_token) && h.last_offset_token == a.offset_token),
        final(client).channels.channel(other) == old(client).channels.channel(other),
        opened is Err ==> *final(client) == *old(client),
{
}

/// A refreshed table must have a channel, and keeps it with the new tokens.
pub proof fn law_refreshed_tables_keep_their_channel(
    client: &mut Client,
    table: TableId,
    opened: SnowflakeResult<OpenChannelResponse>,
    r: SnowflakeResult<()>,
)
    requires
        call_ensures(Client::refresh_table, (client, table, opened), r),
    ensures
        r is Ok <==> opened is Ok && old(client).channels.channel(table) is Some,
        r is Ok ==> (final(client).channels.channel(table) matches Some(h) && h.channel == old(
            client,
        ).channels.channel(table)->Some_0.channel && h.continuation_token == Some(
            opened->Ok_0.continuation_token,
        )),
        final(client).database == old(client).database,
        final(client).schema == old(client).schema,
{
}

/// A new client has no channels, and the database, the schema and the pipeline that it was given.
pub proof fn law_new_clients_have_no_channels(
    sql_client: SqlClient,
    database: String,
    schema: String,
    pipeline: PipelineId,
    table: TableId,
    r: Client,
)
    requires
        call_ensures(Client::with_clients, (sql_client, database, schema, pipeline), r),
    ensures
        r.database == database,
        r.schema == schema,
        r.pipeline_id == pipeline,
        r.sql_client == sql_client,
        r.channels.channel(table) is None,
{
}

} // verus!
