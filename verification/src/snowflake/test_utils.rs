//! What integration tests are configured with.
use vstd::prelude::*;

use crate::snowflake::config::{url_of_account, Config};
use crate::snowflake::sql_client::StatementResponse;
use crate::text::uppercased;

verus! {

/// Snowflake account identifier (e.g. `org-account`).
pub const SNOWFLAKE_ACCOUNT_ENV: &'static str = "TESTS_SNOWFLAKE_ACCOUNT";

/// Snowflake login user name.
pub const SNOWFLAKE_USER_ENV: &'static str = "TESTS_SNOWFLAKE_USER";

/// Path to the PEM-encoded private key used for key-pair authentication.
pub const SNOWFLAKE_PRIVATE_KEY_PATH_ENV: &'static str = "TESTS_SNOWFLAKE_PRIVATE_KEY_PATH";

/// Target database. Falls back to `ETL_DEV` when unset.
pub const SNOWFLAKE_DATABASE_ENV: &'static str = "TESTS_SNOWFLAKE_DATABASE";

/// Target schema. Falls back to `PUBLIC` when unset.
pub const SNOWFLAKE_SCHEMA_ENV: &'static str = "TESTS_SNOWFLAKE_SCHEMA";

/// Optional role to assume after connecting.
pub const SNOWFLAKE_ROLE_ENV: &'static str = "TESTS_SNOWFLAKE_ROLE";

/// Database where none is set.
pub const DEFAULT_DATABASE: &'static str = "ETL_DEV";

/// Schema where none is set.
pub const DEFAULT_SCHEMA: &'static str = "PUBLIC";

/// Makes the configuration for integration tests of what the environment sets.
pub fn load_test_config(
    account_id: &str,
    username: &str,
    database: Option<&str>,
    schema: Option<&str>,
    role: Option<&str>,
) -> (r: Config)
    ensures
        r.account_url@ == url_of_account(uppercased(account_id@)),
        r.account_id@ == account_id@,
        r.username@ == username@,
        r.database@ == match database {
            Some(s) => s@,
            None => DEFAULT_DATABASE@,
        },
        r.schema@ == match schema {
            Some(s) => s@,
            None => DEFAULT_SCHEMA@,
        },
        match role {
            Some(s) => r.role matches Some(given) && given@ == s@,
            None => r.role is None,
        },
{
    let database = match database {
        Some(s) => s,
        None => DEFAULT_DATABASE,
    };
    let schema = match schema {
        Some(s) => s,
        None => DEFAULT_SCHEMA,
    };
    let config = Config::new(account_id, username, database, schema);
    match role {
        Some(role) => config.with_role(role),
        None => config,
    }
}

/// Returns the result rows of a query.
pub fn query_rows(response: StatementResponse) -> (r: Vec<Vec<String>>)
    ensures
        match response.data {
            Some(rows) => r == rows,
            None => r@.len() == 0,
        },
{
    match response.data {
        Some(rows) => rows,
        None => Vec::new(),
    }
}

/// Rows that were not answered are none.
pub proof fn law_answered_rows_are_read(response: StatementResponse, r: Vec<Vec<String>>)
    requires
        call_ensures(query_rows, (response,), r),
    ensures
        response.data matches Some(rows) ==> r == rows,
        response.data is None ==> r@.len() == 0,
{
}

} // verus!
