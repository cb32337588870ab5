//! Connection parameters.
use vstd::prelude::*;

use crate::text::{cat3, to_unicode_uppercase, uppercased};

verus! {

/// How long a connection may take to be made, in seconds.
pub const HTTP_CONNECT_TIMEOUT_SECS: u64 = 15;

/// How long a request may take, in seconds.
pub const HTTP_REQUEST_TIMEOUT_SECS: u64 = 90;

/// Connection parameters for a Snowflake account.
#[derive(Debug)]
pub struct Config {
    /// Full Snowflake account URL, always HTTPS.
    pub account_url: String,
    /// Snowflake account identifier (e.g. `ORGNAME-ACCTNAME`).
    pub account_id: String,
    /// Snowflake login name used for key-pair authentication.
    pub username: String,
    /// Target database for all operations.
    pub database: String,
    /// Target schema within the database.
    pub schema: String,
    /// Snowflake role to assume after connecting.
    ///
    /// When `None`, the user's default role is used.
    pub role: Option<String>,
}

/// The address of an account whose identifier is already in uppercase.
pub open spec fn url_of_account(upper: Seq<char>) -> Seq<char> {
    "https://"@ + upper + ".snowflakecomputing.com"@
}

/// Returns the address of an account whose identifier is already in uppercase.
pub fn account_url_of(upper: &str) -> (r: String)
    ensures
        r@ == url_of_account(upper@),
{
    cat3("https://", upper, ".snowflakecomputing.com")
}

impl Config {
    /// Create a config with the required connection parameters.
    pub fn new(account_id: &str, username: &str, database: &str, schema: &str) -> (r: Self)
        ensures
            r.account_url@ == url_of_account(uppercased(account_id@)),
            r.account_id@ == account_id@,
            r.username@ == username@,
            r.database@ == database@,
            r.schema@ == schema@,
            r.role is None,
    {
        let upper = to_unicode_uppercase(account_id);
        let account_url = account_url_of(upper.as_str());
        Config {
            account_url,
            account_id: account_id.to_owned(),
            username: username.to_owned(),
            database: database.to_owned(),
            schema: schema.to_owned(),
            role: None,
        }
    }

    /// HTTPS-only account URL used for all API requests.
    pub fn account_url(&self) -> (r: &str)
        ensures
            r@ == self.account_url@,
    {
        self.account_url.as_str()
    }

    /// Target database name.
    pub fn database(&self) -> (r: &str)
        ensures
            r@ == self.database@,
    {
        self.database.as_str()
    }

    /// Target schema name.
    pub fn schema(&self) -> (r: &str)
        ensures
            r@ == self.schema@,
    {
        self.schema.as_str()
    }

    /// Set the role to assume after connecting.
    pub fn with_role(self, role: &str) -> (r: Self)
        ensures
            r.account_url == self.account_url,
            r.account_id == self.account_id,
            r.username == self.username,
            r.database == self.database,
            r.schema == self.schema,
            r.role matches Some(s) && s@ == role@,
    {
        Config {
            account_url: self.account_url,
            account_id: self.account_id,
            username: self.username,
            database: self.database,
            schema: self.schema,
            role: Some(role.to_owned()),
        }
    }
}

/// An account is reached under its identifier in uppercase.
pub proof fn law_accounts_have_these_addresses(
    account_id: &str,
    username: &str,
    database: &str,
    schema: &str,
    r: Config,
)
    requires
        call_ensures(Config::new, (account_id, username, database, schema), r),
    ensures
        r.account_url@ == "https://"@ + uppercased(account_id@) + ".snowflakecomputing.com"@,
        r.account_id@ == account_id@,
        r.username@ == username@,
        r.database@ == database@,
        r.schema@ == schema@,
        r.role is None,
{
}

/// An account's address is its name under Snowflake's domain; a role changes nothing else.
pub proof fn law_accounts_and_roles(
    upper: &str,
    url: String,
    config: Config,
    role: &str,
    with: Config,
)
    requires
        call_ensures(account_url_of, (upper,), url),
        call_ensures(Config::with_role, (config, role), with),
    ensures
        url@ == "https://"@ + upper@ + ".snowflakecomputing.com"@,
        with.role matches Some(r) && r@ == role@,
        with.account_url == config.account_url,
        with.account_id == config.account_id,
        with.username == config.username,
        with.database == config.database,
        with.schema == config.schema,
{
}

/// A configuration is read as it is.
pub proof fn law_configurations_are_read_as_they_are(
    config: &Config,
    url: &str,
    database: &str,
    schema: &str,
)
    requires
        call_ensures(Config::account_url, (config,), url),
        call_ensures(Config::database, (config,), database),
        call_ensures(Config::schema, (config,), schema),
    ensures
        url@ == config.account_url@,
        database@ == config.database@,
        schema@ == config.schema@,
{
}

} // verus!
