//! Snowflake: tables of changes, filled through streaming channels.
pub mod client;
pub mod config;
pub mod destination;
pub mod encoding;
pub mod error;
pub mod schema;
pub mod sql_client;
pub mod stream;
pub mod streaming;
pub mod test_utils;
