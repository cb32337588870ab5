//! Decision logic of a Postgres change-data-capture pipeline: what is written to
//! each destination, in which order, and how outside failures are classified.
pub mod batching;
pub mod benchmark;
pub mod bigquery;
pub mod cell;
pub mod clickhouse;
pub mod error;
pub mod event;
pub mod iceberg;
pub mod names;
pub mod publications;
pub mod schema;
pub mod snowflake;
pub mod startup;
pub mod steps;
pub mod stream;
pub mod table_name;
pub mod text;
pub mod time;
