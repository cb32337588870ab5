//! ClickHouse: append-only change tables, or tables that merge changes by key.
pub mod cache;
pub mod config;
pub mod sql;
pub mod rows;
pub mod events;
pub mod flush;
pub mod plan;
