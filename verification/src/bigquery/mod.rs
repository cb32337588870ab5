//! BigQuery: versioned tables behind views, change rows keyed by the primary key.
pub mod table_id;
pub mod rows;
pub mod batches;
pub mod events;
pub mod client;
pub mod append;
pub mod retry;
pub mod plan;
pub mod requests;
