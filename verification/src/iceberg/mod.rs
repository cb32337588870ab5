//! Iceberg: changelog tables with one row per change.
pub mod columns;
pub mod events;
pub mod namespace;
pub mod plan;
