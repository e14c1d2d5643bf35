//! Sync job engine and ingestion router for a personal-data platform.
//!
//! The crate holds the decision logic of the platform as plain data
//! structures with machine-checked contracts: the connector registry, the
//! checkpoint store, the job ledger with its one-live-job-per-stream rule,
//! the sync engine that drives a job through its lifecycle, and the
//! ingestion router for pushed batches. Transport, storage engines and the
//! connectors themselves live outside and talk to these types through plain
//! values.

pub mod text;
pub mod number;
pub mod job;
pub mod ledger;
pub mod checkpoint;
pub mod registry;
pub mod sources;
pub mod engine;
pub mod laws;
pub mod ingest;
pub mod oauth;
pub mod state;
pub mod api;
pub mod cli;
