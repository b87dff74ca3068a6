//! An in-memory bucket-management store: named buckets with a little
//! metadata, created, read, updated and deleted under exact contracts.

pub mod errors;
pub mod flows;
pub mod laws;
pub mod models;
pub mod order;
pub mod server;
pub mod storage;
pub mod table;
