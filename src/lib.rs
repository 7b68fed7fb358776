//! Tree engine, navigation state machine and ingestion decisions for a
//! terminal browser of a hierarchical group/project catalog.
pub mod text;
pub mod tree;
pub mod filter;
pub mod config;
pub mod nav;
pub mod records;
pub mod forest;
pub mod laws;
pub mod loader;
pub mod sinks;
pub mod keys;
pub mod sample;
pub mod display;
pub mod cache;
pub mod ingest;
