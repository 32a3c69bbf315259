//! Correlation-and-safety-gated-termination engine.
//!
//! The crate fuses socket records, process metadata and container metadata
//! into a deduplicated list of process nodes, and drives process termination
//! through a layered safety protocol.  Raw OS enumeration, the container
//! runtime RPC and the UI transport live outside this library; they hand in
//! and take back plain values.

pub mod containers;
pub mod engine;
pub mod models;
pub mod safety;
pub mod strutil;
pub mod terminator;
