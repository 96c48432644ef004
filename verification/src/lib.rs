//! Verified core of a daily research-report pipeline: a deterministic
//! structured-text parser that recovers typed entities from loosely
//! formatted markdown, a search-result aggregator that merges and
//! deduplicates hits, an all-or-nothing analysis combiner, and the
//! assembly of the run and report entities.  Network calls, persistence
//! and HTTP handling live outside the library and hand it plain values.

pub mod analysis;
pub mod auth;
pub mod config;
pub mod engine;
pub mod enums;
pub mod errors;
pub mod events;
pub mod numbers;
pub mod parser;
pub mod prompts;
pub mod report;
pub mod requests;
pub mod search;
pub mod text;
