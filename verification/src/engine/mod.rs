//! The engine: configuration, state, and the decisions that its operations take.

pub mod archive;
pub mod batch;
pub mod builder;
pub mod cognitive;
pub mod config;
pub mod conflict;
pub mod dream;
pub mod graph;
pub mod ingest;
pub mod insertion;
pub mod inspect;
pub mod outcome;
pub mod query;
pub mod rerank;
pub mod state;
pub mod temporal;
