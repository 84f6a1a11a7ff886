//! The verified core of a long-term memory engine for agents.

pub mod binary64;
pub mod bootstrap;
pub mod consolidation;
pub mod engine;
pub mod error;
pub mod graph;
pub mod json;
pub mod limits;
pub mod paths;
pub mod scope_tree;
pub mod test_util;
pub mod text;
pub mod time;
pub mod types;
