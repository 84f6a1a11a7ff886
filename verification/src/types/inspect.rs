//! Statistics and exports.

use crate::types::cognitive::EmbeddingFingerprint;
use crate::types::consolidation::ConsolidationLevel;
use std::collections::BTreeMap;
use vstd::prelude::*;

verus! {

/// Where a full dump goes, and in which form.
#[derive(Debug, Clone, PartialEq, Eq)]
#[non_exhaustive]
pub enum DumpFormat {
    Json(String),
    JsonGzip(String),
    JsonZstd(String),
    /// An atomic copy of the database.
    Sqlite(String),
}

/// Statistics of the whole engine.
#[derive(Debug, Clone, PartialEq, Eq)]
pub struct EngineStatistics {
    pub facts: FactStats,
    pub edges: EdgeStats,
    pub summaries: SummaryStats,
    pub scopes: ScopeStats,
    pub events: EventStats,
    pub storage: StorageStats,
}

/// Statistics of the facts.
#[derive(Debug, Clone, Copy, PartialEq, Eq, Structural)]
pub struct FactStats {
    pub total: i64,
    pub active: i64,
    pub expired: i64,
    pub pinned: i64,
    pub due: i64,
}

/// Statistics of the edges.
#[derive(Debug, Clone, Copy, PartialEq, Eq, Structural)]
pub struct EdgeStats {
    pub total: i64,
    pub active: i64,
    pub expired: i64,
}

/// Statistics of the summaries.
#[derive(Debug, Clone, PartialEq, Eq)]
pub struct SummaryStats {
    pub total: i64,
    pub by_level: BTreeMap<ConsolidationLevel, i64>,
}

/// Statistics of the scope tree.
#[derive(Debug, Clone, Copy, PartialEq, Eq, Structural)]
pub struct ScopeStats {
    pub total: i64,
    pub max_depth: i64,
}

/// Statistics of the event log.
#[derive(Debug, Clone, Copy, PartialEq, Eq, Structural)]
pub struct EventStats {
    pub total: i64,
}

/// Statistics of the storage.
#[derive(Debug, Clone, PartialEq, Eq)]
pub struct StorageStats {
    pub page_count: i64,
    pub page_size: i64,
    /// The size of the main file, without its sidecars.
    pub main_db_bytes: i64,
    pub file_path: Option<String>,
}

/// One embedding space of an exported store.
#[derive(Debug, Clone, PartialEq, Eq)]
pub struct EmbeddingSpaceSnapshot {
    pub name: String,
    pub status: String,
    pub fingerprint: EmbeddingFingerprint,
}

/// One vector of an exported store, in a space that does not serve.
#[derive(Debug, Clone, PartialEq, Eq)]
pub struct FactVectorSnapshot {
    pub fact_id: i64,
    pub space_id: String,
    /// The bit patterns of the vector's single-precision components.
    pub embedding: Vec<u32>,
}

} // verus!
