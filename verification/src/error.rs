//! What can go wrong.

use crate::binary64::Binary64;
use crate::types::cognitive::EmbeddingFingerprint;
use vstd::prelude::*;

verus! {

/// A request that clashes with a rule of the store.
#[derive(Debug, Clone, PartialEq, Eq)]
pub enum ConflictError {
    /// A field is larger than the store accepts.
    PayloadTooLarge { kind: &'static str, size: usize, limit: usize },
    /// A numeric parameter is out of the range that `rule` states.
    PolicyParameter { rule: String, got: Binary64 },
    /// A scope path holds an invalid label.
    ScopeLabel(String),
}

/// A store that does not fit the way it is opened.
#[derive(Debug, Clone, PartialEq, Eq)]
pub enum MigrationError {
    /// The store holds vectors of another dimension.
    EmbedDimMismatch { stored: usize, requested: usize },
    /// The store holds something that cannot be read.
    Incompatible(String),
}

/// A reranker that broke its contract.
#[derive(Debug, Clone, PartialEq, Eq)]
pub enum RerankerError {
    /// More results came back than candidates went in.
    OutputTooLong { output_len: usize, input_len: usize },
    /// A result names a candidate that does not exist.
    OutOfBoundsIndex { index: usize, num_candidates: usize },
    /// Two results name the same candidate.
    DuplicateIndex { index: usize },
    /// A result's score is infinite or not a number.
    NonFiniteScore { score: Binary64, index: usize },
    /// The reranker itself failed.
    Provider(String),
}

/// An archive operation that cannot be done.
#[derive(Debug, Clone, PartialEq, Eq)]
pub enum ArchiveError {
    /// The engine has no database file.
    NotFileBacked(String),
    /// A path or a file is unusable.
    Io(String),
}

/// A dream cycle that did not keep to its contract.
#[derive(Debug, Clone, Copy, PartialEq, Eq, Structural)]
pub enum CycleError {
    /// The cycle selected facts but says of none that it was processed.
    MalformedReport { facts_selected: usize },
}

/// Any failure of the engine.
#[derive(Debug, Clone, PartialEq, Eq)]
pub enum MemoryError {
    Conflict(ConflictError),
    Migration(MigrationError),
    Reranker(RerankerError),
    Archive(ArchiveError),
    Cycle(CycleError),
    /// The thing asked for does not exist.
    NotFound(String),
    /// The engine was opened read-only.
    ReadOnly,
    /// A vector has another dimension than the engine.
    EmbeddingDimension { expected: usize, actual: usize },
    /// A vector comes from another model than the store's.
    EmbeddingModelMismatch { stored: EmbeddingFingerprint, offered: EmbeddingFingerprint },
    /// The store was rebuilt at another dimension: reopen it there.
    EmbeddingReopenRequired { new_dim: usize },
    /// A file-backed engine cannot have this many read connections.
    Pool { read_pool_size: usize },
    /// A partner broke its contract.
    Internal(String),
    /// The storage backend failed.
    Storage(String),
    /// Reading or writing a file failed.
    Io(String),
}

} // verus!
