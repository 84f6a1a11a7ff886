//! The data that flows through a consolidation run.

use crate::binary64::Binary64;
use crate::time::Timestamp;
use crate::types::cognitive::EmbeddingFingerprint;
use crate::types::facts::Fact;
use vstd::prelude::*;

verus! {

/// How much a summary covers.
#[derive(Debug, Clone, Copy, PartialEq, Eq, PartialOrd, Ord, Hash, Structural)]
pub enum ConsolidationLevel {
    Cluster,
    Global,
}

/// A summary that is about to be stored.
#[derive(Debug, Clone, PartialEq, Eq)]
pub struct NewSummary {
    pub content: String,
    /// The bit patterns of the vector's single-precision components.
    pub embedding: Vec<u32>,
    pub level: ConsolidationLevel,
    pub source_fact_ids: Vec<i64>,
    pub scope_id: i64,
    pub created_at: Timestamp,
}

/// What a consolidation run read before it computes.
#[derive(Debug, Clone, PartialEq)]
pub struct Snapshot {
    /// The active facts; not loaded when over both caps.
    pub active_facts: Vec<Fact>,
    /// When the last run consolidated.
    pub last: Option<Timestamp>,
    /// When this run happens.
    pub now: Timestamp,
    /// There are too many facts for either pass.
    pub over_both_caps: bool,
}

/// What a consolidation run is going to write.
#[derive(Debug, Clone, PartialEq)]
pub struct ConsolidationPlan {
    pub dedup: DedupComputed,
    /// Clustering ran, as opposed to being skipped for too many facts.
    pub cluster_ran: bool,
    pub cluster_summaries: Vec<NewSummary>,
    pub global_summary: Option<NewSummary>,
    /// The identity of the summaries' vectors, if there are any.
    pub embedding_fingerprint: Option<EmbeddingFingerprint>,
    pub now: Timestamp,
}

/// A fact to expire, and the fact it was folded into.
#[derive(Debug, Clone, Copy, PartialEq, Eq, Structural)]
pub struct Expiry {
    pub loser: i64,
    pub survivor: i64,
}

/// What a dedup pass decided.
#[derive(Debug, Clone, PartialEq, Eq)]
pub struct DedupComputed {
    /// There were too many facts: nothing was decided, and the watermark stays.
    pub skipped: bool,
    pub expirations: Vec<Expiry>,
    /// Base importances that survivors take over.
    pub importance_updates: Vec<(i64, Binary64)>,
    /// Importance scores that survivors take over.
    pub importance_score_updates: Vec<(i64, Binary64)>,
}

impl DedupComputed {
    /// Nothing is to be written for dedup, and the watermark stays.
    pub open spec fn is_skip(self) -> bool {
        &&& self.skipped
        &&& self.expirations@.len() == 0
        &&& self.importance_updates@.len() == 0
        &&& self.importance_score_updates@.len() == 0
    }

    /// The decision of a pass that was skipped.
    pub fn skipped() -> (r: DedupComputed)
        ensures
            r.is_skip(),
    {
        DedupComputed {
            skipped: true,
            expirations: Vec::new(),
            importance_updates: Vec::new(),
            importance_score_updates: Vec::new(),
        }
    }
}

/// What a consolidation run did.
#[derive(Debug, Clone, Copy, PartialEq, Eq, Structural)]
pub struct ConsolidationStats {
    pub duplicates_removed: usize,
    pub clusters_created: usize,
    pub global_summaries: usize,
}

/// A skipped pass decides nothing, and says that it was skipped.
pub proof fn skipped_pass_decides_nothing(r: DedupComputed)
    requires
        call_ensures(DedupComputed::skipped, (), r),
    ensures
        r.skipped,
        r.expirations@.len() == 0,
        r.importance_updates@.len() == 0,
        r.importance_score_updates@.len() == 0,
{
}

} // verus!
