//! Facts, and requests to add them.

use crate::binary64::Binary64;
use crate::time::Timestamp;
use vstd::prelude::*;

verus! {

/// A fact's place in the store.
pub type FactId = i64;

/// The root of the scope tree.
pub const ROOT_SCOPE_ID: i64 = 1;

/// What kind of knowledge a fact is.
#[derive(Debug, Clone, Copy, PartialEq, Eq, PartialOrd, Ord, Hash, Structural)]
pub enum FactType {
    Episodic,
    Semantic,
    Procedural,
}

/// A stored fact.
///
/// `embedding` holds the bit patterns of the vector's single-precision
/// components.
#[derive(Debug, Clone, PartialEq)]
pub struct Fact {
    pub id: FactId,
    pub content: String,
    pub content_hash: String,
    pub embedding: Vec<u32>,
    pub fact_type: FactType,
    pub t_created: Timestamp,
    pub t_expired: Option<Timestamp>,
    pub t_valid: Option<Timestamp>,
    pub t_invalid: Option<Timestamp>,
    pub source_event_id: Option<i64>,
    pub base_importance: Binary64,
    pub access_count: i64,
    pub last_accessed: Timestamp,
    pub metadata: serde_json::Value,
    pub scope_id: i64,
    pub is_pinned: bool,
    pub importance_score: Binary64,
    pub surfaced_at: Option<Timestamp>,
}

/// A fact that is about to be stored.
#[derive(Debug, Clone, PartialEq)]
pub struct NewFact {
    pub content: String,
    pub content_hash: String,
    pub embedding: Vec<u32>,
    pub fact_type: FactType,
    pub t_created: Timestamp,
    pub t_expired: Option<Timestamp>,
    pub t_valid: Option<Timestamp>,
    pub t_invalid: Option<Timestamp>,
    pub source_event_id: Option<i64>,
    pub scope_id: i64,
    pub base_importance: Binary64,
    pub access_count: i64,
    pub last_accessed: Timestamp,
    pub metadata: serde_json::Value,
    pub is_pinned: bool,
}

/// What a caller may say of a fact beyond its content. Whatever is left open,
/// the engine decides.
#[derive(Debug, Clone, PartialEq)]
pub struct AddFactOptions {
    pub base_importance: Option<Binary64>,
    pub t_created: Option<Timestamp>,
    pub last_accessed: Option<Timestamp>,
    pub t_valid: Option<Timestamp>,
    pub t_invalid: Option<Timestamp>,
    pub metadata: Option<serde_json::Value>,
    pub pinned: Option<bool>,
}

/// A request to add a fact.
#[derive(Debug, Clone, PartialEq)]
pub struct AddFactRequest {
    pub content: String,
    pub fact_type: FactType,
    pub source_event_id: Option<i64>,
    /// The scope path; `None` is the root.
    pub scope: Option<String>,
    pub opts: Option<AddFactOptions>,
}

/// What a persistence classifier may look at.
#[derive(Debug, Clone, PartialEq)]
pub struct ClassifierInput {
    pub content: String,
    pub fact_type: FactType,
    pub base_importance: Binary64,
    pub metadata: serde_json::Value,
}

/// Bit pattern of 0.5, the importance score of a fact that has not been scored.
pub const UNSCORED_IMPORTANCE_BITS: u64 = 0x3FE0_0000_0000_0000;

impl Fact {
    /// The fact is the new one as an arbiter sees it: without an id and without a
    /// score.
    pub open spec fn shows(self, new: NewFact) -> bool {
        &&& self.id == 0
        &&& self.content@ == new.content@
        &&& self.content_hash@ == new.content_hash@
        &&& self.embedding@ == new.embedding@
        &&& self.fact_type == new.fact_type
        &&& self.t_created == new.t_created
        &&& self.t_expired == new.t_expired
        &&& self.t_valid == new.t_valid
        &&& self.t_invalid == new.t_invalid
        &&& self.source_event_id == new.source_event_id
        &&& self.base_importance == new.base_importance
        &&& self.access_count == new.access_count
        &&& self.last_accessed == new.last_accessed
        &&& self.metadata == new.metadata
        &&& self.scope_id == new.scope_id
        &&& self.is_pinned == new.is_pinned
        &&& self.importance_score == (Binary64 { bits: UNSCORED_IMPORTANCE_BITS })
        &&& self.surfaced_at is None
    }

    /// A new fact as an arbiter sees it. Its id is 0 and its score that of a fact
    /// that has not been scored, as it is in no store yet.
    pub fn from_new_for_arbiter(new: &NewFact) -> (r: Fact)
        ensures
            r.shows(*new),
    {
        Fact {
            id: 0,
            content: new.content.clone(),
            content_hash: new.content_hash.clone(),
            embedding: new.embedding.clone(),
            fact_type: new.fact_type,
            t_created: new.t_created,
            t_expired: new.t_expired,
            t_valid: new.t_valid,
            t_invalid: new.t_invalid,
            source_event_id: new.source_event_id,
            base_importance: new.base_importance,
            access_count: new.access_count,
            last_accessed: new.last_accessed,
            metadata: new.metadata.clone(),
            scope_id: new.scope_id,
            is_pinned: new.is_pinned,
            importance_score: Binary64 { bits: UNSCORED_IMPORTANCE_BITS },
            surfaced_at: None,
        }
    }
}

impl Default for AddFactOptions {
    fn default() -> (r: AddFactOptions)
        ensures
            r.base_importance is None,
            r.t_created is None,
            r.last_accessed is None,
            r.t_valid is None,
            r.t_invalid is None,
            r.metadata is None,
            r.pinned is None,
    {
        AddFactOptions {
            base_importance: None,
            t_created: None,
            last_accessed: None,
            t_valid: None,
            t_invalid: None,
            metadata: None,
            pinned: None,
        }
    }
}

/// An arbiter sees a new fact with everything that it says, and without an id, a score
/// or a time of surfacing.
pub proof fn arbiter_view_keeps_every_field(new: &NewFact, r: Fact)
    requires
        call_ensures(Fact::from_new_for_arbiter, (new,), r),
    ensures
        r.id == 0,
        r.content@ == new.content@,
        r.content_hash@ == new.content_hash@,
        r.embedding@ == new.embedding@,
        r.fact_type == new.fact_type,
        r.t_created == new.t_created,
        r.t_expired == new.t_expired,
        r.t_valid == new.t_valid,
        r.t_invalid == new.t_invalid,
        r.source_event_id == new.source_event_id,
        r.base_importance == new.base_importance,
        r.access_count == new.access_count,
        r.last_accessed == new.last_accessed,
        r.metadata == new.metadata,
        r.scope_id == new.scope_id,
        r.is_pinned == new.is_pinned,
        r.importance_score.bits == 0x3FE0_0000_0000_0000,
        r.surfaced_at is None,
{
}

} // verus!
