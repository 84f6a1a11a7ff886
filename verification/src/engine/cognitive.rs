//! Promotion of facts to wisdom.

use crate::engine::state::MemoryEngine;
use crate::error::MemoryError;
use crate::json::{json_empty_object, json_insert, json_is_object};
use crate::time::{utc_now, Timestamp};
use crate::types::cognitive::PromoteRequest;
use crate::types::facts::{NewFact, ROOT_SCOPE_ID};
use vstd::prelude::*;

verus! {

/// The members of a document, taken as an object: none when it is no object.
pub open spec fn members_or_none(value: serde_json::Value) -> Map<Seq<char>, serde_json::Value> {
    match crate::json::json_members(value) {
        Some(members) => members,
        None => Map::empty(),
    }
}

/// The fact is the one that a promotion stores: pinned, as of `now`, with the
/// request's metadata and, among it, how the promotion came about.
pub open spec fn is_promotion_of(fact: NewFact, req: PromoteRequest, now: Timestamp) -> bool {
    &&& fact.content@ == req.content@
    &&& fact.content_hash@.len() == 0
    &&& fact.embedding@ == req.embedding@
    &&& fact.fact_type == req.fact_type
    &&& fact.t_created == now
    &&& fact.t_expired is None
    &&& fact.t_valid is None
    &&& fact.t_invalid is None
    &&& fact.source_event_id is None
    &&& fact.scope_id == ROOT_SCOPE_ID
    &&& fact.base_importance == req.importance
    &&& fact.access_count == 0
    &&& fact.last_accessed == now
    &&& fact.is_pinned
    &&& crate::json::json_members(fact.metadata) == Some(
        members_or_none(req.metadata).insert("promotion_provenance"@, req.provenance),
    )
}

impl MemoryEngine {
    /// The fact that a promotion stores now. Its vector must have the engine's
    /// dimension. Its scope is the root until the store resolves the path.
    pub fn promote_with_lineage(&self, req: &PromoteRequest) -> (r: Result<NewFact, MemoryError>)
        ensures
            match r {
                Ok(fact) => req.embedding@.len() == self.embed_dim && fact.t_created.valid()
                    && is_promotion_of(fact, *req, fact.t_created),
                Err(e) => req.embedding@.len() != self.embed_dim && e
                    == (MemoryError::EmbeddingDimension {
                    expected: self.embed_dim,
                    actual: req.embedding@.len() as usize,
                }),
            },
    {
        self.promoted_at(req, utc_now())
    }

    /// The fact that a promotion stores at `now`.
    pub fn promoted_at(&self, req: &PromoteRequest, now: Timestamp) -> (r: Result<
        NewFact,
        MemoryError,
    >)
        ensures
            match r {
                Ok(fact) => req.embedding@.len() == self.embed_dim && is_promotion_of(
                    fact,
                    *req,
                    now,
                ),
                Err(e) => req.embedding@.len() != self.embed_dim && e
                    == (MemoryError::EmbeddingDimension {
                    expected: self.embed_dim,
                    actual: req.embedding@.len() as usize,
                }),
            },
    {
        let actual: usize = req.embedding.len();
        if actual != self.embed_dim {
            return Err(MemoryError::EmbeddingDimension { expected: self.embed_dim, actual });
        }
        let mut metadata = if json_is_object(&req.metadata) {
            req.metadata.clone()
        } else {
            json_empty_object()
        };
        json_insert(&mut metadata, "promotion_provenance", req.provenance.clone());
        Ok(
            NewFact {
                content: req.content.clone(),
                content_hash: String::new(),
                embedding: req.embedding.clone(),
                fact_type: req.fact_type,
                t_created: now,
                t_expired: None,
                t_valid: None,
                t_invalid: None,
                source_event_id: None,
                scope_id: ROOT_SCOPE_ID,
                base_importance: req.importance,
                access_count: 0,
                last_accessed: now,
                metadata,
                is_pinned: true,
            },
        )
    }
}

/// Promotion keeps every member of the metadata but the one it writes.
pub proof fn promotion_keeps_other_metadata(
    fact: NewFact,
    req: PromoteRequest,
    now: Timestamp,
    name: Seq<char>,
)
    requires
        is_promotion_of(fact, req, now),
        name != "promotion_provenance"@,
    ensures
        members_or_none(fact.metadata).contains_key(name) <==> members_or_none(
            req.metadata,
        ).contains_key(name),
        members_or_none(fact.metadata).contains_key(name) ==> members_or_none(fact.metadata)[name]
            == members_or_none(req.metadata)[name],
        members_or_none(fact.metadata)["promotion_provenance"@] == req.provenance,
{
}

/// A promoted fact says what its request says, is pinned, holds from now on without
/// bounds, and tells among its metadata how it came about. It needs a vector of the
/// engine's dimension and nothing else.
pub proof fn promoted_fact_says_what_was_asked(
    engine: &MemoryEngine,
    req: &PromoteRequest,
    now: Timestamp,
    r: Result<NewFact, MemoryError>,
)
    requires
        call_ensures(MemoryEngine::promoted_at, (engine, req, now), r),
    ensures
        r is Ok <==> req.embedding@.len() == engine.embed_dim,
        r matches Ok(fact) ==> {
            &&& fact.content@ == req.content@
            &&& fact.embedding@ == req.embedding@
            &&& fact.fact_type == req.fact_type
            &&& fact.base_importance == req.importance
            &&& fact.is_pinned
            &&& fact.t_created == now
            &&& fact.last_accessed == now
            &&& fact.t_expired is None && fact.t_valid is None && fact.t_invalid is None
            &&& fact.source_event_id is None
            &&& fact.scope_id == 1
            &&& fact.access_count == 0
            &&& crate::json::json_members(fact.metadata) is Some
            &&& crate::json::json_members(fact.metadata)->0.contains_key("promotion_provenance"@)
            &&& crate::json::json_members(fact.metadata)->0["promotion_provenance"@]
                == req.provenance
        },
        r matches Err(e) ==> e == (MemoryError::EmbeddingDimension {
            expected: engine.embed_dim,
            actual: req.embedding@.len() as usize,
        }),
{
}

/// Promotion keeps the metadata of the request, member by member, and adds nothing
/// but how it came about. Metadata that is no object is not kept.
pub proof fn promotion_keeps_the_metadata(
    engine: &MemoryEngine,
    req: &PromoteRequest,
    now: Timestamp,
    fact: NewFact,
    name: Seq<char>,
)
    requires
        call_ensures(
            MemoryEngine::promoted_at,
            (engine, req, now),
            Ok::<NewFact, MemoryError>(fact),
        ),
        name != "promotion_provenance"@,
    ensures
        crate::json::json_members(req.metadata) matches Some(own) ==> {
            &&& crate::json::json_members(fact.metadata)->0.contains_key(name)
                <==> own.contains_key(name)
            &&& own.contains_key(name) ==> crate::json::json_members(fact.metadata)->0[name]
                == own[name]
        },
        crate::json::json_members(req.metadata) is None ==> !crate::json::json_members(
            fact.metadata,
        )->0.contains_key(name),
{
}

/// A promotion as of now says what its request says, at some instant of the calendar.
pub proof fn promotion_happens_now(
    engine: &MemoryEngine,
    req: &PromoteRequest,
    r: Result<NewFact, MemoryError>,
)
    requires
        call_ensures(MemoryEngine::promote_with_lineage, (engine, req), r),
    ensures
        r is Ok <==> req.embedding@.len() == engine.embed_dim,
        r matches Ok(fact) ==> {
            &&& fact.t_created.valid()
            &&& fact.last_accessed == fact.t_created
            &&& fact.content@ == req.content@
            &&& fact.embedding@ == req.embedding@
            &&& fact.fact_type == req.fact_type
            &&& fact.base_importance == req.importance
            &&& fact.is_pinned
            &&& fact.scope_id == 1
            &&& crate::json::json_members(fact.metadata)->0["promotion_provenance"@]
                == req.provenance
        },
        r matches Err(e) ==> e is EmbeddingDimension,
{
}

} // verus!
