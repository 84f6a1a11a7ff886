//! Adding one fact, step by step.
//!
//! What has to be asked of the world, the insertion asks one thing at a time: a
//! vector of the embedder, a pin of the classifier, a scope of the store. In the
//! end it hands out the fact to be stored.

use crate::engine::ingest::{new_fact_of, pin_step, PinStep};
use crate::engine::state::MemoryEngine;
use crate::error::MemoryError;
use crate::time::{utc_now, Timestamp};
use crate::types::facts::{AddFactRequest, ClassifierInput, NewFact, ROOT_SCOPE_ID};
use vstd::prelude::*;

verus! {

/// A fact on its way into the store.
#[derive(Debug, Clone, PartialEq)]
pub struct FactInsertion {
    pub req: AddFactRequest,
    pub has_classifier: bool,
    /// The vector, and the time at which it was there.
    pub vector: Option<(Vec<u32>, Timestamp)>,
    /// What the classifier said.
    pub pin: Option<bool>,
    /// What the store said of the scope.
    pub scope_id: Option<i64>,
}

/// What an insertion asks for next.
#[derive(Debug, Clone, PartialEq)]
pub enum InsertAction {
    /// A vector for this text.
    Embed(String),
    /// A pin from the classifier.
    Classify(ClassifierInput),
    /// The id of the scope with this path, made where it is missing.
    EnsureScope(String),
    /// Nothing more: this fact is to be stored.
    Insert(NewFact),
}

impl FactInsertion {
    /// The pin, as far as it is known: what the request says; else, without a
    /// classifier, no pin; else what the classifier said.
    pub open spec fn known_pin(self) -> Option<bool> {
        match crate::engine::ingest::asked_pin(self.req) {
            Some(p) => Some(p),
            None => if self.has_classifier {
                self.pin
            } else {
                Some(false)
            },
        }
    }

    /// The scope, as far as it is known. Without a path it is the root.
    pub open spec fn known_scope(self) -> Option<i64> {
        if self.req.scope is None {
            Some(ROOT_SCOPE_ID)
        } else {
            self.scope_id
        }
    }

    /// The action is what this insertion asks for: the first thing that is not
    /// known of vector, pin and scope, and in the end the fact.
    pub open spec fn asks_for(self, action: InsertAction) -> bool {
        match action {
            InsertAction::Embed(text) => self.vector is None && text@ == self.req.content@,
            InsertAction::Classify(input) => {
                &&& self.vector is Some
                &&& self.known_pin() is None
                &&& crate::engine::ingest::is_input_of(input, self.req)
            },
            InsertAction::EnsureScope(path) => {
                &&& self.vector is Some
                &&& self.known_pin() is Some
                &&& self.known_scope() is None
                &&& path@ == self.req.scope->0@
            },
            InsertAction::Insert(fact) => {
                &&& self.vector is Some
                &&& self.known_pin() is Some
                &&& self.known_scope() is Some
                &&& fact.embedding@ == (self.vector->0).0@
                &&& crate::engine::ingest::is_fact_of(
                    fact,
                    self.req,
                    fact.embedding,
                    self.known_scope()->0,
                    self.known_pin()->0,
                    (self.vector->0).1,
                )
            },
        }
    }

    /// What the insertion asks for next.
    pub fn next(&self) -> (action: InsertAction)
        ensures
            self.asks_for(action),
            action matches InsertAction::Insert(fact) ==> {
                &&& fact.content@ == self.req.content@
                &&& fact.fact_type == self.req.fact_type
                &&& fact.source_event_id == self.req.source_event_id
                &&& self.req.opts matches Some(o) ==> {
                    &&& fact.t_valid == o.t_valid
                    &&& fact.t_invalid == o.t_invalid
                    &&& o.t_created matches Some(t) ==> fact.t_created == t
                    &&& o.last_accessed matches Some(t) ==> fact.last_accessed == t
                    &&& o.base_importance matches Some(v) ==> fact.base_importance == v
                    &&& o.metadata matches Some(m) ==> fact.metadata == m
                    &&& o.pinned matches Some(p) ==> fact.is_pinned == p
                }
            },
    {
        let (embedding, now) = match &self.vector {
            None => return InsertAction::Embed(self.req.content.clone()),
            Some(v) => (v.0.clone(), v.1),
        };
        let is_pinned = match pin_step(&self.req, self.has_classifier) {
            PinStep::Known(p) => p,
            PinStep::Ask(input) => match self.pin {
                None => return InsertAction::Classify(input),
                Some(p) => p,
            },
        };
        let scope_id: i64 = match &self.req.scope {
            None => ROOT_SCOPE_ID,
            Some(path) => match self.scope_id {
                None => return InsertAction::EnsureScope(path.clone()),
                Some(id) => id,
            },
        };
        InsertAction::Insert(new_fact_of(&self.req, embedding, scope_id, is_pinned, now))
    }

    /// Goes on with the vector that the embedder made.
    pub fn embedded(self, embedding: Vec<u32>) -> (r: FactInsertion)
        ensures
            r.vector matches Some(v) && v.0 == embedding && v.1.valid() && r == (FactInsertion {
                vector: Some((embedding, v.1)),
                ..self
            }),
    {
        FactInsertion { vector: Some((embedding, utc_now())), ..self }
    }

    /// Goes on with what the classifier said.
    pub fn classified(self, pin: bool) -> (r: FactInsertion)
        ensures
            r == (FactInsertion { pin: Some(pin), ..self }),
    {
        FactInsertion { pin: Some(pin), ..self }
    }

    /// Goes on with the id of the scope.
    pub fn scope_ensured(self, scope_id: i64) -> (r: FactInsertion)
        ensures
            r == (FactInsertion { scope_id: Some(scope_id), ..self }),
    {
        FactInsertion { scope_id: Some(scope_id), ..self }
    }
}

impl MemoryEngine {
    /// Starts to add a fact, if the engine need not be reopened and the request
    /// is acceptable.
    pub fn add_fact(&self, req: AddFactRequest, has_classifier: bool) -> (r: Result<
        FactInsertion,
        MemoryError,
    >)
        ensures
            r is Ok <==> !self.fenced() && crate::engine::ingest::acceptable(req),
            match r {
                Ok(insertion) => insertion == (FactInsertion {
                    req,
                    has_classifier,
                    vector: None,
                    pin: None,
                    scope_id: None,
                }),
                Err(e) => if self.fenced() {
                    e == (MemoryError::EmbeddingReopenRequired { new_dim: self.reopen_required })
                } else {
                    crate::engine::ingest::says_why_refused(e, req)
                },
            },
    {
        match self.check_add_fact(&req) {
            Ok(()) => Ok(
                FactInsertion { req, has_classifier, vector: None, pin: None, scope_id: None },
            ),
            Err(e) => Err(e),
        }
    }

    /// Starts to add a fact whose vector the caller brings, under the same
    /// conditions as [`MemoryEngine::add_fact`].
    pub fn add_fact_precomputed(
        &self,
        req: AddFactRequest,
        embedding: Vec<u32>,
        has_classifier: bool,
    ) -> (r: Result<FactInsertion, MemoryError>)
        ensures
            r is Ok <==> !self.fenced() && crate::engine::ingest::acceptable(req),
            match r {
                Ok(insertion) => (insertion.vector matches Some(v) && v.0 == embedding
                    && v.1.valid() && insertion == (FactInsertion {
                    req,
                    has_classifier,
                    vector: Some((embedding, v.1)),
                    pin: None,
                    scope_id: None,
                })),
                Err(e) => if self.fenced() {
                    e == (MemoryError::EmbeddingReopenRequired { new_dim: self.reopen_required })
                } else {
                    crate::engine::ingest::says_why_refused(e, req)
                },
            },
    {
        match self.add_fact(req, has_classifier) {
            Ok(insertion) => Ok(insertion.embedded(embedding)),
            Err(e) => Err(e),
        }
    }
}

/// A question that was answered is not asked again.
pub proof fn answered_questions_are_not_repeated(ins: FactInsertion, action: InsertAction)
    requires
        ins.asks_for(action),
    ensures
        ins.vector is Some ==> action !is Embed,
        ins.pin is Some ==> action !is Classify,
        ins.scope_id is Some ==> action !is EnsureScope,
{
}

/// Once vector, pin and scope are answered, the insertion hands out the fact that
/// the request asks for. A pin from the classifier counts only where the request
/// leaves it open, and a scope id only where the request has a path.
pub proof fn answered_insertion_hands_out_the_fact(
    ins: FactInsertion,
    embedding: Vec<u32>,
    now: Timestamp,
    pin: bool,
    scope_id: i64,
    action: InsertAction,
)
    requires
        (FactInsertion {
            vector: Some((embedding, now)),
            pin: Some(pin),
            scope_id: Some(scope_id),
            ..ins
        }).asks_for(action),
    ensures
        action matches InsertAction::Insert(fact) && crate::engine::ingest::is_fact_of(
            fact,
            ins.req,
            fact.embedding,
            if ins.req.scope is None {
                ROOT_SCOPE_ID
            } else {
                scope_id
            },
            match crate::engine::ingest::asked_pin(ins.req) {
                Some(p) => p,
                None => ins.has_classifier && pin,
            },
            now,
        ) && fact.embedding@ == embedding@,
{
}

/// A caller who says whether a fact is pinned is not overruled: the classifier
/// is not asked, and the fact is pinned as the caller said.
pub proof fn caller_decides_the_pin(ins: FactInsertion, action: InsertAction, pinned: bool)
    requires
        ins.asks_for(action),
        crate::engine::ingest::asked_pin(ins.req) == Some(pinned),
    ensures
        action !is Classify,
        action matches InsertAction::Insert(fact) ==> fact.is_pinned == pinned,
{
}

/// An insertion asks for one thing at a time: first for a vector of the content;
/// then for a pin, where the request leaves it open and there is a classifier; then
/// for the scope, where the request names one. What it knows it does not ask for,
/// and when it knows all it hands out the fact.
pub proof fn insertion_asks_in_order(ins: &FactInsertion, action: InsertAction)
    requires
        call_ensures(FactInsertion::next, (ins,), action),
    ensures
        ({
            let pin_open = ins.has_classifier && ins.pin is None && (ins.req.opts is None
                || ins.req.opts->0.pinned is None);
            let scope_open = ins.req.scope is Some && ins.scope_id is None;
            &&& ins.vector is None ==> (action matches InsertAction::Embed(text) && text@
                == ins.req.content@)
            &&& ins.vector is Some && pin_open ==> (action matches InsertAction::Classify(input)
                && input.content@ == ins.req.content@ && input.fact_type == ins.req.fact_type)
            &&& ins.vector is Some && !pin_open && scope_open ==> (
            action matches InsertAction::EnsureScope(path) && path@ == ins.req.scope->0@)
            &&& ins.vector is Some && !pin_open && !scope_open ==> action is Insert
        }),
{
}

/// A fact that is added reaches the store as its request says, whatever is answered
/// on the way: with its content, type, source event, bounds, importance and
/// metadata, with the vector that was made for it, in the scope that the store found
/// for its path or else in the root, and pinned as the caller says or else as the
/// classifier says.
pub proof fn added_fact_carries_its_request(
    engine: &MemoryEngine,
    req: AddFactRequest,
    has_classifier: bool,
    start: FactInsertion,
    embedding: Vec<u32>,
    pin: bool,
    scope_id: i64,
    with_vector: FactInsertion,
    with_pin: FactInsertion,
    ready: FactInsertion,
    action: InsertAction,
)
    requires
        call_ensures(
            MemoryEngine::add_fact,
            (engine, req, has_classifier),
            Ok::<FactInsertion, MemoryError>(start),
        ),
        call_ensures(FactInsertion::embedded, (start, embedding), with_vector),
        call_ensures(FactInsertion::classified, (with_vector, pin), with_pin),
        call_ensures(FactInsertion::scope_ensured, (with_pin, scope_id), ready),
        call_ensures(FactInsertion::next, (&ready,), action),
    ensures
        action matches InsertAction::Insert(fact) && {
            &&& fact.content@ == req.content@
            &&& fact.fact_type == req.fact_type
            &&& fact.source_event_id == req.source_event_id
            &&& fact.embedding@ == embedding@
            &&& fact.scope_id == (if req.scope is Some {
                scope_id
            } else {
                1
            })
            &&& fact.is_pinned == (if req.opts is Some && req.opts->0.pinned is Some {
                req.opts->0.pinned->0
            } else {
                has_classifier && pin
            })
            &&& req.opts is None ==> fact.t_valid is None && fact.t_invalid is None
            &&& req.opts matches Some(o) ==> {
                &&& fact.t_valid == o.t_valid
                &&& fact.t_invalid == o.t_invalid
                &&& o.t_created matches Some(t) ==> fact.t_created == t
                &&& o.last_accessed matches Some(t) ==> fact.last_accessed == t
                &&& o.base_importance matches Some(v) ==> fact.base_importance == v
                &&& o.metadata matches Some(m) ==> fact.metadata == m
            }
            &&& fact.t_expired is None
        },
{
}

/// A vector that the caller brings takes the place of the embedder's: the insertion
/// goes on as if the embedder had made it, and never asks for one.
pub proof fn precomputed_vector_is_not_asked_for(
    engine: &MemoryEngine,
    req: AddFactRequest,
    embedding: Vec<u32>,
    has_classifier: bool,
    plain: Result<FactInsertion, MemoryError>,
    brought: Result<FactInsertion, MemoryError>,
    action: InsertAction,
)
    requires
        call_ensures(MemoryEngine::add_fact, (engine, req, has_classifier), plain),
        call_ensures(
            MemoryEngine::add_fact_precomputed,
            (engine, req, embedding, has_classifier),
            brought,
        ),
        brought matches Ok(ins) ==> call_ensures(FactInsertion::next, (&ins,), action),
    ensures
        plain is Ok <==> brought is Ok,
        brought matches Ok(ins) ==> {
            &&& ins.req == req
            &&& ins.has_classifier == has_classifier
            &&& ins.pin is None && ins.scope_id is None
            &&& action !is Embed
            &&& action matches InsertAction::Insert(fact) ==> fact.embedding@ == embedding@
                && fact.fact_type == req.fact_type && fact.content@ == req.content@
        },
{
}

/// A fact can be added just when the engine need not be reopened and the checks of a
/// request pass; the error is that of the checks.
pub proof fn addition_starts_when_the_checks_pass(
    engine: &MemoryEngine,
    req: AddFactRequest,
    has_classifier: bool,
    r: Result<FactInsertion, MemoryError>,
    checked: Result<(), MemoryError>,
)
    requires
        call_ensures(MemoryEngine::add_fact, (engine, req, has_classifier), r),
        call_ensures(MemoryEngine::validate_add_fact_request, (&req,), checked),
    ensures
        r is Ok <==> engine.reopen_required == 0 && checked is Ok,
        engine.reopen_required != 0 ==> (r matches Err(e) && e == (
        MemoryError::EmbeddingReopenRequired { new_dim: engine.reopen_required })),
        r matches Ok(ins) ==> ins.req == req && ins.has_classifier == has_classifier && ins.vector
            is None && ins.pin is None && ins.scope_id is None,
{
}

/// A request is checked on an engine as it is checked alone, once the engine need not
/// be reopened.
pub proof fn engine_checks_requests_alike(
    engine: &MemoryEngine,
    req: &AddFactRequest,
    r: Result<(), MemoryError>,
)
    requires
        call_ensures(MemoryEngine::check_add_fact, (engine, req), r),
    ensures
        r is Ok <==> engine.reopen_required == 0 && crate::engine::ingest::acceptable(*req),
        engine.reopen_required != 0 ==> r == Err::<(), MemoryError>(
            MemoryError::EmbeddingReopenRequired { new_dim: engine.reopen_required },
        ),
        engine.reopen_required == 0 && r is Err ==> crate::engine::ingest::says_why_refused(
            r->Err_0,
            *req,
        ),
{
}

} // verus!
