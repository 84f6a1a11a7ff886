//! Adding facts: the checks, the defaults, and the bookkeeping of batches.

use crate::binary64::Binary64;
use crate::engine::state::MemoryEngine;
use crate::error::{ConflictError, MemoryError};
use crate::json::json_empty_object;
use crate::limits::{check_json_size, check_str_size};
use crate::time::Timestamp;
use crate::types::events::NewEvent;
use crate::types::facts::{AddFactRequest, ClassifierInput, NewFact};
use vstd::prelude::*;

verus! {

/// Bit pattern of 0.5, the importance of a fact where nothing else is said.
pub const DEFAULT_IMPORTANCE_BITS: u64 = 0x3FE0_0000_0000_0000;

/// The importance that a request asks for.
pub open spec fn asked_importance(req: AddFactRequest) -> Option<Binary64> {
    match req.opts {
        Some(o) => o.base_importance,
        None => None,
    }
}

/// The metadata that a request brings.
pub open spec fn asked_metadata(req: AddFactRequest) -> Option<serde_json::Value> {
    match req.opts {
        Some(o) => o.metadata,
        None => None,
    }
}

/// The pin that a request asks for.
pub open spec fn asked_pin(req: AddFactRequest) -> Option<bool> {
    match req.opts {
        Some(o) => o.pinned,
        None => None,
    }
}

/// The importance that a fact of the request gets.
pub open spec fn importance_of(req: AddFactRequest) -> Binary64 {
    match asked_importance(req) {
        Some(v) => v,
        None => Binary64 { bits: DEFAULT_IMPORTANCE_BITS },
    }
}

/// The document is the metadata that a fact of the request gets.
pub open spec fn is_metadata_of(req: AddFactRequest, value: serde_json::Value) -> bool {
    match asked_metadata(req) {
        Some(m) => value == m,
        None => crate::json::is_empty_object(value),
    }
}

/// The importance is left open or lies in `[0, 1]`.
pub open spec fn importance_in_range(importance: Option<Binary64>) -> bool {
    importance matches Some(v) ==> v.spec_in_unit_interval()
}

/// The error says that an importance is out of range.
pub open spec fn says_bad_importance(e: MemoryError, v: Binary64) -> bool {
    e matches MemoryError::Conflict(ConflictError::PolicyParameter { rule, got }) && rule@
        == "importance must be in [0, 1]"@ && got == v
}

/// The request can be accepted: its importance is in range, and its content and
/// metadata are not too large.
pub open spec fn acceptable(req: AddFactRequest) -> bool {
    &&& importance_in_range(asked_importance(req))
    &&& crate::limits::text_fits(req.content@)
    &&& (asked_metadata(req) matches Some(m) ==> crate::limits::json_fits(m))
}

/// The error says what is wrong with a request: the importance first, then the
/// content, then the metadata.
pub open spec fn says_why_refused(e: MemoryError, req: AddFactRequest) -> bool {
    if !importance_in_range(asked_importance(req)) {
        says_bad_importance(e, asked_importance(req)->0)
    } else if !crate::limits::text_fits(req.content@) {
        crate::limits::says_text_too_large(e, req.content@, "fact content"@)
    } else {
        crate::limits::says_json_too_large(e, asked_metadata(req)->0, "fact metadata"@)
    }
}

/// The fact is the one that a request asks for, with the vector, scope and pin
/// that were found for it. Times that the request leaves open are `now`.
pub open spec fn is_fact_of(
    fact: NewFact,
    req: AddFactRequest,
    embedding: Vec<u32>,
    scope_id: i64,
    is_pinned: bool,
    now: Timestamp,
) -> bool {
    &&& fact.content@ == req.content@
    &&& fact.content_hash@.len() == 0
    &&& fact.embedding == embedding
    &&& fact.fact_type == req.fact_type
    &&& fact.t_created == (match req.opts {
        Some(o) => match o.t_created {
            Some(t) => t,
            None => now,
        },
        None => now,
    })
    &&& fact.t_expired is None
    &&& fact.t_valid == (match req.opts {
        Some(o) => o.t_valid,
        None => None,
    })
    &&& fact.t_invalid == (match req.opts {
        Some(o) => o.t_invalid,
        None => None,
    })
    &&& fact.source_event_id == req.source_event_id
    &&& fact.scope_id == scope_id
    &&& fact.base_importance == importance_of(req)
    &&& fact.access_count == 0
    &&& fact.last_accessed == (match req.opts {
        Some(o) => match o.last_accessed {
            Some(t) => t,
            None => now,
        },
        None => now,
    })
    &&& is_metadata_of(req, fact.metadata)
    &&& fact.is_pinned == is_pinned
}

/// What a classifier is shown of a request.
pub open spec fn is_input_of(input: ClassifierInput, req: AddFactRequest) -> bool {
    &&& input.content@ == req.content@
    &&& input.fact_type == req.fact_type
    &&& input.base_importance == importance_of(req)
    &&& is_metadata_of(req, input.metadata)
}

fn importance_for(req: &AddFactRequest) -> (r: Binary64)
    ensures
        r == importance_of(*req),
{
    match &req.opts {
        Some(o) => match o.base_importance {
            Some(v) => v,
            None => Binary64 { bits: DEFAULT_IMPORTANCE_BITS },
        },
        None => Binary64 { bits: DEFAULT_IMPORTANCE_BITS },
    }
}

fn metadata_for(req: &AddFactRequest) -> (r: serde_json::Value)
    ensures
        is_metadata_of(*req, r),
{
    match &req.opts {
        Some(o) => match &o.metadata {
            Some(m) => m.clone(),
            None => json_empty_object(),
        },
        None => json_empty_object(),
    }
}

/// What a classifier is shown of a request: the content, the type, the
/// importance and the metadata, and nothing else.
pub fn classifier_input(req: &AddFactRequest) -> (r: ClassifierInput)
    ensures
        is_input_of(r, *req),
{
    ClassifierInput {
        content: req.content.clone(),
        fact_type: req.fact_type,
        base_importance: importance_for(req),
        metadata: metadata_for(req),
    }
}

impl MemoryEngine {
    /// Checks an event before it is logged: the engine must not wait to be
    /// reopened, and the payload must not be too large.
    pub fn check_event(&self, event: &NewEvent) -> (r: Result<(), MemoryError>)
        ensures
            r is Ok <==> !self.fenced() && crate::limits::json_fits(event.payload),
            r matches Err(e) ==> if self.fenced() {
                e == (MemoryError::EmbeddingReopenRequired { new_dim: self.reopen_required })
            } else {
                crate::limits::says_json_too_large(e, event.payload, "event payload"@)
            },
    {
        self.ensure_open()?;
        check_json_size(&event.payload, "event payload")
    }

    /// Checks an importance that a caller asks for: it must be a number in
    /// `[0, 1]`.
    pub fn validate_importance(importance: Option<Binary64>) -> (r: Result<(), MemoryError>)
        ensures
            r is Ok <==> importance_in_range(importance),
            r matches Err(e) ==> says_bad_importance(e, importance->0),
    {
        if let Some(v) = importance {
            if !v.in_unit_interval() {
                return Err(
                    MemoryError::Conflict(
                        ConflictError::PolicyParameter {
                            rule: "importance must be in [0, 1]".to_owned(),
                            got: v,
                        },
                    ),
                );
            }
        }
        Ok(())
    }

    /// Checks a request before anything is embedded or written.
    pub fn validate_add_fact_request(req: &AddFactRequest) -> (r: Result<(), MemoryError>)
        ensures
            r is Ok <==> acceptable(*req),
            r matches Err(e) ==> says_why_refused(e, *req),
    {
        let importance = match &req.opts {
            Some(o) => o.base_importance,
            None => None,
        };
        MemoryEngine::validate_importance(importance)?;
        check_str_size(req.content.as_str(), "fact content")?;
        if let Some(o) = &req.opts {
            if let Some(metadata) = &o.metadata {
                check_json_size(metadata, "fact metadata")?;
            }
        }
        Ok(())
    }

    /// Checks a request to add a fact: the engine must not wait to be reopened,
    /// and the request must be acceptable.
    pub fn check_add_fact(&self, req: &AddFactRequest) -> (r: Result<(), MemoryError>)
        ensures
            r is Ok <==> !self.fenced() && acceptable(*req),
            r matches Err(e) ==> if self.fenced() {
                e == (MemoryError::EmbeddingReopenRequired { new_dim: self.reopen_required })
            } else {
                says_why_refused(e, *req)
            },
    {
        self.ensure_open()?;
        MemoryEngine::validate_add_fact_request(req)
    }
}

/// How the pin of a fact is found.
#[derive(Debug, Clone, PartialEq)]
pub enum PinStep {
    /// The pin is known.
    Known(bool),
    /// A classifier decides.
    Ask(ClassifierInput),
}

/// Finds the pin of a fact: what the request says, else what a classifier says,
/// else no pin.
pub fn pin_step(req: &AddFactRequest, has_classifier: bool) -> (r: PinStep)
    ensures
        match r {
            PinStep::Known(p) => asked_pin(*req) == Some(p) || (asked_pin(*req) is None
                && !has_classifier && !p),
            PinStep::Ask(input) => asked_pin(*req) is None && has_classifier && is_input_of(
                input,
                *req,
            ),
        },
{
    let pinned = match &req.opts {
        Some(o) => o.pinned,
        None => None,
    };
    match pinned {
        Some(p) => PinStep::Known(p),
        None => if has_classifier {
            PinStep::Ask(classifier_input(req))
        } else {
            PinStep::Known(false)
        },
    }
}

/// The fact that a request asks for, with the vector, scope and pin that were
/// found for it.
pub fn new_fact_of(
    req: &AddFactRequest,
    embedding: Vec<u32>,
    scope_id: i64,
    is_pinned: bool,
    now: Timestamp,
) -> (r: NewFact)
    ensures
        is_fact_of(r, *req, embedding, scope_id, is_pinned, now),
        r.content@ == req.content@,
        r.fact_type == req.fact_type,
        r.source_event_id == req.source_event_id,
        req.opts matches Some(o) ==> {
            &&& r.t_valid == o.t_valid
            &&& r.t_invalid == o.t_invalid
            &&& o.t_created matches Some(t) ==> r.t_created == t
            &&& o.last_accessed matches Some(t) ==> r.last_accessed == t
            &&& o.base_importance matches Some(v) ==> r.base_importance == v
            &&& o.metadata matches Some(m) ==> r.metadata == m
        },
{
    let (t_created, last_accessed, t_valid, t_invalid) = match &req.opts {
        Some(o) => (o.t_created, o.last_accessed, o.t_valid, o.t_invalid),
        None => (None, None, None, None),
    };
    NewFact {
        content: req.content.clone(),
        content_hash: String::new(),
        embedding,
        fact_type: req.fact_type,
        t_created: match t_created {
            Some(t) => t,
            None => now,
        },
        t_expired: None,
        t_valid,
        t_invalid,
        source_event_id: req.source_event_id,
        scope_id,
        base_importance: importance_for(req),
        access_count: 0,
        last_accessed: match last_accessed {
            Some(t) => t,
            None => now,
        },
        metadata: metadata_for(req),
        is_pinned,
    }
}

/// A stored fact says what its request says, field by field, wherever the request
/// says anything; what the request leaves open is the current time, an importance
/// of one half, no bounds and no metadata. Vector, scope and pin are the ones that
/// were found for it. A new fact is active and was never accessed.
pub proof fn fact_says_what_its_request_says(
    req: &AddFactRequest,
    embedding: Vec<u32>,
    scope_id: i64,
    is_pinned: bool,
    now: Timestamp,
    fact: NewFact,
)
    requires
        call_ensures(new_fact_of, (req, embedding, scope_id, is_pinned, now), fact),
    ensures
        fact.content@ == req.content@,
        fact.fact_type == req.fact_type,
        fact.source_event_id == req.source_event_id,
        req.opts matches Some(o) ==> {
            &&& fact.t_valid == o.t_valid
            &&& fact.t_invalid == o.t_invalid
            &&& o.t_created matches Some(t) ==> fact.t_created == t
            &&& o.last_accessed matches Some(t) ==> fact.last_accessed == t
            &&& o.base_importance matches Some(v) ==> fact.base_importance == v
            &&& o.metadata matches Some(m) ==> fact.metadata == m
        },
        req.opts is None ==> fact.t_valid is None && fact.t_invalid is None && fact.t_created == now
            && fact.last_accessed == now && fact.base_importance.bits == 0x3FE0_0000_0000_0000
            && crate::json::is_empty_object(fact.metadata),
        req.opts matches Some(o) ==> {
            &&& o.t_created is None ==> fact.t_created == now
            &&& o.last_accessed is None ==> fact.last_accessed == now
            &&& o.base_importance is None ==> fact.base_importance.bits == 0x3FE0_0000_0000_0000
            &&& o.metadata is None ==> crate::json::is_empty_object(fact.metadata)
        },
        fact.embedding@ == embedding@,
        fact.scope_id == scope_id,
        fact.is_pinned == is_pinned,
        fact.t_expired is None,
        fact.access_count == 0,
        fact.content_hash@.len() == 0,
{
}

/// Requests that differ in what they say give facts that differ in the same: in
/// content, type, source event, bounds, importance or metadata.
pub proof fn different_requests_give_different_facts(
    a: &AddFactRequest,
    b: &AddFactRequest,
    u: Vec<u32>,
    v: Vec<u32>,
    scope_a: i64,
    scope_b: i64,
    pin_a: bool,
    pin_b: bool,
    then: Timestamp,
    now: Timestamp,
    fact_a: NewFact,
    fact_b: NewFact,
)
    requires
        call_ensures(new_fact_of, (a, u, scope_a, pin_a, then), fact_a),
        call_ensures(new_fact_of, (b, v, scope_b, pin_b, now), fact_b),
    ensures
        a.content@ != b.content@ ==> fact_a.content@ != fact_b.content@,
        a.fact_type != b.fact_type ==> fact_a.fact_type != fact_b.fact_type,
        a.source_event_id != b.source_event_id ==> fact_a.source_event_id
            != fact_b.source_event_id,
        u@ != v@ ==> fact_a.embedding@ != fact_b.embedding@,
        scope_a != scope_b ==> fact_a.scope_id != fact_b.scope_id,
        pin_a != pin_b ==> fact_a.is_pinned != fact_b.is_pinned,
        a.opts is Some && b.opts is Some ==> {
            &&& a.opts->0.t_valid != b.opts->0.t_valid ==> fact_a.t_valid != fact_b.t_valid
            &&& a.opts->0.t_invalid != b.opts->0.t_invalid ==> fact_a.t_invalid
                != fact_b.t_invalid
            &&& a.opts->0.t_created is Some && b.opts->0.t_created is Some
                && a.opts->0.t_created != b.opts->0.t_created ==> fact_a.t_created
                != fact_b.t_created
            &&& a.opts->0.last_accessed is Some && b.opts->0.last_accessed is Some
                && a.opts->0.last_accessed != b.opts->0.last_accessed ==> fact_a.last_accessed
                != fact_b.last_accessed
            &&& a.opts->0.base_importance is Some && b.opts->0.base_importance is Some
                && a.opts->0.base_importance != b.opts->0.base_importance
                ==> fact_a.base_importance != fact_b.base_importance
            &&& a.opts->0.metadata is Some && b.opts->0.metadata is Some && a.opts->0.metadata
                != b.opts->0.metadata ==> fact_a.metadata != fact_b.metadata
        },
{
}

/// A classifier is shown the fact as it will be stored: the same content, type and
/// importance, and the request's metadata.
pub proof fn classifier_sees_the_fact_to_be(
    req: &AddFactRequest,
    input: ClassifierInput,
    embedding: Vec<u32>,
    scope_id: i64,
    is_pinned: bool,
    now: Timestamp,
    fact: NewFact,
)
    requires
        call_ensures(classifier_input, (req,), input),
        call_ensures(new_fact_of, (req, embedding, scope_id, is_pinned, now), fact),
    ensures
        input.content@ == fact.content@,
        input.content@ == req.content@,
        input.fact_type == fact.fact_type,
        input.fact_type == req.fact_type,
        input.base_importance == fact.base_importance,
        req.opts matches Some(o) ==> (o.metadata matches Some(m) ==> input.metadata == m
            && fact.metadata == m),
        req.opts matches Some(o) ==> (o.base_importance matches Some(v) ==> input.base_importance
            == v),
        req.opts is None || req.opts->0.metadata is None ==> crate::json::is_empty_object(
            input.metadata,
        ),
{
}

/// A request is accepted just when its importance, if it asks for one, lies between
/// zero and one, its content has no more than a mebibyte, and neither has the
/// encoding of its metadata. Of several reasons to refuse it the first of these is
/// given.
pub proof fn request_is_refused_for_a_reason(
    req: &AddFactRequest,
    r: Result<(), MemoryError>,
)
    requires
        call_ensures(MemoryEngine::validate_add_fact_request, (req,), r),
    ensures
        r is Ok == acceptable(*req),
        ({
            let importance_ok = req.opts matches Some(o) ==> (o.base_importance matches Some(v)
                ==> v.spec_in_unit_interval());
            let content_ok = vstd::utf8::encode_utf8(req.content@).len() <= 1_048_576;
            let metadata_ok = req.opts matches Some(o) ==> (o.metadata matches Some(m)
                ==> crate::json::json_encoding(m).len() <= 1_048_576);
            &&& r is Ok <==> importance_ok && content_ok && metadata_ok
            &&& r matches Err(e) ==> {
                &&& !importance_ok ==> (e matches MemoryError::Conflict(
                    ConflictError::PolicyParameter { rule, got },
                ) && rule@ == "importance must be in [0, 1]"@ && Some(got)
                    == req.opts->0.base_importance)
                &&& importance_ok && !content_ok ==> (e matches MemoryError::Conflict(
                    ConflictError::PayloadTooLarge { kind, size, limit },
                ) && kind@ == "fact content"@ && size == vstd::utf8::encode_utf8(req.content@).len()
                    && limit == 1_048_576)
                &&& importance_ok && content_ok ==> (e matches MemoryError::Conflict(
                    ConflictError::PayloadTooLarge { kind, size, limit },
                ) && kind@ == "fact metadata"@ && size > 1_048_576 && limit == 1_048_576)
            }
        }),
{
}

/// An importance is checked alike wherever it comes from: one that is left open is
/// fine, and so is one between zero and one, and no other.
pub proof fn importance_lies_between_zero_and_one(
    importance: Option<Binary64>,
    r: Result<(), MemoryError>,
)
    requires
        call_ensures(MemoryEngine::validate_importance, (importance,), r),
    ensures
        importance is None ==> r is Ok,
        importance matches Some(v) ==> (r is Ok <==> v.spec_in_unit_interval()),
{
}

/// The pin of a fact is what the caller says; else a classifier is asked, if there
/// is one; else the fact is not pinned.
pub proof fn caller_pins_before_the_classifier(
    req: &AddFactRequest,
    has_classifier: bool,
    r: PinStep,
)
    requires
        call_ensures(pin_step, (req, has_classifier), r),
    ensures
        req.opts matches Some(o) ==> (o.pinned matches Some(p) ==> r == PinStep::Known(p)),
        (req.opts is None || req.opts->0.pinned is None) && !has_classifier ==> r
            == PinStep::Known(false),
        (req.opts is None || req.opts->0.pinned is None) && has_classifier ==> (
        r matches PinStep::Ask(input) && input.content@ == req.content@ && input.fact_type
            == req.fact_type),
{
}

/// An event is logged unless the engine must be reopened or the encoding of its
/// payload has more than a mebibyte.
pub proof fn event_is_refused_for_its_size(
    engine: &MemoryEngine,
    event: &NewEvent,
    r: Result<(), MemoryError>,
)
    requires
        call_ensures(MemoryEngine::check_event, (engine, event), r),
    ensures
        r is Ok <==> engine.reopen_required == 0 && crate::json::json_encoding(event.payload).len()
            <= 1_048_576,
        engine.reopen_required != 0 ==> r == Err::<(), MemoryError>(
            MemoryError::EmbeddingReopenRequired { new_dim: engine.reopen_required },
        ),
        engine.reopen_required == 0 && r is Err ==> (r->Err_0 matches MemoryError::Conflict(
            ConflictError::PayloadTooLarge { kind, size, limit },
        ) && kind@ == "event payload"@ && size > 1_048_576 && limit == 1_048_576),
{
}

} // verus!
