//! Outcome signals.

use crate::engine::state::MemoryEngine;
use crate::json::{json_empty_object, json_from_integer, json_from_text, json_insert};
use crate::time::{utc_now, Timestamp};
use crate::types::events::{EventType, NewEvent, Outcome};
use crate::types::facts::ROOT_SCOPE_ID;
use vstd::prelude::*;

verus! {

/// The document says how relying on a fact turned out, and nothing else.
pub open spec fn is_outcome_payload(
    payload: serde_json::Value,
    fact_id: i64,
    outcome: Outcome,
) -> bool {
    crate::json::json_members(payload) matches Some(members) && {
        &&& members.dom() == Set::<Seq<char>>::empty().insert("fact_id"@).insert("outcome"@)
        &&& crate::json::json_integer(members["fact_id"@]) == Some(fact_id as int)
        &&& crate::json::json_string(members["outcome"@]) == Some(outcome.name())
    }
}

/// The event records how relying on a fact turned out. It belongs to no session,
/// and to the root scope.
pub open spec fn is_outcome_event(event: NewEvent, fact_id: i64, outcome: Outcome) -> bool {
    &&& event.event_type == EventType::OutcomeSignal
    &&& is_outcome_payload(event.payload, fact_id, outcome)
    &&& event.source@ == "outcome_tracking"@
    &&& event.session_id is None
    &&& event.scope_id == ROOT_SCOPE_ID
    &&& event.origin_node_id@ == "local"@
    &&& event.sequence_id == 0
    &&& event.created_at is None
}

/// The event that records, as of `now`, how relying on a fact turned out.
pub fn outcome_at(fact_id: i64, outcome: Outcome, now: Timestamp) -> (r: NewEvent)
    ensures
        is_outcome_event(r, fact_id, outcome),
        r.timestamp == now,
{
    let mut payload = json_empty_object();
    json_insert(&mut payload, "fact_id", json_from_integer(fact_id));
    json_insert(&mut payload, "outcome", json_from_text(outcome.as_str().to_owned()));
    proof {
        reveal_strlit("fact_id");
        reveal_strlit("outcome");
        assert("fact_id"@[0] == 'f');
        assert("outcome"@[0] == 'o');
        let members = crate::json::json_members(payload)->0;
        assert(members.dom() =~= Set::<Seq<char>>::empty().insert("fact_id"@).insert("outcome"@));
    }
    NewEvent {
        timestamp: now,
        event_type: EventType::OutcomeSignal,
        payload,
        source: "outcome_tracking".to_owned(),
        session_id: None,
        scope_id: ROOT_SCOPE_ID,
        origin_node_id: "local".to_owned(),
        sequence_id: 0,
        created_at: None,
    }
}

impl MemoryEngine {
    /// The event that records, as of the current time, how relying on a fact
    /// turned out.
    pub fn record_outcome(&self, fact_id: i64, outcome: Outcome) -> (r: NewEvent)
        ensures
            is_outcome_event(r, fact_id, outcome),
            r.timestamp.valid(),
    {
        outcome_at(fact_id, outcome, utc_now())
    }
}

/// An outcome is recorded as an event that names the fact and how it turned out, and
/// nothing else; it is of its own type and source, belongs to no session, and lies
/// in the root scope.
pub proof fn outcome_event_names_the_fact(
    engine: &MemoryEngine,
    fact_id: i64,
    outcome: Outcome,
    now: Timestamp,
    at: NewEvent,
    recorded: NewEvent,
)
    requires
        call_ensures(outcome_at, (fact_id, outcome, now), at),
        call_ensures(MemoryEngine::record_outcome, (engine, fact_id, outcome), recorded),
    ensures
        at.timestamp == now,
        recorded.timestamp.valid(),
        forall|e: NewEvent| e == at || e == recorded ==> #[trigger] says_outcome(
            e,
            fact_id,
            outcome,
        ),
{
}

/// The event is an outcome signal about the fact: its payload has the id of the fact
/// and the word for the outcome as its only members.
pub open spec fn says_outcome(e: NewEvent, fact_id: i64, outcome: Outcome) -> bool {
    &&& e.event_type == EventType::OutcomeSignal
    &&& e.source@ == "outcome_tracking"@
    &&& e.session_id is None
    &&& e.scope_id == 1
    &&& e.origin_node_id@ == "local"@
    &&& e.sequence_id == 0
    &&& e.created_at is None
    &&& crate::json::json_members(e.payload) matches Some(members) && {
        &&& forall|name: Seq<char>| #[trigger]
            members.contains_key(name) <==> name == "fact_id"@ || name == "outcome"@
        &&& crate::json::json_integer(members["fact_id"@]) == Some(fact_id as int)
        &&& crate::json::json_string(members["outcome"@]) == Some(
            match outcome {
                Outcome::Positive => "positive"@,
                Outcome::Negative => "negative"@,
                Outcome::Neutral => "neutral"@,
            },
        )
    }
}

} // verus!
