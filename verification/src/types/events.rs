//! Events, and the outcome signals among them.

use crate::text::same_text;
use crate::time::Timestamp;
use vstd::prelude::*;

verus! {

/// What an event tells of.
#[derive(Debug, Clone, Copy, PartialEq, Eq, Hash, Structural)]
pub enum EventType {
    Interaction,
    OutcomeSignal,
}

/// An event that is about to be logged.
#[derive(Debug, Clone, PartialEq)]
pub struct NewEvent {
    pub timestamp: Timestamp,
    pub event_type: EventType,
    pub payload: serde_json::Value,
    pub source: String,
    pub session_id: Option<String>,
    pub scope_id: i64,
    pub origin_node_id: String,
    pub sequence_id: i64,
    pub created_at: Option<Timestamp>,
}

/// Which events to look at; a field left open admits all.
#[derive(Debug, Clone, PartialEq, Eq)]
pub struct EventFilter {
    pub session_id: Option<String>,
    pub source: Option<String>,
    pub event_type: Option<EventType>,
}

impl Default for EventFilter {
    fn default() -> (r: EventFilter)
        ensures
            r.session_id is None,
            r.source is None,
            r.event_type is None,
    {
        EventFilter { session_id: None, source: None, event_type: None }
    }
}

impl EventFilter {
    /// The filter admits the event.
    pub open spec fn admits_event(self, event: NewEvent) -> bool {
        &&& (self.session_id matches Some(wanted) ==> event.session_id matches Some(id) && id@
            == wanted@)
        &&& (self.source matches Some(wanted) ==> event.source@ == wanted@)
        &&& (self.event_type matches Some(wanted) ==> event.event_type == wanted)
    }

    /// Whether the filter admits the event. A store counts and replays the events
    /// for which this holds.
    pub fn admits(&self, event: &NewEvent) -> (r: bool)
        ensures
            r == self.admits_event(*event),
    {
        let of_session = match (&self.session_id, &event.session_id) {
            (None, _) => true,
            (Some(wanted), Some(id)) => same_text(wanted.as_str(), id.as_str()),
            (Some(_), None) => false,
        };
        let of_source = match &self.source {
            None => true,
            Some(wanted) => same_text(wanted.as_str(), event.source.as_str()),
        };
        let of_type = match self.event_type {
            None => true,
            Some(wanted) => event.event_type == wanted,
        };
        of_session && of_source && of_type
    }
}

/// How relying on a fact turned out.
#[derive(Debug, Clone, Copy, PartialEq, Eq, Hash, Structural)]
pub enum Outcome {
    Positive,
    Negative,
    Neutral,
}

impl Outcome {
    /// The name of the outcome in an event payload.
    pub open spec fn name(self) -> Seq<char> {
        match self {
            Outcome::Positive => "positive"@,
            Outcome::Negative => "negative"@,
            Outcome::Neutral => "neutral"@,
        }
    }

    /// The name of the outcome in an event payload.
    pub fn as_str(self) -> (r: &'static str)
        ensures
            r@ == self.name(),
    {
        match self {
            Outcome::Positive => "positive",
            Outcome::Negative => "negative",
            Outcome::Neutral => "neutral",
        }
    }
}

/// How often each outcome was recorded for a fact.
#[derive(Debug, Clone, Copy, PartialEq, Eq, Structural, Default)]
pub struct OutcomeCounts {
    pub positive: usize,
    pub negative: usize,
    pub neutral: usize,
}

/// A filter admits an event just when the event has each thing that the filter names:
/// the session, the source and the type. What the filter leaves open does not matter,
/// so an open filter admits everything.
pub proof fn filter_admits_what_it_names(filter: &EventFilter, event: &NewEvent, r: bool)
    requires
        call_ensures(EventFilter::admits, (filter, event), r),
    ensures
        filter.session_id is None && filter.source is None && filter.event_type is None ==> r,
        filter.session_id is Some && event.session_id is None ==> !r,
        filter.session_id is Some && event.session_id is Some && filter.session_id->0@
            != event.session_id->0@ ==> !r,
        filter.source is Some && filter.source->0@ != event.source@ ==> !r,
        filter.event_type is Some && filter.event_type->0 != event.event_type ==> !r,
        (filter.session_id is None || (event.session_id is Some && filter.session_id->0@
            == event.session_id->0@)) && (filter.source is None || filter.source->0@
            == event.source@) && (filter.event_type is None || filter.event_type->0
            == event.event_type) ==> r,
{
}

/// The outcomes have three different names.
pub proof fn outcomes_have_their_names(outcome: Outcome, r: &'static str)
    requires
        call_ensures(Outcome::as_str, (outcome,), r),
    ensures
        outcome is Positive ==> r@ == "positive"@,
        outcome is Negative ==> r@ == "negative"@,
        outcome is Neutral ==> r@ == "neutral"@,
{
}

} // verus!
