//! Explaining facts and listing insights.

use crate::binary64::Binary64;
use crate::engine::state::MemoryEngine;
use crate::text::decimal_int_text;
use crate::time::Timestamp;
use crate::types::facts::Fact;
use vstd::prelude::*;

verus! {

/// Where a fact comes from, with the event it was drawn from.
#[derive(Debug, Clone, PartialEq)]
pub struct FactProvenance<E> {
    pub source_event_id: Option<i64>,
    pub source_event: Option<E>,
    pub base_importance: Binary64,
    pub importance_score: Binary64,
    pub is_pinned: bool,
    pub access_count: i64,
}

/// Why a fact is in its state.
#[derive(Debug, Clone, PartialEq)]
pub struct FactExplanation<S, E, G> {
    pub fact_id: i64,
    pub state: S,
    pub provenance: FactProvenance<E>,
    pub graph_context: G,
    pub scope_path: String,
}

/// What happened to a fact.
#[derive(Debug, Clone, Copy, PartialEq, Eq, Structural)]
pub enum LifecycleEvent {
    Created,
    BecameValid,
    BecameInvalid,
    Expired,
}

impl LifecycleEvent {
    /// Its place among events of one instant.
    pub open spec fn rank(self) -> int {
        match self {
            LifecycleEvent::Created => 0,
            LifecycleEvent::BecameValid => 1,
            LifecycleEvent::BecameInvalid => 2,
            LifecycleEvent::Expired => 3,
        }
    }

    fn number(self) -> (r: u8)
        ensures
            r == self.rank(),
    {
        match self {
            LifecycleEvent::Created => 0,
            LifecycleEvent::BecameValid => 1,
            LifecycleEvent::BecameInvalid => 2,
            LifecycleEvent::Expired => 3,
        }
    }
}

/// Something that happened to a fact, and when.
#[derive(Debug, Clone, Copy, PartialEq, Eq, Structural)]
pub struct HistoryEntry {
    pub at: Timestamp,
    pub event: LifecycleEvent,
}

impl HistoryEntry {
    /// The entry comes before the other: it is earlier, or of the same instant
    /// and first in the life of a fact.
    pub open spec fn precedes(self, other: HistoryEntry) -> bool {
        self.at.before(other.at) || (self.at == other.at && self.event.rank()
            < other.event.rank())
    }

    fn is_before(self, other: HistoryEntry) -> (r: bool)
        ensures
            r == self.precedes(other),
    {
        self.at.is_before(other.at) || (self.at == other.at && self.event.number()
            < other.event.number())
    }
}

/// What happened to a fact, in order.
#[derive(Debug, Clone, PartialEq, Eq)]
pub struct FactHistory {
    pub fact_id: i64,
    pub timeline: Vec<HistoryEntry>,
}

/// The entry is true of the fact.
pub open spec fn happened(fact: Fact, entry: HistoryEntry) -> bool {
    match entry.event {
        LifecycleEvent::Created => entry.at == fact.t_created,
        LifecycleEvent::BecameValid => fact.t_valid == Some(entry.at),
        LifecycleEvent::BecameInvalid => fact.t_invalid == Some(entry.at),
        LifecycleEvent::Expired => fact.t_expired == Some(entry.at),
    }
}

/// Each entry comes before all that follow it.
pub open spec fn in_order(timeline: Seq<HistoryEntry>) -> bool {
    forall|i: int, j: int|
        0 <= i < j < timeline.len() ==> (#[trigger] timeline[i]).precedes(#[trigger] timeline[j])
}

/// Puts an entry that is not there yet in its place.
fn enter(timeline: &mut Vec<HistoryEntry>, entry: HistoryEntry)
    requires
        in_order(old(timeline)@),
        !old(timeline)@.contains(entry),
    ensures
        in_order(final(timeline)@),
        forall|e: HistoryEntry| #[trigger]
            final(timeline)@.contains(e) <==> old(timeline)@.contains(e) || e == entry,
{
    let ghost before = timeline@;
    let mut i: usize = 0;
    while i < timeline.len() && timeline[i].is_before(entry)
        invariant
            timeline@ == before,
            i <= before.len(),
            forall|j: int| 0 <= j < i ==> (#[trigger] before[j]).precedes(entry),
        decreases before.len() - i,
    {
        i = i + 1;
    }
    timeline.insert(i, entry);
    proof {
        let after = timeline@;
        assert(after =~= before.insert(i as int, entry));
        if i < before.len() {
            assert(before.contains(before[i as int]));
            assert(entry.precedes(before[i as int]));
        }
        assert forall|a: int, b: int| 0 <= a < b < after.len() implies (
        #[trigger] after[a]).precedes(#[trigger] after[b]) by {
            let x = if a < i {
                a
            } else {
                a - 1
            };
            let y = if b < i {
                b
            } else {
                b - 1
            };
            if a == i {
                assert(after[b] == before[y]);
                if y > i {
                    assert(before[i as int].precedes(before[y]));
                }
            } else if b == i {
                assert(after[a] == before[a]);
            } else {
                assert(after[a] == before[x]);
                assert(after[b] == before[y]);
            }
        }
        assert forall|e: HistoryEntry| #[trigger] after.contains(e) <==> before.contains(e) || e
            == entry by {
            if before.contains(e) {
                let k = choose|k: int| 0 <= k < before.len() && before[k] == e;
                assert(after[if k < i {
                    k
                } else {
                    k + 1
                }] == e);
            }
            if e == entry {
                assert(after[i as int] == e);
            }
            if after.contains(e) && e != entry {
                let k = choose|k: int| 0 <= k < after.len() && after[k] == e;
                assert(before[if k < i {
                    k
                } else {
                    k - 1
                }] == e);
            }
        }
    }
}

impl MemoryEngine {
    /// What happened to a fact, as its times tell: when it was created, became
    /// valid, became invalid and expired, the earlier first. Of what happened at
    /// one instant, what comes first in that list comes first.
    pub fn fact_history(id: i64, fact: &Fact) -> (r: FactHistory)
        ensures
            r.fact_id == id,
            in_order(r.timeline@),
            forall|e: HistoryEntry| #[trigger] r.timeline@.contains(e) <==> happened(*fact, e),
    {
        let mut timeline: Vec<HistoryEntry> = Vec::new();
        enter(
            &mut timeline,
            HistoryEntry { at: fact.t_created, event: LifecycleEvent::Created },
        );
        if let Some(at) = fact.t_valid {
            enter(&mut timeline, HistoryEntry { at, event: LifecycleEvent::BecameValid });
        }
        if let Some(at) = fact.t_invalid {
            enter(&mut timeline, HistoryEntry { at, event: LifecycleEvent::BecameInvalid });
        }
        if let Some(at) = fact.t_expired {
            enter(&mut timeline, HistoryEntry { at, event: LifecycleEvent::Expired });
        }
        FactHistory { fact_id: id, timeline }
    }

    /// Puts the explanation of a fact together, from its state, the event it was
    /// drawn from, its place in the graph and the path of its scope. A scope without
    /// a path goes by its id.
    pub fn explain_fact<S, E, G>(
        &self,
        id: i64,
        fact: &Fact,
        state: S,
        source_event: Option<E>,
        graph_context: G,
    ) -> (r: FactExplanation<S, E, G>)
        ensures
            r.fact_id == id,
            r.state == state,
            r.graph_context == graph_context,
            r.provenance == (FactProvenance {
                source_event_id: fact.source_event_id,
                source_event: if fact.source_event_id is Some {
                    source_event
                } else {
                    None
                },
                base_importance: fact.base_importance,
                importance_score: fact.importance_score,
                is_pinned: fact.is_pinned,
                access_count: fact.access_count,
            }),
            r.scope_path@ == (match crate::scope_tree::path_of(
                self.scope_tree.nodes(),
                fact.scope_id,
            ) {
                Some(path) => path,
                None => "scope:"@ + crate::text::decimal_int(fact.scope_id as int),
            }),
    {
        let provenance = FactProvenance {
            source_event_id: fact.source_event_id,
            source_event: if fact.source_event_id.is_some() {
                source_event
            } else {
                None
            },
            base_importance: fact.base_importance,
            importance_score: fact.importance_score,
            is_pinned: fact.is_pinned,
            access_count: fact.access_count,
        };
        let scope_path = match self.scope_tree.path_for_id(fact.scope_id) {
            Some(path) => path,
            None => {
                let mut text = "scope:".to_owned();
                text.append(decimal_int_text(fact.scope_id).as_str());
                text
            },
        };
        FactExplanation { fact_id: id, state, provenance, graph_context, scope_path }
    }

    /// The scopes whose insights are listed: those at or below the named one.
    /// There are none for a scope that does not exist, as for a project that has
    /// not begun.
    pub fn list_recent_insights(&self, scope_path: &str) -> (r: Option<Vec<i64>>)
        ensures
            match crate::scope_tree::resolved(self.scope_tree.nodes(), scope_path@) {
                Some(id) => r matches Some(ids) && ids@ == crate::scope_tree::below(
                    self.scope_tree.nodes(),
                    id,
                ),
                None => r is None,
            },
    {
        match self.scope_tree.resolve_path(scope_path) {
            Some(id) => Some(self.scope_tree.subtree(id)),
            None => None,
        }
    }
}

/// The history of a fact tells each of its times once and nothing else: when it was
/// created, and when it became valid, became invalid and expired, if it did. It is
/// in order of time.
pub proof fn history_tells_the_times_of_a_fact(id: i64, fact: &Fact, r: FactHistory, i: int, j: int)
    requires
        call_ensures(MemoryEngine::fact_history, (id, fact), r),
    ensures
        r.fact_id == id,
        r.timeline@.contains(
            HistoryEntry { at: fact.t_created, event: LifecycleEvent::Created },
        ),
        fact.t_valid matches Some(at) ==> r.timeline@.contains(
            HistoryEntry { at, event: LifecycleEvent::BecameValid },
        ),
        fact.t_invalid matches Some(at) ==> r.timeline@.contains(
            HistoryEntry { at, event: LifecycleEvent::BecameInvalid },
        ),
        fact.t_expired matches Some(at) ==> r.timeline@.contains(
            HistoryEntry { at, event: LifecycleEvent::Expired },
        ),
        0 <= i < r.timeline@.len() ==> match r.timeline@[i].event {
            LifecycleEvent::Created => r.timeline@[i].at == fact.t_created,
            LifecycleEvent::BecameValid => fact.t_valid == Some(r.timeline@[i].at),
            LifecycleEvent::BecameInvalid => fact.t_invalid == Some(r.timeline@[i].at),
            LifecycleEvent::Expired => fact.t_expired == Some(r.timeline@[i].at),
        },
        0 <= i < j < r.timeline@.len() ==> r.timeline@[i].at.at_or_before(r.timeline@[j].at)
            && r.timeline@[i] != r.timeline@[j],
{
    let created = HistoryEntry { at: fact.t_created, event: LifecycleEvent::Created };
    assert(happened(*fact, created));
    if fact.t_valid is Some {
        assert(happened(
            *fact,
            HistoryEntry { at: fact.t_valid->0, event: LifecycleEvent::BecameValid },
        ));
    }
    if fact.t_invalid is Some {
        assert(happened(
            *fact,
            HistoryEntry { at: fact.t_invalid->0, event: LifecycleEvent::BecameInvalid },
        ));
    }
    if fact.t_expired is Some {
        assert(happened(
            *fact,
            HistoryEntry { at: fact.t_expired->0, event: LifecycleEvent::Expired },
        ));
    }
    if 0 <= i < r.timeline@.len() {
        assert(r.timeline@.contains(r.timeline@[i]));
    }
    if 0 <= i < j < r.timeline@.len() {
        assert(r.timeline@[i].precedes(r.timeline@[j]));
    }
}

/// Of what happened to a fact at one instant, being created comes first, then becoming
/// valid, then becoming invalid, then expiring.
pub proof fn history_orders_one_instant(id: i64, fact: &Fact, r: FactHistory, i: int, j: int)
    requires
        call_ensures(MemoryEngine::fact_history, (id, fact), r),
        0 <= i < j < r.timeline@.len(),
        r.timeline@[i].at == r.timeline@[j].at,
    ensures
        r.timeline@[j].event != LifecycleEvent::Created,
        r.timeline@[i].event != LifecycleEvent::Expired,
        r.timeline@[j].event == LifecycleEvent::BecameValid ==> r.timeline@[i].event
            == LifecycleEvent::Created,
        r.timeline@[i].event == LifecycleEvent::BecameInvalid ==> r.timeline@[j].event
            == LifecycleEvent::Expired,
{
    assert(r.timeline@[i].precedes(r.timeline@[j]));
}

/// An explanation shows the fact's own numbers, what the host found of it, and the
/// path of its scope as the tree gives it; a scope without a path goes by its id. An
/// event is shown only for a fact that was drawn from one.
pub proof fn explanation_shows_the_fact<S, E, G>(
    engine: &MemoryEngine,
    id: i64,
    fact: &Fact,
    state: S,
    event: Option<E>,
    context: G,
    r: FactExplanation<S, E, G>,
    path: Option<String>,
)
    requires
        call_ensures(
            MemoryEngine::explain_fact::<S, E, G>,
            (engine, id, fact, state, event, context),
            r,
        ),
        call_ensures(
            crate::scope_tree::ScopeTree::path_for_id,
            (&engine.scope_tree, fact.scope_id),
            path,
        ),
    ensures
        r.fact_id == id,
        r.state == state,
        r.graph_context == context,
        r.provenance.source_event_id == fact.source_event_id,
        fact.source_event_id is Some ==> r.provenance.source_event == event,
        fact.source_event_id is None ==> r.provenance.source_event is None,
        r.provenance.base_importance == fact.base_importance,
        r.provenance.importance_score == fact.importance_score,
        r.provenance.is_pinned == fact.is_pinned,
        r.provenance.access_count == fact.access_count,
        path matches Some(p) ==> r.scope_path@ == p@,
        path is None ==> r.scope_path@ == "scope:"@ + crate::text::decimal_int(
            fact.scope_id as int,
        ),
{
}

} // verus!
