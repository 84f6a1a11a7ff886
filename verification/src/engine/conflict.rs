//! Conflicts between a stored fact and a new one.
//!
//! An arbiter decides; the store carries the decision out in one transaction;
//! the graph follows once that has succeeded.

use crate::engine::graph::{apply_change, GraphChange};
use crate::engine::state::MemoryEngine;
use crate::error::MemoryError;
use crate::graph::{GraphEdge, RelationType};
use crate::limits::check_new_fact;
use crate::types::facts::{Fact, NewFact};
use vstd::prelude::*;

verus! {

/// What an arbiter decides about a new fact.
#[derive(Debug, Clone, Copy, PartialEq, Eq, Structural)]
pub enum CrudDecision {
    /// Both facts stay, joined by an edge.
    Add,
    /// The new fact takes the place of the old one, which expires with its edges;
    /// an edge leads from the new to the old.
    Update,
    /// The old fact expires with its edges.
    Delete,
    /// Nothing changes.
    Noop,
}

/// What the store made of a decision.
#[derive(Debug, Clone, PartialEq, Eq)]
pub struct ConflictResolution {
    pub decision: CrudDecision,
    /// The id of the new fact, if it was stored.
    pub new_fact_id: Option<i64>,
    /// The edge that was made, if any.
    pub edge: Option<GraphEdge>,
}

/// The decision ends the old fact.
pub open spec fn ends_old(decision: CrudDecision) -> bool {
    decision is Update || decision is Delete
}

/// The decision makes an edge.
pub open spec fn makes_edge(decision: CrudDecision) -> bool {
    decision is Add || decision is Update
}

/// What a store does to carry a decision out.
#[derive(Debug, Clone, Copy, PartialEq, Eq, Structural)]
pub struct ConflictWrites {
    /// The old fact expires with its edges.
    pub expire_old: bool,
    /// The new fact is stored.
    pub insert_new: bool,
    /// An edge joins the two facts.
    pub make_edge: bool,
}

/// What a store does to carry a decision out; `None` when the old fact, which the
/// decision needs, is no longer active. A store asks this in the transaction in
/// which it writes.
pub fn conflict_writes(decision: CrudDecision, old_active: bool) -> (r: Option<ConflictWrites>)
    ensures
        r is None <==> decision !is Noop && !old_active,
        r matches Some(w) ==> w == (ConflictWrites {
            expire_old: ends_old(decision),
            insert_new: makes_edge(decision),
            make_edge: makes_edge(decision),
        }),
{
    let (ends, makes) = match decision {
        CrudDecision::Add => (false, true),
        CrudDecision::Update => (true, true),
        CrudDecision::Delete => (true, false),
        CrudDecision::Noop => (false, false),
    };
    if (ends || makes) && !old_active {
        return None;
    }
    Some(ConflictWrites { expire_old: ends, insert_new: makes, make_edge: makes })
}

/// What a store holds of its active facts and edges.
pub ghost struct ActiveRows {
    pub facts: Set<i64>,
    pub edges: Set<GraphEdge>,
}

/// The store carried a decision out as [`conflict_writes`] says.
pub open spec fn carried_out(
    before: ActiveRows,
    after: ActiveRows,
    old_id: i64,
    resolution: ConflictResolution,
) -> bool {
    let left = if ends_old(resolution.decision) {
        before.facts.remove(old_id)
    } else {
        before.facts
    };
    &&& resolution.decision !is Noop ==> before.facts.contains(old_id)
    &&& resolution.new_fact_id is Some <==> makes_edge(resolution.decision)
    &&& resolution.edge is Some <==> makes_edge(resolution.decision)
    &&& after.facts == (match resolution.new_fact_id {
        Some(id) => left.insert(id),
        None => left,
    })
    &&& resolution.new_fact_id matches Some(id) ==> !before.facts.contains(id)
    &&& after.edges == crate::engine::graph::store_changed_all(
        before.edges,
        resolution_changes(old_id, resolution),
    )
}

/// The changes of the store's edges that a resolution consists of.
pub open spec fn resolution_changes(old_id: i64, resolution: ConflictResolution) -> Seq<
    GraphChange,
> {
    let ended = if ends_old(resolution.decision) {
        seq![GraphChange::ExpireFact(old_id)]
    } else {
        Seq::empty()
    };
    match resolution.edge {
        Some(e) => if makes_edge(resolution.decision) {
            ended.push(GraphChange::AddEdge(e))
        } else {
            ended
        },
        None => ended,
    }
}

/// The edges that a resolution adds: one at most.
pub open spec fn resolution_edges(resolution: ConflictResolution) -> Seq<GraphEdge> {
    match resolution.edge {
        Some(e) => if makes_edge(resolution.decision) {
            seq![e]
        } else {
            Seq::empty()
        },
        None => Seq::empty(),
    }
}

/// The engine took a resolution into its graph, and changed nothing else.
pub open spec fn follows(
    before: MemoryEngine,
    after: MemoryEngine,
    old_id: i64,
    resolution: ConflictResolution,
) -> bool {
    &&& after.graph.edges() == crate::engine::graph::changed_all(
        before.graph.edges(),
        resolution_changes(old_id, resolution),
    )
    &&& crate::graph::grown(
        after.graph.nodes(),
        before.graph.nodes(),
        resolution_edges(resolution),
    )
    &&& after == (MemoryEngine { graph: after.graph, ..before })
}

impl MemoryEngine {
    /// Prepares the question to the arbiter: the new fact as the arbiter sees it.
    /// The engine must not wait to be reopened and must accept writes, and the
    /// fact must not be too large.
    pub fn arbiter_view(&self, new_fact: &NewFact) -> (r: Result<Fact, MemoryError>)
        ensures
            r is Ok <==> !self.fenced() && !self.read_only && crate::limits::text_fits(
                new_fact.content@,
            ) && crate::limits::json_fits(new_fact.metadata),
            match r {
                Ok(fact) => fact.shows(*new_fact),
                Err(e) => if self.fenced() {
                    e == (MemoryError::EmbeddingReopenRequired { new_dim: self.reopen_required })
                } else if self.read_only {
                    e == MemoryError::ReadOnly
                } else if !crate::limits::text_fits(new_fact.content@) {
                    crate::limits::says_text_too_large(e, new_fact.content@, "fact content"@)
                } else {
                    crate::limits::says_json_too_large(e, new_fact.metadata, "fact metadata"@)
                },
            },
    {
        self.ensure_open()?;
        self.ensure_writable()?;
        check_new_fact(new_fact)?;
        Ok(Fact::from_new_for_arbiter(new_fact))
    }

    /// Takes a resolution that the store carried out into the graph.
    pub fn resolve_conflict(&mut self, old_id: i64, resolution: &ConflictResolution)
        requires
            old(self).well_formed(),
        ensures
            final(self).well_formed(),
            follows(*old(self), *final(self), old_id, *resolution),
    {
        let ghost edges = self.graph.edges();
        let ghost whole = resolution_changes(old_id, *resolution);
        let (ends, makes) = match resolution.decision {
            CrudDecision::Add => (false, true),
            CrudDecision::Update => (true, true),
            CrudDecision::Delete => (true, false),
            CrudDecision::Noop => (false, false),
        };
        let ghost ended: Seq<GraphChange> = if ends {
            seq![GraphChange::ExpireFact(old_id)]
        } else {
            Seq::empty()
        };
        assert(crate::engine::graph::changed_all(edges, Seq::empty()) == edges);
        if ends {
            apply_change(&mut self.graph, GraphChange::ExpireFact(old_id));
            assert(ended.drop_last() =~= Seq::<GraphChange>::empty());
        }
        assert(self.graph.edges() == crate::engine::graph::changed_all(edges, ended));
        if makes {
            if let Some(e) = &resolution.edge {
                let copy = e.copied();
                apply_change(&mut self.graph, GraphChange::AddEdge(copy));
                assert(whole == ended.push(GraphChange::AddEdge(*e)));
                assert(whole.drop_last() =~= ended);
            }
        }
    }
}

/// After a conflict was resolved the graph is in step with the store, whatever
/// was decided and whatever edges there were.
pub proof fn resolution_keeps_in_step(
    edges: Seq<GraphEdge>,
    active: Set<GraphEdge>,
    old_id: i64,
    resolution: ConflictResolution,
)
    requires
        crate::engine::graph::in_step(edges, active),
    ensures
        crate::engine::graph::in_step(
            crate::engine::graph::changed_all(edges, resolution_changes(old_id, resolution)),
            crate::engine::graph::store_changed_all(
                active,
                resolution_changes(old_id, resolution),
            ),
        ),
{
    crate::engine::graph::changes_keep_in_step(
        edges,
        active,
        resolution_changes(old_id, resolution),
    );
}

/// A fact that was replaced or deleted keeps no edge but the one that leads to it
/// from its replacement.
pub proof fn ended_fact_keeps_no_old_edge(
    edges: Seq<GraphEdge>,
    old_id: i64,
    resolution: ConflictResolution,
    e: GraphEdge,
)
    requires
        ends_old(resolution.decision),
        crate::engine::graph::changed_all(
            edges,
            resolution_changes(old_id, resolution),
        ).contains(e),
        e.touches(old_id),
    ensures
        resolution.decision is Update,
        resolution.edge == Some(e),
{
    let ended: Seq<GraphChange> = seq![GraphChange::ExpireFact(old_id)];
    let left = crate::graph::without_fact(edges, old_id);
    let whole = resolution_changes(old_id, resolution);
    assert(ended.drop_last() =~= Seq::<GraphChange>::empty());
    assert(crate::engine::graph::changed_all(edges, Seq::empty()) == edges);
    assert(crate::engine::graph::changed_all(edges, ended) == left);
    let keep = |x: GraphEdge| !x.touches(old_id);
    assert(!left.contains(e)) by {
        if left.contains(e) {
            broadcast use vstd::seq_lib::group_filter_ensures;

            let k = choose|k: int| 0 <= k < left.len() && left[k] == e;
            assert(keep(left[k]));
        }
    }
    if resolution.edge is Some && makes_edge(resolution.decision) {
        let new = resolution.edge->0;
        assert(whole.drop_last() =~= ended);
        let all = left.push(new);
        assert(crate::engine::graph::changed_all(edges, whole) == all);
        let k = choose|k: int| 0 <= k < all.len() && all[k] == e;
        if k < left.len() {
            assert(left[k] == e);
        }
    }
}

/// The edge joins the two facts in this relation.
pub open spec fn relates(e: GraphEdge, source: i64, target: i64, relation: RelationType) -> bool {
    e.source == source && e.target == target && e.data.relation_type == relation
}

/// Some edge of the graph joins the two facts in this relation.
pub open spec fn graph_relates(
    edges: Seq<GraphEdge>,
    source: i64,
    target: i64,
    relation: RelationType,
) -> bool {
    exists|e: GraphEdge| #[trigger] edges.contains(e) && relates(e, source, target, relation)
}

/// Some active edge of the store joins the two facts in this relation.
pub open spec fn store_relates(
    active: Set<GraphEdge>,
    source: i64,
    target: i64,
    relation: RelationType,
) -> bool {
    exists|e: GraphEdge| #[trigger] active.contains(e) && relates(e, source, target, relation)
}

/// Once the store has carried a decision out and the engine has followed, graph
/// and store hold the same edges again, and join the same facts in the same
/// relations. A fact that was replaced or deleted is no longer active; one that
/// the decision leaves alone is as active as it was. Where nothing is to change,
/// nothing is stored and nothing changes.
pub proof fn resolved_conflict_leaves_graph_and_store_alike(
    before: MemoryEngine,
    after: MemoryEngine,
    rows: ActiveRows,
    rows_after: ActiveRows,
    old_id: i64,
    resolution: ConflictResolution,
)
    requires
        crate::engine::graph::in_step(before.graph.edges(), rows.edges),
        carried_out(rows, rows_after, old_id, resolution),
        follows(before, after, old_id, resolution),
    ensures
        crate::engine::graph::in_step(after.graph.edges(), rows_after.edges),
        forall|source: i64, target: i64, relation: RelationType|
            #![trigger graph_relates(after.graph.edges(), source, target, relation)]
            #![trigger store_relates(rows_after.edges, source, target, relation)]
            graph_relates(after.graph.edges(), source, target, relation) <==> store_relates(
                rows_after.edges,
                source,
                target,
                relation,
            ),
        ends_old(resolution.decision) ==> !rows_after.facts.contains(old_id),
        !ends_old(resolution.decision) ==> (rows_after.facts.contains(old_id)
            <==> rows.facts.contains(old_id)),
        makes_edge(resolution.decision) ==> resolution.new_fact_id is Some
            && rows_after.facts.contains(resolution.new_fact_id->0),
        resolution.decision is Noop ==> {
            &&& resolution.new_fact_id is None
            &&& rows_after == rows
            &&& after.graph.edges() == before.graph.edges()
        },
{
    resolution_keeps_in_step(before.graph.edges(), rows.edges, old_id, resolution);
    let edges = after.graph.edges();
    assert forall|source: i64, target: i64, relation: RelationType|
        #![trigger graph_relates(edges, source, target, relation)]
        #![trigger store_relates(rows_after.edges, source, target, relation)]
        graph_relates(edges, source, target, relation) <==> store_relates(
            rows_after.edges,
            source,
            target,
            relation,
        ) by {
        if graph_relates(edges, source, target, relation) {
            let e = choose|e: GraphEdge| #[trigger]
                edges.contains(e) && relates(e, source, target, relation);
            assert(rows_after.edges.contains(e));
        }
        if store_relates(rows_after.edges, source, target, relation) {
            let e = choose|e: GraphEdge| #[trigger]
                rows_after.edges.contains(e) && relates(e, source, target, relation);
            assert(edges.contains(e));
        }
    }
    if resolution.decision is Noop {
        assert(resolution_changes(old_id, resolution) =~= Seq::<GraphChange>::empty());
    }
}

/// What each decision does to the graph. To add keeps every edge and joins the two
/// facts; to update takes the edges of the old fact and joins it to its
/// replacement; to delete takes its edges; to do nothing changes nothing.
pub proof fn decisions_change_the_graph(
    engine: &mut MemoryEngine,
    old_id: i64,
    resolution: &ConflictResolution,
)
    requires
        call_ensures(MemoryEngine::resolve_conflict, (engine, old_id, resolution), ()),
    ensures
        resolution.decision is Noop ==> final(engine).graph.edges() == old(engine).graph.edges(),
        resolution.decision is Add && resolution.edge is None ==> final(engine).graph.edges()
            == old(engine).graph.edges(),
        resolution.decision is Add && resolution.edge is Some ==> final(engine).graph.edges()
            == old(engine).graph.edges().push(resolution.edge->0),
        resolution.decision is Delete || (resolution.decision is Update && resolution.edge is None)
            ==> final(engine).graph.edges() == old(engine).graph.edges().filter(
            |e: GraphEdge| e.source != old_id && e.target != old_id,
        ),
        resolution.decision is Update && resolution.edge is Some ==> final(engine).graph.edges()
            == old(engine).graph.edges().filter(
            |e: GraphEdge| e.source != old_id && e.target != old_id,
        ).push(resolution.edge->0),
        forall|id: i64| #[trigger]
            old(engine).graph.nodes().contains(id) ==> final(engine).graph.nodes().contains(id),
        resolution.decision is Noop || resolution.decision is Delete ==> forall|id: i64| #[trigger]
            final(engine).graph.nodes().contains(id) ==> old(engine).graph.nodes().contains(id),
        (resolution.decision is Add || resolution.decision is Update) && resolution.edge is Some
            ==> final(engine).graph.nodes().contains(resolution.edge->0.source) && final(engine).graph.nodes().contains(resolution.edge->0.target),
        forall|id: i64| #[trigger]
            final(engine).graph.nodes().contains(id) ==> old(engine).graph.nodes().contains(id) || (
            resolution.edge is Some && (resolution.edge->0.source == id
                || resolution.edge->0.target == id)),
        *final(engine) == (MemoryEngine { graph: final(engine).graph, ..*old(engine) }),
{
    let edges = old(engine).graph.edges();
    let ended: Seq<GraphChange> = seq![GraphChange::ExpireFact(old_id)];
    let whole = resolution_changes(old_id, *resolution);
    assert((|e: GraphEdge| e.source != old_id && e.target != old_id) =~= (|e: GraphEdge|
        !e.touches(old_id)));
    assert(ended.drop_last() =~= Seq::<GraphChange>::empty());
    assert(crate::engine::graph::changed_all(edges, Seq::empty()) == edges);
    assert(crate::engine::graph::changed_all(edges, ended) == crate::graph::without_fact(
        edges,
        old_id,
    ));
    if makes_edge(resolution.decision) && resolution.edge is Some {
        let e = resolution.edge->0;
        if ends_old(resolution.decision) {
            assert(whole.drop_last() =~= ended);
        } else {
            assert(whole.drop_last() =~= Seq::<GraphChange>::empty());
        }
        let news = resolution_edges(*resolution);
        assert(news[0] == e);
        assert(news[0].touches(e.source) && news[0].touches(e.target));
        assert(crate::graph::touched(news, e.source));
        assert(crate::graph::touched(news, e.target));
    } else {
        assert(resolution_edges(*resolution).len() == 0);
    }
}

/// What each decision makes a store write. To add or update needs the new fact and
/// an edge; to update or delete ends the old fact; nothing is written on a fact that
/// is no longer active.
pub proof fn decisions_make_the_store_write(
    decision: CrudDecision,
    old_active: bool,
    r: Option<ConflictWrites>,
)
    requires
        call_ensures(conflict_writes, (decision, old_active), r),
    ensures
        decision is Noop ==> (r matches Some(w) && !w.expire_old && !w.insert_new && !w.make_edge),
        decision is Add && old_active ==> (r matches Some(w) && !w.expire_old && w.insert_new
            && w.make_edge),
        decision is Update && old_active ==> (r matches Some(w) && w.expire_old && w.insert_new
            && w.make_edge),
        decision is Delete && old_active ==> (r matches Some(w) && w.expire_old && !w.insert_new
            && !w.make_edge),
        decision !is Noop && !old_active ==> r is None,
{
}

/// An arbiter is shown the new fact as it is, without an id and without a score;
/// but not on an engine that must be reopened or refuses writes, and not when the
/// content or the metadata has more than a mebibyte.
pub proof fn arbiter_sees_the_new_fact(
    engine: &MemoryEngine,
    new: &NewFact,
    r: Result<Fact, MemoryError>,
)
    requires
        call_ensures(MemoryEngine::arbiter_view, (engine, new), r),
    ensures
        r is Ok <==> engine.reopen_required == 0 && !engine.read_only && vstd::utf8::encode_utf8(
            new.content@,
        ).len() <= 1_048_576 && crate::json::json_encoding(new.metadata).len() <= 1_048_576,
        r matches Ok(f) ==> {
            &&& f.id == 0
            &&& f.importance_score.bits == 0x3FE0_0000_0000_0000
            &&& f.content@ == new.content@
            &&& f.content_hash@ == new.content_hash@
            &&& f.embedding@ == new.embedding@
            &&& f.fact_type == new.fact_type
            &&& f.t_created == new.t_created
            &&& f.t_expired == new.t_expired
            &&& f.t_valid == new.t_valid
            &&& f.t_invalid == new.t_invalid
            &&& f.source_event_id == new.source_event_id
            &&& f.base_importance == new.base_importance
            &&& f.access_count == new.access_count
            &&& f.last_accessed == new.last_accessed
            &&& f.metadata == new.metadata
            &&& f.scope_id == new.scope_id
            &&& f.is_pinned == new.is_pinned
            &&& f.surfaced_at is None
        },
        engine.reopen_required != 0 ==> (r matches Err(e) && e is EmbeddingReopenRequired),
        engine.reopen_required == 0 && engine.read_only ==> (r matches Err(e) && e is ReadOnly),
        engine.reopen_required == 0 && !engine.read_only && r is Err ==> (
        r->Err_0 matches MemoryError::Conflict(
            crate::error::ConflictError::PayloadTooLarge { kind, size, limit },
        ) && limit == 1_048_576 && size > limit && kind@ == (if vstd::utf8::encode_utf8(
            new.content@,
        ).len() > 1_048_576 {
            "fact content"@
        } else {
            "fact metadata"@
        })),
{
}

} // verus!
