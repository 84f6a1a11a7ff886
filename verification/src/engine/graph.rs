//! Keeping the graph in step with the store, and asking it.

use crate::binary64::Binary64;
use crate::engine::state::{scope_not_found, MemoryEngine};
use crate::error::MemoryError;
use crate::graph::{EdgeData, GraphEdge, MemoryGraph, RelationType};
use crate::types::facts::Fact;
use vstd::prelude::*;

verus! {

/// Bit pattern of 0.5, the weight of a co-session edge.
pub const CO_SESSION_WEIGHT_BITS: u64 = 0x3FE0_0000_0000_0000;

/// Bit pattern of 1.0, the weight of an edge from a fact to the one it replaces.
pub const SUPERSEDE_WEIGHT_BITS: u64 = 0x3FF0_0000_0000_0000;

/// The scope of co-session edges: they cross scopes, so the root.
pub const CO_SESSION_SCOPE_ID: i64 = 1;

/// A change of the store's active edges.
#[derive(Debug, Clone, PartialEq, Eq)]
pub enum GraphChange {
    /// An edge was added.
    AddEdge(GraphEdge),
    /// The edges that touch a fact expired.
    ExpireFact(i64),
    /// The edge with an id expired.
    ExpireEdge(i64),
}

/// The edges of the graph after a change.
pub open spec fn changed(edges: Seq<GraphEdge>, change: GraphChange) -> Seq<GraphEdge> {
    match change {
        GraphChange::AddEdge(e) => edges.push(e),
        GraphChange::ExpireFact(id) => crate::graph::without_fact(edges, id),
        GraphChange::ExpireEdge(id) => crate::graph::without_edge(edges, id),
    }
}

/// The edges of the graph after several changes.
pub open spec fn changed_all(edges: Seq<GraphEdge>, changes: Seq<GraphChange>) -> Seq<GraphEdge>
    decreases changes.len(),
{
    if changes.len() == 0 {
        edges
    } else {
        changed(changed_all(edges, changes.drop_last()), changes.last())
    }
}

/// The store's active edges after a change.
pub open spec fn store_changed(active: Set<GraphEdge>, change: GraphChange) -> Set<GraphEdge> {
    match change {
        GraphChange::AddEdge(e) => active.insert(e),
        GraphChange::ExpireFact(id) => active.filter(|e: GraphEdge| !e.touches(id)),
        GraphChange::ExpireEdge(id) => active.filter(|e: GraphEdge| e.data.edge_id != id),
    }
}

/// The store's active edges after several changes.
pub open spec fn store_changed_all(
    active: Set<GraphEdge>,
    changes: Seq<GraphChange>,
) -> Set<GraphEdge>
    decreases changes.len(),
{
    if changes.len() == 0 {
        active
    } else {
        store_changed(store_changed_all(active, changes.drop_last()), changes.last())
    }
}

/// The graph holds exactly the store's active edges.
pub open spec fn in_step(edges: Seq<GraphEdge>, active: Set<GraphEdge>) -> bool {
    forall|e: GraphEdge| #[trigger] edges.contains(e) <==> active.contains(e)
}

/// The edges that the changes add.
pub open spec fn added(changes: Seq<GraphChange>) -> Seq<GraphEdge>
    decreases changes.len(),
{
    if changes.len() == 0 {
        Seq::empty()
    } else {
        match changes.last() {
            GraphChange::AddEdge(e) => added(changes.drop_last()).push(e),
            _ => added(changes.drop_last()),
        }
    }
}

/// Makes a change of the store in the graph. Facts that lose their edges stay.
pub fn apply_change(graph: &mut MemoryGraph, change: GraphChange)
    requires
        old(graph).well_formed(),
    ensures
        final(graph).well_formed(),
        final(graph).edges() == changed(old(graph).edges(), change),
        change !is AddEdge ==> final(graph).nodes() == old(graph).nodes(),
        change matches GraphChange::AddEdge(e) ==> crate::graph::grown(
            final(graph).nodes(),
            old(graph).nodes(),
            seq![e],
        ),
{
    proof {
        if change is AddEdge {
            let e = change->AddEdge_0;
            crate::graph::lemma_touched_push(Seq::empty(), e);
            assert(Seq::<GraphEdge>::empty().push(e) =~= seq![e]);
        }
    }
    match change {
        GraphChange::AddEdge(e) => {
            graph.add_edge(e.source, e.target, e.data);
        },
        GraphChange::ExpireFact(id) => {
            graph.remove_edges_by_fact(id);
        },
        GraphChange::ExpireEdge(id) => {
            graph.remove_edge_by_id(id);
        },
    }
}

/// Makes changes of the store in the graph, in order.
pub fn apply_changes(graph: &mut MemoryGraph, changes: Vec<GraphChange>)
    requires
        old(graph).well_formed(),
    ensures
        final(graph).well_formed(),
        final(graph).edges() == changed_all(old(graph).edges(), changes@),
        crate::graph::grown(final(graph).nodes(), old(graph).nodes(), added(changes@)),
{
    let ghost start = graph.edges();
    let ghost nodes = graph.nodes();
    let ghost all = changes@;
    assert(all.take(0) =~= Seq::<GraphChange>::empty());
    for change in it: changes
        invariant
            it.seq() == all,
            graph.well_formed(),
            graph.edges() == changed_all(start, all.take(it.index() as int)),
            crate::graph::grown(graph.nodes(), nodes, added(all.take(it.index() as int))),
    {
        assert(all.take(it.index() + 1).drop_last() =~= all.take(it.index() as int));
        let ghost earlier = added(all.take(it.index() as int));
        proof {
            if change is AddEdge {
                let e = change->AddEdge_0;
                crate::graph::lemma_touched_push(earlier, e);
                crate::graph::lemma_touched_push(Seq::empty(), e);
                assert(Seq::<GraphEdge>::empty().push(e) =~= seq![e]);
            }
        }
        apply_change(graph, change);
    }
    assert(all.take(all.len() as int) =~= all);
}

/// A graph that is in step with the store stays in step when both take the same
/// change.
pub proof fn change_keeps_in_step(
    edges: Seq<GraphEdge>,
    active: Set<GraphEdge>,
    change: GraphChange,
)
    requires
        in_step(edges, active),
    ensures
        in_step(changed(edges, change), store_changed(active, change)),
{
    match change {
        GraphChange::AddEdge(new) => {
            let more = edges.push(new);
            assert forall|e: GraphEdge| #[trigger] more.contains(e) <==> active.insert(
                new,
            ).contains(e) by {
                if edges.contains(e) {
                    let k = choose|k: int| 0 <= k < edges.len() && edges[k] == e;
                    assert(more[k] == e);
                }
                if e == new {
                    assert(more[edges.len() as int] == e);
                }
                if more.contains(e) && e != new {
                    let k = choose|k: int| 0 <= k < more.len() && more[k] == e;
                    assert(edges[k] == e);
                }
            }
        },
        GraphChange::ExpireFact(id) => {
            lemma_filter_in_step(edges, active, |e: GraphEdge| !e.touches(id));
        },
        GraphChange::ExpireEdge(id) => {
            lemma_filter_in_step(edges, active, |e: GraphEdge| e.data.edge_id != id);
        },
    }
}

proof fn lemma_filter_in_step(
    edges: Seq<GraphEdge>,
    active: Set<GraphEdge>,
    keep: spec_fn(GraphEdge) -> bool,
)
    requires
        in_step(edges, active),
    ensures
        in_step(edges.filter(keep), active.filter(keep)),
{
    broadcast use vstd::seq_lib::group_filter_ensures;

    let left = edges.filter(keep);
    assert forall|e: GraphEdge| #[trigger] left.contains(e) <==> active.filter(keep).contains(
        e,
    ) by {
        if left.contains(e) {
            edges.lemma_filter_contains_rev(keep, e);
            let k = choose|k: int| 0 <= k < left.len() && left[k] == e;
            assert(keep(left[k]));
        }
        if active.filter(keep).contains(e) {
            assert(edges.contains(e));
            let k = choose|k: int| 0 <= k < edges.len() && edges[k] == e;
            edges.lemma_filter_contains(keep, k);
        }
    }
}

/// A graph that is in step with the store stays in step through any changes.
pub proof fn changes_keep_in_step(
    edges: Seq<GraphEdge>,
    active: Set<GraphEdge>,
    changes: Seq<GraphChange>,
)
    requires
        in_step(edges, active),
    ensures
        in_step(changed_all(edges, changes), store_changed_all(active, changes)),
    decreases changes.len(),
{
    if changes.len() > 0 {
        changes_keep_in_step(edges, active, changes.drop_last());
        change_keeps_in_step(
            changed_all(edges, changes.drop_last()),
            store_changed_all(active, changes.drop_last()),
            changes.last(),
        );
    }
}

/// The edge that links two facts of a session, from its id and its end points.
pub open spec fn cosession_edge(new: (i64, i64, i64)) -> GraphEdge {
    GraphEdge {
        source: new.1,
        target: new.2,
        data: EdgeData {
            edge_id: new.0,
            relation_type: RelationType::CoSession,
            weight: Binary64 { bits: CO_SESSION_WEIGHT_BITS },
        },
    }
}

/// The edge from a fact to the one it replaces, from both and the edge's id.
pub open spec fn supersede_edge(new: (i64, i64, i64)) -> GraphEdge {
    GraphEdge {
        source: new.0,
        target: new.1,
        data: EdgeData {
            edge_id: new.2,
            relation_type: RelationType::Supersedes,
            weight: Binary64 { bits: SUPERSEDE_WEIGHT_BITS },
        },
    }
}

/// The edges after facts were replaced: the edges of each replaced fact are gone,
/// and one leads to it from its replacement.
pub open spec fn superseded(edges: Seq<GraphEdge>, news: Seq<(i64, i64, i64)>) -> Seq<GraphEdge>
    decreases news.len(),
{
    if news.len() == 0 {
        edges
    } else {
        crate::graph::without_fact(superseded(edges, news.drop_last()), news.last().1).push(
            supersede_edge(news.last()),
        )
    }
}

/// The ids of facts.
pub open spec fn fact_ids(facts: Seq<Fact>) -> Seq<i64> {
    facts.map_values(|f: Fact| f.id)
}

/// The facts of a session that are to be linked with each other; none when there
/// are fewer than two.
pub fn facts_to_link(facts: &Vec<Fact>) -> (r: Option<Vec<i64>>)
    ensures
        r is Some <==> facts@.len() >= 2,
        r matches Some(ids) ==> ids@ == fact_ids(facts@),
{
    if facts.len() < 2 {
        return None;
    }
    let mut ids: Vec<i64> = Vec::new();
    let mut i: usize = 0;
    while i < facts.len()
        invariant
            i <= facts@.len(),
            ids@ == fact_ids(facts@.take(i as int)),
        decreases facts@.len() - i,
    {
        ids.push(facts[i].id);
        assert(ids@ =~= fact_ids(facts@.take(i + 1)));
        i = i + 1;
    }
    assert(facts@.take(i as int) =~= facts@);
    Some(ids)
}

/// The engine took new co-session edges into its graph, and changed nothing else;
/// `count` is their number.
pub open spec fn takes_links(
    before: MemoryEngine,
    after: MemoryEngine,
    news: Seq<(i64, i64, i64)>,
    count: usize,
) -> bool {
    &&& count == news.len()
    &&& after.graph.edges() == with_links(before.graph.edges(), news)
    &&& crate::graph::grown(
        after.graph.nodes(),
        before.graph.nodes(),
        news.map_values(|n: (i64, i64, i64)| cosession_edge(n)),
    )
    &&& after == (MemoryEngine { graph: after.graph, ..before })
}

impl MemoryEngine {
    /// The scopes whose facts are linked: those at or below the named one, or,
    /// as no scopes at all, every scope. The engine must accept writes.
    pub fn link_scope_ids(&self, scope: Option<&str>) -> (r: Result<Vec<i64>, MemoryError>)
        ensures
            self.read_only ==> r == Err::<Vec<i64>, MemoryError>(MemoryError::ReadOnly),
            !self.read_only ==> match scope {
                None => r matches Ok(ids) && ids@.len() == 0,
                Some(path) => match crate::scope_tree::resolved(self.scope_tree.nodes(), path@) {
                    Some(id) => r matches Ok(ids) && ids@ == crate::scope_tree::below(
                        self.scope_tree.nodes(),
                        id,
                    ),
                    None => r matches Err(MemoryError::NotFound(text)) && text@ == "scope path: "@
                        + path@,
                },
            },
    {
        self.ensure_writable()?;
        match scope {
            Some(path) => match self.scope_tree.resolve_path(path) {
                Some(id) => Ok(self.scope_tree.subtree(id)),
                None => Err(scope_not_found(path)),
            },
            None => Ok(Vec::new()),
        }
    }

    /// Takes the co-session edges that the store made into the graph, and says
    /// how many they are.
    pub fn link_session_facts(&mut self, new_edges: &Vec<(i64, i64, i64)>) -> (r: usize)
        requires
            old(self).well_formed(),
        ensures
            final(self).well_formed(),
            takes_links(*old(self), *final(self), new_edges@, r),
    {
        let ghost start = self.graph.edges();
        let ghost nodes = self.graph.nodes();
        let ghost edge = |n: (i64, i64, i64)| cosession_edge(n);
        let mut i: usize = 0;
        assert(start + new_edges@.take(0).map_values(edge) =~= start);
        while i < new_edges.len()
            invariant
                i <= new_edges@.len(),
                edge == (|n: (i64, i64, i64)| cosession_edge(n)),
                self.well_formed(),
                *self == (MemoryEngine { graph: self.graph, ..*old(self) }),
                self.graph.edges() == start + new_edges@.take(i as int).map_values(edge),
                crate::graph::grown(
                    self.graph.nodes(),
                    nodes,
                    new_edges@.take(i as int).map_values(edge),
                ),
            decreases new_edges@.len() - i,
        {
            let (edge_id, source, target) = new_edges[i];
            proof {
                let e = cosession_edge(new_edges@[i as int]);
                let earlier = new_edges@.take(i as int).map_values(edge);
                crate::graph::lemma_touched_push(earlier, e);
                assert(new_edges@.take(i + 1).map_values(edge) =~= earlier.push(e));
                assert(e.touches(source) && e.touches(target));
            }
            self.graph.add_edge(
                source,
                target,
                EdgeData {
                    edge_id,
                    relation_type: RelationType::CoSession,
                    weight: Binary64 { bits: CO_SESSION_WEIGHT_BITS },
                },
            );
            assert(self.graph.edges() =~= start + new_edges@.take(i + 1).map_values(edge));
            i = i + 1;
        }
        assert(new_edges@.take(i as int) =~= new_edges@);
        new_edges.len()
    }

    /// Takes an edge that expired in the store out of the graph. It need not be
    /// there.
    pub fn expire_edge(&mut self, edge_id: i64)
        requires
            old(self).well_formed(),
        ensures
            final(self).well_formed(),
            final(self).graph.edges() == crate::graph::without_edge(
                old(self).graph.edges(),
                edge_id,
            ),
            final(self).graph.nodes() == old(self).graph.nodes(),
            *final(self) == (MemoryEngine { graph: final(self).graph, ..*old(self) }),
    {
        self.graph.remove_edge_by_id(edge_id);
    }

    /// Takes the replacements that a cycle report made in the store into the
    /// graph: for each, the edges of the replaced fact go, and one comes from its
    /// replacement.
    pub fn apply_cycle_report(&mut self, supersede_edges: &Vec<(i64, i64, i64)>)
        requires
            old(self).well_formed(),
        ensures
            final(self).well_formed(),
            final(self).graph.edges() == superseded(
                old(self).graph.edges(),
                supersede_edges@,
            ),
            crate::graph::grown(
                final(self).graph.nodes(),
                old(self).graph.nodes(),
                supersede_edges@.map_values(|n: (i64, i64, i64)| supersede_edge(n)),
            ),
            *final(self) == (MemoryEngine { graph: final(self).graph, ..*old(self) }),
    {
        let ghost start = self.graph.edges();
        let ghost nodes = self.graph.nodes();
        let ghost edge = |n: (i64, i64, i64)| supersede_edge(n);
        let mut i: usize = 0;
        assert(supersede_edges@.take(0) =~= Seq::<(i64, i64, i64)>::empty());
        while i < supersede_edges.len()
            invariant
                i <= supersede_edges@.len(),
                self.well_formed(),
                *self == (MemoryEngine { graph: self.graph, ..*old(self) }),
                self.graph.edges() == superseded(start, supersede_edges@.take(i as int)),
                edge == (|n: (i64, i64, i64)| supersede_edge(n)),
                crate::graph::grown(
                    self.graph.nodes(),
                    nodes,
                    supersede_edges@.take(i as int).map_values(edge),
                ),
            decreases supersede_edges@.len() - i,
        {
            let (new_id, old_id, edge_id) = supersede_edges[i];
            assert(supersede_edges@.take(i + 1).drop_last() =~= supersede_edges@.take(i as int));
            proof {
                let e = supersede_edge(supersede_edges@[i as int]);
                let earlier = supersede_edges@.take(i as int).map_values(edge);
                crate::graph::lemma_touched_push(earlier, e);
                assert(supersede_edges@.take(i + 1).map_values(edge) =~= earlier.push(e));
                assert(e.touches(new_id) && e.touches(old_id));
            }
            self.graph.remove_edges_by_fact(old_id);
            self.graph.add_edge(
                new_id,
                old_id,
                EdgeData {
                    edge_id,
                    relation_type: RelationType::Supersedes,
                    weight: Binary64 { bits: SUPERSEDE_WEIGHT_BITS },
                },
            );
            i = i + 1;
        }
        assert(supersede_edges@.take(i as int) =~= supersede_edges@);
    }

    /// Takes the edges of facts that expired in the store out of the graph. The
    /// facts themselves stay.
    pub fn expire_facts(&mut self, expired: &Vec<i64>)
        requires
            old(self).well_formed(),
        ensures
            final(self).well_formed(),
            final(self).graph.edges() == crate::graph::edges_sparing(
                old(self).graph.edges(),
                expired@,
            ),
            final(self).graph.nodes() == old(self).graph.nodes(),
            *final(self) == (MemoryEngine { graph: final(self).graph, ..*old(self) }),
    {
        let ghost start = self.graph.edges();
        let mut i: usize = 0;
        proof {
            crate::graph::lemma_spare_none(start);
            assert(expired@.take(0) =~= Seq::<i64>::empty());
        }
        while i < expired.len()
            invariant
                i <= expired@.len(),
                self.well_formed(),
                *self == (MemoryEngine { graph: self.graph, ..*old(self) }),
                self.graph.edges() == crate::graph::edges_sparing(start, expired@.take(i as int)),
                self.graph.nodes() == old(self).graph.nodes(),
            decreases expired@.len() - i,
        {
            proof {
                crate::graph::lemma_spare_one_more(
                    start,
                    expired@.take(i as int),
                    expired@[i as int],
                );
                assert(expired@.take(i + 1) =~= expired@.take(i as int).push(expired@[i as int]));
            }
            self.graph.remove_edges_by_fact(expired[i]);
            i = i + 1;
        }
        assert(expired@.take(i as int) =~= expired@);
    }

    /// Builds the graph anew from the store's active edges.
    pub fn rebuild_graph(&mut self, active_edges: Vec<GraphEdge>)
        requires
            old(self).well_formed(),
        ensures
            final(self).well_formed(),
            final(self).graph.edges() == active_edges@,
            forall|id: i64| #[trigger]
                final(self).graph.nodes().contains(id) <==> crate::graph::touched(
                    active_edges@,
                    id,
                ),
            *final(self) == (MemoryEngine { graph: final(self).graph, ..*old(self) }),
    {
        self.graph = MemoryGraph::from_active_edges(active_edges);
    }

    /// How many edges enter or leave a fact. The count stops at the largest
    /// `usize`.
    pub fn graph_degree(&self, fact_id: i64) -> (r: usize)
        ensures
            r == (if crate::graph::out_degree(self.graph.edges(), fact_id)
                + crate::graph::in_degree(self.graph.edges(), fact_id) <= usize::MAX {
                crate::graph::out_degree(self.graph.edges(), fact_id) + crate::graph::in_degree(
                    self.graph.edges(),
                    fact_id,
                )
            } else {
                usize::MAX as nat
            }),
    {
        self.graph.degree(fact_id)
    }

    /// The facts that are connected with a fact, the fact itself among them; none
    /// for a fact that is not in the graph.
    pub fn graph_component(&self, fact_id: i64) -> (r: Vec<i64>)
        requires
            self.well_formed(),
        ensures
            r@.no_duplicates(),
            forall|id: i64| #[trigger]
                r@.contains(id) <==> self.graph.nodes().contains(fact_id)
                    && crate::graph::connected(self.graph.edges(), fact_id, id),
    {
        self.graph.connected_component(fact_id)
    }

    /// The facts that the edges of a fact lead to.
    pub fn graph_neighbors(&self, fact_id: i64) -> (r: Vec<i64>)
        ensures
            r@ == crate::graph::targets(self.graph.edges(), fact_id),
    {
        self.graph.neighbors(fact_id)
    }

    /// How many facts and edges the graph has.
    pub fn graph_stats(&self) -> (r: (usize, usize))
        ensures
            r.0 == self.graph.nodes().len(),
            r.1 == self.graph.edges().len(),
    {
        (self.graph.node_count(), self.graph.edge_count())
    }

    /// Whether a fact is in the graph.
    pub fn graph_has_node(&self, fact_id: i64) -> (r: bool)
        ensures
            r == self.graph.nodes().contains(fact_id),
    {
        self.graph.has_node(fact_id)
    }
}

/// The changes that a list of replacements makes in the store.
pub open spec fn supersede_changes(news: Seq<(i64, i64, i64)>) -> Seq<GraphChange>
    decreases news.len(),
{
    if news.len() == 0 {
        Seq::empty()
    } else {
        supersede_changes(news.drop_last()).push(GraphChange::ExpireFact(news.last().1)).push(
            GraphChange::AddEdge(supersede_edge(news.last())),
        )
    }
}

/// After a cycle report was applied the graph is in step with the store, in which
/// the edges of each replaced fact expired and the edge from its replacement was
/// added.
pub proof fn cycle_report_keeps_in_step(
    edges: Seq<GraphEdge>,
    active: Set<GraphEdge>,
    news: Seq<(i64, i64, i64)>,
)
    requires
        in_step(edges, active),
    ensures
        in_step(superseded(edges, news), store_changed_all(active, supersede_changes(news))),
{
    lemma_superseded_is_changed(edges, news);
    changes_keep_in_step(edges, active, supersede_changes(news));
}

proof fn lemma_superseded_is_changed(edges: Seq<GraphEdge>, news: Seq<(i64, i64, i64)>)
    ensures
        superseded(edges, news) == changed_all(edges, supersede_changes(news)),
    decreases news.len(),
{
    if news.len() > 0 {
        lemma_superseded_is_changed(edges, news.drop_last());
        let earlier = supersede_changes(news.drop_last());
        let expire = GraphChange::ExpireFact(news.last().1);
        let link = GraphChange::AddEdge(supersede_edge(news.last()));
        let one = earlier.push(expire);
        let both = one.push(link);
        assert(one.drop_last() =~= earlier);
        assert(both.drop_last() =~= one);
        assert(changed_all(edges, one) == changed(changed_all(edges, earlier), expire));
        assert(changed_all(edges, both) == changed(changed_all(edges, one), link));
    }
}

/// The changes that linking the facts of a session makes in the store.
pub open spec fn link_changes(news: Seq<(i64, i64, i64)>) -> Seq<GraphChange> {
    news.map_values(|n: (i64, i64, i64)| GraphChange::AddEdge(cosession_edge(n)))
}

/// After the facts of a session were linked the graph is in step with the store,
/// to which the same edges were added.
pub proof fn linking_keeps_in_step(
    edges: Seq<GraphEdge>,
    active: Set<GraphEdge>,
    news: Seq<(i64, i64, i64)>,
)
    requires
        in_step(edges, active),
    ensures
        in_step(
            edges + news.map_values(|n: (i64, i64, i64)| cosession_edge(n)),
            store_changed_all(active, link_changes(news)),
        ),
{
    lemma_linked_is_changed(edges, news);
    changes_keep_in_step(edges, active, link_changes(news));
}

proof fn lemma_linked_is_changed(edges: Seq<GraphEdge>, news: Seq<(i64, i64, i64)>)
    ensures
        edges + news.map_values(|n: (i64, i64, i64)| cosession_edge(n)) == changed_all(
            edges,
            link_changes(news),
        ),
    decreases news.len(),
{
    let edge = |n: (i64, i64, i64)| cosession_edge(n);
    if news.len() > 0 {
        let front = news.drop_last();
        lemma_linked_is_changed(edges, front);
        assert(link_changes(news).drop_last() =~= link_changes(front));
        assert(edges + news.map_values(edge) =~= (edges + front.map_values(edge)).push(
            cosession_edge(news.last()),
        ));
    } else {
        assert(edges + news.map_values(edge) =~= edges);
        assert(link_changes(news) =~= Seq::<GraphChange>::empty());
    }
}

/// A co-session edge leads from one fact to the other.
pub open spec fn is_link(e: GraphEdge, a: i64, b: i64) -> bool {
    e.source == a && e.target == b && e.data.relation_type == RelationType::CoSession
}

/// Some co-session edge leads from one fact to the other.
pub open spec fn has_link(active: Seq<GraphEdge>, a: i64, b: i64) -> bool {
    exists|i: int| 0 <= i < active.len() && #[trigger] is_link(active[i], a, b)
}

/// The pair of different facts of a session has no co-session edge yet.
pub open spec fn lacks_link(ids: Seq<i64>, active: Seq<GraphEdge>, pair: (i64, i64)) -> bool {
    &&& ids.contains(pair.0)
    &&& ids.contains(pair.1)
    &&& pair.0 != pair.1
    &&& !has_link(active, pair.0, pair.1)
}

fn find_link(active: &Vec<GraphEdge>, a: i64, b: i64) -> (r: bool)
    ensures
        r == has_link(active@, a, b),
{
    let mut i: usize = 0;
    while i < active.len()
        invariant
            i <= active@.len(),
            forall|j: int| 0 <= j < i ==> !#[trigger] is_link(active@[j], a, b),
        decreases active@.len() - i,
    {
        let cosession = match &active[i].data.relation_type {
            RelationType::CoSession => true,
            _ => false,
        };
        if active[i].source == a && active[i].target == b && cosession {
            assert(is_link(active@[i as int], a, b));
            return true;
        }
        i = i + 1;
    }
    false
}

/// The ids, each of them once, in order of first occurrence.
fn distinct(ids: &Vec<i64>) -> (r: Vec<i64>)
    ensures
        r@.no_duplicates(),
        forall|id: i64| #[trigger] r@.contains(id) <==> ids@.contains(id),
{
    let mut out: Vec<i64> = Vec::new();
    let mut i: usize = 0;
    while i < ids.len()
        invariant
            i <= ids@.len(),
            out@.no_duplicates(),
            forall|id: i64| #[trigger]
                out@.contains(id) <==> ids@.take(i as int).contains(id),
        decreases ids@.len() - i,
    {
        let ghost before = out@;
        crate::graph::add_new(&mut out, ids[i]);
        assert forall|id: i64| #[trigger] out@.contains(id) <==> ids@.take(i + 1).contains(id) by {
            let seen = ids@.take(i as int);
            let now = ids@.take(i + 1);
            if seen.contains(id) {
                let k = choose|k: int| 0 <= k < seen.len() && seen[k] == id;
                assert(now[k] == id);
            }
            if id == ids@[i as int] {
                assert(now[i as int] == id);
            }
            if now.contains(id) && id != ids@[i as int] {
                let k = choose|k: int| 0 <= k < now.len() && now[k] == id;
                assert(seen[k] == id);
            }
            assert(before.contains(id) <==> seen.contains(id));
        }
        i = i + 1;
    }
    assert(ids@.take(i as int) =~= ids@);
    out
}

/// The pairs of facts of a session that are to be joined by new co-session edges:
/// each two facts in both directions, but for those that are joined already.
pub fn missing_links(ids: &Vec<i64>, active: &Vec<GraphEdge>) -> (r: Vec<(i64, i64)>)
    ensures
        r@.no_duplicates(),
        forall|pair: (i64, i64)| #[trigger]
            r@.contains(pair) <==> lacks_link(ids@, active@, pair),
{
    let facts = distinct(ids);
    let mut out: Vec<(i64, i64)> = Vec::new();
    let mut i: usize = 0;
    while i < facts.len()
        invariant
            i <= facts@.len(),
            facts@.no_duplicates(),
            out@.no_duplicates(),
            forall|pair: (i64, i64)| #[trigger]
                out@.contains(pair) <==> lacks_link(facts@, active@, pair) && facts@.take(
                    i as int,
                ).contains(pair.0),
        decreases facts@.len() - i,
    {
        let a: i64 = facts[i];
        let ghost start = out@;
        let mut j: usize = 0;
        proof {
            assert(!facts@.take(i as int).contains(a)) by {
                if facts@.take(i as int).contains(a) {
                    let k = choose|k: int| 0 <= k < i && facts@.take(i as int)[k] == a;
                    assert(facts@[k] == facts@[i as int]);
                }
            }
        }
        while j < facts.len()
            invariant
                i < facts@.len(),
                j <= facts@.len(),
                a == facts@[i as int],
                facts@.no_duplicates(),
                out@.no_duplicates(),
                forall|pair: (i64, i64)| #[trigger] start.contains(pair) ==> pair.0 != a,
                forall|pair: (i64, i64)| #[trigger]
                    out@.contains(pair) <==> start.contains(pair) || (pair.0 == a && lacks_link(
                        facts@,
                        active@,
                        pair,
                    ) && facts@.take(j as int).contains(pair.1)),
            decreases facts@.len() - j,
        {
            let b: i64 = facts[j];
            let ghost before = out@;
            let ghost new = (a, b);
            proof {
                assert(facts@.contains(a));
                assert(facts@.contains(b));
                assert(!facts@.take(j as int).contains(b)) by {
                    if facts@.take(j as int).contains(b) {
                        let k = choose|k: int| 0 <= k < j && facts@.take(j as int)[k] == b;
                        assert(facts@[k] == facts@[j as int]);
                    }
                }
                assert(!before.contains(new));
            }
            let wanted = a != b && !find_link(active, a, b);
            if wanted {
                out.push((a, b));
            }
            assert forall|pair: (i64, i64)| #[trigger] out@.contains(pair) <==> start.contains(
                pair,
            ) || (pair.0 == a && lacks_link(facts@, active@, pair) && facts@.take(
                j + 1,
            ).contains(pair.1)) by {
                lemma_take_one_more(facts@, j as int, pair.1);
                if wanted {
                    lemma_push_pair(before, new, pair);
                }
                assert(before.contains(pair) <==> start.contains(pair) || (pair.0 == a
                    && lacks_link(facts@, active@, pair) && facts@.take(j as int).contains(
                    pair.1,
                )));
            }
            j = j + 1;
        }
        assert forall|pair: (i64, i64)| #[trigger] out@.contains(pair) <==> lacks_link(
            facts@,
            active@,
            pair,
        ) && facts@.take(i + 1).contains(pair.0) by {
            lemma_take_one_more(facts@, i as int, pair.0);
            assert(facts@.take(j as int) =~= facts@);
            assert(start.contains(pair) <==> lacks_link(facts@, active@, pair) && facts@.take(
                i as int,
            ).contains(pair.0));
        }
        i = i + 1;
    }
    assert(facts@.take(i as int) =~= facts@);
    assert forall|pair: (i64, i64)| #[trigger] out@.contains(pair) <==> lacks_link(
        ids@,
        active@,
        pair,
    ) by {
        assert(facts@.contains(pair.0) <==> ids@.contains(pair.0));
        assert(facts@.contains(pair.1) <==> ids@.contains(pair.1));
        assert(out@.contains(pair) <==> lacks_link(facts@, active@, pair) && facts@.contains(
            pair.0,
        ));
    }
    out
}

proof fn lemma_take_one_more(s: Seq<i64>, k: int, x: i64)
    requires
        0 <= k < s.len(),
    ensures
        s.take(k + 1).contains(x) <==> s.take(k).contains(x) || x == s[k],
{
    let less = s.take(k);
    let more = s.take(k + 1);
    if less.contains(x) {
        let i = choose|i: int| 0 <= i < less.len() && less[i] == x;
        assert(more[i] == x);
    }
    if x == s[k] {
        assert(more[k] == x);
    }
    if more.contains(x) && x != s[k] {
        let i = choose|i: int| 0 <= i < more.len() && more[i] == x;
        assert(less[i] == x);
    }
}

proof fn lemma_push_pair(s: Seq<(i64, i64)>, new: (i64, i64), pair: (i64, i64))
    ensures
        s.push(new).contains(pair) <==> s.contains(pair) || pair == new,
{
    let more = s.push(new);
    if s.contains(pair) {
        let i = choose|i: int| 0 <= i < s.len() && s[i] == pair;
        assert(more[i] == pair);
    }
    if pair == new {
        assert(more[s.len() as int] == pair);
    }
    if more.contains(pair) && pair != new {
        let i = choose|i: int| 0 <= i < more.len() && more[i] == pair;
        assert(s[i] == pair);
    }
}

/// A co-session edge that is about to be stored.
#[derive(Debug, Clone, Copy, PartialEq, Eq, Structural)]
pub struct NewLink {
    pub source: i64,
    pub target: i64,
    pub weight: Binary64,
    pub scope_id: i64,
}

/// The co-session edge for a pair of facts: of half the weight of a full edge, and
/// in the root scope.
pub open spec fn link_for(pair: (i64, i64)) -> NewLink {
    NewLink {
        source: pair.0,
        target: pair.1,
        weight: Binary64 { bits: CO_SESSION_WEIGHT_BITS },
        scope_id: CO_SESSION_SCOPE_ID,
    }
}

/// The co-session edges that a store inserts for the facts of a session, when
/// `active` are its active edges: one for each pair that [`missing_links`] names.
pub fn links_to_insert(ids: &Vec<i64>, active: &Vec<GraphEdge>) -> (r: Vec<NewLink>)
    ensures
        r@.no_duplicates(),
        forall|i: int|
            0 <= i < r@.len() ==> lacks_link(
                ids@,
                active@,
                ((#[trigger] r@[i]).source, r@[i].target),
            ) && r@[i] == link_for((r@[i].source, r@[i].target)),
        forall|pair: (i64, i64)| #[trigger]
            lacks_link(ids@, active@, pair) ==> r@.contains(link_for(pair)),
{
    let pairs = missing_links(ids, active);
    let mut out: Vec<NewLink> = Vec::new();
    let mut i: usize = 0;
    while i < pairs.len()
        invariant
            i <= pairs@.len(),
            out@.len() == i,
            forall|k: int| 0 <= k < i ==> #[trigger] out@[k] == link_for(pairs@[k]),
        decreases pairs@.len() - i,
    {
        out.push(
            NewLink {
                source: pairs[i].0,
                target: pairs[i].1,
                weight: Binary64 { bits: CO_SESSION_WEIGHT_BITS },
                scope_id: CO_SESSION_SCOPE_ID,
            },
        );
        i = i + 1;
    }
    proof {
        assert forall|k: int| 0 <= k < out@.len() implies lacks_link(
            ids@,
            active@,
            ((#[trigger] out@[k]).source, out@[k].target),
        ) && out@[k] == link_for((out@[k].source, out@[k].target)) by {
            assert(pairs@.contains(pairs@[k]));
            assert(pairs@[k] == (out@[k].source, out@[k].target));
        }
        assert forall|pair: (i64, i64)| #[trigger] lacks_link(ids@, active@, pair) implies out@.contains(
            link_for(pair),
        ) by {
            assert(pairs@.contains(pair));
            let k = choose|k: int| 0 <= k < pairs@.len() && pairs@[k] == pair;
            assert(out@[k] == link_for(pair));
        }
        assert forall|k: int, l: int| 0 <= k < out@.len() && 0 <= l < out@.len() && k != l implies out@[k]
            != out@[l] by {
            assert(pairs@[k] != pairs@[l]);
        }
    }
    out
}

/// The facts that a new co-session edge joins.
pub open spec fn ends_of(new: (i64, i64, i64)) -> (i64, i64) {
    (new.1, new.2)
}

/// The new edges are those that the facts of a session lack: one for each pair
/// that [`missing_links`] names, and no others.
pub open spec fn are_links_of(
    news: Seq<(i64, i64, i64)>,
    ids: Seq<i64>,
    active: Seq<GraphEdge>,
) -> bool {
    &&& forall|k: int|
        0 <= k < news.len() ==> lacks_link(ids, active, ends_of(#[trigger] news[k]))
    &&& forall|pair: (i64, i64)| #[trigger]
        lacks_link(ids, active, pair) ==> exists|k: int|
            0 <= k < news.len() && ends_of(#[trigger] news[k]) == pair
    &&& forall|k: int, l: int|
        0 <= k < l < news.len() ==> ends_of(#[trigger] news[k]) != ends_of(#[trigger] news[l])
}

/// The active edges after the new ones were added.
pub open spec fn with_links(active: Seq<GraphEdge>, news: Seq<(i64, i64, i64)>) -> Seq<GraphEdge> {
    active + news.map_values(|n: (i64, i64, i64)| cosession_edge(n))
}

/// Once the facts of a session were linked, each two of them are joined by a
/// co-session edge in each direction.
pub proof fn linked_facts_are_joined_pairwise(
    news: Seq<(i64, i64, i64)>,
    ids: Seq<i64>,
    active: Seq<GraphEdge>,
    a: i64,
    b: i64,
)
    requires
        are_links_of(news, ids, active),
        ids.contains(a),
        ids.contains(b),
        a != b,
    ensures
        has_link(with_links(active, news), a, b),
        has_link(with_links(active, news), b, a),
{
    lemma_link_is_there(news, ids, active, a, b);
    lemma_link_is_there(news, ids, active, b, a);
}

proof fn lemma_link_is_there(
    news: Seq<(i64, i64, i64)>,
    ids: Seq<i64>,
    active: Seq<GraphEdge>,
    a: i64,
    b: i64,
)
    requires
        are_links_of(news, ids, active),
        ids.contains(a),
        ids.contains(b),
        a != b,
    ensures
        has_link(with_links(active, news), a, b),
{
    let after = with_links(active, news);
    if has_link(active, a, b) {
        let i = choose|i: int| 0 <= i < active.len() && #[trigger] is_link(active[i], a, b);
        assert(after[i] == active[i]);
        assert(is_link(after[i], a, b));
    } else {
        assert(lacks_link(ids, active, (a, b)));
        let k = choose|k: int| 0 <= k < news.len() && ends_of(#[trigger] news[k]) == (a, b);
        let e = after[active.len() + k];
        assert(e == cosession_edge(news[k]));
        assert(is_link(after[active.len() + k], a, b));
    }
}

/// Linking the facts of a session a second time, with no other change between,
/// adds nothing: no edge is new, and the edges stay as they are.
pub proof fn linking_twice_adds_nothing(
    first: Seq<(i64, i64, i64)>,
    second: Seq<(i64, i64, i64)>,
    ids: Seq<i64>,
    active: Seq<GraphEdge>,
)
    requires
        are_links_of(first, ids, active),
        are_links_of(second, ids, with_links(active, first)),
    ensures
        second.len() == 0,
        with_links(with_links(active, first), second) == with_links(active, first),
{
    let after = with_links(active, first);
    if second.len() > 0 {
        let pair = ends_of(second[0]);
        assert(lacks_link(ids, after, pair));
        linked_facts_are_joined_pairwise(first, ids, active, pair.0, pair.1);
    }
    assert(with_links(after, second) =~= after);
}

/// The weight of every co-session edge is that of a co-session edge, if it was so
/// before.
pub proof fn links_keep_their_weight(news: Seq<(i64, i64, i64)>, active: Seq<GraphEdge>)
    requires
        forall|i: int|
            0 <= i < active.len() && (#[trigger] active[i]).data.relation_type
                == RelationType::CoSession ==> active[i].data.weight == (Binary64 {
                bits: CO_SESSION_WEIGHT_BITS,
            }),
    ensures
        forall|i: int|
            0 <= i < with_links(active, news).len() && (#[trigger] with_links(
                active,
                news,
            )[i]).data.relation_type == RelationType::CoSession ==> with_links(
                active,
                news,
            )[i].data.weight == (Binary64 { bits: CO_SESSION_WEIGHT_BITS }),
{
    let after = with_links(active, news);
    assert forall|i: int|
        0 <= i < after.len() && (#[trigger] after[i]).data.relation_type
            == RelationType::CoSession implies after[i].data.weight == (Binary64 {
        bits: CO_SESSION_WEIGHT_BITS,
    }) by {
        if i < active.len() {
            assert(after[i] == active[i]);
        } else {
            assert(after[i] == cosession_edge(news[i - active.len()]));
        }
    }
}

/// After facts expired the graph is in step with the store, in which their edges
/// expired with them.
pub proof fn expiry_keeps_in_step(
    edges: Seq<GraphEdge>,
    active: Set<GraphEdge>,
    expired: Seq<i64>,
)
    requires
        in_step(edges, active),
    ensures
        in_step(
            crate::graph::edges_sparing(edges, expired),
            active.filter(|e: GraphEdge| crate::graph::spares(e, expired)),
        ),
{
    lemma_filter_in_step(edges, active, |e: GraphEdge| crate::graph::spares(e, expired));
}

/// The store added the edges that the facts of a session lacked: it listed its
/// active edges in some order, and added one for each pair without.
pub open spec fn store_links(
    news: Seq<(i64, i64, i64)>,
    ids: Seq<i64>,
    active: Set<GraphEdge>,
) -> bool {
    exists|listed: Seq<GraphEdge>| #[trigger]
        in_step(listed, active) && are_links_of(news, ids, listed)
}

proof fn lemma_same_links(a: Seq<GraphEdge>, b: Seq<GraphEdge>, active: Set<GraphEdge>)
    requires
        in_step(a, active),
        in_step(b, active),
    ensures
        forall|x: i64, y: i64| #[trigger] has_link(a, x, y) ==> has_link(b, x, y),
{
    assert forall|x: i64, y: i64| #[trigger] has_link(a, x, y) implies has_link(b, x, y) by {
        let i = choose|i: int| 0 <= i < a.len() && #[trigger] is_link(a[i], x, y);
        assert(a.contains(a[i]));
        assert(b.contains(a[i]));
        let j = choose|j: int| 0 <= j < b.len() && b[j] == a[i];
        assert(is_link(b[j], x, y));
    }
}

proof fn lemma_links_of_graph(
    news: Seq<(i64, i64, i64)>,
    ids: Seq<i64>,
    edges: Seq<GraphEdge>,
    active: Set<GraphEdge>,
)
    requires
        in_step(edges, active),
        store_links(news, ids, active),
    ensures
        are_links_of(news, ids, edges),
{
    let listed = choose|listed: Seq<GraphEdge>| #[trigger]
        in_step(listed, active) && are_links_of(news, ids, listed);
    lemma_same_links(edges, listed, active);
    lemma_same_links(listed, edges, active);
    assert forall|pair: (i64, i64)| #[trigger] lacks_link(ids, edges, pair) <==> lacks_link(
        ids,
        listed,
        pair,
    ) by {
        assert(has_link(edges, pair.0, pair.1) <==> has_link(listed, pair.0, pair.1));
    }
    assert forall|k: int| 0 <= k < news.len() implies lacks_link(
        ids,
        edges,
        ends_of(#[trigger] news[k]),
    ) by {
        assert(lacks_link(ids, listed, ends_of(news[k])));
    }
    assert forall|pair: (i64, i64)| #[trigger] lacks_link(ids, edges, pair) implies exists|k: int|
        0 <= k < news.len() && ends_of(#[trigger] news[k]) == pair by {
        assert(lacks_link(ids, listed, pair));
    }
}

/// Linking the facts of a session joins each two of them in both directions.
/// Linking them again, with no other change between, makes no edge: neither the
/// store nor the engine changes, and the engine says that nothing is new.
pub proof fn linking_again_changes_nothing(
    start: MemoryEngine,
    once: MemoryEngine,
    twice: MemoryEngine,
    active: Set<GraphEdge>,
    ids: Seq<i64>,
    first: Seq<(i64, i64, i64)>,
    second: Seq<(i64, i64, i64)>,
    first_count: usize,
    second_count: usize,
)
    requires
        once.well_formed(),
        twice.well_formed(),
        in_step(start.graph.edges(), active),
        store_links(first, ids, active),
        takes_links(start, once, first, first_count),
        store_links(second, ids, store_changed_all(active, link_changes(first))),
        takes_links(once, twice, second, second_count),
    ensures
        forall|a: i64, b: i64|
            ids.contains(a) && ids.contains(b) && a != b ==> #[trigger] has_link(
                once.graph.edges(),
                a,
                b,
            ),
        second_count == 0,
        store_changed_all(
            store_changed_all(active, link_changes(first)),
            link_changes(second),
        ) == store_changed_all(active, link_changes(first)),
        twice.graph.edges() == once.graph.edges(),
        forall|id: i64| #[trigger]
            twice.graph.nodes().contains(id) <==> once.graph.nodes().contains(id),
        twice.graph.nodes().len() == once.graph.nodes().len(),
        in_step(twice.graph.edges(), store_changed_all(active, link_changes(first))),
{
    let edges = start.graph.edges();
    let stored = store_changed_all(active, link_changes(first));
    lemma_links_of_graph(first, ids, edges, active);
    linking_keeps_in_step(edges, active, first);
    lemma_links_of_graph(second, ids, once.graph.edges(), stored);
    linking_twice_adds_nothing(first, second, ids, edges);
    assert forall|a: i64, b: i64|
        ids.contains(a) && ids.contains(b) && a != b implies #[trigger] has_link(
        once.graph.edges(),
        a,
        b,
    ) by {
        linked_facts_are_joined_pairwise(first, ids, edges, a, b);
    }
    assert(link_changes(second) =~= Seq::<GraphChange>::empty());
    let none = second.map_values(|n: (i64, i64, i64)| cosession_edge(n));
    assert(none.len() == 0);
    assert forall|id: i64| #[trigger] twice.graph.nodes().contains(id)
        <==> once.graph.nodes().contains(id) by {
        assert(!crate::graph::touched(none, id));
    }
    crate::graph::lemma_no_more_than(once.graph.nodes(), twice.graph.nodes());
    crate::graph::lemma_no_more_than(twice.graph.nodes(), once.graph.nodes());
}

/// Every new link of the store becomes the edge it names, between the two facts it
/// names, at the end of the graph and in order: a co-session edge of weight one
/// half. Nothing else of the engine changes, and the count is that of the links.
pub proof fn links_become_edges(
    engine: &mut MemoryEngine,
    news: &Vec<(i64, i64, i64)>,
    r: usize,
    i: int,
    id: i64,
)
    requires
        call_ensures(MemoryEngine::link_session_facts, (engine, news), r),
    ensures
        r == news@.len(),
        final(engine).graph.edges().len() == old(engine).graph.edges().len() + news@.len(),
        final(engine).graph.edges().take(old(engine).graph.edges().len() as int) == old(engine).graph.edges(),
        0 <= i < news@.len() ==> ({
            let e = final(engine).graph.edges()[old(engine).graph.edges().len() + i];
            &&& e.data.edge_id == news@[i].0
            &&& e.source == news@[i].1
            &&& e.target == news@[i].2
            &&& e.data.relation_type == RelationType::CoSession
            &&& e.data.weight.bits == 0x3FE0_0000_0000_0000
        }),
        0 <= i < news@.len() ==> final(engine).graph.nodes().contains(news@[i].1) && final(
            engine).graph.nodes().contains(news@[i].2),
        old(engine).graph.nodes().contains(id) ==> final(engine).graph.nodes().contains(id),
        final(engine).graph.nodes().contains(id) ==> old(engine).graph.nodes().contains(id)
            || exists|k: int|
            0 <= k < news@.len() && ((#[trigger] news@[k]).1 == id || news@[k].2 == id),
        *final(engine) == (MemoryEngine { graph: final(engine).graph, ..*old(engine) }),
{
    let before = old(engine).graph.edges();
    let after = final(engine).graph.edges();
    let added = news@.map_values(|n: (i64, i64, i64)| cosession_edge(n));
    assert(after == before + added);
    assert(after.take(before.len() as int) =~= before);
    if crate::graph::touched(added, id) {
        let k = choose|k: int| 0 <= k < added.len() && #[trigger] added[k].touches(id);
        assert(added[k] == cosession_edge(news@[k]));
        assert(news@[k].1 == id || news@[k].2 == id);
    }
    if 0 <= i < news@.len() {
        assert(added[i] == cosession_edge(news@[i]));
        assert(added[i].touches(news@[i].1) && added[i].touches(news@[i].2));
        assert(crate::graph::touched(added, news@[i].1));
        assert(crate::graph::touched(added, news@[i].2));
    }
}

/// The facts of a session are linked when there are at least two, all of them, in
/// their order.
pub proof fn two_facts_are_enough_to_link(facts: &Vec<Fact>, r: Option<Vec<i64>>)
    requires
        call_ensures(facts_to_link, (facts,), r),
    ensures
        r is None <==> facts@.len() < 2,
        r matches Some(ids) ==> ids@ == facts@.map_values(|f: Fact| f.id),
{
}

/// Two facts of a session lack a link just when they are different and no
/// co-session edge leads from the one to the other; other edges do not count, nor
/// does the link in the other direction. Each such pair is named once.
pub proof fn missing_links_are_the_pairs_without_one(
    ids: &Vec<i64>,
    active: &Vec<GraphEdge>,
    r: Vec<(i64, i64)>,
    a: i64,
    b: i64,
)
    requires
        call_ensures(missing_links, (ids, active), r),
    ensures
        r@.no_duplicates(),
        r@.contains((a, b)) <==> ids@.contains(a) && ids@.contains(b) && a != b && forall|i: int|
            0 <= i < active@.len() ==> !((#[trigger] active@[i]).source == a && active@[i].target
                == b && active@[i].data.relation_type == RelationType::CoSession),
        a != b && ids@.contains(a) && ids@.contains(b) && active@.len() == 0 ==> r@.contains(
            (a, b),
        ) && r@.contains((b, a)),
{
    assert(r@.contains((a, b)) <==> lacks_link(ids@, active@, (a, b)));
    assert(r@.contains((b, a)) <==> lacks_link(ids@, active@, (b, a)));
    if has_link(active@, a, b) {
        let i = choose|i: int| 0 <= i < active@.len() && #[trigger] is_link(active@[i], a, b);
        assert(active@[i].source == a && active@[i].target == b);
    }
    if exists|i: int|
        0 <= i < active@.len() && (#[trigger] active@[i]).source == a && active@[i].target == b
            && active@[i].data.relation_type == RelationType::CoSession {
        let i = choose|i: int|
            0 <= i < active@.len() && (#[trigger] active@[i]).source == a && active@[i].target == b
                && active@[i].data.relation_type == RelationType::CoSession;
        assert(is_link(active@[i], a, b));
    }
}

/// The links to insert are those that are missing, each with the weight one half
/// and in the root scope.
pub proof fn inserted_links_are_the_missing_ones(
    ids: &Vec<i64>,
    active: &Vec<GraphEdge>,
    pairs: Vec<(i64, i64)>,
    r: Vec<NewLink>,
    k: int,
    a: i64,
    b: i64,
)
    requires
        call_ensures(missing_links, (ids, active), pairs),
        call_ensures(links_to_insert, (ids, active), r),
    ensures
        0 <= k < r@.len() ==> pairs@.contains((r@[k].source, r@[k].target))
            && r@[k].weight.bits == 0x3FE0_0000_0000_0000 && r@[k].scope_id == 1,
        pairs@.contains((a, b)) ==> exists|i: int|
            0 <= i < r@.len() && (#[trigger] r@[i]).source == a && r@[i].target == b,
        r@.no_duplicates(),
{
    if 0 <= k < r@.len() {
        assert(lacks_link(ids@, active@, (r@[k].source, r@[k].target)));
    }
    if pairs@.contains((a, b)) {
        assert(lacks_link(ids@, active@, (a, b)));
        let i = choose|i: int| 0 <= i < r@.len() && r@[i] == link_for((a, b));
        assert(r@[i].source == a && r@[i].target == b);
    }
}

/// Linking looks at the named scope and all below it, or at every scope; insights
/// are listed from the same scopes. An engine that refuses writes links nothing.
pub proof fn linking_looks_below_the_scope(
    engine: &MemoryEngine,
    path: &str,
    found: Option<i64>,
    below: Vec<i64>,
    r: Result<Vec<i64>, MemoryError>,
    everywhere: Result<Vec<i64>, MemoryError>,
    insights: Option<Vec<i64>>,
)
    requires
        call_ensures(crate::scope_tree::ScopeTree::resolve_path, (&engine.scope_tree, path), found),
        found matches Some(id) ==> call_ensures(
            crate::scope_tree::ScopeTree::subtree,
            (&engine.scope_tree, id),
            below,
        ),
        call_ensures(MemoryEngine::link_scope_ids, (engine, Some(path)), r),
        call_ensures(MemoryEngine::link_scope_ids, (engine, None), everywhere),
        call_ensures(MemoryEngine::list_recent_insights, (engine, path), insights),
    ensures
        engine.read_only ==> r == Err::<Vec<i64>, MemoryError>(MemoryError::ReadOnly) && everywhere
            == Err::<Vec<i64>, MemoryError>(MemoryError::ReadOnly),
        !engine.read_only ==> (everywhere matches Ok(all) && all@.len() == 0),
        !engine.read_only && found is Some ==> (r matches Ok(ids) && ids@ == below@),
        !engine.read_only && found is None ==> (r matches Err(MemoryError::NotFound(text))
            && text@ == "scope path: "@ + path@),
        found is Some ==> (insights matches Some(ids) && ids@ == below@),
        found is None ==> insights is None,
{
}

/// A change of the store is made in the graph as it is: a new edge comes last; the
/// edges of an expired fact go, wherever they lead; an expired edge goes by its id.
pub proof fn graph_takes_the_change(graph: &mut MemoryGraph, change: GraphChange, id: i64)
    requires
        call_ensures(apply_change, (graph, change), ()),
    ensures
        change matches GraphChange::AddEdge(e) ==> final(graph).edges() == old(graph).edges().push(e),
        change matches GraphChange::ExpireFact(id) ==> final(graph).edges() == old(graph).edges().filter(|e: GraphEdge| e.source != id && e.target != id),
        change matches GraphChange::ExpireEdge(id) ==> final(graph).edges() == old(graph).edges().filter(|e: GraphEdge| e.data.edge_id != id),
        change !is AddEdge ==> final(graph).nodes() == old(graph).nodes(),
        change matches GraphChange::AddEdge(e) ==> (final(graph).nodes().contains(id) <==> old(
            graph).nodes().contains(id) || e.source == id || e.target == id),
{
    if change is AddEdge {
        let e = change->AddEdge_0;
        crate::graph::lemma_touched_push(Seq::empty(), e);
        assert(Seq::<GraphEdge>::empty().push(e) =~= seq![e]);
        assert(!crate::graph::touched(Seq::empty(), id));
    }
    if change is ExpireFact {
        let id = change->ExpireFact_0;
        assert((|e: GraphEdge| e.source != id && e.target != id) =~= (|e: GraphEdge|
            !e.touches(id)));
    }
}

/// Several changes are made one after the other: the last one on the graph that the
/// others left.
pub proof fn changes_are_made_in_order(
    a: &mut MemoryGraph,
    b: &mut MemoryGraph,
    changes: Vec<GraphChange>,
    all: Vec<GraphChange>,
    last: GraphChange,
)
    requires
        old(a).edges() == old(b).edges(),
        all@ == changes@.push(last),
        call_ensures(apply_changes, (a, changes), ()),
        call_ensures(apply_changes, (b, all), ()),
    ensures
        changes@.len() == 0 ==> final(a).edges() == old(a).edges(),
        last matches GraphChange::AddEdge(e) ==> final(b).edges() == final(a).edges().push(e),
        last matches GraphChange::ExpireFact(id) ==> final(b).edges() == final(a).edges().filter(
            |e: GraphEdge| e.source != id && e.target != id,
        ),
        last matches GraphChange::ExpireEdge(id) ==> final(b).edges() == final(a).edges().filter(
            |e: GraphEdge| e.data.edge_id != id,
        ),
{
    assert(all@.drop_last() =~= changes@);
    if last is ExpireFact {
        let id = last->ExpireFact_0;
        assert((|e: GraphEdge| e.source != id && e.target != id) =~= (|e: GraphEdge|
            !e.touches(id)));
    }
}

/// The replacements of a cycle report are made one after the other: for the last
/// one, the edges of the replaced fact go from what the others left, and one comes
/// from the replacement to it, of full weight. Without replacements nothing changes.
pub proof fn replacements_are_made_in_order(
    a: &mut MemoryEngine,
    b: &mut MemoryEngine,
    news: &Vec<(i64, i64, i64)>,
    all: &Vec<(i64, i64, i64)>,
    last: (i64, i64, i64),
)
    requires
        old(a).graph.edges() == old(b).graph.edges(),
        all@ == news@.push(last),
        call_ensures(MemoryEngine::apply_cycle_report, (a, news), ()),
        call_ensures(MemoryEngine::apply_cycle_report, (b, all), ()),
    ensures
        news@.len() == 0 ==> final(a).graph.edges() == old(a).graph.edges(),
        final(b).graph.edges() == final(a).graph.edges().filter(
            |e: GraphEdge| e.source != last.1 && e.target != last.1,
        ).push(
            (GraphEdge {
                source: last.0,
                target: last.1,
                data: EdgeData {
                    edge_id: last.2,
                    relation_type: RelationType::Supersedes,
                    weight: Binary64 { bits: 0x3FF0_0000_0000_0000 },
                },
            }),
        ),
        *final(b) == (MemoryEngine { graph: final(b).graph, ..*old(b) }),
{
    assert(all@.drop_last() =~= news@);
    assert((|e: GraphEdge| e.source != last.1 && e.target != last.1) =~= (|e: GraphEdge|
        !e.touches(last.1)));
}

/// Facts that expire lose all their edges and no fact is lost; an edge that expires
/// goes by its id; a rebuilt graph has the edges of the store and nothing of before.
pub proof fn expiry_takes_edges_and_no_facts(
    a: &mut MemoryEngine,
    expired: &Vec<i64>,
    b: &mut MemoryEngine,
    edge_id: i64,
    c: &mut MemoryEngine,
    edges: Vec<GraphEdge>,
)
    requires
        call_ensures(MemoryEngine::expire_facts, (a, expired), ()),
        call_ensures(MemoryEngine::expire_edge, (b, edge_id), ()),
        call_ensures(MemoryEngine::rebuild_graph, (c, edges), ()),
    ensures
        final(a).graph.edges() == old(a).graph.edges().filter(
            |e: GraphEdge| !expired@.contains(e.source) && !expired@.contains(e.target),
        ),
        final(a).graph.nodes() == old(a).graph.nodes(),
        *final(a) == (MemoryEngine { graph: final(a).graph, ..*old(a) }),
        final(b).graph.edges() == old(b).graph.edges().filter(
            |e: GraphEdge| e.data.edge_id != edge_id,
        ),
        final(b).graph.nodes() == old(b).graph.nodes(),
        *final(b) == (MemoryEngine { graph: final(b).graph, ..*old(b) }),
        final(c).graph.edges() == edges@,
        *final(c) == (MemoryEngine { graph: final(c).graph, ..*old(c) }),
{
    assert((|e: GraphEdge| !expired@.contains(e.source) && !expired@.contains(e.target)) =~= (|
        e: GraphEdge,
    | crate::graph::spares(e, expired@)));
}

/// The engine answers about its graph as the graph does.
pub proof fn engine_answers_as_its_graph(
    engine: &MemoryEngine,
    fact_id: i64,
    degree: usize,
    neighbors: Vec<i64>,
    component: Vec<i64>,
    known: bool,
    stats: (usize, usize),
    own_degree: usize,
    own_neighbors: Vec<i64>,
    own_component: Vec<i64>,
    id: i64,
)
    requires
        call_ensures(MemoryEngine::graph_degree, (engine, fact_id), degree),
        call_ensures(MemoryEngine::graph_neighbors, (engine, fact_id), neighbors),
        call_ensures(MemoryEngine::graph_component, (engine, fact_id), component),
        call_ensures(MemoryEngine::graph_has_node, (engine, fact_id), known),
        call_ensures(MemoryEngine::graph_stats, (engine,), stats),
        call_ensures(MemoryGraph::degree, (&engine.graph, fact_id), own_degree),
        call_ensures(MemoryGraph::neighbors, (&engine.graph, fact_id), own_neighbors),
        call_ensures(MemoryGraph::connected_component, (&engine.graph, fact_id), own_component),
    ensures
        degree == own_degree,
        neighbors@ == own_neighbors@,
        component@.contains(id) <==> own_component@.contains(id),
        component@.no_duplicates(),
        known <==> engine.graph.nodes().contains(fact_id),
        stats.0 == engine.graph.nodes().len(),
        stats.1 == engine.graph.edges().len(),
{
}

} // verus!
