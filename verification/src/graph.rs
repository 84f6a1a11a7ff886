//! The in-memory graph of facts, a mirror of the store's active edges.

use crate::binary64::Binary64;
use std::collections::HashSet;
use vstd::prelude::*;

verus! {

/// What an edge says of its two facts.
#[derive(Debug, Clone, PartialEq, Eq)]
pub enum RelationType {
    /// They come from the same session.
    CoSession,
    /// The source replaces the target.
    Supersedes,
    /// Anything else, by name.
    Other(String),
}

/// The name of the co-session relation in the store.
pub const CO_SESSION_RELATION: &'static str = "co_session";

/// What an edge carries besides its end points.
#[derive(Debug, Clone, PartialEq, Eq)]
pub struct EdgeData {
    pub edge_id: i64,
    pub relation_type: RelationType,
    pub weight: Binary64,
}

/// An edge from one fact to another.
#[derive(Debug, Clone, PartialEq, Eq)]
pub struct GraphEdge {
    pub source: i64,
    pub target: i64,
    pub data: EdgeData,
}

impl GraphEdge {
    /// The fact is one of the edge's end points.
    pub open spec fn touches(self, fact_id: i64) -> bool {
        self.source == fact_id || self.target == fact_id
    }

    /// A copy of the edge.
    pub fn copied(&self) -> (r: GraphEdge)
        ensures
            r == *self,
    {
        let relation_type = match &self.data.relation_type {
            RelationType::CoSession => RelationType::CoSession,
            RelationType::Supersedes => RelationType::Supersedes,
            RelationType::Other(name) => RelationType::Other(name.clone()),
        };
        GraphEdge {
            source: self.source,
            target: self.target,
            data: EdgeData {
                edge_id: self.data.edge_id,
                relation_type,
                weight: self.data.weight,
            },
        }
    }
}

/// The edges that do not touch a fact.
pub open spec fn without_fact(edges: Seq<GraphEdge>, fact_id: i64) -> Seq<GraphEdge> {
    edges.filter(|e: GraphEdge| !e.touches(fact_id))
}

/// The edges other than the one with this id.
pub open spec fn without_edge(edges: Seq<GraphEdge>, edge_id: i64) -> Seq<GraphEdge> {
    edges.filter(|e: GraphEdge| e.data.edge_id != edge_id)
}

/// How many edges leave a fact.
pub open spec fn out_degree(edges: Seq<GraphEdge>, fact_id: i64) -> nat {
    edges.filter(|e: GraphEdge| e.source == fact_id).len()
}

/// How many edges enter a fact.
pub open spec fn in_degree(edges: Seq<GraphEdge>, fact_id: i64) -> nat {
    edges.filter(|e: GraphEdge| e.target == fact_id).len()
}

/// The facts that the edges of a fact lead to, one for each edge.
pub open spec fn targets(edges: Seq<GraphEdge>, fact_id: i64) -> Seq<i64> {
    edges.filter(|e: GraphEdge| e.source == fact_id).map_values(|e: GraphEdge| e.target)
}

/// A directed graph of facts. Facts that lose their edges stay in it.
#[derive(Debug)]
pub struct MemoryGraph {
    node_list: Vec<i64>,
    edge_list: Vec<GraphEdge>,
}

impl MemoryGraph {
    /// The facts in the graph.
    pub closed spec fn nodes(self) -> Seq<i64> {
        self.node_list@
    }

    /// The edges of the graph, oldest first.
    pub closed spec fn edges(self) -> Seq<GraphEdge> {
        self.edge_list@
    }

    /// No fact occurs twice, and every edge joins facts of the graph.
    pub open spec fn well_formed(self) -> bool {
        &&& self.nodes().no_duplicates()
        &&& forall|i: int|
            0 <= i < self.edges().len() ==> self.nodes().contains(
                (#[trigger] self.edges()[i]).source,
            ) && self.nodes().contains(self.edges()[i].target)
    }

    /// The graph without facts.
    pub fn new() -> (r: MemoryGraph)
        ensures
            r.well_formed(),
            r.nodes() == Seq::<i64>::empty(),
            r.edges() == Seq::<GraphEdge>::empty(),
    {
        MemoryGraph { node_list: Vec::new(), edge_list: Vec::new() }
    }

    /// Whether the fact is in the graph.
    pub fn has_node(&self, fact_id: i64) -> (r: bool)
        ensures
            r == self.nodes().contains(fact_id),
    {
        place_of(&self.node_list, fact_id).is_some()
    }

    /// The edges of the graph, oldest first.
    pub fn to_snapshot(&self) -> (r: Vec<GraphEdge>)
        ensures
            r@ == self.edges(),
    {
        let mut edges: Vec<GraphEdge> = Vec::new();
        let mut i: usize = 0;
        while i < self.edge_list.len()
            invariant
                i <= self.edge_list@.len(),
                edges@ == self.edge_list@.take(i as int),
            decreases self.edge_list@.len() - i,
        {
            edges.push(self.edge_list[i].copied());
            assert(edges@ =~= self.edge_list@.take(i + 1));
            i = i + 1;
        }
        assert(self.edge_list@.take(i as int) =~= self.edge_list@);
        edges
    }

    /// How many facts are in the graph.
    pub fn node_count(&self) -> (r: usize)
        ensures
            r == self.nodes().len(),
    {
        self.node_list.len()
    }

    /// How many edges are in the graph.
    pub fn edge_count(&self) -> (r: usize)
        ensures
            r == self.edges().len(),
    {
        self.edge_list.len()
    }

    fn add_node(&mut self, fact_id: i64)
        requires
            old(self).well_formed(),
        ensures
            final(self).well_formed(),
            final(self).edges() == old(self).edges(),
            forall|id: i64| #[trigger]
                final(self).nodes().contains(id) <==> old(self).nodes().contains(id) || id
                    == fact_id,
    {
        if !self.has_node(fact_id) {
            let ghost before = self.nodes();
            self.node_list.push(fact_id);
            assert(self.nodes() =~= before.push(fact_id));
            proof {
                lemma_push_contains(before, fact_id);
            }
        }
    }

    /// Adds an edge, and its end points where they are new.
    pub fn add_edge(&mut self, source: i64, target: i64, data: EdgeData)
        requires
            old(self).well_formed(),
        ensures
            final(self).well_formed(),
            final(self).edges() == old(self).edges().push((GraphEdge { source, target, data })),
            forall|id: i64| #[trigger]
                final(self).nodes().contains(id) <==> old(self).nodes().contains(id) || id == source
                    || id == target,
    {
        self.add_node(source);
        self.add_node(target);
        let ghost nodes = self.nodes();
        let ghost edges = self.edges();
        self.edge_list.push(GraphEdge { source, target, data });
        assert(self.edges() =~= edges.push(GraphEdge { source, target, data }));
        assert(self.nodes() == nodes);
    }
}

/// Which edges go.
enum Removal {
    TouchingFact(i64),
    WithId(i64),
}

impl Removal {
    spec fn hits(self, e: GraphEdge) -> bool {
        match self {
            Removal::TouchingFact(id) => e.touches(id),
            Removal::WithId(id) => e.data.edge_id == id,
        }
    }

    fn applies(&self, e: &GraphEdge) -> (r: bool)
        ensures
            r == self.hits(*e),
    {
        match self {
            Removal::TouchingFact(id) => e.source == *id || e.target == *id,
            Removal::WithId(id) => e.data.edge_id == *id,
        }
    }
}

/// Drops the edges that the removal hits and keeps the others in order.
fn drop_edges(list: &mut Vec<GraphEdge>, removal: &Removal)
    ensures
        final(list)@ == old(list)@.filter(|e: GraphEdge| !removal.hits(e)),
{
    let ghost all = list@;
    let ghost keep = |e: GraphEdge| !removal.hits(e);
    let ghost mut done: int = 0;
    let mut i: usize = 0;
    assert(all.take(0).filter(keep) =~= Seq::<GraphEdge>::empty()) by {
        reveal(Seq::filter);
    }
    assert(list@.take(0) =~= Seq::<GraphEdge>::empty());
    assert(list@.skip(0) =~= all.skip(0));
    while i < list.len()
        invariant
            keep == (|e: GraphEdge| !removal.hits(e)),
            i <= list@.len(),
            0 <= done <= all.len(),
            list@.take(i as int) == all.take(done).filter(keep),
            list@.skip(i as int) == all.skip(done),
        decreases list@.len() - i,
    {
        let ghost before = list@;
        proof {
            assert(before.len() - i == all.len() - done) by {
                assert(before.skip(i as int).len() == all.skip(done).len());
            }
            assert(before[i as int] == before.skip(i as int)[0]);
            assert(all[done] == all.skip(done)[0]);
            reveal(Seq::filter);
            assert(all.take(done + 1).drop_last() =~= all.take(done));
            assert(all.take(done + 1).last() == all[done]);
        }
        if removal.applies(&list[i]) {
            list.remove(i);
            assert(list@.take(i as int) =~= before.take(i as int));
            assert(list@.skip(i as int) =~= before.skip(i as int).drop_first());
            assert(all.skip(done + 1) =~= all.skip(done).drop_first());
        } else {
            i = i + 1;
            assert(list@.take(i as int) =~= before.take(i - 1).push(before[i - 1]));
            assert(list@.skip(i as int) =~= before.skip(i - 1).drop_first());
            assert(all.skip(done + 1) =~= all.skip(done).drop_first());
        }
        proof {
            done = done + 1;
        }
    }
    assert(done == all.len()) by {
        assert(list@.skip(i as int).len() == all.skip(done).len());
    }
    assert(list@.take(i as int) =~= list@);
    assert(all.take(done) =~= all);
}

proof fn lemma_filter_keeps_well_formed(
    nodes: Seq<i64>,
    edges: Seq<GraphEdge>,
    keep: spec_fn(GraphEdge) -> bool,
)
    requires
        forall|i: int|
            0 <= i < edges.len() ==> nodes.contains((#[trigger] edges[i]).source)
                && nodes.contains(edges[i].target),
    ensures
        forall|i: int|
            0 <= i < edges.filter(keep).len() ==> nodes.contains(
                (#[trigger] edges.filter(keep)[i]).source,
            ) && nodes.contains(edges.filter(keep)[i].target),
{
    broadcast use vstd::seq_lib::group_filter_ensures;

    let left = edges.filter(keep);
    assert forall|i: int| 0 <= i < left.len() implies nodes.contains((#[trigger] left[i]).source)
        && nodes.contains(left[i].target) by {
        assert(left.contains(left[i]));
        edges.lemma_filter_contains_rev(keep, left[i]);
        let k = choose|k: int| 0 <= k < edges.len() && edges[k] == left[i];
        assert(nodes.contains(edges[k].source));
    }
}

impl MemoryGraph {
    /// Removes the edges that touch a fact. The fact itself stays.
    pub fn remove_edges_by_fact(&mut self, fact_id: i64)
        requires
            old(self).well_formed(),
        ensures
            final(self).well_formed(),
            final(self).nodes() == old(self).nodes(),
            final(self).edges() == without_fact(old(self).edges(), fact_id),
    {
        let ghost before = self.edges();
        let removal = Removal::TouchingFact(fact_id);
        proof {
            lemma_filter_keeps_well_formed(
                self.nodes(),
                before,
                |e: GraphEdge| !removal.hits(e),
            );
            assert((|e: GraphEdge| !removal.hits(e)) =~= (|e: GraphEdge| !e.touches(fact_id)));
        }
        drop_edges(&mut self.edge_list, &removal);
    }

    /// Removes the edge with this id, if it is in the graph.
    pub fn remove_edge_by_id(&mut self, edge_id: i64)
        requires
            old(self).well_formed(),
        ensures
            final(self).well_formed(),
            final(self).nodes() == old(self).nodes(),
            final(self).edges() == without_edge(old(self).edges(), edge_id),
    {
        let ghost before = self.edges();
        let removal = Removal::WithId(edge_id);
        proof {
            lemma_filter_keeps_well_formed(
                self.nodes(),
                before,
                |e: GraphEdge| !removal.hits(e),
            );
            assert((|e: GraphEdge| !removal.hits(e)) =~= (|e: GraphEdge| e.data.edge_id
                != edge_id));
        }
        drop_edges(&mut self.edge_list, &removal);
    }

    /// How many edges enter or leave a fact. A loop counts twice. The count stops
    /// at the largest `usize`.
    pub fn degree(&self, fact_id: i64) -> (r: usize)
        ensures
            r == (if out_degree(self.edges(), fact_id) + in_degree(self.edges(), fact_id)
                <= usize::MAX {
                out_degree(self.edges(), fact_id) + in_degree(self.edges(), fact_id)
            } else {
                usize::MAX as nat
            }),
    {
        let ghost from_here = |e: GraphEdge| e.source == fact_id;
        let ghost to_here = |e: GraphEdge| e.target == fact_id;
        let mut leaving: usize = 0;
        let mut entering: usize = 0;
        let mut i: usize = 0;
        proof {
            reveal(Seq::filter);
        }
        while i < self.edge_list.len()
            invariant
                i <= self.edge_list@.len(),
                from_here == (|e: GraphEdge| e.source == fact_id),
                to_here == (|e: GraphEdge| e.target == fact_id),
                leaving == self.edge_list@.take(i as int).filter(from_here).len(),
                entering == self.edge_list@.take(i as int).filter(to_here).len(),
                leaving <= i,
                entering <= i,
            decreases self.edge_list@.len() - i,
        {
            proof {
                reveal(Seq::filter);
                assert(self.edge_list@.take(i + 1).drop_last() =~= self.edge_list@.take(
                    i as int,
                ));
                assert(self.edge_list@.take(i + 1).last() == self.edge_list@[i as int]);
            }
            if self.edge_list[i].source == fact_id {
                leaving = leaving + 1;
            }
            if self.edge_list[i].target == fact_id {
                entering = entering + 1;
            }
            i = i + 1;
        }
        assert(self.edge_list@.take(i as int) =~= self.edge_list@);
        leaving.saturating_add(entering)
    }

    /// The facts that the edges of a fact lead to, one for each edge.
    pub fn neighbors(&self, fact_id: i64) -> (r: Vec<i64>)
        ensures
            r@ == targets(self.edges(), fact_id),
    {
        let ghost from_here = |e: GraphEdge| e.source == fact_id;
        let ghost end = |e: GraphEdge| e.target;
        let mut out: Vec<i64> = Vec::new();
        let mut i: usize = 0;
        proof {
            reveal(Seq::filter);
            assert(self.edge_list@.take(0).filter(from_here).map_values(end) =~= out@);
        }
        while i < self.edge_list.len()
            invariant
                i <= self.edge_list@.len(),
                from_here == (|e: GraphEdge| e.source == fact_id),
                end == (|e: GraphEdge| e.target),
                out@ == self.edge_list@.take(i as int).filter(from_here).map_values(end),
            decreases self.edge_list@.len() - i,
        {
            let ghost before = self.edge_list@.take(i as int).filter(from_here);
            proof {
                reveal(Seq::filter);
                assert(self.edge_list@.take(i + 1).drop_last() =~= self.edge_list@.take(
                    i as int,
                ));
                assert(self.edge_list@.take(i + 1).last() == self.edge_list@[i as int]);
            }
            if self.edge_list[i].source == fact_id {
                out.push(self.edge_list[i].target);
                assert(before.push(self.edge_list@[i as int]).map_values(end) =~= out@);
            }
            i = i + 1;
        }
        assert(self.edge_list@.take(i as int) =~= self.edge_list@);
        out
    }
}

/// Some edge joins the two facts, in one direction or the other.
pub open spec fn linked(edges: Seq<GraphEdge>, a: i64, b: i64) -> bool {
    exists|i: int| 0 <= i < edges.len() && #[trigger] joins(edges[i], a, b)
}

/// The edge joins the two facts, in one direction or the other.
pub open spec fn joins(e: GraphEdge, a: i64, b: i64) -> bool {
    (e.source == a && e.target == b) || (e.source == b && e.target == a)
}

/// The facts follow each other along edges.
pub open spec fn is_path(edges: Seq<GraphEdge>, path: Seq<i64>) -> bool {
    path.len() > 0 && forall|i: int, j: int|
        0 <= i && j == i + 1 && j < path.len() ==> linked(edges, #[trigger] path[i], #[trigger] path[j])
}

/// The path leads from one fact to the other.
pub open spec fn leads(edges: Seq<GraphEdge>, path: Seq<i64>, a: i64, b: i64) -> bool {
    is_path(edges, path) && path[0] == a && path.last() == b
}

/// Some path leads from one fact to the other.
pub open spec fn connected(edges: Seq<GraphEdge>, a: i64, b: i64) -> bool {
    exists|path: Seq<i64>| #[trigger] leads(edges, path, a, b)
}

/// Connection works both ways: a fact lies in the component of another just when
/// the other lies in its own.
pub proof fn connection_is_symmetric(edges: Seq<GraphEdge>, a: i64, b: i64)
    requires
        connected(edges, a, b),
    ensures
        connected(edges, b, a),
{
    let path = choose|path: Seq<i64>| #[trigger] leads(edges, path, a, b);
    let back = path.reverse();
    assert forall|i: int, j: int| 0 <= i && j == i + 1 && j < back.len() implies linked(
        edges,
        #[trigger] back[i],
        #[trigger] back[j],
    ) by {
        let k = path.len() - 1 - j;
        assert(linked(edges, path[k], path[k + 1]));
        let e = choose|e: int| 0 <= e < edges.len() && #[trigger] joins(edges[e], path[k], path[k + 1]);
        assert(joins(edges[e], back[i], back[j]));
    }
    assert(leads(edges, back, b, a));
}

proof fn lemma_connected_step(edges: Seq<GraphEdge>, a: i64, b: i64, c: i64)
    requires
        connected(edges, a, b),
        linked(edges, b, c),
    ensures
        connected(edges, a, c),
{
    let path = choose|path: Seq<i64>| #[trigger] leads(edges, path, a, b);
    let longer = path.push(c);
    assert forall|i: int, j: int| 0 <= i && j == i + 1 && j < longer.len() implies linked(
        edges,
        #[trigger] longer[i],
        #[trigger] longer[j],
    ) by {
        if j < path.len() {
            assert(linked(edges, path[i], path[j]));
        }
    }
    assert(leads(edges, longer, a, c));
}

proof fn lemma_connected_self(edges: Seq<GraphEdge>, a: i64)
    ensures
        connected(edges, a, a),
{
    assert(leads(edges, seq![a], a, a));
}

/// The facts hold every fact that an edge joins to one of them.
spec fn closed_under_edges(edges: Seq<GraphEdge>, facts: Seq<i64>) -> bool {
    forall|a: i64, b: i64| facts.contains(a) && #[trigger] linked(edges, a, b) ==> facts.contains(b)
}

proof fn lemma_closed_holds_paths(edges: Seq<GraphEdge>, facts: Seq<i64>, path: Seq<i64>, k: int)
    requires
        closed_under_edges(edges, facts),
        is_path(edges, path),
        facts.contains(path[0]),
        0 <= k < path.len(),
    ensures
        facts.contains(path[k]),
    decreases k,
{
    if k > 0 {
        lemma_closed_holds_paths(edges, facts, path, k - 1);
        assert(linked(edges, path[k - 1], path[k]));
    }
}

/// Facts without repetition among the facts of a graph are no more than those.
pub(crate) proof fn lemma_no_more_than(some: Seq<i64>, all: Seq<i64>)
    requires
        some.no_duplicates(),
        forall|id: i64| #[trigger] some.contains(id) ==> all.contains(id),
    ensures
        some.len() <= all.len(),
{
    some.unique_seq_to_set();
    all.lemma_cardinality_of_set();
    assert(some.to_set().subset_of(all.to_set())) by {
        assert forall|id: i64| #[trigger] some.to_set().contains(id) implies all.to_set().contains(
            id,
        ) by {
            assert(some.contains(id));
        }
    }
    vstd::set_lib::lemma_len_subset(some.to_set(), all.to_set());
}

/// Where the fact stands in the list.
fn place_of(list: &Vec<i64>, id: i64) -> (r: Option<usize>)
    ensures
        match r {
            Some(i) => i < list@.len() && list@[i as int] == id,
            None => !list@.contains(id),
        },
{
    let mut i: usize = 0;
    while i < list.len()
        invariant
            i <= list@.len(),
            forall|j: int| 0 <= j < i ==> list@[j] != id,
        decreases list@.len() - i,
    {
        if list[i] == id {
            return Some(i);
        }
        i = i + 1;
    }
    None
}

impl MemoryGraph {
    /// Adds to the list the facts that an edge joins to `at`, and that are not in
    /// it yet.
    fn add_linked(&self, found: &mut Vec<i64>, at: i64)
        requires
            old(found)@.no_duplicates(),
        ensures
            final(found)@.no_duplicates(),
            old(found)@.len() <= final(found)@.len(),
            final(found)@.take(old(found)@.len() as int) == old(found)@,
            forall|b: i64| #[trigger] linked(self.edges(), at, b) ==> final(found)@.contains(b),
            forall|b: i64| #[trigger]
                final(found)@.contains(b) ==> old(found)@.contains(b) || linked(
                    self.edges(),
                    at,
                    b,
                ),
    {
        let ghost start = found@;
        let mut i: usize = 0;
        while i < self.edge_list.len()
            invariant
                i <= self.edge_list@.len(),
                found@.no_duplicates(),
                start.len() <= found@.len(),
                found@.take(start.len() as int) == start,
                forall|j: int, b: i64|
                    0 <= j < i && #[trigger] joins(self.edge_list@[j], at, b)
                        ==> found@.contains(b),
                forall|b: i64| #[trigger]
                    found@.contains(b) ==> start.contains(b) || linked(self.edge_list@, at, b),
            decreases self.edge_list@.len() - i,
        {
            let ghost e = self.edge_list@[i as int];
            let source: i64 = self.edge_list[i].source;
            let target: i64 = self.edge_list[i].target;
            if source == at {
                assert(joins(e, at, target));
                add_new(found, target);
            }
            if target == at {
                assert(joins(e, at, source));
                add_new(found, source);
            }
            i = i + 1;
        }
    }

    /// The facts that some path of edges, followed in either direction, joins to
    /// a fact; among them the fact itself. A fact that is not in the graph has no
    /// component.
    pub fn connected_component(&self, fact_id: i64) -> (r: Vec<i64>)
        requires
            self.well_formed(),
        ensures
            r@.no_duplicates(),
            forall|id: i64| #[trigger]
                r@.contains(id) <==> self.nodes().contains(fact_id) && connected(
                    self.edges(),
                    fact_id,
                    id,
                ),
    {
        let mut found: Vec<i64> = Vec::new();
        if !self.has_node(fact_id) {
            return found;
        }
        found.push(fact_id);
        let total: usize = self.node_list.len();
        let ghost nodes = self.nodes();
        let ghost edges = self.edges();
        let mut i: usize = 0;
        proof {
            lemma_connected_self(edges, fact_id);
            assert(found@ =~= seq![fact_id]);
            assert(found@[0] == fact_id);
        }
        while i < found.len()
            invariant
                self.well_formed(),
                nodes == self.nodes(),
                edges == self.edges(),
                total == nodes.len(),
                i <= found@.len(),
                found@.len() > 0,
                found@[0] == fact_id,
                found@.no_duplicates(),
                forall|id: i64| #[trigger]
                    found@.contains(id) ==> nodes.contains(id) && connected(edges, fact_id, id),
                forall|k: int, b: i64|
                    0 <= k < i && #[trigger] linked(edges, found@[k], b) ==> found@.contains(b),
            decreases total - i,
        {
            let at: i64 = found[i];
            let ghost before = found@;
            proof {
                lemma_no_more_than(before, nodes);
                assert(before.contains(at));
            }
            self.add_linked(&mut found, at);
            proof {
                assert forall|k: int| 0 <= k < before.len() implies #[trigger] found@[k]
                    == before[k] by {
                    assert(found@.take(before.len() as int)[k] == found@[k]);
                }
                assert forall|id: i64| #[trigger] found@.contains(id) implies nodes.contains(id)
                    && connected(edges, fact_id, id) by {
                    if !before.contains(id) {
                        assert(linked(edges, at, id));
                        lemma_connected_step(edges, fact_id, at, id);
                        let e = choose|e: int|
                            0 <= e < edges.len() && #[trigger] joins(edges[e], at, id);
                        assert(nodes.contains(edges[e].source));
                    }
                }
                assert forall|k: int, b: i64|
                    0 <= k < i + 1 && #[trigger] linked(edges, found@[k], b) implies found@.contains(
                    b,
                ) by {
                    if k < i {
                        assert(linked(edges, before[k], b));
                        let j = choose|j: int| 0 <= j < before.len() && before[j] == b;
                        assert(found@[j] == b);
                    }
                }
            }
            i = i + 1;
        }
        proof {
            assert(closed_under_edges(edges, found@)) by {
                assert forall|a: i64, b: i64|
                    found@.contains(a) && #[trigger] linked(edges, a, b) implies found@.contains(
                    b,
                ) by {
                    let k = choose|k: int| 0 <= k < found@.len() && found@[k] == a;
                    assert(linked(edges, found@[k], b));
                }
            }
            assert forall|id: i64| #[trigger] found@.contains(id) <==> nodes.contains(fact_id)
                && connected(edges, fact_id, id) by {
                if connected(edges, fact_id, id) {
                    let path = choose|path: Seq<i64>| #[trigger] leads(edges, path, fact_id, id);
                    assert(found@.contains(found@[0]));
                    lemma_closed_holds_paths(edges, found@, path, path.len() - 1);
                }
            }
        }
        found
    }

    /// Removes a fact and the edges that touch it.
    pub fn remove_node(&mut self, fact_id: i64)
        requires
            old(self).well_formed(),
        ensures
            final(self).well_formed(),
            final(self).edges() == without_fact(old(self).edges(), fact_id),
            forall|id: i64| #[trigger]
                final(self).nodes().contains(id) <==> old(self).nodes().contains(id) && id
                    != fact_id,
    {
        self.remove_edges_by_fact(fact_id);
        let ghost nodes = self.nodes();
        let ghost edges = self.edges();
        let found = place_of(&self.node_list, fact_id);
        if let Some(i) = found {
            self.node_list.remove(i);
        }
        proof {
            assert forall|id: i64| #[trigger] self.nodes().contains(id) <==> nodes.contains(id)
                && id != fact_id by {
                let left = self.nodes();
                if let Some(at) = found {
                    let i = at as int;
                    assert(left =~= nodes.remove(i));
                    if left.contains(id) {
                        let k = choose|k: int| 0 <= k < left.len() && left[k] == id;
                        assert(left[k] == nodes[if k < i { k } else { k + 1 }]);
                    }
                    if nodes.contains(id) && id != fact_id {
                        let k = choose|k: int| 0 <= k < nodes.len() && nodes[k] == id;
                        assert(left[if k < i { k } else { k - 1 }] == id);
                    }
                } else {
                    assert(left == nodes);
                }
            }
            assert(self.edges() == edges);
            broadcast use vstd::seq_lib::group_filter_ensures;
            assert forall|j: int| 0 <= j < edges.len() implies self.nodes().contains(
                (#[trigger] edges[j]).source,
            ) && self.nodes().contains(edges[j].target) by {
                assert(!edges[j].touches(fact_id));
                assert(nodes.contains(edges[j].source) && nodes.contains(edges[j].target));
            }
        }
    }
}

/// Adds a fact to the list, unless it is in it.
pub(crate) fn add_new(found: &mut Vec<i64>, id: i64)
    requires
        old(found)@.no_duplicates(),
    ensures
        final(found)@.no_duplicates(),
        old(found)@.len() <= final(found)@.len(),
        final(found)@.take(old(found)@.len() as int) == old(found)@,
        forall|b: i64| #[trigger] final(found)@.contains(b) <==> old(found)@.contains(b) || b == id,
{
    if place_of(found, id).is_none() {
        let ghost before = found@;
        found.push(id);
        proof {
            lemma_push_contains(before, id);
            assert(found@.take(before.len() as int) =~= before);
        }
    } else {
        assert(found@.take(found@.len() as int) =~= found@);
    }
}

/// Every edge joins facts that exist.
pub open spec fn edges_join_facts(edges: Seq<GraphEdge>, existing: Set<i64>) -> bool {
    forall|i: int|
        0 <= i < edges.len() ==> existing.contains((#[trigger] edges[i]).source)
            && existing.contains(edges[i].target)
}

/// Of the facts before and the facts after new edges came: nothing but the end
/// points of the edges was added.
pub open spec fn grown(after: Seq<i64>, before: Seq<i64>, news: Seq<GraphEdge>) -> bool {
    forall|id: i64| #[trigger] after.contains(id) <==> before.contains(id) || touched(news, id)
}

/// The fact is an end point of some edge.
pub open spec fn touched(edges: Seq<GraphEdge>, fact_id: i64) -> bool {
    exists|i: int| 0 <= i < edges.len() && #[trigger] edges[i].touches(fact_id)
}

impl MemoryGraph {
    /// The graph of the store's active edges. Its facts are their end points.
    pub fn from_active_edges(edges: Vec<GraphEdge>) -> (g: MemoryGraph)
        ensures
            g.well_formed(),
            g.edges() == edges@,
            forall|id: i64| #[trigger] g.nodes().contains(id) <==> touched(edges@, id),
    {
        let mut graph = MemoryGraph::new();
        let mut i: usize = 0;
        while i < edges.len()
            invariant
                i <= edges@.len(),
                graph.well_formed(),
                graph.edges() == Seq::<GraphEdge>::empty(),
                forall|id: i64| #[trigger]
                    graph.nodes().contains(id) <==> touched(edges@.take(i as int), id),
            decreases edges@.len() - i,
        {
            proof {
                assert(edges@.take(i + 1) =~= edges@.take(i as int).push(edges@[i as int]));
                lemma_touched_push(edges@.take(i as int), edges@[i as int]);
            }
            graph.add_node(edges[i].source);
            graph.add_node(edges[i].target);
            i = i + 1;
        }
        assert(edges@.take(i as int) =~= edges@);
        assert forall|j: int| 0 <= j < edges@.len() implies graph.nodes().contains(
            (#[trigger] edges@[j]).source,
        ) && graph.nodes().contains(edges@[j].target) by {
            assert(edges@[j].touches(edges@[j].source));
            assert(edges@[j].touches(edges@[j].target));
            assert(touched(edges@, edges@[j].source));
            assert(touched(edges@, edges@[j].target));
        }
        MemoryGraph { node_list: graph.node_list, edge_list: edges }
    }

    /// The graph of a list of edges that was kept outside the store. The list
    /// counts only if each of its edges joins facts that exist.
    pub fn from_snapshot(edges: Vec<GraphEdge>, existing: &HashSet<i64>) -> (r: Option<
        MemoryGraph,
    >)
        ensures
            r is Some <==> edges_join_facts(edges@, existing@),
            r matches Some(g) ==> {
                &&& g.well_formed()
                &&& g.edges() == edges@
                &&& forall|id: i64| #[trigger] g.nodes().contains(id) <==> touched(edges@, id)
            },
    {
        let mut k: usize = 0;
        while k < edges.len()
            invariant
                k <= edges@.len(),
                forall|j: int|
                    0 <= j < k ==> existing@.contains((#[trigger] edges@[j]).source)
                        && existing@.contains(edges@[j].target),
            decreases edges@.len() - k,
        {
            if !existing.contains(&edges[k].source) || !existing.contains(&edges[k].target) {
                return None;
            }
            k = k + 1;
        }
        Some(MemoryGraph::from_active_edges(edges))
    }
}

/// The edge touches none of the facts.
pub open spec fn spares(e: GraphEdge, facts: Seq<i64>) -> bool {
    !facts.contains(e.source) && !facts.contains(e.target)
}

/// The edges that touch none of the facts.
pub open spec fn edges_sparing(edges: Seq<GraphEdge>, facts: Seq<i64>) -> Seq<GraphEdge> {
    edges.filter(|e: GraphEdge| spares(e, facts))
}

pub(crate) proof fn lemma_spare_one_more(edges: Seq<GraphEdge>, facts: Seq<i64>, id: i64)
    ensures
        without_fact(edges_sparing(edges, facts), id) == edges_sparing(
            edges,
            facts.push(id),
        ),
    decreases edges.len(),
{
    reveal(Seq::filter);
    let more = facts.push(id);
    assert forall|x: i64| #[trigger] more.contains(x) <==> facts.contains(x) || x == id by {
        if facts.contains(x) {
            let k = choose|k: int| 0 <= k < facts.len() && facts[k] == x;
            assert(more[k] == x);
        }
        if x == id {
            assert(more[facts.len() as int] == x);
        }
        if more.contains(x) && x != id {
            let k = choose|k: int| 0 <= k < more.len() && more[k] == x;
            assert(facts[k] == x);
        }
    }
    if edges.len() > 0 {
        let front = edges.drop_last();
        let e = edges.last();
        lemma_spare_one_more(front, facts, id);
        let kept = edges_sparing(front, facts);
        if spares(e, facts) {
            assert(edges_sparing(edges, facts) == kept.push(e));
            assert(kept.push(e).drop_last() =~= kept);
        }
    }
}

pub(crate) proof fn lemma_spare_none(edges: Seq<GraphEdge>)
    ensures
        edges_sparing(edges, Seq::<i64>::empty()) == edges,
    decreases edges.len(),
{
    reveal(Seq::filter);
    if edges.len() > 0 {
        lemma_spare_none(edges.drop_last());
        assert(spares(edges.last(), Seq::<i64>::empty()));
        assert(edges.drop_last().push(edges.last()) =~= edges);
    }
}

/// The facts that an added edge brings are its end points.
pub(crate) proof fn lemma_touched_push(edges: Seq<GraphEdge>, e: GraphEdge)
    ensures
        forall|id: i64| #[trigger]
            touched(edges.push(e), id) <==> touched(edges, id) || e.touches(id),
{
    assert forall|id: i64| #[trigger] touched(edges.push(e), id) <==> touched(edges, id)
        || e.touches(id) by {
        let more = edges.push(e);
        if touched(edges, id) {
            let j = choose|j: int| 0 <= j < edges.len() && #[trigger] edges[j].touches(id);
            assert(more[j].touches(id));
        }
        if e.touches(id) {
            assert(more[edges.len() as int].touches(id));
        }
        if touched(more, id) {
            let j = choose|j: int| 0 <= j < more.len() && #[trigger] more[j].touches(id);
            if j < edges.len() {
                assert(edges[j].touches(id));
            }
        }
    }
}

proof fn lemma_push_contains(s: Seq<i64>, x: i64)
    ensures
        forall|id: i64| #[trigger] s.push(x).contains(id) <==> s.contains(id) || id == x,
{
    assert forall|id: i64| #[trigger] s.push(x).contains(id) <==> s.contains(id) || id == x by {
        if s.contains(id) {
            let k = choose|k: int| 0 <= k < s.len() && s[k] == id;
            assert(s.push(x)[k] == id);
        }
        if id == x {
            assert(s.push(x)[s.len() as int] == id);
        }
        if s.push(x).contains(id) && id != x {
            let k = choose|k: int| 0 <= k < s.push(x).len() && s.push(x)[k] == id;
            assert(s[k] == id);
        }
    }
}

/// What the graph says of a fact is what its edges say: its neighbours are the
/// targets of the edges that leave it, one for each, in the order of the edges; its
/// degree counts the edges that leave it and those that enter it, so that an edge
/// from a fact to itself counts twice.
pub proof fn graph_answers_by_its_edges(
    g: &MemoryGraph,
    fact_id: i64,
    neighbors: Vec<i64>,
    degree: usize,
    known: bool,
    facts: usize,
    edges: usize,
    snapshot: Vec<GraphEdge>,
)
    requires
        call_ensures(MemoryGraph::neighbors, (g, fact_id), neighbors),
        call_ensures(MemoryGraph::degree, (g, fact_id), degree),
        call_ensures(MemoryGraph::has_node, (g, fact_id), known),
        call_ensures(MemoryGraph::node_count, (g,), facts),
        call_ensures(MemoryGraph::edge_count, (g,), edges),
        call_ensures(MemoryGraph::to_snapshot, (g,), snapshot),
    ensures
        neighbors@ == g.edges().filter(|e: GraphEdge| e.source == fact_id).map_values(
            |e: GraphEdge| e.target,
        ),
        g.edges().filter(|e: GraphEdge| e.source == fact_id).len() + g.edges().filter(
            |e: GraphEdge| e.target == fact_id,
        ).len() <= usize::MAX ==> degree == g.edges().filter(
            |e: GraphEdge| e.source == fact_id,
        ).len() + g.edges().filter(|e: GraphEdge| e.target == fact_id).len(),
        degree >= neighbors@.len() || degree == usize::MAX,
        known <==> g.nodes().contains(fact_id),
        facts == g.nodes().len(),
        edges == g.edges().len(),
        snapshot@ == g.edges(),
{
}

/// A new edge is the last one, both its ends are in the graph, and nothing else
/// changes.
pub proof fn new_edge_comes_last(g: &mut MemoryGraph, source: i64, target: i64, data: EdgeData)
    requires
        call_ensures(MemoryGraph::add_edge, (g, source, target, data), ()),
    ensures
        final(g).edges().len() == old(g).edges().len() + 1,
        final(g).edges().last().source == source,
        final(g).edges().last().target == target,
        final(g).edges().last().data == data,
        final(g).edges().drop_last() == old(g).edges(),
        final(g).nodes().contains(source),
        final(g).nodes().contains(target),
        forall|id: i64| #[trigger]
            final(g).nodes().contains(id) && id != source && id != target ==> old(g).nodes().contains(id),
        forall|id: i64| #[trigger] old(g).nodes().contains(id) ==> final(g).nodes().contains(id),
{
    assert(final(g).edges().drop_last() =~= old(g).edges());
}

/// Taking the edges of a fact out takes just the edges that start or end there; the
/// others stay in their order, and every fact stays. Taking one edge out takes just
/// the edges with its id.
pub proof fn removal_takes_what_it_names(
    g: &mut MemoryGraph,
    h: &mut MemoryGraph,
    k: &mut MemoryGraph,
    id: i64,
)
    requires
        call_ensures(MemoryGraph::remove_edges_by_fact, (g, id), ()),
        call_ensures(MemoryGraph::remove_edge_by_id, (h, id), ()),
        call_ensures(MemoryGraph::remove_node, (k, id), ()),
    ensures
        final(g).edges() == old(g).edges().filter(
            |e: GraphEdge| e.source != id && e.target != id,
        ),
        final(g).nodes() == old(g).nodes(),
        final(h).edges() == old(h).edges().filter(|e: GraphEdge| e.data.edge_id != id),
        final(h).nodes() == old(h).nodes(),
        final(k).edges() == old(k).edges().filter(
            |e: GraphEdge| e.source != id && e.target != id,
        ),
        forall|x: i64| #[trigger]
            final(k).nodes().contains(x) <==> old(k).nodes().contains(x) && x != id,
{
    let spared = |e: GraphEdge| e.source != id && e.target != id;
    assert(spared =~= (|e: GraphEdge| !e.touches(id)));
}

/// The component of a fact is the smallest set of facts that holds it and that no
/// edge leads out of, in either direction. A fact that is not in the graph has none.
pub proof fn component_is_the_smallest_closed_set(
    g: &MemoryGraph,
    fact_id: i64,
    r: Vec<i64>,
    closed: Seq<i64>,
    e: int,
)
    requires
        call_ensures(MemoryGraph::connected_component, (g, fact_id), r),
    ensures
        !g.nodes().contains(fact_id) ==> r@.len() == 0,
        g.nodes().contains(fact_id) ==> r@.contains(fact_id),
        r@.no_duplicates(),
        0 <= e < g.edges().len() ==> (r@.contains(g.edges()[e].source) <==> r@.contains(
            g.edges()[e].target,
        )),
        closed.contains(fact_id) && (forall|i: int|
            0 <= i < g.edges().len() ==> (closed.contains((#[trigger] g.edges()[i]).source)
                <==> closed.contains(g.edges()[i].target))) ==> forall|id: i64| #[trigger]
            r@.contains(id) ==> closed.contains(id),
{
    let edges = g.edges();
    let s = edges[e].source;
    let t = edges[e].target;
    if !g.nodes().contains(fact_id) {
        if r@.len() > 0 {
            assert(r@.contains(r@[0]));
        }
    } else {
        lemma_connected_self(edges, fact_id);
        if 0 <= e < edges.len() {
            assert(joins(edges[e], s, t) && joins(edges[e], t, s));
            assert(linked(edges, s, t) && linked(edges, t, s));
            if r@.contains(s) {
                lemma_connected_step(edges, fact_id, s, t);
            }
            if r@.contains(t) {
                lemma_connected_step(edges, fact_id, t, s);
            }
        }
    }
    if closed.contains(fact_id) && (forall|i: int|
        0 <= i < edges.len() ==> (closed.contains((#[trigger] edges[i]).source)
            <==> closed.contains(edges[i].target))) {
        assert(closed_under_edges(edges, closed)) by {
            assert forall|a: i64, b: i64|
                closed.contains(a) && #[trigger] linked(edges, a, b) implies closed.contains(b) by {
                let i = choose|i: int| 0 <= i < edges.len() && #[trigger] joins(edges[i], a, b);
                assert(closed.contains(edges[i].source) <==> closed.contains(edges[i].target));
            }
        }
        assert forall|id: i64| #[trigger] r@.contains(id) implies closed.contains(id) by {
            let path = choose|path: Seq<i64>| #[trigger] leads(edges, path, fact_id, id);
            lemma_closed_holds_paths(edges, closed, path, path.len() - 1);
        }
    }
}

/// A fact is touched by edges just when it is the source or the target of one.
proof fn lemma_touched_is_an_end(edges: Seq<GraphEdge>, id: i64)
    ensures
        touched(edges, id) <==> exists|i: int|
            0 <= i < edges.len() && ((#[trigger] edges[i]).source == id || edges[i].target == id),
{
    if touched(edges, id) {
        let i = choose|i: int| 0 <= i < edges.len() && #[trigger] edges[i].touches(id);
        assert(edges[i].source == id || edges[i].target == id);
    }
    if exists|i: int|
        0 <= i < edges.len() && ((#[trigger] edges[i]).source == id || edges[i].target == id) {
        let i = choose|i: int|
            0 <= i < edges.len() && ((#[trigger] edges[i]).source == id || edges[i].target == id);
        assert(edges[i].touches(id));
    }
}

/// A graph that is built from edges has just these edges and, as its facts, just
/// their ends.
pub proof fn built_graph_has_the_edges(edges: Vec<GraphEdge>, g: MemoryGraph, id: i64)
    requires
        call_ensures(MemoryGraph::from_active_edges, (edges,), g),
    ensures
        g.edges() == edges@,
        g.nodes().contains(id) <==> exists|i: int|
            0 <= i < edges@.len() && ((#[trigger] edges@[i]).source == id || edges@[i].target
                == id),
{
    lemma_touched_is_an_end(edges@, id);
    assert(g.nodes().contains(id) <==> touched(edges@, id));
}

/// From a snapshot a graph is built only where both ends of every edge exist; then it
/// is the graph of these edges.
pub proof fn snapshot_makes_a_graph_where_all_ends_exist(
    edges: Vec<GraphEdge>,
    existing: &HashSet<i64>,
    r: Option<MemoryGraph>,
    id: i64,
)
    requires
        call_ensures(MemoryGraph::from_snapshot, (edges, existing), r),
    ensures
        r is Some <==> forall|i: int|
            0 <= i < edges@.len() ==> existing@.contains((#[trigger] edges@[i]).source)
                && existing@.contains(edges@[i].target),
        r is Some ==> r->0.edges() == edges@,
        r is Some ==> (r->0.nodes().contains(id) <==> exists|i: int|
            0 <= i < edges@.len() && ((#[trigger] edges@[i]).source == id || edges@[i].target
                == id)),
{
    lemma_touched_is_an_end(edges@, id);
    assert(r is Some <==> edges_join_facts(edges@, existing@));
    if r is Some {
        assert(r->0.nodes().contains(id) <==> touched(edges@, id));
    }
}

/// A new graph is empty, and a copy of an edge is the same edge.
pub proof fn new_graph_is_empty(g: MemoryGraph, e: &GraphEdge, copy: GraphEdge)
    requires
        call_ensures(MemoryGraph::new, (), g),
        call_ensures(GraphEdge::copied, (e,), copy),
    ensures
        g.nodes().len() == 0,
        g.edges().len() == 0,
        copy.source == e.source,
        copy.target == e.target,
        copy.data == e.data,
{
}

} // verus!
