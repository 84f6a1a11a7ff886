//! The memory graph and the scope tree.

use memory_engine::binary64::Binary64;
use memory_engine::engine::graph::{
    apply_changes, facts_to_link, links_to_insert, missing_links, GraphChange, NewLink,
};
use memory_engine::engine::state::MemoryEngine;
use memory_engine::error::MemoryError;
use memory_engine::graph::{EdgeData, GraphEdge, MemoryGraph, RelationType};
use memory_engine::scope_tree::{ScopeChainWalk, ScopeTree};
use memory_engine::test_util::new_fact;
use memory_engine::types::facts::Fact;
use memory_engine::types::scope::{validate_segment, ScopeNode};
use std::collections::{HashMap, HashSet};

fn data(edge_id: i64) -> EdgeData {
    EdgeData {
        edge_id,
        relation_type: RelationType::Other("related".to_string()),
        weight: Binary64::from_bits(1.0f64.to_bits()),
    }
}

fn edge(edge_id: i64, source: i64, target: i64) -> GraphEdge {
    GraphEdge { source, target, data: data(edge_id) }
}

fn node(id: i64, parent: i64, label: &str) -> ScopeNode {
    ScopeNode { id, parent_id: Some(parent), label: label.to_string(), depth: 1 }
}

fn engine() -> MemoryEngine {
    MemoryEngine::builder(4).build().unwrap()
}

fn fact(id: i64) -> Fact {
    let f = new_fact("x", vec![0; 4]);
    Fact {
        id,
        content: f.content,
        content_hash: f.content_hash,
        embedding: f.embedding,
        fact_type: f.fact_type,
        t_created: f.t_created,
        t_expired: None,
        t_valid: None,
        t_invalid: None,
        source_event_id: None,
        base_importance: f.base_importance,
        access_count: 0,
        last_accessed: f.last_accessed,
        metadata: f.metadata,
        scope_id: 1,
        is_pinned: false,
        importance_score: f.base_importance,
        surfaced_at: None,
    }
}

#[test]
fn edges_are_counted_on_both_ends() {
    let mut g = MemoryGraph::new();
    assert_eq!((g.node_count(), g.edge_count()), (0, 0));
    g.add_edge(1, 2, data(10));
    g.add_edge(1, 3, data(11));
    g.add_edge(3, 1, data(12));
    assert_eq!((g.node_count(), g.edge_count()), (3, 3));
    assert_eq!(g.degree(1), 3);
    assert_eq!(g.degree(2), 1);
    assert_eq!(g.degree(9), 0);
    assert!(g.has_node(3));
    assert!(!g.has_node(9));
    let mut to = g.neighbors(1);
    to.sort_unstable();
    assert_eq!(to, vec![2, 3]);
    assert_eq!(g.neighbors(3), vec![1]);
    assert!(g.neighbors(2).is_empty());
}

#[test]
fn removing_by_fact_takes_all_its_edges() {
    let mut g = MemoryGraph::new();
    g.add_edge(1, 2, data(10));
    g.add_edge(3, 2, data(11));
    g.add_edge(3, 4, data(12));
    g.remove_edges_by_fact(2);
    assert_eq!(g.edge_count(), 1);
    assert_eq!(g.neighbors(3), vec![4]);
    g.remove_edge_by_id(12);
    assert_eq!(g.edge_count(), 0);
    g.remove_edge_by_id(12);
    assert_eq!(g.edge_count(), 0);
}

#[test]
fn snapshot_with_a_phantom_fact_is_refused() {
    let existing: HashSet<i64> = [1, 2].iter().copied().collect();
    assert!(MemoryGraph::from_snapshot(vec![edge(10, 1, 2)], &existing).is_some());
    assert!(MemoryGraph::from_snapshot(vec![edge(10, 1, 3)], &existing).is_none());
    assert!(MemoryGraph::from_snapshot(vec![edge(10, 3, 1)], &existing).is_none());
}

#[test]
fn graph_stays_in_step_with_the_store() {
    let mut g = MemoryGraph::new();
    apply_changes(
        &mut g,
        vec![
            GraphChange::AddEdge(edge(10, 1, 2)),
            GraphChange::AddEdge(edge(11, 2, 3)),
            GraphChange::AddEdge(edge(12, 3, 4)),
            GraphChange::ExpireFact(2),
            GraphChange::AddEdge(edge(13, 5, 2)),
            GraphChange::ExpireEdge(12),
        ],
    );
    assert_eq!(g.edge_count(), 1);
    assert_eq!(g.neighbors(5), vec![2]);
}

#[test]
fn linking_takes_the_new_edges() {
    let mut e = engine();
    assert_eq!(e.link_session_facts(&vec![(100, 1, 2), (101, 1, 3)]), 2);
    assert_eq!(e.graph_stats(), (3, 2));
    assert_eq!(e.graph_degree(1), 2);
    assert!(e.graph_has_node(2));
    e.expire_edge(100);
    assert_eq!(e.graph_neighbors(1), vec![3]);
    assert_eq!(e.link_session_facts(&vec![]), 0);
}

#[test]
fn linking_needs_two_facts() {
    assert_eq!(facts_to_link(&vec![]), None);
    assert_eq!(facts_to_link(&vec![fact(1)]), None);
    assert_eq!(facts_to_link(&vec![fact(4), fact(2), fact(9)]), Some(vec![4, 2, 9]));
}

#[test]
fn superseding_replaces_the_edges_of_the_old_fact() {
    let mut e = engine();
    e.link_session_facts(&vec![(100, 1, 2), (101, 3, 1), (102, 2, 3)]);
    e.apply_cycle_report(&vec![(7, 1, 200)]);
    assert_eq!(e.graph_neighbors(7), vec![1]);
    assert_eq!(e.graph_degree(1), 1);
    assert_eq!(e.graph_neighbors(2), vec![3]);
    assert_eq!(e.graph_stats().1, 2);
}

#[test]
fn paths_are_resolved_from_the_root() {
    let mut tree = ScopeTree::new();
    tree.insert(node(2, 1, "project"));
    tree.insert(node(3, 2, "demo"));
    tree.insert(node(4, 1, "user"));
    assert_eq!(ScopeTree::root_id(), 1);
    assert_eq!(tree.resolve_path("project"), Some(2));
    assert_eq!(tree.resolve_path("project/demo"), Some(3));
    assert_eq!(tree.resolve_path("demo"), None);
    assert_eq!(tree.resolve_path("project/none"), None);
    assert_eq!(tree.ancestors(3), vec![3, 2, 1]);
    assert_eq!(tree.ancestors(1), vec![1]);
    let mut below = tree.subtree(2);
    below.sort_unstable();
    assert_eq!(below, vec![2, 3]);
    let mut all = tree.subtree(1);
    all.sort_unstable();
    assert_eq!(all, vec![1, 2, 3, 4]);
}

#[test]
fn inserting_a_scope_twice_changes_nothing() {
    let mut tree = ScopeTree::new();
    tree.insert(node(2, 1, "project"));
    tree.insert(node(2, 1, "project"));
    assert_eq!(tree.subtree(1).len(), 2);
    assert_eq!(tree.resolve_path("project"), Some(2));
}

#[test]
fn a_cycle_of_scopes_does_not_trap_anything() {
    let mut tree = ScopeTree::new();
    tree.insert(node(2, 3, "a"));
    tree.insert(node(3, 2, "b"));
    let chain = tree.ancestors(2);
    assert_eq!(chain[..2], [2, 3]);
    assert!(chain.len() <= 3);
    assert_eq!(tree.subtree(2).len(), 2);
}

#[test]
fn caching_a_chain_makes_deep_paths_resolvable() {
    let store: HashMap<i64, ScopeNode> = [node(2, 1, "a"), node(3, 2, "b"), node(4, 3, "c")]
        .into_iter()
        .map(|n| (n.id, n))
        .collect();
    let mut e = engine();
    let mut walk = ScopeChainWalk::start(4);
    let mut asked = Vec::new();
    while let Some(id) = walk.request() {
        asked.push(id);
        walk.supply(store[&id].clone());
    }
    assert_eq!(asked, vec![4, 3, 2]);
    e.cache_scope_chain(walk);
    assert_eq!(e.scope_tree.resolve_path("a/b/c"), Some(4));
    assert_eq!(e.resolve_scope_ids(Some("a/b")), Ok(vec![3, 2, 1]));
}

#[test]
fn walk_stops_at_the_root_and_in_a_cycle() {
    assert_eq!(ScopeChainWalk::start(1).request(), None);
    let mut walk = ScopeChainWalk::start(2);
    assert_eq!(walk.request(), Some(2));
    walk.supply(node(2, 3, "a"));
    assert_eq!(walk.request(), Some(3));
    walk.supply(node(3, 2, "b"));
    assert_eq!(walk.request(), None);
}

#[test]
fn listing_looks_upwards_and_linking_downwards() {
    let mut e = engine();
    e.scope_tree.insert(node(2, 1, "a"));
    e.scope_tree.insert(node(3, 2, "b"));
    assert_eq!(e.resolve_scope_ids(None), Ok(vec![1]));
    assert_eq!(e.resolve_scope_ids(Some("a")), Ok(vec![2, 1]));
    assert_eq!(
        e.resolve_scope_ids(Some("zzz")),
        Err(MemoryError::Storage("scope path: zzz".to_string()))
    );
    assert_eq!(e.link_scope_ids(None), Ok(vec![]));
    assert_eq!(e.link_scope_ids(Some("a")), Ok(vec![2, 3]));
    assert_eq!(
        e.link_scope_ids(Some("a/x")),
        Err(MemoryError::NotFound("scope path: a/x".to_string()))
    );
    assert_eq!(e.list_recent_insights("a"), Some(vec![2, 3]));
    assert_eq!(e.list_recent_insights("none"), None);
}

#[test]
fn segments_are_checked() {
    assert_eq!(validate_segment("project"), Ok(()));
    assert_eq!(validate_segment(""), Err("scope label must not be empty"));
    assert_eq!(validate_segment("a/b"), Err("scope label must not contain '/'"));
    assert_eq!(validate_segment(&"x".repeat(256)), Ok(()));
    assert_eq!(
        validate_segment(&"x".repeat(257)),
        Err("scope label must be at most 256 bytes")
    );
    assert_eq!(
        validate_segment(&"é".repeat(129)),
        Err("scope label must be at most 256 bytes")
    );
}

#[test]
fn component_follows_edges_both_ways() {
    let mut e = engine();
    e.link_session_facts(&vec![(100, 1, 2), (101, 3, 2), (102, 3, 3), (103, 8, 9)]);
    let mut component = e.graph_component(1);
    component.sort_unstable();
    assert_eq!(component, vec![1, 2, 3]);
    let mut back = e.graph_component(3);
    back.sort_unstable();
    assert_eq!(back, vec![1, 2, 3]);
    assert_eq!(e.graph_component(77), Vec::<i64>::new());
    e.expire_edge(103);
    assert_eq!(e.graph_component(8), vec![8]);
}

#[test]
fn archiving_leaves_no_trace_of_the_archived() {
    let mut e = engine();
    let (a, b) = (1, 2);
    let archived = vec![5, 6, 7];
    e.link_session_facts(&vec![
        (100, a, b),
        (101, a, 5),
        (102, 6, b),
        (103, 5, 6),
        (104, 7, 7),
    ]);
    e.prune_archived(&archived);
    for id in &archived {
        assert!(!e.graph_has_node(*id));
        assert!(!e.graph_component(a).contains(id));
    }
    assert!(e.graph_has_node(a) && e.graph_has_node(b));
    assert_eq!(e.graph_neighbors(a), vec![b]);
    assert_eq!(e.graph_stats(), (2, 1));
    // Facts that are not there can be pruned, too.
    e.prune_archived(&vec![99]);
    assert_eq!(e.graph_stats(), (2, 1));
}

/// Links facts as a store does, with edge ids from `next` on.
fn link(e: &mut MemoryEngine, ids: &Vec<i64>, next: i64) -> usize {
    let pairs = missing_links(ids, &e.graph.to_snapshot());
    let news: Vec<(i64, i64, i64)> =
        pairs.iter().enumerate().map(|(k, &(a, b))| (next + k as i64, a, b)).collect();
    e.link_session_facts(&news)
}

#[test]
fn linking_joins_each_two_facts_both_ways_and_only_once() {
    let mut e = engine();
    let ids = vec![1, 2, 3];
    assert_eq!(link(&mut e, &ids, 100), 6);
    for id in &ids {
        assert_eq!(e.graph_degree(*id), 4);
    }
    let stats = e.graph_stats();
    assert_eq!(stats, (3, 6));
    assert_eq!(link(&mut e, &ids, 200), 0);
    assert_eq!(e.graph_stats(), stats);
    // A new fact is linked with the others, which stay as they are.
    assert_eq!(link(&mut e, &vec![1, 2, 3, 4, 4], 300), 6);
    assert_eq!(e.graph_stats(), (4, 12));
}

#[test]
fn other_relations_do_not_count_as_links() {
    let active = vec![edge(10, 1, 2)];
    assert_eq!(missing_links(&vec![1, 2], &active), vec![(1, 2), (2, 1)]);
    assert!(missing_links(&vec![1], &active).is_empty());
}

#[test]
fn expired_facts_lose_their_edges_and_stay() {
    let mut e = engine();
    e.link_session_facts(&vec![(100, 1, 2), (101, 2, 3), (102, 3, 4)]);
    e.expire_facts(&vec![2, 9]);
    assert_eq!(e.graph_stats(), (4, 1));
    assert!(e.graph_has_node(2));
    assert_eq!(e.graph_degree(2), 0);
    e.expire_edge(102);
    assert_eq!(e.graph_stats(), (4, 0));
}

#[test]
fn rebuilt_graph_holds_the_active_edges_and_no_more() {
    let mut e = engine();
    e.link_session_facts(&vec![(100, 1, 2), (101, 2, 3)]);
    e.rebuild_graph(vec![edge(7, 5, 6)]);
    assert_eq!(e.graph_stats(), (2, 1));
    assert!(!e.graph_has_node(1));
    assert_eq!(e.graph_neighbors(5), vec![6]);
}

#[test]
fn new_links_have_half_the_weight_and_the_root_scope() {
    let link = |source: i64, target: i64| NewLink {
        source,
        target,
        weight: Binary64::from_bits(0.5f64.to_bits()),
        scope_id: 1,
    };
    assert_eq!(links_to_insert(&vec![4, 9], &vec![]), vec![link(4, 9), link(9, 4)]);
    let mut e = engine();
    e.link_session_facts(&vec![(100, 4, 9)]);
    assert_eq!(links_to_insert(&vec![4, 9, 4], &e.graph.to_snapshot()), vec![link(9, 4)]);
    e.link_session_facts(&vec![(101, 9, 4)]);
    assert!(links_to_insert(&vec![4, 9], &e.graph.to_snapshot()).is_empty());
}

#[test]
fn linking_needs_a_store_that_accepts_writes() {
    let mut e = engine();
    e.read_only = true;
    assert_eq!(e.link_scope_ids(None), Err(MemoryError::ReadOnly));
    assert_eq!(e.link_scope_ids(Some("nowhere")), Err(MemoryError::ReadOnly));
}

#[test]
fn path_of_a_scope_leads_to_it() {
    let mut tree = ScopeTree::new();
    tree.insert(node(2, 1, "project"));
    tree.insert(node(3, 2, "alpha"));
    tree.insert(node(4, 2, "beta"));
    tree.insert(node(8, 7, "lost"));
    assert_eq!(tree.path_for_id(4), Some("project/beta".to_string()));
    for id in [2, 3, 4] {
        let path = tree.path_for_id(id).unwrap();
        assert_eq!(tree.resolve_path(&path), Some(id));
    }
    assert_eq!(tree.path_for_id(1), Some(String::new()));
    assert_eq!(tree.path_for_id(5), None);
    assert_eq!(tree.path_for_id(8), None);
    // A ring does not reach the root.
    tree.insert(node(20, 21, "x"));
    tree.insert(node(21, 20, "y"));
    assert_eq!(tree.path_for_id(20), None);
}
