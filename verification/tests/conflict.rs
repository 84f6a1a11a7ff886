//! Conflicts and the guard of dream cycles.

use memory_engine::binary64::Binary64;
use memory_engine::engine::conflict::{
    conflict_writes, ConflictResolution, ConflictWrites, CrudDecision,
};
use memory_engine::engine::dream::{check_report, GuardStep};
use memory_engine::engine::state::{MemoryEngine, OpenedStore};
use memory_engine::engine::config::UpcasterRegistry;
use memory_engine::error::{ConflictError, CycleError, MemoryError};
use memory_engine::graph::{EdgeData, GraphEdge, MemoryGraph, RelationType};
use memory_engine::limits::MAX_PAYLOAD_BYTES;
use memory_engine::scope_tree::ScopeTree;
use memory_engine::test_util::new_fact;

fn edge(edge_id: i64, source: i64, target: i64, relation: &str) -> GraphEdge {
    GraphEdge {
        source,
        target,
        data: EdgeData {
            edge_id,
            relation_type: RelationType::Other(relation.to_string()),
            weight: Binary64::from_bits(1.0f64.to_bits()),
        },
    }
}

fn engine() -> MemoryEngine {
    MemoryEngine::builder(4).build().unwrap()
}

fn read_only() -> MemoryEngine {
    MemoryEngine::init_from_pool(
        OpenedStore {
            is_file_backed: true,
            read_only: true,
            db_path: Some("a.db".to_string()),
            identity: None,
        },
        4,
        MemoryGraph::new(),
        ScopeTree::new(),
        UpcasterRegistry::new(),
        None,
    )
    .unwrap()
}

#[test]
fn update_replaces_the_edges_of_the_old_fact() {
    let (old, other, new) = (1, 2, 9);
    let mut e = engine();
    e.graph.add_edge(old, other, edge(10, old, other, "related").data);
    e.resolve_conflict(
        old,
        &ConflictResolution {
            decision: CrudDecision::Update,
            new_fact_id: Some(new),
            edge: Some(edge(11, new, old, "contradicts")),
        },
    );
    assert_eq!(e.graph_stats().1, 1);
    assert_eq!(e.graph_neighbors(new), vec![old]);
    assert!(e.graph_neighbors(old).is_empty());
}

#[test]
fn delete_takes_all_edges_and_noop_none() {
    let mut e = engine();
    e.graph.add_edge(1, 2, edge(10, 1, 2, "related").data);
    e.graph.add_edge(2, 3, edge(11, 2, 3, "related").data);
    let resolved =
        |decision| ConflictResolution { decision, new_fact_id: None, edge: None };
    e.resolve_conflict(1, &resolved(CrudDecision::Noop));
    assert_eq!(e.graph_stats().1, 2);
    e.resolve_conflict(1, &resolved(CrudDecision::Delete));
    assert_eq!(e.graph_stats().1, 1);
    assert!(e.graph_neighbors(1).is_empty());
    assert_eq!(e.graph_neighbors(2), vec![3]);
}

#[test]
fn add_keeps_the_old_edges() {
    let mut e = engine();
    e.graph.add_edge(1, 2, edge(10, 1, 2, "related").data);
    e.resolve_conflict(
        1,
        &ConflictResolution {
            decision: CrudDecision::Add,
            new_fact_id: Some(5),
            edge: Some(edge(11, 5, 1, "related")),
        },
    );
    assert_eq!(e.graph_neighbors(1), vec![2]);
    assert_eq!(e.graph_neighbors(5), vec![1]);
}

#[test]
fn arbiter_sees_an_unscored_fact_without_an_id() {
    let mut new = new_fact("candidate", vec![1, 2, 3, 4]);
    new.base_importance = Binary64::from_bits(0.9f64.to_bits());
    let seen = engine().arbiter_view(&new).unwrap();
    assert_eq!(seen.id, 0);
    assert_eq!(seen.importance_score, Binary64::from_bits(0.5f64.to_bits()));
    assert_eq!(seen.base_importance, new.base_importance);
    assert_eq!(seen.content, "candidate");
    assert_eq!(seen.embedding, vec![1, 2, 3, 4]);
    assert_eq!(seen.metadata, new.metadata);
    assert_eq!(seen.surfaced_at, None);
}

#[test]
fn arbiter_is_not_asked_in_vain() {
    let mut new = new_fact("seed", vec![0; 4]);
    assert_eq!(read_only().arbiter_view(&new).unwrap_err(), MemoryError::ReadOnly);
    let mut fenced = engine();
    fenced.fence_after_promotion(8);
    assert_eq!(
        fenced.arbiter_view(&new).unwrap_err(),
        MemoryError::EmbeddingReopenRequired { new_dim: 8 }
    );
    new.content = "x".repeat(MAX_PAYLOAD_BYTES + 1);
    assert!(matches!(
        engine().arbiter_view(&new),
        Err(MemoryError::Conflict(ConflictError::PayloadTooLarge { kind: "fact content", .. }))
    ));
}

#[test]
fn cycle_stands_down_once_and_then_runs() {
    let e = engine();
    assert_eq!(
        e.run_dream_cycle_guarded(Some(7), None),
        Ok(GuardStep::Skip { since_fact_id: 0, new_max_fact_id: 7 })
    );
    assert_eq!(e.run_dream_cycle_guarded(Some(7), Some(7)), Ok(GuardStep::Run));
    assert_eq!(
        e.run_dream_cycle_guarded(Some(8), Some(7)),
        Ok(GuardStep::Skip { since_fact_id: 7, new_max_fact_id: 8 })
    );
    // What a cycle processed no longer counts, so the newest id may fall.
    assert_eq!(e.run_dream_cycle_guarded(Some(3), Some(7)), Ok(GuardStep::Run));
    assert_eq!(e.run_dream_cycle_guarded(None, None), Ok(GuardStep::Run));
    assert_eq!(read_only().run_dream_cycle_guarded(None, None), Err(MemoryError::ReadOnly));
}

#[test]
fn cycle_must_say_what_it_processed() {
    assert_eq!(check_report(0, 0), Ok(()));
    assert_eq!(check_report(5, 5), Ok(()));
    assert_eq!(
        check_report(5, 0),
        Err(MemoryError::Cycle(CycleError::MalformedReport { facts_selected: 5 }))
    );
}

#[test]
fn decisions_are_carried_out_on_an_active_fact() {
    let writes = |expire_old: bool, insert_new: bool| {
        Some(ConflictWrites { expire_old, insert_new, make_edge: insert_new })
    };
    assert_eq!(conflict_writes(CrudDecision::Add, true), writes(false, true));
    assert_eq!(conflict_writes(CrudDecision::Update, true), writes(true, true));
    assert_eq!(conflict_writes(CrudDecision::Delete, true), writes(true, false));
    for active in [true, false] {
        assert_eq!(conflict_writes(CrudDecision::Noop, active), writes(false, false));
    }
    for decision in [CrudDecision::Add, CrudDecision::Update, CrudDecision::Delete] {
        assert_eq!(conflict_writes(decision, false), None);
    }
}
