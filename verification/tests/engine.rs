//! Opening an engine, and the checks that guard it.

use memory_engine::binary64::Binary64;
use memory_engine::engine::builder::MemoryEngineBuilder;
use memory_engine::engine::config::{
    BackendKind, EngineConfig, PoolRequest, SearchConfig, Upcaster, UpcasterRegistry,
};
use memory_engine::engine::outcome::outcome_at;
use memory_engine::engine::state::{
    open_projections, recover_from_payload, try_load_snapshot, DbFingerprint, FlushStep,
    IndexSource, MemoryEngine, OpenedStore, Recovered, Sidecar, SidecarPayload,
};
use memory_engine::error::{ArchiveError, MemoryError, MigrationError};
use memory_engine::graph::{EdgeData, GraphEdge, MemoryGraph, RelationType};
use memory_engine::scope_tree::ScopeTree;
use memory_engine::test_util::{content_hash_of, new_event, new_fact, new_fact_hashed};
use memory_engine::time::Timestamp;
use memory_engine::types::archive::ArchivePolicy;
use memory_engine::types::cognitive::{EmbeddingFingerprint, PromoteRequest};
use memory_engine::types::events::{EventType, Outcome};
use memory_engine::types::facts::FactType;
use memory_engine::types::scope::ScopeNode;
use std::collections::HashSet;

const DIM: usize = 384;

fn fingerprint(dim: usize) -> EmbeddingFingerprint {
    EmbeddingFingerprint::new("m", "p", dim)
}

fn on_file(path: &str, identity: Option<EmbeddingFingerprint>, read_only: bool) -> OpenedStore {
    OpenedStore { is_file_backed: true, read_only, db_path: Some(path.to_string()), identity }
}

fn open(store: OpenedStore, dim: usize) -> Result<MemoryEngine, MemoryError> {
    MemoryEngine::init_from_pool(
        store,
        dim,
        MemoryGraph::new(),
        ScopeTree::new(),
        UpcasterRegistry::new(),
        None,
    )
}

fn edge(id: i64, source: i64, target: i64) -> GraphEdge {
    GraphEdge {
        source,
        target,
        data: EdgeData {
            edge_id: id,
            relation_type: RelationType::Other("related".to_string()),
            weight: Binary64::from_bits(1.0f64.to_bits()),
        },
    }
}

#[test]
fn in_memory_minimal() {
    let engine = MemoryEngine::builder(DIM).build().unwrap();
    assert_eq!(engine.embed_dim(), DIM);
    assert!(!engine.is_file_backed());
    assert_eq!(engine.reranker_name(), None);
}

#[test]
fn in_memory_with_search_config_compiles_without_ann() {
    let engine = MemoryEngine::builder(DIM)
        .search_config(SearchConfig { ann_threshold: 10 })
        .build()
        .unwrap();
    assert_eq!(engine.embed_dim(), DIM);
}

#[test]
fn reranker_is_kept_by_name() {
    let engine = MemoryEngine::builder(DIM).reranker("cross".to_string()).build().unwrap();
    assert_eq!(engine.reranker_name(), Some("cross"));
}

#[test]
fn into_config_round_trips_file_fields() {
    let config = MemoryEngine::builder(DIM)
        .path("/tmp/x/c.db".to_string())
        .read_only(true)
        .read_pool_size(2)
        .backup_dir("/tmp/x/backups".to_string())
        .search_config(SearchConfig { ann_threshold: 99 })
        .into_config();
    assert_eq!(config.path, "/tmp/x/c.db");
    assert_eq!(config.embed_dim, DIM);
    assert!(config.read_only);
    assert_eq!(config.read_pool_size, 2);
    assert_eq!(config.backup_dir, Some("/tmp/x/backups".to_string()));
    assert_eq!(config.search_config, Some(SearchConfig { ann_threshold: 99 }));
}

#[test]
fn path_keeps_what_was_set_before() {
    let registry = UpcasterRegistry {
        steps: vec![Upcaster { event_type: "interaction".to_string(), from_revision: 1 }],
    };
    let config = MemoryEngine::builder(8)
        .search_config(SearchConfig { ann_threshold: 7 })
        .upcaster_registry(registry.copied())
        .path("a.db".to_string())
        .to_config();
    assert_eq!(config.search_config, Some(SearchConfig { ann_threshold: 7 }));
    assert_eq!(config.upcaster_registry, registry);
    assert_eq!(config.read_pool_size, 4);
    assert!(!config.read_only);
    assert_eq!(config.backup_dir, None);
    assert_eq!(config.backend, BackendKind::Sqlite);
}

#[test]
fn config_setters_change_one_field_each() {
    let base = || EngineConfig::new("agent.db".to_string(), DIM);
    assert_eq!(base().read_pool_size, 4);
    assert_eq!(base().with_read_pool_size(9).read_pool_size, 9);
    assert!(base().with_read_only(true).read_only);
    assert_eq!(base().with_backup_dir("b".to_string()).backup_dir, Some("b".to_string()));
    assert_eq!(
        base().with_search_config(SearchConfig { ann_threshold: 3 }).search_config,
        Some(SearchConfig { ann_threshold: 3 })
    );
    assert_eq!(base().with_backend(BackendKind::Sqlite), base());
    assert_eq!(base().with_upcaster_registry(UpcasterRegistry::new()), base());
    assert_eq!(SearchConfig::default().ann_threshold, 50_000);
    assert_eq!(BackendKind::default(), BackendKind::Sqlite);
}

#[test]
fn open_asks_for_the_right_connections() {
    let config = EngineConfig::new("agent.db".to_string(), 8).with_backup_dir("b".to_string());
    assert_eq!(
        MemoryEngine::open_from_config(&config),
        Ok(PoolRequest::ReadWrite {
            path: "agent.db".to_string(),
            embed_dim: 8,
            read_pool_size: 4,
            backup_dir: Some("b".to_string()),
        })
    );
    assert_eq!(
        MemoryEngine::open_from_config(&config.with_read_only(true)),
        Ok(PoolRequest::ReadOnly {
            path: "agent.db".to_string(),
            embed_dim: 8,
            read_pool_size: 4,
        })
    );
}

#[test]
fn read_pool_size_is_bounded() {
    let with = |n: usize| EngineConfig::new("a".to_string(), 8).with_read_pool_size(n);
    for n in [0, 257] {
        assert_eq!(
            MemoryEngine::open_from_config(&with(n)),
            Err(MemoryError::Pool { read_pool_size: n })
        );
    }
    for n in [1, 256] {
        assert!(MemoryEngine::open_from_config(&with(n)).is_ok());
    }
}

#[test]
fn a_store_with_vectors_fixes_the_dimension() {
    assert!(open(on_file("a.db", None, false), 8).is_ok());
    assert!(open(on_file("a.db", Some(fingerprint(8)), false), 8).is_ok());
    assert_eq!(
        open(on_file("a.db", Some(fingerprint(8)), true), 16).unwrap_err(),
        MemoryError::Migration(MigrationError::EmbedDimMismatch { stored: 8, requested: 16 })
    );
}

#[test]
fn opened_engine_knows_its_store() {
    let engine = open(on_file("a.db", None, true), 8).unwrap();
    assert!(engine.is_file_backed());
    assert!(engine.is_read_only());
    assert_eq!(engine.embed_dim(), 8);
    assert_eq!(engine.reopen_required(), None);
    assert_eq!(engine.ensure_open(), Ok(()));
    assert_eq!(engine.ensure_writable(), Err(MemoryError::ReadOnly));
    assert_eq!(open(on_file("a.db", None, false), 8).unwrap().ensure_writable(), Ok(()));
}

#[test]
fn identities_are_verified() {
    let engine = open(on_file("a.db", None, false), 8).unwrap();
    assert_eq!(
        engine.verify_embedding_fingerprint(&fingerprint(4), &None),
        Err(MemoryError::EmbeddingDimension { expected: 8, actual: 4 })
    );
    assert_eq!(engine.verify_embedding_fingerprint(&fingerprint(8), &None), Ok(()));
    assert_eq!(
        engine.verify_embedding_fingerprint(&fingerprint(8), &Some(fingerprint(8))),
        Ok(())
    );
    let other = EmbeddingFingerprint::new("other", "p", 8);
    assert_eq!(
        engine.verify_embedding_fingerprint(&other, &Some(fingerprint(8))),
        Err(MemoryError::EmbeddingModelMismatch { stored: fingerprint(8), offered: other })
    );
}

#[test]
fn promotion_to_another_dimension_fences_the_engine() {
    let mut engine = open(on_file("a.db", Some(fingerprint(8)), false), 8).unwrap();
    engine.fence_after_promotion(8);
    assert_eq!(engine.reopen_required(), None);
    engine.fence_after_promotion(16);
    assert_eq!(engine.reopen_required(), Some(16));
    assert_eq!(engine.ensure_open(), Err(MemoryError::EmbeddingReopenRequired { new_dim: 16 }));
    assert_eq!(
        engine.check_event(&new_event("test", None)),
        Err(MemoryError::EmbeddingReopenRequired { new_dim: 16 })
    );
    // The new dimension opens the store, the old one does not.
    assert!(open(on_file("a.db", Some(fingerprint(16)), false), 16).is_ok());
    assert!(open(on_file("a.db", Some(fingerprint(16)), false), 8).is_err());
}

#[test]
fn flush_marks_the_engine_as_closed() {
    let mut engine = open(on_file("a.db", None, false), 8).unwrap();
    assert!(engine.dropped_without_flush());
    assert_eq!(
        engine.flush_snapshot(),
        FlushStep::Write { edges: Vec::new(), scopes: Vec::new() }
    );
    assert!(engine.dropped_without_flush());
    assert!(engine.flushed(true));
    assert!(!engine.dropped_without_flush());

    let mut fenced = open(on_file("a.db", None, false), 8).unwrap();
    fenced.fence_after_promotion(16);
    assert_eq!(fenced.flush_snapshot(), FlushStep::Skip);
    assert!(!fenced.dropped_without_flush());

    let mut in_memory = MemoryEngine::builder(8).build().unwrap();
    assert!(!in_memory.dropped_without_flush());
    assert_eq!(in_memory.flush_snapshot(), FlushStep::Skip);
    let mut read_only = open(on_file("a.db", None, true), 8).unwrap();
    assert_eq!(read_only.flush_snapshot(), FlushStep::Skip);
    assert!(!read_only.dropped_without_flush());
}

#[test]
fn sidecar_is_used_only_when_it_agrees_with_the_database() {
    let current = DbFingerprint { active_edge_count: 1, digest: "d".to_string() };
    let payload = || SidecarPayload {
        edges: vec![edge(5, 1, 2)],
        scopes: vec![ScopeNode { id: 2, parent_id: Some(1), label: "a".to_string(), depth: 1 }],
        hnsw: Some(vec![1, 2, 3]),
    };
    let existing: HashSet<i64> = [1, 2].iter().copied().collect();
    let path = Some("a.db".to_string());
    let sidecar = |fp: &DbFingerprint| Some(Sidecar { fingerprint: fp.clone(), payload: payload() });

    let found = try_load_snapshot(&path, sidecar(&current), &current, &existing).unwrap();
    assert_eq!(found.graph.edge_count(), 1);
    assert_eq!(found.graph.neighbors(1), vec![2]);
    assert_eq!(found.scope_tree.resolve_path("a"), Some(2));
    assert_eq!(found.hnsw, Some(vec![1, 2, 3]));

    // No file, no sidecar, a stale one.
    assert!(try_load_snapshot(&None, sidecar(&current), &current, &existing).is_none());
    assert!(try_load_snapshot(&path, None, &current, &existing).is_none());
    let stale = DbFingerprint { active_edge_count: 1, digest: "e".to_string() };
    assert!(try_load_snapshot(&path, sidecar(&stale), &current, &existing).is_none());
    let short = DbFingerprint { active_edge_count: 2, digest: "d".to_string() };
    assert!(try_load_snapshot(&path, sidecar(&short), &current, &existing).is_none());

    // An edge too few, a negative count, an edge to a fact that does not exist.
    assert!(recover_from_payload(payload(), &short, &existing).is_none());
    let negative = DbFingerprint { active_edge_count: -1, digest: "d".to_string() };
    assert!(recover_from_payload(payload(), &negative, &existing).is_none());
    let fewer: HashSet<i64> = [1].iter().copied().collect();
    assert!(recover_from_payload(payload(), &current, &fewer).is_none());
}

#[test]
fn archiving_needs_a_writable_file() {
    assert_eq!(open(on_file("a.db", None, false), 8).unwrap().check_archive(), Ok(()));
    assert_eq!(
        open(on_file("a.db", None, true), 8).unwrap().check_archive(),
        Err(MemoryError::ReadOnly)
    );
    let in_memory = MemoryEngine::builder(8).build().unwrap();
    assert_eq!(
        in_memory.check_archive(),
        Err(MemoryError::Archive(ArchiveError::NotFileBacked(
            "archival requires a file-backed engine".to_string()
        )))
    );
    assert_eq!(
        in_memory.archive_dir(),
        Err(MemoryError::Archive(ArchiveError::NotFileBacked(
            "cannot resolve archive dir for in-memory database".to_string()
        )))
    );
    let dir_of = |path: &str| open(on_file(path, None, false), 8).unwrap().archive_dir();
    assert_eq!(dir_of("/data/a.db"), Ok("/data/archives".to_string()));
    assert_eq!(dir_of("/a.db"), Ok("/archives".to_string()));
    assert_eq!(dir_of("a.db"), Ok("archives".to_string()));
    assert_eq!(
        dir_of("/"),
        Err(MemoryError::Archive(ArchiveError::Io("database path has no parent: /".to_string())))
    );
    let engine = open(on_file("/data/a.db", None, false), 8).unwrap();
    assert_eq!(engine.archive_dir_in(Some("x".to_string())), Ok("x/archives".to_string()));
    assert_eq!(
        engine.archive_dir_in(None),
        Err(MemoryError::Archive(ArchiveError::Io(
            "database path has no parent: /data/a.db".to_string()
        )))
    );
}

#[test]
fn import_needs_a_writable_engine() {
    assert_eq!(
        open(on_file("a.db", None, true), 8).unwrap().begin_bootstrap(),
        Err(MemoryError::ReadOnly)
    );
    let mut engine = open(on_file("a.db", None, false), 8).unwrap();
    assert_eq!(engine.begin_bootstrap(), Ok(()));
    engine.fence_after_promotion(16);
    assert_eq!(
        engine.begin_bootstrap(),
        Err(MemoryError::EmbeddingReopenRequired { new_dim: 16 })
    );
}

#[test]
fn archive_policy_default_has_30_day_cutoff() {
    let policy = ArchivePolicy::default();
    let now = chrono::Utc::now();
    let expired_before = chrono::DateTime::from_timestamp(
        policy.expired_before.secs,
        policy.expired_before.nanos,
    )
    .unwrap();
    let diff = now - expired_before;
    assert_eq!(diff.num_days(), 30);
    assert_eq!(policy.min_facts, 100);
}

#[test]
fn archive_policy_counts_back_from_its_time() {
    let policy = ArchivePolicy::as_of(Timestamp { secs: 30 * 86_400 + 5, nanos: 7 });
    assert_eq!(policy.expired_before, Timestamp { secs: 5, nanos: 7 });
    assert_eq!(policy.min_facts, 100);
}

fn promote_request(metadata: serde_json::Value, dim: usize) -> PromoteRequest {
    PromoteRequest {
        content: "wisdom".to_string(),
        fact_type: FactType::Semantic,
        embedding: vec![0; dim],
        importance: Binary64::from_bits(0.9f64.to_bits()),
        metadata,
        scope: None,
        source_fact_ids: vec![1, 2],
        provenance: serde_json::Value::String("merged".to_string()),
    }
}

#[test]
fn promotion_checks_the_dimension() {
    let engine = MemoryEngine::builder(4).build().unwrap();
    let req = promote_request(serde_json::Value::Null, 3);
    assert_eq!(
        engine.promote_with_lineage(&req),
        Err(MemoryError::EmbeddingDimension { expected: 4, actual: 3 })
    );
}

#[test]
fn promotion_adds_its_provenance_to_the_metadata() {
    let engine = MemoryEngine::builder(4).build().unwrap();
    let mut map = serde_json::Map::new();
    map.insert("k".to_string(), serde_json::Value::from(7));
    let now = Timestamp { secs: 99, nanos: 1 };
    let fact =
        engine.promoted_at(&promote_request(serde_json::Value::Object(map.clone()), 4), now).unwrap();
    map.insert("promotion_provenance".to_string(), serde_json::Value::String("merged".to_string()));
    assert_eq!(fact.metadata, serde_json::Value::Object(map));
    assert_eq!(fact.t_created, now);
    assert_eq!(fact.last_accessed, now);
    assert!(fact.is_pinned);
    assert_eq!(fact.scope_id, 1);
    assert_eq!(fact.content_hash, "");
    assert_eq!(fact.access_count, 0);

    // Metadata that is no object counts for nothing.
    let fact = engine.promoted_at(&promote_request(serde_json::Value::from(3), 4), now).unwrap();
    assert_eq!(serde_json::to_string(&fact.metadata).unwrap(), "{\"promotion_provenance\":\"merged\"}");
}

#[test]
fn promotion_happens_now() {
    let engine = MemoryEngine::builder(4).build().unwrap();
    let before = chrono::Utc::now().timestamp();
    let fact = engine.promote_with_lineage(&promote_request(serde_json::Value::Null, 4)).unwrap();
    let after = chrono::Utc::now().timestamp();
    assert!(before <= fact.t_created.secs && fact.t_created.secs <= after);
}

#[test]
fn outcome_event_has_a_two_member_payload() {
    let event = outcome_at(42, Outcome::Negative, Timestamp { secs: 5, nanos: 0 });
    assert_eq!(
        serde_json::to_string(&event.payload).unwrap(),
        "{\"fact_id\":42,\"outcome\":\"negative\"}"
    );
    assert_eq!(event.event_type, EventType::OutcomeSignal);
    assert_eq!(event.source, "outcome_tracking");
    assert_eq!(event.session_id, None);
    assert_eq!(event.scope_id, 1);
    assert_eq!(event.origin_node_id, "local");
    assert_eq!(event.timestamp, Timestamp { secs: 5, nanos: 0 });

    let engine = MemoryEngine::builder(4).build().unwrap();
    let before = chrono::Utc::now().timestamp();
    let event = engine.record_outcome(-1, Outcome::Positive);
    assert!(event.timestamp.secs >= before);
    assert_eq!(
        serde_json::to_string(&event.payload).unwrap(),
        "{\"fact_id\":-1,\"outcome\":\"positive\"}"
    );
}

#[test]
fn fixture_facts_are_plain() {
    let fact = new_fact("hello", vec![1, 2]);
    assert_eq!(fact.fact_type, FactType::Episodic);
    assert_eq!(fact.content_hash, "");
    assert_eq!(fact.base_importance, Binary64::from_bits(0.5f64.to_bits()));
    assert_eq!(serde_json::to_string(&fact.metadata).unwrap(), "{}");

    let fact = new_fact_hashed("hello", vec![1, 2]);
    assert_eq!(fact.fact_type, FactType::Semantic);
    // The BLAKE3 hash of "hello" begins so.
    assert_eq!(fact.content_hash, "ea8f163db38682925e4491c5e58d4bb3");
    assert_eq!(content_hash_of("0123456789abcdef0123456789abcdefXYZ"), "0123456789abcdef0123456789abcdef");

    let event = new_event("cli", Some("s1"));
    assert_eq!(event.session_id, Some("s1".to_string()));
    assert_eq!(serde_json::to_string(&event.payload).unwrap(), "{\"key\":\"value\"}");
}

#[test]
fn builder_type_says_where_the_engine_lives() {
    let in_memory: MemoryEngineBuilder<memory_engine::engine::builder::InMemory> =
        MemoryEngine::builder(4);
    let on_file: MemoryEngineBuilder<memory_engine::engine::builder::File> =
        in_memory.path("x.db".to_string());
    assert_eq!(on_file.backing.path, "x.db");
}

#[test]
fn flushed_projections_come_back() {
    let mut engine = open(on_file("a.db", None, false), 8).unwrap();
    engine.graph.add_edge(1, 2, edge(5, 1, 2).data);
    engine.graph.add_edge(2, 3, edge(6, 2, 3).data);
    engine.scope_tree.insert(ScopeNode { id: 2, parent_id: Some(1), label: "a".to_string(), depth: 1 });
    engine.scope_tree.insert(ScopeNode { id: 3, parent_id: Some(2), label: "b".to_string(), depth: 2 });
    let (edges, scopes) = match engine.flush_snapshot() {
        FlushStep::Write { edges, scopes } => (edges, scopes),
        FlushStep::Skip => panic!("there is something to write"),
    };
    let current = DbFingerprint { active_edge_count: 2, digest: "d".to_string() };
    let existing: HashSet<i64> = [1, 2, 3].iter().copied().collect();
    let back =
        recover_from_payload(SidecarPayload { edges, scopes, hnsw: None }, &current, &existing)
            .unwrap();
    assert_eq!(back.graph.to_snapshot(), engine.graph.to_snapshot());
    assert_eq!(back.scope_tree.to_snapshot(), engine.scope_tree.to_snapshot());
    assert_eq!(back.scope_tree.resolve_path("a/b"), Some(3));
    assert_eq!(back.graph.degree(2), 2);
}

#[test]
fn file_minimal() {
    let engine = MemoryEngine::builder(DIM)
        .path("b.db".to_string())
        .build(on_file("b.db", None, false), MemoryGraph::new(), ScopeTree::new())
        .unwrap();
    assert!(engine.is_file_backed());
}

#[test]
fn file_with_backup_dir_builds() {
    let engine = MemoryEngine::builder(DIM)
        .path("d.db".to_string())
        .backup_dir("backups".to_string())
        .build(on_file("d.db", None, false), MemoryGraph::new(), ScopeTree::new())
        .unwrap();
    assert!(engine.is_file_backed());
}

#[test]
fn file_keeps_the_reranker_and_must_fit_the_dimension() {
    let builder = || MemoryEngine::builder(8).reranker("cross".to_string()).path("b.db".to_string());
    let store = on_file("b.db", Some(fingerprint(8)), true);
    let engine = builder().build(store, MemoryGraph::new(), ScopeTree::new()).unwrap();
    assert_eq!(engine.reranker_name(), Some("cross"));
    assert!(engine.is_read_only());
    let store = on_file("b.db", Some(fingerprint(4)), false);
    assert_eq!(
        builder().build(store, MemoryGraph::new(), ScopeTree::new()).err(),
        Some(MemoryError::Migration(MigrationError::EmbedDimMismatch { stored: 4, requested: 8 }))
    );
}

#[test]
fn store_gets_the_settings_of_the_builder() {
    let registry = UpcasterRegistry {
        steps: vec![Upcaster { event_type: "interaction".to_string(), from_revision: 1 }],
    };
    let builder = MemoryEngine::builder(8)
        .search_config(SearchConfig { ann_threshold: 7 })
        .upcaster_registry(registry.copied());
    let settings = builder.store_settings();
    assert_eq!(settings.embed_dim, 8);
    assert_eq!(settings.search_config, Some(SearchConfig { ann_threshold: 7 }));
    assert_eq!(settings.upcaster_registry, registry);
    assert_eq!(builder.path("a.db".to_string()).store_settings(), settings);
}

#[test]
fn projections_are_recovered_or_rebuilt() {
    let scope = ScopeNode { id: 2, parent_id: Some(1), label: "a".to_string(), depth: 1 };
    let edges = vec![edge(1, 4, 5)];
    let (graph, tree, index) = open_projections(None, edges.clone(), vec![scope.copied()]);
    assert_eq!(graph.to_snapshot(), edges);
    assert_eq!(graph.node_count(), 2);
    assert_eq!(tree.resolve_path("a"), Some(2));
    assert_eq!(index, IndexSource::Rebuild);
    for hnsw in [None, Some(vec![1, 2, 3])] {
        let recovered = Recovered {
            graph: MemoryGraph::from_active_edges(edges.clone()),
            scope_tree: ScopeTree::new(),
            hnsw: hnsw.clone(),
        };
        let (graph, tree, index) = open_projections(Some(recovered), vec![], vec![scope.copied()]);
        assert_eq!(graph.to_snapshot(), edges);
        assert_eq!(tree.resolve_path("a"), None);
        assert_eq!(index, IndexSource::Sidecar(hnsw));
    }
}

#[test]
fn archives_lie_beside_the_file_in_deeper_directories() {
    for (path, dir) in [
        ("data/agent/a.db", "data/agent/archives"),
        ("/srv/data/agent/a.db", "/srv/data/agent/archives"),
        ("../a.db", "../archives"),
    ] {
        let engine = open(on_file(path, None, false), 8).unwrap();
        assert_eq!(engine.archive_dir(), Ok(dir.to_string()));
    }
}
