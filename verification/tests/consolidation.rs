//! Consolidation runs, with the results of the passes given.

use memory_engine::binary64::Binary64;
use memory_engine::consolidation::{
    apply_dedup, apply_plan, compute_plan, load_snapshot, load_snapshot_capped, loaded_snapshot,
    plan_without_passes, read_watermark, snapshot_step, summarize_and_embed, survivors,
    ClusterComputed, PlanRun, PlanStep, PlanWrites, SnapshotStep, MAX_FACTS_FOR_CLUSTERING, MAX_FACTS_FOR_DEDUP,
};
use memory_engine::engine::state::MemoryEngine;
use memory_engine::error::{ConflictError, MemoryError, MigrationError};
use memory_engine::time::Timestamp;
use memory_engine::types::cognitive::EmbeddingFingerprint;
use memory_engine::types::consolidation::{
    ConsolidationLevel, ConsolidationPlan, DedupComputed, Expiry, NewSummary, Snapshot,
};
use memory_engine::types::facts::{Fact, FactType};
use std::collections::HashSet;

const DIM: usize = 4;

fn at(secs: i64) -> Timestamp {
    Timestamp { secs, nanos: 0 }
}

fn fact(id: i64, content: &str) -> Fact {
    Fact {
        id,
        content: content.to_string(),
        content_hash: String::new(),
        embedding: vec![1.0f32.to_bits(); DIM],
        fact_type: FactType::Semantic,
        t_created: at(1_700_000_000),
        t_expired: None,
        t_valid: None,
        t_invalid: None,
        source_event_id: None,
        base_importance: Binary64::from_bits(0.5f64.to_bits()),
        access_count: 0,
        last_accessed: at(1_700_000_000),
        metadata: serde_json::Value::Object(serde_json::Map::new()),
        scope_id: 1,
        is_pinned: false,
        importance_score: Binary64::from_bits(0.5f64.to_bits()),
        surfaced_at: None,
    }
}

fn embedder() -> EmbeddingFingerprint {
    EmbeddingFingerprint::new("mock", "test", DIM)
}

fn summary(content: &str, level: ConsolidationLevel, sources: Vec<i64>, now: Timestamp) -> NewSummary {
    NewSummary {
        content: content.to_string(),
        embedding: vec![0.25f32.to_bits(); DIM],
        level,
        source_fact_ids: sources,
        scope_id: 1,
        created_at: now,
    }
}

fn dedup_of(pairs: &[(i64, i64)]) -> DedupComputed {
    DedupComputed {
        skipped: false,
        expirations: pairs.iter().map(|&(loser, survivor)| Expiry { loser, survivor }).collect(),
        importance_updates: Vec::new(),
        importance_score_updates: Vec::new(),
    }
}

fn nothing_clustered() -> ClusterComputed {
    ClusterComputed { ran: true, summaries: Vec::new() }
}

/// A store: its active facts, its summaries and its watermark.
struct Store {
    active: HashSet<i64>,
    summaries: Vec<String>,
    watermark: Option<String>,
    identity: Option<EmbeddingFingerprint>,
}

impl Store {
    fn with(ids: &[i64]) -> Store {
        Store {
            active: ids.iter().copied().collect(),
            summaries: Vec::new(),
            watermark: None,
            identity: None,
        }
    }

    fn apply(&mut self, plan: &ConsolidationPlan) -> PlanWrites {
        let writes = apply_plan(plan, &self.active);
        for id in &writes.expired {
            assert!(self.active.remove(id));
        }
        if writes.write_summaries {
            self.summaries = plan.cluster_summaries.iter().map(|s| s.content.clone()).collect();
            if let Some(s) = &plan.global_summary {
                self.summaries.push(s.content.clone());
            }
        }
        if self.identity.is_none() {
            self.identity = writes.stamp.clone();
        }
        if writes.watermark.is_some() {
            self.watermark = writes.watermark.clone();
        }
        writes
    }
}

/// The snapshot of a store with these facts, read now.
fn snapshot_of(facts: Vec<Fact>, watermark: &Option<String>) -> Snapshot {
    match load_snapshot(Ok(()), watermark, facts.len()).unwrap() {
        SnapshotStep::LoadActive { last, now } => loaded_snapshot(facts, last, now),
        SnapshotStep::Skip(s) => s,
    }
}

#[test]
fn three_pass_pipeline_runs_atomically() {
    let facts = vec![fact(1, "alpha"), fact(2, "beta"), fact(3, "gamma")];
    let mut store = Store::with(&[1, 2, 3]);
    let snapshot = snapshot_of(facts, &store.watermark);

    // All three are near-duplicates of the first.
    let dedup = dedup_of(&[(2, 1), (3, 1)]);
    let left = survivors(&snapshot.active_facts, &dedup);
    assert_eq!(left.len(), 1);
    assert_eq!(left[0].content, "alpha");

    // One fact is no cluster.
    let plan = compute_plan(&snapshot, dedup, nothing_clustered(), None, &embedder());
    let writes = store.apply(&plan);
    assert_eq!(writes.stats.duplicates_removed, 2);
    assert_eq!(writes.expired.len(), 2);
    assert_eq!(writes.stats.clusters_created, 0);
    assert_eq!(writes.stats.global_summaries, 0);
    assert_eq!(store.active.len(), 1);
}

#[test]
fn cluster_and_global_summaries_created() {
    let facts = vec![fact(1, "a"), fact(2, "b"), fact(3, "c")];
    let mut store = Store::with(&[1, 2, 3]);
    let snapshot = snapshot_of(facts, &store.watermark);
    let now = snapshot.now;
    let plan = compute_plan(
        &snapshot,
        dedup_of(&[]),
        ClusterComputed {
            ran: true,
            summaries: vec![summary("a + b + c", ConsolidationLevel::Cluster, vec![1, 2, 3], now)],
        },
        Some(summary("all", ConsolidationLevel::Global, vec![1, 2, 3], now)),
        &embedder(),
    );
    let writes = store.apply(&plan);
    assert_eq!(writes.stats.duplicates_removed, 0, "no near-duplicates expected");
    assert!(writes.expired.is_empty());
    assert_eq!(writes.stats.clusters_created, 1);
    assert_eq!(writes.stats.global_summaries, 1);
    assert_eq!(store.summaries, vec!["a + b + c".to_string(), "all".to_string()]);
}

#[test]
fn dedup_only_consolidation_does_not_stamp_identity() {
    let facts = vec![fact(1, "alpha"), fact(2, "beta"), fact(3, "gamma")];
    let mut store = Store::with(&[1, 2, 3]);
    let snapshot = snapshot_of(facts, &store.watermark);
    let plan = compute_plan(
        &snapshot,
        dedup_of(&[(2, 1), (3, 1)]),
        nothing_clustered(),
        None,
        &embedder(),
    );
    let writes = store.apply(&plan);
    assert_eq!(writes.stats.clusters_created, 0);
    assert_eq!(writes.stats.global_summaries, 0);
    assert!(
        store.identity.is_none(),
        "a vector-less consolidation must not stamp the embedding identity"
    );
    let other = EmbeddingFingerprint::new("other-model", "other-provider", DIM);
    let recorded = store.identity.get_or_insert(other.clone());
    assert_eq!(
        *recorded, other,
        "the first real writer wins after a no-op consolidation"
    );
}

#[test]
fn summary_writing_consolidation_stamps_identity() {
    let facts = vec![fact(1, "a"), fact(2, "b"), fact(3, "c")];
    let mut store = Store::with(&[1, 2, 3]);
    let snapshot = snapshot_of(facts, &store.watermark);
    let now = snapshot.now;
    let plan = compute_plan(
        &snapshot,
        dedup_of(&[]),
        ClusterComputed {
            ran: true,
            summaries: vec![summary("a + b + c", ConsolidationLevel::Cluster, vec![1, 2, 3], now)],
        },
        Some(summary("all", ConsolidationLevel::Global, vec![1, 2, 3], now)),
        &embedder(),
    );
    let writes = store.apply(&plan);
    assert!(
        writes.stats.clusters_created > 0 || writes.stats.global_summaries > 0,
        "this fixture must write at least one summary vector"
    );
    assert_eq!(
        store.identity,
        Some(embedder()),
        "a summary-writing consolidation records the embedder's fingerprint"
    );
}

#[test]
fn watermark_written_after_success() {
    let facts = vec![fact(1, "alpha"), fact(2, "beta"), fact(3, "gamma")];
    let mut store = Store::with(&[1, 2, 3]);
    assert!(store.watermark.is_none());

    let before = chrono::Utc::now();
    let snapshot = snapshot_of(facts, &store.watermark);
    let plan = compute_plan(
        &snapshot,
        dedup_of(&[(2, 1), (3, 1)]),
        nothing_clustered(),
        None,
        &embedder(),
    );
    store.apply(&plan);
    let after = chrono::Utc::now();

    let raw = store
        .watermark
        .clone()
        .expect("watermark must be written after a successful run");
    let watermark = chrono::DateTime::parse_from_rfc3339(&raw)
        .unwrap()
        .with_timezone(&chrono::Utc);
    assert!(
        watermark >= before && watermark <= after,
        "watermark {watermark} not within [{before}, {after}]"
    );
    // What the run wrote, the next one reads.
    assert_eq!(read_watermark(&store.watermark), Ok(Some(plan.now)));
}

#[test]
fn invalid_watermark_in_config_errors() {
    let err = load_snapshot(Ok(()), &Some("not-a-timestamp".to_string()), 0)
        .expect_err("a malformed watermark must surface as an error");
    assert!(
        matches!(err, MemoryError::Migration(_)),
        "expected Migration error, got {err:?}"
    );
    match err {
        MemoryError::Migration(MigrationError::Incompatible(text)) => {
            assert!(text.starts_with("invalid last_consolidated_at: "), "{text}");
            assert!(text.len() > "invalid last_consolidated_at: ".len());
        }
        other => panic!("unexpected error {other:?}"),
    }
}

#[test]
fn empty_engine_consolidates_to_noop() {
    let mut store = Store::with(&[]);
    let snapshot = snapshot_of(Vec::new(), &store.watermark);
    assert!(!snapshot.over_both_caps);
    let plan = compute_plan(&snapshot, dedup_of(&[]), nothing_clustered(), None, &embedder());
    let writes = store.apply(&plan);
    assert_eq!(writes.stats.duplicates_removed, 0);
    assert_eq!(writes.stats.clusters_created, 0);
    assert_eq!(writes.stats.global_summaries, 0);
    assert!(writes.expired.is_empty());
    // An empty run is still a successful run: the watermark advances.
    assert!(store.watermark.is_some());
}

#[test]
fn watermark_not_advanced_when_dedup_skipped() {
    let facts = vec![fact(1, "alpha"), fact(2, "beta"), fact(3, "gamma")];
    let mut store = Store::with(&[1, 2, 3]);
    assert!(store.watermark.is_none(), "precondition: no watermark before the run");

    // A dedup cap of 1 for three facts: dedup is skipped, clustering is not.
    let snapshot =
        match load_snapshot_capped(Ok(()), &store.watermark, 3, 1, MAX_FACTS_FOR_CLUSTERING).unwrap() {
            SnapshotStep::LoadActive { last, now } => loaded_snapshot(facts, last, now),
            SnapshotStep::Skip(_) => panic!("the facts must be loaded"),
        };
    let now = snapshot.now;
    let plan = compute_plan(
        &snapshot,
        DedupComputed::skipped(),
        ClusterComputed {
            ran: true,
            summaries: vec![summary("all three", ConsolidationLevel::Cluster, vec![1, 2, 3], now)],
        },
        Some(summary("all", ConsolidationLevel::Global, vec![1, 2, 3], now)),
        &embedder(),
    );
    let writes = store.apply(&plan);
    assert_eq!(writes.stats.duplicates_removed, 0, "skipped dedup removes nothing");
    assert!(writes.expired.is_empty());
    assert_eq!(writes.stats.clusters_created, 1, "cluster pass still runs when dedup is skipped");
    assert_eq!(writes.stats.global_summaries, 1, "global pass still runs when dedup is skipped");
    assert_eq!(store.active.len(), 3, "no fact is expired when dedup is skipped");
    assert!(
        store.watermark.is_none(),
        "watermark must NOT advance when dedup is skipped (over cap)"
    );
}

#[test]
fn over_both_caps_skips_load_and_is_noop() {
    let mut store = Store::with(&[1, 2, 3]);
    let snapshot = match load_snapshot_capped(Ok(()), &store.watermark, 3, 1, 1).unwrap() {
        SnapshotStep::Skip(s) => s,
        SnapshotStep::LoadActive { .. } => panic!("over both caps must short-circuit the load"),
    };
    assert!(snapshot.over_both_caps, "over both caps must short-circuit the load");
    assert!(
        snapshot.active_facts.is_empty(),
        "the active set must not be materialized when over both caps"
    );

    // Whatever the passes would have said does not count.
    let plan = compute_plan(
        &snapshot,
        dedup_of(&[(2, 1), (3, 1)]),
        nothing_clustered(),
        None,
        &embedder(),
    );
    assert_eq!(Some(plan.clone()), plan_without_passes(&snapshot));
    let writes = store.apply(&plan);
    assert_eq!(writes.stats.duplicates_removed, 0);
    assert_eq!(writes.stats.clusters_created, 0);
    assert_eq!(writes.stats.global_summaries, 0);
    assert!(writes.expired.is_empty());
    assert_eq!(store.active.len(), 3, "no fact is expired when over both caps");
    assert!(store.watermark.is_none(), "watermark must NOT advance when over both caps");
}

#[test]
fn apply_plan_tolerates_concurrently_expired_loser() {
    let facts = vec![fact(1, "keep"), fact(2, "drop")];
    let mut store = Store::with(&[1, 2]);
    let snapshot = snapshot_of(facts, &store.watermark);
    let plan =
        compute_plan(&snapshot, dedup_of(&[(2, 1)]), nothing_clustered(), None, &embedder());
    assert_eq!(plan.dedup.expirations.len(), 1, "dedup must plan exactly one expiry");
    let loser = plan.dedup.expirations[0].loser;

    // Another writer expires the loser between snapshot and apply.
    store.active.remove(&loser);

    let writes = store.apply(&plan);
    assert_eq!(
        writes.stats.duplicates_removed, 0,
        "the loser was already expired concurrently; this run expired nothing"
    );
    assert!(writes.expired.is_empty());
    assert_eq!(store.active.len(), 1, "exactly the survivor remains");
    assert!(store.active.contains(&1));
}

#[test]
fn apply_plan_keeps_loser_when_survivor_concurrently_expired() {
    let facts = vec![fact(1, "keep"), fact(2, "drop")];
    let mut store = Store::with(&[1, 2]);
    let snapshot = snapshot_of(facts, &store.watermark);
    let plan =
        compute_plan(&snapshot, dedup_of(&[(2, 1)]), nothing_clustered(), None, &embedder());
    assert_eq!(plan.dedup.expirations.len(), 1);
    let survivor = plan.dedup.expirations[0].survivor;
    let loser = plan.dedup.expirations[0].loser;

    store.active.remove(&survivor);

    let writes = store.apply(&plan);
    assert_eq!(
        writes.stats.duplicates_removed, 0,
        "survivor gone → the merge is void, so the loser is NOT expired"
    );
    assert!(writes.expired.is_empty());
    assert_eq!(store.active.len(), 1, "the loser is kept (survivor was expired elsewhere)");
    assert!(store.active.contains(&loser));
    assert_eq!(loser, 2);
}

#[test]
fn apply_plan_skips_stale_summary_writes_when_survivor_lost() {
    let facts = vec![fact(1, "keep"), fact(2, "drop")];
    let mut store = Store::with(&[1, 2]);
    store.summaries.push("prior cluster".to_string());
    let snapshot = snapshot_of(facts, &store.watermark);
    let plan =
        compute_plan(&snapshot, dedup_of(&[(2, 1)]), nothing_clustered(), None, &embedder());
    let survivor = plan.dedup.expirations[0].survivor;

    store.active.remove(&survivor);

    let writes = store.apply(&plan);
    assert_eq!(
        writes.stats.clusters_created, 0,
        "no summaries are (re)written when a survivor was lost"
    );
    assert_eq!(store.summaries.len(), 1, "stale-plan summary writes must be skipped");
    assert_eq!(store.summaries[0], "prior cluster");
    // A survivor loss is no skip: the watermark advances.
    assert!(store.watermark.is_some());
}

#[test]
fn undisturbed_run_clears_old_summaries() {
    let mut store = Store::with(&[1, 2]);
    store.summaries.push("prior cluster".to_string());
    let snapshot = snapshot_of(vec![fact(1, "keep"), fact(2, "drop")], &store.watermark);
    let plan =
        compute_plan(&snapshot, dedup_of(&[(2, 1)]), nothing_clustered(), None, &embedder());
    let writes = store.apply(&plan);
    assert_eq!(writes.expired, vec![2]);
    assert!(store.summaries.is_empty());
    assert!(store.identity.is_none());
}

#[test]
fn global_summary_needs_clustering() {
    let snapshot = snapshot_of(vec![fact(1, "a")], &None);
    let now = snapshot.now;
    let plan = compute_plan(
        &snapshot,
        dedup_of(&[]),
        ClusterComputed { ran: false, summaries: Vec::new() },
        Some(summary("all", ConsolidationLevel::Global, vec![1], now)),
        &embedder(),
    );
    assert_eq!(plan.global_summary, None);
    assert_eq!(plan.embedding_fingerprint, None);
}

#[test]
fn a_loser_expires_once() {
    let active: HashSet<i64> = [1, 2, 3].iter().copied().collect();
    let applied = apply_dedup(&dedup_of(&[(3, 1), (3, 2), (9, 1)]), &active);
    assert_eq!(applied.expired, vec![3]);
    assert!(!applied.survivor_lost);
    let applied = apply_dedup(&dedup_of(&[(3, 7), (2, 1)]), &active);
    assert_eq!(applied.expired, vec![2]);
    assert!(applied.survivor_lost);
}

#[test]
fn caps_are_inclusive() {
    let now = at(1_700_000_000);
    assert!(matches!(
        snapshot_step(None, now, MAX_FACTS_FOR_DEDUP, MAX_FACTS_FOR_DEDUP, MAX_FACTS_FOR_CLUSTERING),
        SnapshotStep::LoadActive { last: None, now: n } if n == now
    ));
    assert!(matches!(snapshot_step(Some(at(5)), now, 50_001, 50_000, 50_000), SnapshotStep::Skip(_)));
    assert!(matches!(snapshot_step(None, now, 7, 3, 7), SnapshotStep::LoadActive { .. }));
    assert!(matches!(snapshot_step(None, now, 7, 7, 3), SnapshotStep::LoadActive { .. }));
}

#[test]
fn watermark_of_another_zone_is_read_in_utc() {
    assert_eq!(read_watermark(&None), Ok(None));
    assert_eq!(
        read_watermark(&Some("1970-01-01T01:00:01.5+01:00".to_string())),
        Ok(Some(Timestamp { secs: 1, nanos: 500_000_000 }))
    );
}

#[test]
fn watermark_text_is_rfc3339() {
    let plan = ConsolidationPlan {
        dedup: dedup_of(&[]),
        cluster_ran: false,
        cluster_summaries: Vec::new(),
        global_summary: None,
        embedding_fingerprint: None,
        now: Timestamp { secs: 1_700_000_000, nanos: 250_000_000 },
    };
    let writes = apply_plan(&plan, &HashSet::new());
    assert_eq!(writes.watermark.as_deref(), Some("2023-11-14T22:13:20.250+00:00"));
    assert_eq!(read_watermark(&writes.watermark), Ok(Some(plan.now)));
}

#[test]
fn watermark_of_a_leap_second_is_read_back() {
    let now = Timestamp { secs: 1_483_228_799, nanos: 1_500_000_000 };
    let plan = ConsolidationPlan {
        dedup: dedup_of(&[]),
        cluster_ran: false,
        cluster_summaries: Vec::new(),
        global_summary: None,
        embedding_fingerprint: None,
        now,
    };
    let writes = apply_plan(&plan, &HashSet::new());
    assert_eq!(read_watermark(&writes.watermark), Ok(Some(now)));
}

#[test]
fn watermarks_at_the_ends_of_the_four_digit_years_are_read_back() {
    for secs in [-62_167_219_200, 253_402_300_799] {
        let now = Timestamp { secs, nanos: 999_999_999 };
        let plan = ConsolidationPlan {
            dedup: dedup_of(&[]),
            cluster_ran: false,
            cluster_summaries: Vec::new(),
            global_summary: None,
            embedding_fingerprint: None,
            now,
        };
        let writes = apply_plan(&plan, &HashSet::new());
        assert_eq!(read_watermark(&writes.watermark), Ok(Some(now)));
    }
}

#[test]
fn a_run_starts_at_the_current_time() {
    let before = chrono::Utc::now().timestamp();
    let step = load_snapshot(Ok(()), &None, 0).unwrap();
    let after = chrono::Utc::now().timestamp();
    match step {
        SnapshotStep::LoadActive { now, .. } => {
            assert!(before <= now.secs && now.secs <= after);
        }
        SnapshotStep::Skip(_) => panic!("an empty store is not over the caps"),
    }
}

#[test]
fn summary_vector_must_have_the_dimension() {
    assert_eq!(
        summarize_and_embed("s".to_string(), vec![0; 4], 4),
        Ok(("s".to_string(), vec![0; 4]))
    );
    assert_eq!(
        summarize_and_embed("s".to_string(), vec![0; 3], 4),
        Err(MemoryError::EmbeddingDimension { expected: 4, actual: 3 })
    );
}

#[test]
fn consolidate_rejects_invalid_config_before_mutating() {
    let store = Store::with(&[1, 2]);
    // A threshold of 0.90 is fine, a cluster of no facts is not.
    let breach = ConflictError::PolicyParameter {
        rule: "min_cluster_size must be at least 1".to_string(),
        got: Binary64::from_bits(0.0f64.to_bits()),
    };
    let named = |err: &MemoryError| match err {
        MemoryError::Conflict(ConflictError::PolicyParameter { rule, .. }) => {
            rule.contains("min_cluster_size")
        }
        _ => false,
    };
    let engine = MemoryEngine::builder(DIM).build().unwrap();
    let err = engine.begin_consolidation(Err(breach.clone())).unwrap_err();
    assert!(named(&err), "error should name the offending parameter, got: {err:?}");
    // It comes before anything that is wrong with the store.
    let err = load_snapshot(Err(breach), &Some("not-a-timestamp".to_string()), 2).unwrap_err();
    assert!(named(&err), "error should name the offending parameter, got: {err:?}");
    assert_eq!(
        store.active.len(),
        2,
        "no fact should be expired when the config is rejected"
    );
    assert_eq!(engine.begin_consolidation(Ok(())), Ok(()));
}

#[test]
fn passes_run_in_order_and_clustering_sees_survivors() {
    let facts = vec![fact(1, "keep"), fact(2, "drop"), fact(3, "other")];
    let snapshot = snapshot_of(facts, &None);
    let now = snapshot.now;
    let run = PlanRun::start(snapshot);
    assert!(run.clone().finish(&embedder()).is_none());
    match run.next() {
        PlanStep::Dedup { active_facts, last } => {
            assert_eq!(active_facts.len(), 3);
            assert_eq!(last, None);
        }
        other => panic!("unexpected step {other:?}"),
    }
    let run = run.deduped(dedup_of(&[(2, 1)]));
    match run.next() {
        PlanStep::Cluster(seen) => {
            let ids: Vec<i64> = seen.iter().map(|f| f.id).collect();
            assert_eq!(ids, vec![1, 3]);
        }
        other => panic!("unexpected step {other:?}"),
    }
    let cluster = summary("pair", ConsolidationLevel::Cluster, vec![1, 3], now);
    let run = run.clustered(ClusterComputed { ran: true, summaries: vec![cluster.clone()] });
    match run.next() {
        PlanStep::Global(summaries) => assert_eq!(*summaries, vec![cluster.clone()]),
        other => panic!("unexpected step {other:?}"),
    }
    let run = run.globalized(None);
    assert!(matches!(run.next(), PlanStep::Finish));
    let plan = run.finish(&embedder()).unwrap();
    assert_eq!(plan.cluster_summaries, vec![cluster]);
    assert_eq!(plan.embedding_fingerprint, Some(embedder()));
    assert_eq!(plan.now, now);
}

#[test]
fn skipped_clustering_needs_no_global_pass() {
    let run = PlanRun::start(snapshot_of(vec![fact(1, "a")], &None))
        .deduped(dedup_of(&[]))
        .clustered(ClusterComputed { ran: false, summaries: Vec::new() });
    assert!(matches!(run.next(), PlanStep::Finish));
    assert!(run.finish(&embedder()).unwrap().global_summary.is_none());
}

#[test]
fn survivors_that_are_active_take_over_importances() {
    let value = |x: f64| Binary64::from_bits(x.to_bits());
    let mut dedup = dedup_of(&[(2, 1), (3, 2), (5, 4)]);
    dedup.importance_updates = vec![(4, value(0.75))];
    dedup.importance_score_updates = vec![(1, value(0.5)), (2, value(0.25)), (4, value(1.0))];
    let plan = ConsolidationPlan {
        dedup,
        cluster_ran: false,
        cluster_summaries: Vec::new(),
        global_summary: None,
        embedding_fingerprint: None,
        now: Timestamp { secs: 0, nanos: 0 },
    };
    // A survivor that expires in the same run was active before it.
    let all: HashSet<i64> = [1, 2, 3, 4, 5].into_iter().collect();
    let writes = apply_plan(&plan, &all);
    assert_eq!(writes.importances, plan.dedup.importance_updates);
    assert_eq!(writes.importance_scores, plan.dedup.importance_score_updates);
    assert_eq!(writes.expired, vec![2, 3, 5]);
    // One that is gone takes over nothing.
    let fewer: HashSet<i64> = [1, 2, 3, 5].into_iter().collect();
    let writes = apply_plan(&plan, &fewer);
    assert_eq!(writes.importances, vec![]);
    assert_eq!(writes.importance_scores, vec![(1, value(0.5)), (2, value(0.25))]);
    assert_eq!(writes.expired, vec![2, 3]);
}
