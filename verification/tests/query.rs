//! Queries, reranking and time.

use memory_engine::binary64::Binary64;
use memory_engine::engine::inspect::{HistoryEntry, LifecycleEvent};
use memory_engine::engine::query::{
    effective_limit, merge_archive_results, rank_results, ArchiveSearchResult, QueryExecution, QueryStep,
};
use memory_engine::engine::state::MemoryEngine;
use memory_engine::engine::temporal::{
    after_due_facts, apply_surfaced_stamps, fact_overlaps_period, fact_to_search_result,
    finish_listing, is_due, passes_temporal_cutoff, surface, unsurfaced_ids, DueStep,
};
use memory_engine::error::{MemoryError, RerankerError};
use memory_engine::time::Timestamp;
use memory_engine::types::facts::{Fact, FactType};
use memory_engine::types::scope::{ScopeNode, ScopeQuery};
use memory_engine::types::search::{
    MatchType, QueryDiagnostics, QueryResponse, SearchMode, SearchQuery, SearchResult,
};
use std::collections::HashMap;

fn num(x: f64) -> Binary64 {
    Binary64::from_bits(x.to_bits())
}

fn t(secs: i64) -> Timestamp {
    Timestamp { secs, nanos: 0 }
}

fn fact(id: i64, t_valid: Option<Timestamp>, t_invalid: Option<Timestamp>) -> Fact {
    Fact {
        id,
        content: String::new(),
        content_hash: String::new(),
        embedding: vec![],
        fact_type: FactType::Semantic,
        t_created: t(0),
        t_expired: None,
        t_valid,
        t_invalid,
        source_event_id: None,
        base_importance: num(0.5),
        access_count: 0,
        last_accessed: t(0),
        metadata: serde_json::Value::Null,
        scope_id: 1,
        is_pinned: false,
        importance_score: num(0.25),
        surfaced_at: None,
    }
}

fn hit(id: i64, score: f64) -> SearchResult {
    SearchResult { fact: fact(id, None, None), score: num(score), match_type: MatchType::Fts }
}

fn ids(results: &[SearchResult]) -> Vec<i64> {
    results.iter().map(|r| r.fact.id).collect()
}

#[test]
fn cutoff_includes_the_start_and_excludes_the_end() {
    let f = fact(1, Some(t(10)), Some(t(20)));
    assert!(!passes_temporal_cutoff(&f, t(9)));
    assert!(passes_temporal_cutoff(&f, t(10)));
    assert!(passes_temporal_cutoff(&f, Timestamp { secs: 19, nanos: 999_999_999 }));
    assert!(!passes_temporal_cutoff(&f, t(20)));
    assert!(passes_temporal_cutoff(&fact(1, None, None), t(-5)));
    assert!(passes_temporal_cutoff(&fact(1, Some(t(10)), None), t(1_000_000)));
}

#[test]
fn overlap_is_half_open() {
    let f = fact(1, Some(t(10)), Some(t(20)));
    assert!(fact_overlaps_period(&f, t(0), t(11)));
    assert!(!fact_overlaps_period(&f, t(0), t(10)));
    assert!(fact_overlaps_period(&f, t(19), t(30)));
    assert!(!fact_overlaps_period(&f, t(20), t(30)));
    assert!(fact_overlaps_period(&f, t(12), t(13)));
    assert!(fact_overlaps_period(&fact(1, None, None), t(0), t(1)));
}

#[test]
fn surfacing_is_stamped_once() {
    let mut facts = vec![fact(1, None, None), fact(2, None, None), fact(3, None, None)];
    facts[1].surfaced_at = Some(t(5));
    assert_eq!(unsurfaced_ids(&facts), vec![1, 3]);
    let stamps: HashMap<i64, Timestamp> = [(1, t(7)), (3, t(8))].into_iter().collect();
    apply_surfaced_stamps(&mut facts, &stamps);
    assert_eq!(facts[0].surfaced_at, Some(t(7)));
    assert_eq!(facts[1].surfaced_at, Some(t(5)));
    assert_eq!(facts[2].surfaced_at, Some(t(8)));
    assert!(unsurfaced_ids(&facts).is_empty());
}

#[test]
fn a_fact_is_a_result_by_importance() {
    let r = fact_to_search_result(fact(4, None, None));
    assert_eq!(r.fact.id, 4);
    assert_eq!(r.score, num(0.25));
    assert_eq!(r.match_type, MatchType::ImportanceRank);
}

#[test]
fn ranking_is_by_falling_score_and_stable() {
    let ranked = rank_results(vec![
        hit(1, 0.5),
        hit(2, 0.9),
        hit(3, 0.5),
        hit(4, -1.0),
        hit(5, 0.9),
        hit(6, 0.0),
        hit(7, -0.0),
    ]);
    assert_eq!(ids(&ranked), vec![2, 5, 1, 3, 6, 7, 4]);
    assert!(rank_results(Vec::new()).is_empty());
}

#[test]
fn archives_are_merged_ranked_and_cut() {
    let live = QueryResponse {
        results: vec![hit(1, 0.9), hit(2, 0.3)],
        diagnostics: QueryDiagnostics { results_returned: 2, ..QueryDiagnostics::default() },
    };
    let archived = ArchiveSearchResult {
        results: vec![hit(10, 0.5), hit(11, 0.1)],
        paks_scanned: 3,
        search_ms: 12,
    };
    let merged = merge_archive_results(live.clone(), Some(archived), 3);
    assert_eq!(ids(&merged.results), vec![1, 10, 2]);
    assert_eq!(merged.diagnostics.archive_paks_scanned, 3);
    assert_eq!(merged.diagnostics.archive_search_ms, 12);
    assert_eq!(merged.diagnostics.results_returned, 3);
    assert_eq!(merged.diagnostics.results_returned, merged.results.len());
    assert_eq!(merge_archive_results(live.clone(), None, 1), live);
}

#[test]
fn missing_scope_never_reaches_the_archives() {
    match MemoryEngine::execute_query(QueryExecution::ScopeMissing, true, true) {
        QueryStep::Done(response) => {
            assert!(response.results.is_empty());
            assert_eq!(response.diagnostics, QueryDiagnostics::default());
        }
        QueryStep::SearchArchives(_) => panic!("the archives know no scopes"),
    }
    let response =
        QueryResponse { results: vec![hit(1, 0.9)], diagnostics: QueryDiagnostics::default() };
    let run = |search: bool, archives: bool| {
        MemoryEngine::execute_query(QueryExecution::Executed(response.clone()), search, archives)
    };
    assert_eq!(run(true, true), QueryStep::SearchArchives(response.clone()));
    assert_eq!(run(true, false), QueryStep::Done(response.clone()));
    assert_eq!(run(false, true), QueryStep::Done(response.clone()));
}

#[test]
fn reranker_output_is_checked() {
    let check = |n: usize, out: &[(usize, f64)]| {
        let out: Vec<(usize, Binary64)> = out.iter().map(|&(i, s)| (i, num(s))).collect();
        MemoryEngine::validate_reranker_output(n, &out)
    };
    assert_eq!(check(3, &[(2, 0.9), (0, 0.1)]), Ok(()));
    assert_eq!(check(0, &[]), Ok(()));
    assert_eq!(
        check(1, &[(0, 0.1), (0, 0.1)]),
        Err(MemoryError::Reranker(RerankerError::OutputTooLong { output_len: 2, input_len: 1 }))
    );
    assert_eq!(
        check(2, &[(2, 0.1)]),
        Err(MemoryError::Reranker(RerankerError::OutOfBoundsIndex { index: 2, num_candidates: 2 }))
    );
    assert_eq!(
        check(3, &[(1, 0.1), (1, 0.2)]),
        Err(MemoryError::Reranker(RerankerError::DuplicateIndex { index: 1 }))
    );
    for bad in [f64::NAN, f64::INFINITY, f64::NEG_INFINITY] {
        assert_eq!(
            check(3, &[(1, 0.1), (2, bad)]),
            Err(MemoryError::Reranker(RerankerError::NonFiniteScore { score: num(bad), index: 2 }))
        );
    }
}

#[test]
fn query_builder_sets_one_field_each() {
    let q = SearchQuery::new(SearchMode::Hybrid, 10)
        .text("words".to_string())
        .embedding(vec![1, 2])
        .rerank_depth(5)
        .valid_at(t(3))
        .fact_type(FactType::Episodic)
        .scope(ScopeQuery::Exact("a".to_string()));
    assert_eq!(q.text.as_deref(), Some("words"));
    assert_eq!(q.embedding, Some(vec![1, 2]));
    assert_eq!(q.mode, SearchMode::Hybrid);
    assert_eq!(q.limit, 10);
    assert_eq!(q.rerank_depth, Some(5));
    assert_eq!(q.valid_at, Some(t(3)));
    assert_eq!(q.fact_type, Some(FactType::Episodic));
    assert_eq!(q.scope, Some(ScopeQuery::Exact("a".to_string())));
    let q = q.mode(SearchMode::Fts).limit(1);
    assert_eq!((q.mode, q.limit), (SearchMode::Fts, 1));
}

#[test]
fn explanation_names_an_unknown_scope_by_its_id() {
    let mut f = fact(4, None, None);
    f.scope_id = -12;
    let mut engine = MemoryEngine::builder(4).build().unwrap();
    let explained = engine.explain_fact(4, &f, "active", Some("event"), ());
    assert_eq!(explained.scope_path, "scope:-12");
    // Without an event id there is no event.
    assert_eq!(explained.provenance.source_event, None);
    f.source_event_id = Some(8);
    f.scope_id = 3;
    engine.scope_tree.insert_all(vec![
        ScopeNode { id: 2, parent_id: Some(1), label: "project".to_string(), depth: 1 },
        ScopeNode { id: 3, parent_id: Some(2), label: "demo".to_string(), depth: 2 },
    ]);
    let explained = engine.explain_fact(4, &f, "active", Some("event"), ());
    assert_eq!(explained.scope_path, "project/demo");
    assert_eq!(explained.provenance.source_event, Some("event"));
    assert_eq!(explained.provenance.source_event_id, Some(8));
    assert_eq!(explained.fact_id, 4);
    assert_eq!(explained.state, "active");
}

#[test]
fn instants_are_ordered_by_seconds_then_nanoseconds() {
    let a = Timestamp { secs: 1, nanos: 999 };
    let b = Timestamp { secs: 2, nanos: 0 };
    assert!(a.is_before(b) && !b.is_before(a) && !a.is_before(a));
    assert!(a.is_at_or_before(a) && a.is_at_or_before(b));
    assert_eq!(b.days_earlier(1), Timestamp { secs: 2 - 86_400, nanos: 0 });
}

#[test]
fn a_query_without_a_limit_has_fifty_results() {
    assert_eq!(effective_limit(None), 50);
    assert_eq!(effective_limit(Some(3)), 3);
    assert_eq!(effective_limit(Some(60)), 60);
}

/// Lists the due facts of a store, which it stamps.
fn list_due(store: &mut Vec<Fact>, now: Timestamp, scopes: &Vec<i64>) -> Vec<Fact> {
    let found: Vec<Fact> = store.iter().filter(|f| is_due(f, now, scopes)).cloned().collect();
    match after_due_facts(found) {
        DueStep::Done(facts) => facts,
        DueStep::Stamp { facts, ids } => {
            let stamps: HashMap<i64, Timestamp> = store
                .iter_mut()
                .filter(|f| ids.contains(&f.id))
                .map(|f| (f.id, surface(f, now)))
                .collect();
            finish_listing(facts, &stamps)
        }
    }
}

#[test]
fn later_listing_keeps_the_first_stamps() {
    let mut store =
        vec![fact(1, Some(t(5)), None), fact(2, Some(t(50)), None), fact(3, None, None)];
    let first = list_due(&mut store, t(10), &vec![1]);
    assert_eq!(first.len(), 1);
    assert_eq!(first[0].surfaced_at, Some(t(10)));
    let second = list_due(&mut store, t(60), &vec![1]);
    assert_eq!(second.len(), 2);
    assert_eq!(second[0], first[0]);
    assert_eq!(second[1].surfaced_at, Some(t(60)));
}

#[test]
fn due_facts_are_active_started_and_in_scope() {
    let now = t(10);
    assert!(is_due(&fact(1, Some(t(10)), None), now, &vec![7, 1]));
    assert!(!is_due(&fact(1, Some(t(11)), None), now, &vec![1]));
    assert!(!is_due(&fact(1, None, None), now, &vec![1]));
    assert!(!is_due(&fact(1, Some(t(1)), None), now, &vec![2]));
    let mut expired = fact(1, Some(t(1)), None);
    expired.t_expired = Some(t(2));
    assert!(!is_due(&expired, now, &vec![1]));
}

#[test]
fn history_is_in_order_of_time() {
    let mut f = fact(9, Some(t(30)), Some(t(20)));
    f.t_created = t(20);
    let history = MemoryEngine::fact_history(9, &f);
    let entry = |secs, event| HistoryEntry { at: t(secs), event };
    assert_eq!(history.fact_id, 9);
    assert_eq!(
        history.timeline,
        vec![
            entry(20, LifecycleEvent::Created),
            entry(20, LifecycleEvent::BecameInvalid),
            entry(30, LifecycleEvent::BecameValid),
        ]
    );
    f.t_expired = Some(t(1));
    let history = MemoryEngine::fact_history(9, &f);
    assert_eq!(history.timeline[0], entry(1, LifecycleEvent::Expired));
    assert_eq!(history.timeline.len(), 4);
}

#[test]
fn listing_again_keeps_the_first_stamps() {
    let mut store = vec![
        fact(1, Some(t(10)), None),
        fact(2, Some(t(90)), None),
        fact(3, None, None),
        fact(4, Some(t(20)), None),
    ];
    let first = list_due(&mut store, t(50), &vec![1]);
    assert_eq!(first.iter().map(|f| f.id).collect::<Vec<_>>(), vec![1, 4]);
    assert!(first.iter().all(|f| f.surfaced_at == Some(t(50))));
    assert!(first.iter().all(|f| store.contains(f)));
    assert_eq!(list_due(&mut store, t(60), &vec![1]), first);
    let later = list_due(&mut store, t(100), &vec![1]);
    assert_eq!(later.iter().map(|f| f.id).collect::<Vec<_>>(), vec![1, 2, 4]);
    assert!(first.iter().all(|f| later.contains(f)));
    assert_eq!(later[1].surfaced_at, Some(t(100)));
}
