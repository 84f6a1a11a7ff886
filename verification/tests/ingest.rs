//! Adding facts, one by one and in batches.

use memory_engine::binary64::Binary64;
use memory_engine::engine::batch::{
    batch_texts, check_embedding_count, check_id_count, compute_batch_pins, insert_validated_batch,
    rethread_results, stitch_pins,
};
use memory_engine::engine::ingest::{classifier_input, pin_step, PinStep};
use memory_engine::engine::insertion::InsertAction;
use memory_engine::engine::state::MemoryEngine;
use memory_engine::error::{ConflictError, MemoryError};
use memory_engine::limits::MAX_PAYLOAD_BYTES;
use memory_engine::test_util::new_event;
use memory_engine::time::Timestamp;
use memory_engine::types::facts::{AddFactOptions, AddFactRequest, FactType};

const DIM: usize = 4;

fn num(x: f64) -> Binary64 {
    Binary64::from_bits(x.to_bits())
}

fn engine() -> MemoryEngine {
    MemoryEngine::builder(DIM).build().unwrap()
}

fn request(content: &str) -> AddFactRequest {
    AddFactRequest {
        content: content.to_string(),
        fact_type: FactType::Semantic,
        source_event_id: None,
        scope: None,
        opts: None,
    }
}

fn with_importance(content: &str, importance: f64) -> AddFactRequest {
    AddFactRequest {
        opts: Some(AddFactOptions {
            base_importance: Some(num(importance)),
            ..AddFactOptions::default()
        }),
        ..request(content)
    }
}

fn with_pin(content: &str, pinned: Option<bool>) -> AddFactRequest {
    AddFactRequest {
        opts: Some(AddFactOptions { pinned, ..AddFactOptions::default() }),
        ..request(content)
    }
}

fn is_bad_importance(err: &MemoryError, got: f64) -> bool {
    match err {
        MemoryError::Conflict(ConflictError::PolicyParameter { rule, got: g }) => {
            rule == "importance must be in [0, 1]" && *g == num(got)
        }
        _ => false,
    }
}

#[test]
fn oversized_event_payload_is_refused() {
    let mut event = new_event("test", None);
    assert_eq!(engine().check_event(&event), Ok(()));
    event.payload = serde_json::Value::String("x".repeat(MAX_PAYLOAD_BYTES + 10));
    assert!(matches!(
        engine().check_event(&event),
        Err(MemoryError::Conflict(ConflictError::PayloadTooLarge { kind: "event payload", .. }))
    ));
}

#[test]
fn importance_must_be_in_the_unit_interval() {
    for good in [0.0, 0.5, 1.0, -0.0] {
        assert!(engine().check_add_fact(&with_importance("a", good)).is_ok());
    }
    for bad in [-0.1, 1.1, f64::NAN, f64::INFINITY] {
        let err = engine().check_add_fact(&with_importance("a", bad)).unwrap_err();
        assert!(is_bad_importance(&err, bad), "{err:?}");
    }
}

#[test]
fn refusals_come_in_order() {
    let huge = "x".repeat(MAX_PAYLOAD_BYTES + 1);
    let mut req = with_importance(&huge, 2.0);
    if let Some(o) = &mut req.opts {
        o.metadata = Some(serde_json::Value::String(huge.clone()));
    }
    assert!(is_bad_importance(&engine().check_add_fact(&req).unwrap_err(), 2.0));
    if let Some(o) = &mut req.opts {
        o.base_importance = None;
    }
    assert!(matches!(
        engine().check_add_fact(&req),
        Err(MemoryError::Conflict(ConflictError::PayloadTooLarge { kind: "fact content", .. }))
    ));
    req.content = "short".to_string();
    assert!(matches!(
        engine().check_add_fact(&req),
        Err(MemoryError::Conflict(ConflictError::PayloadTooLarge { kind: "fact metadata", .. }))
    ));
    if let Some(o) = &mut req.opts {
        o.metadata = None;
    }
    assert_eq!(engine().check_add_fact(&req), Ok(()));
}

#[test]
fn insertion_asks_for_vector_pin_and_scope() {
    let mut req = request("the text");
    req.scope = Some("project/demo".to_string());
    req.source_event_id = Some(17);
    let ins = engine().add_fact(req, true).unwrap();
    assert_eq!(ins.next(), InsertAction::Embed("the text".to_string()));

    let before = chrono::Utc::now().timestamp();
    let ins = ins.embedded(vec![1, 2, 3, 4]);
    match ins.next() {
        InsertAction::Classify(input) => {
            assert_eq!(input.content, "the text");
            assert_eq!(input.fact_type, FactType::Semantic);
            assert_eq!(input.base_importance, num(0.5));
            assert_eq!(serde_json::to_string(&input.metadata).unwrap(), "{}");
        }
        other => panic!("unexpected action {other:?}"),
    }

    let ins = ins.classified(true);
    assert_eq!(ins.next(), InsertAction::EnsureScope("project/demo".to_string()));

    match ins.scope_ensured(9).next() {
        InsertAction::Insert(fact) => {
            assert_eq!(fact.content, "the text");
            assert_eq!(fact.content_hash, "");
            assert_eq!(fact.embedding, vec![1, 2, 3, 4]);
            assert_eq!(fact.scope_id, 9);
            assert_eq!(fact.source_event_id, Some(17));
            assert_eq!(fact.base_importance, num(0.5));
            assert!(fact.is_pinned);
            assert!(fact.t_created.secs >= before);
            assert_eq!(fact.t_created, fact.last_accessed);
            assert_eq!(fact.t_expired, None);
        }
        other => panic!("unexpected action {other:?}"),
    }
}

#[test]
fn insertion_without_questions_goes_to_the_root() {
    let ins = engine().add_fact_precomputed(request("a"), vec![0; DIM], false).unwrap();
    match ins.next() {
        InsertAction::Insert(fact) => {
            assert_eq!(fact.scope_id, 1);
            assert!(!fact.is_pinned);
        }
        other => panic!("unexpected action {other:?}"),
    }
}

#[test]
fn caller_overrules_the_classifier() {
    let ins = engine()
        .add_fact_precomputed(with_pin("a", Some(false)), vec![0; DIM], true)
        .unwrap()
        .classified(true);
    match ins.next() {
        InsertAction::Insert(fact) => assert!(!fact.is_pinned),
        other => panic!("unexpected action {other:?}"),
    }
}

#[test]
fn options_go_into_the_fact() {
    let t = |secs: i64| Timestamp { secs, nanos: 0 };
    let mut map = serde_json::Map::new();
    map.insert("k".to_string(), serde_json::Value::Bool(true));
    let metadata = serde_json::Value::Object(map);
    let req = AddFactRequest {
        opts: Some(AddFactOptions {
            base_importance: Some(num(0.25)),
            t_created: Some(t(1)),
            last_accessed: Some(t(2)),
            t_valid: Some(t(3)),
            t_invalid: Some(t(4)),
            metadata: Some(metadata.clone()),
            pinned: Some(true),
        }),
        ..request("a")
    };
    match engine().add_fact_precomputed(req, vec![0; DIM], true).unwrap().next() {
        InsertAction::Insert(fact) => {
            assert_eq!(fact.base_importance, num(0.25));
            assert_eq!(fact.t_created, t(1));
            assert_eq!(fact.last_accessed, t(2));
            assert_eq!(fact.t_valid, Some(t(3)));
            assert_eq!(fact.t_invalid, Some(t(4)));
            assert_eq!(fact.metadata, metadata);
            assert!(fact.is_pinned);
        }
        other => panic!("unexpected action {other:?}"),
    }
}

#[test]
fn fenced_engine_adds_nothing() {
    let mut engine = engine();
    engine.fence_after_promotion(8);
    let fenced = MemoryError::EmbeddingReopenRequired { new_dim: 8 };
    assert_eq!(engine.add_fact(request("a"), false).unwrap_err(), fenced);
    assert_eq!(engine.add_fact_precomputed(request("a"), vec![], false).unwrap_err(), fenced);
    assert_eq!(engine.add_facts_batch(&[request("a")]).unwrap_err(), fenced);
    assert_eq!(engine.add_facts_batch_partial(&[request("a")]).unwrap_err(), fenced);
}

#[test]
fn pin_is_the_callers_then_the_classifiers() {
    assert_eq!(pin_step(&with_pin("a", Some(true)), true), PinStep::Known(true));
    assert_eq!(pin_step(&with_pin("a", Some(false)), true), PinStep::Known(false));
    assert_eq!(pin_step(&with_pin("a", None), false), PinStep::Known(false));
    let req = request("a");
    assert_eq!(pin_step(&req, true), PinStep::Ask(classifier_input(&req)));
}

#[test]
fn whole_batch_is_refused_for_one_request() {
    let engine = engine();
    let good = [request("a"), request("b")];
    assert_eq!(engine.add_facts_batch(&good).unwrap(), vec![&good[0], &good[1]]);
    assert!(engine.add_facts_batch(&[]).unwrap().is_empty());

    let batch = [request("a"), with_importance("b", 2.0), with_importance("c", 3.0)];
    assert!(is_bad_importance(&engine.add_facts_batch(&batch).unwrap_err(), 2.0));
}

#[test]
fn partial_batch_keeps_the_good_ones() {
    let batch = [
        request("a"),
        with_importance("b", 2.0),
        request("c"),
        with_importance("d", f64::NAN),
        request("e"),
    ];
    let engine = engine();
    let part = engine.add_facts_batch_partial(&batch).unwrap();
    assert_eq!(batch_texts(&part.valid), vec!["a", "c", "e"]);

    let results = rethread_results(part.validation, vec![10, 11, 12]).unwrap();
    assert_eq!(results.len(), 5);
    assert_eq!(results[0], Ok(10));
    assert!(is_bad_importance(results[1].as_ref().unwrap_err(), 2.0));
    assert_eq!(results[2], Ok(11));
    assert!(is_bad_importance(results[3].as_ref().unwrap_err(), f64::NAN));
    assert_eq!(results[4], Ok(12));
}

#[test]
fn partial_batch_needs_one_id_for_each_good_one() {
    let batch = [request("a"), with_importance("b", 2.0), request("c")];
    let engine = engine();
    let part = engine.add_facts_batch_partial(&batch).unwrap();
    assert_eq!(
        rethread_results(part.validation, vec![10]),
        Err(MemoryError::Internal("batch insert returned 1 ids for 2 valid entries".to_string()))
    );
}

#[test]
fn batch_with_nothing_good_has_only_reasons() {
    let batch = [with_importance("b", 2.0)];
    let engine = engine();
    let part = engine.add_facts_batch_partial(&batch).unwrap();
    assert!(part.valid.is_empty());
    let results = rethread_results(part.validation, Vec::new()).unwrap();
    assert!(is_bad_importance(results[0].as_ref().unwrap_err(), 2.0));
}

#[test]
fn classifier_is_asked_only_where_it_decides() {
    let entries = [
        with_pin("a", Some(true)),
        request("b"),
        with_pin("c", Some(false)),
        request("d"),
    ];
    let refs: Vec<&AddFactRequest> = entries.iter().collect();
    let pins = compute_batch_pins(&refs, true);
    assert_eq!(pins.slots, vec![Some(true), None, Some(false), None]);
    let asked: Vec<&str> = pins.pending.iter().map(|i| i.content.as_str()).collect();
    assert_eq!(asked, vec!["b", "d"]);
    assert_eq!(stitch_pins(&pins.slots, &vec![false, true]), vec![true, false, false, true]);
    // Answers that are missing are no pins.
    assert_eq!(stitch_pins(&pins.slots, &vec![true]), vec![true, true, false, false]);

    let pins = compute_batch_pins(&refs, false);
    assert_eq!(pins.slots, vec![Some(true), Some(false), Some(false), Some(false)]);
    assert!(pins.pending.is_empty());
}

#[test]
fn batch_becomes_facts_in_order() {
    let mut second = request("b");
    second.scope = Some("x".to_string());
    let entries = [request("a"), second];
    let refs: Vec<&AddFactRequest> = entries.iter().collect();
    let pins = compute_batch_pins(&refs, true);
    let batch =
        insert_validated_batch(&refs, vec![vec![1; DIM], vec![2; DIM]], &pins, &vec![false, true])
            .unwrap();
    assert_eq!(batch.facts.len(), 2);
    assert_eq!(batch.facts[0].content, "a");
    assert_eq!(batch.facts[0].embedding, vec![1; DIM]);
    assert!(!batch.facts[0].is_pinned);
    assert_eq!(batch.facts[1].content, "b");
    assert_eq!(batch.facts[1].embedding, vec![2; DIM]);
    assert!(batch.facts[1].is_pinned);
    assert_eq!(batch.facts[1].scope_id, 1);
    assert_eq!(batch.facts[0].t_created, batch.facts[1].t_created);
    assert_eq!(batch.scope_paths, vec![None, Some("x".to_string())]);

    assert_eq!(
        insert_validated_batch(&refs, vec![vec![1; DIM]], &pins, &vec![]).unwrap_err(),
        MemoryError::Internal("embed_batch returned 1 embeddings for 2 entries".to_string())
    );
}

#[test]
fn counts_are_checked() {
    assert_eq!(check_embedding_count(3, 3), Ok(()));
    assert!(check_embedding_count(3, 4).is_err());
    assert_eq!(check_id_count(vec![1, 2], 2), Ok(vec![1, 2]));
    assert_eq!(
        check_id_count(vec![1, 2], 120),
        Err(MemoryError::Internal("batch insert returned 2 ids for 120 facts".to_string()))
    );
}

#[test]
fn read_only_engine_adds_no_batch() {
    let mut engine = engine();
    engine.read_only = true;
    assert_eq!(engine.add_facts_batch(&[request("a")]).unwrap_err(), MemoryError::ReadOnly);
    assert_eq!(engine.add_facts_batch(&[]).unwrap_err(), MemoryError::ReadOnly);
    // That it must be reopened comes first.
    engine.fence_after_promotion(8);
    assert_eq!(
        engine.add_facts_batch(&[]).unwrap_err(),
        MemoryError::EmbeddingReopenRequired { new_dim: 8 }
    );
}
