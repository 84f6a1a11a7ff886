//! Importing sessions and memory files.

use memory_engine::binary64::Binary64;
use memory_engine::bootstrap::outcome::SessionOutcome;
use memory_engine::bootstrap::report::{BootstrapReport, OutcomeTallies};
use memory_engine::bootstrap::session::{
    absorb_file, absorb_memory_file, account_memory_file, after_marker_count, begin_session, can_finish_session,
    complete_session, finish_session, memory_file_reinforced, skipped_session, split_prepared,
    tally_ingest, BootstrapIngestOutcome, FactMeta, FileOutcome, SessionStep,
};
use memory_engine::engine::state::MemoryEngine;
use memory_engine::error::MemoryError;
use memory_engine::test_util::{new_event, new_fact_with_type};
use memory_engine::types::events::{EventFilter, EventType, NewEvent};
use memory_engine::types::facts::FactType;

fn num(x: f64) -> Binary64 {
    Binary64::from_bits(x.to_bits())
}

fn meta(fact_type: FactType, importance: f64, redactions: usize) -> FactMeta {
    FactMeta { fact_type, base_importance: num(importance), redactions }
}

fn metas() -> Vec<FactMeta> {
    vec![
        meta(FactType::Episodic, 0.1, 1),
        meta(FactType::Semantic, 0.2, 2),
        meta(FactType::Semantic, 0.3, 4),
        meta(FactType::Procedural, 0.4, 8),
    ]
}

#[test]
fn session_without_an_id_has_nothing_to_import() {
    match begin_session("", 7, 2, true) {
        SessionStep::Done(report) => {
            assert_eq!(
                report,
                BootstrapReport {
                    entries_parsed: 7,
                    entries_malformed: 2,
                    ..BootstrapReport::default()
                }
            );
        }
        other => panic!("unexpected step {other:?}"),
    }
}

#[test]
fn imported_session_is_skipped() {
    match begin_session("s1", 7, 2, true) {
        SessionStep::CountMarkers(filter) => {
            assert_eq!(filter, MemoryEngine::bootstrap_marker_filter("s1"));
            assert_eq!(filter.session_id.as_deref(), Some("s1"));
            assert_eq!(filter.source.as_deref(), Some("bootstrap"));
        }
        other => panic!("unexpected step {other:?}"),
    }
    assert_eq!(after_marker_count(1, 7, 2), SessionStep::Done(skipped_session(7, 2)));
    assert_eq!(after_marker_count(0, 7, 2), SessionStep::Prepare);
    assert_eq!(begin_session("s1", 7, 2, false), SessionStep::Prepare);
    let skipped = skipped_session(7, 2);
    assert_eq!(
        (skipped.entries_parsed, skipped.entries_malformed, skipped.sessions_skipped),
        (7, 2, 1)
    );
    assert_eq!(skipped.sessions_processed, 0);
}

#[test]
fn prepared_facts_are_parted_from_their_accounts() {
    let facts = vec![
        (new_fact_with_type("a", vec![], FactType::Episodic), 3),
        (new_fact_with_type("b", vec![], FactType::Procedural), 0),
    ];
    let (metas, facts) = split_prepared(facts);
    assert_eq!(metas, vec![meta(FactType::Episodic, 0.5, 3), meta(FactType::Procedural, 0.5, 0)]);
    assert_eq!(facts[0].content, "a");
    assert_eq!(facts[1].content, "b");
}

#[test]
fn created_facts_count_and_reinforced_ones_do_not() {
    let flags = vec![(1, false), (2, true), (3, false), (4, false)];
    let report = tally_ingest(&metas(), &flags).unwrap().unwrap();
    assert_eq!(report.facts_created, 3);
    assert_eq!(report.facts_reinforced, 1);
    assert_eq!(report.secrets_redacted, 13);
    assert_eq!(report.prewarm_metrics.episodic_count, 1);
    assert_eq!(report.prewarm_metrics.semantic_count, 1);
    assert_eq!(report.prewarm_metrics.procedural_count, 1);
    assert_eq!(report.prewarm_metrics.total_count(), 3);
    assert_eq!(report.prewarm_metrics.importances, vec![num(0.1), num(0.3), num(0.4)]);
}

#[test]
fn repeated_import_only_reinforces() {
    let flags = vec![(1, true), (2, true), (3, true), (4, true)];
    let report = tally_ingest(&metas(), &flags).unwrap().unwrap();
    assert_eq!(report, BootstrapReport { facts_reinforced: 4, ..BootstrapReport::default() });
}

#[test]
fn store_must_answer_for_each_fact() {
    assert_eq!(
        tally_ingest(&metas(), &vec![(1, true)]),
        Err(MemoryError::Internal(
            "bootstrap ingest returned 1 flags for 4 facts (port contract violation)".to_string()
        ))
    );
}

#[test]
fn counters_that_overflow_give_no_sum() {
    let many = vec![meta(FactType::Semantic, 0.2, usize::MAX), meta(FactType::Semantic, 0.2, 1)];
    assert_eq!(tally_ingest(&many, &vec![(1, false), (2, false)]), Ok(None));
    assert!(tally_ingest(&many, &vec![(1, false), (2, true)]).unwrap().is_some());
}

#[test]
fn session_report_adds_everything_up() {
    let prepared = BootstrapReport { turns: 5, candidates: 2, secrets_redacted: 1, ..BootstrapReport::default() };
    let flags = vec![(1, false), (2, true), (3, false), (4, false)];
    let report = complete_session(
        7,
        2,
        &prepared,
        &metas(),
        &BootstrapIngestOutcome::Ingested(flags.clone()),
    )
    .unwrap()
    .unwrap();
    assert_eq!(report.entries_parsed, 7);
    assert_eq!(report.entries_malformed, 2);
    assert_eq!(report.sessions_processed, 1);
    assert_eq!(report.sessions_skipped, 0);
    assert_eq!(report.turns, 5);
    assert_eq!(report.candidates, 2);
    assert_eq!(report.secrets_redacted, 14);
    assert_eq!(report.facts_created, 3);

    let tally = tally_ingest(&metas(), &flags).unwrap().unwrap();
    assert!(can_finish_session(7, 2, &prepared, &tally));
    assert_eq!(finish_session(7, 2, &prepared, &tally), report);
}

#[test]
fn lost_race_looks_like_an_early_skip() {
    let prepared = BootstrapReport { turns: 5, ..BootstrapReport::default() };
    assert_eq!(
        complete_session(7, 2, &prepared, &metas(), &BootstrapIngestOutcome::Skipped),
        Ok(Some(skipped_session(7, 2)))
    );
}

#[test]
fn session_that_does_not_fit_gives_no_report() {
    let prepared = BootstrapReport { entries_parsed: usize::MAX, ..BootstrapReport::default() };
    assert_eq!(
        complete_session(1, 0, &prepared, &vec![], &BootstrapIngestOutcome::Ingested(vec![])),
        Ok(None)
    );
    assert!(complete_session(0, 0, &prepared, &vec![], &BootstrapIngestOutcome::Ingested(vec![]))
        .unwrap()
        .is_some());
}

#[test]
fn directory_report_is_the_sum_of_its_files() {
    let mut total = BootstrapReport::default();
    let one = tally_ingest(&metas(), &vec![(1, false), (2, false), (3, false), (4, false)])
        .unwrap()
        .unwrap();
    absorb_file(&mut total, &FileOutcome::Reported(one.clone()));
    absorb_file(&mut total, &FileOutcome::Unreadable);
    absorb_file(&mut total, &FileOutcome::Failed);
    absorb_file(&mut total, &FileOutcome::Reported(skipped_session(3, 1)));
    assert_eq!(total.facts_created, 4);
    assert_eq!(total.sessions_skipped, 1);
    assert_eq!(total.entries_parsed, 3);
    assert_eq!(total.prewarm_metrics.importances, one.prewarm_metrics.importances);
}

#[test]
fn merging_does_not_depend_on_grouping() {
    let a = tally_ingest(&metas(), &vec![(1, false), (2, true), (3, false), (4, false)])
        .unwrap()
        .unwrap();
    let b = skipped_session(3, 1);
    let c = tally_ingest(&metas(), &vec![(1, true), (2, false), (3, true), (4, false)])
        .unwrap()
        .unwrap();
    let mut left = a.clone();
    assert!(left.can_merge(&b));
    left.merge(&b);
    left.merge(&c);
    let mut right = b.clone();
    right.merge(&c);
    let mut whole = a.clone();
    whole.merge(&right);
    assert_eq!(left, whole);
    let full = BootstrapReport { events: usize::MAX, ..BootstrapReport::default() };
    assert!(!full.can_merge(&BootstrapReport { events: 1, ..BootstrapReport::default() }));
}

#[test]
fn memory_files_are_counted() {
    let mut report = BootstrapReport::default();
    account_memory_file(&mut report, true);
    account_memory_file(&mut report, false);
    account_memory_file(&mut report, true);
    assert_eq!((report.memory_files_parsed, report.memory_files_skipped), (2, 1));
}

#[test]
fn memory_file_gets_exactly_one_flag() {
    let ingested = |flags: Vec<(i64, bool)>| BootstrapIngestOutcome::Ingested(flags);
    assert_eq!(memory_file_reinforced(&ingested(vec![(1, true)])), Ok(true));
    assert_eq!(memory_file_reinforced(&ingested(vec![(1, false)])), Ok(false));
    assert_eq!(
        memory_file_reinforced(&ingested(vec![])),
        Err(MemoryError::Internal(
            "memory-dir bootstrap ingest returned 0 flags for 1 fact (port contract violation)"
                .to_string()
        ))
    );
    assert_eq!(
        memory_file_reinforced(&BootstrapIngestOutcome::Skipped),
        Err(MemoryError::Internal(
            "memory-dir bootstrap passed no skip filter but storage returned Skipped (port contract violation)"
                .to_string()
        ))
    );
}

#[test]
fn memory_file_is_entered_as_created_or_reinforced() {
    let mut report = BootstrapReport::default();
    let m = meta(FactType::Procedural, 0.7, 2);
    let answer = |reinforced| BootstrapIngestOutcome::Ingested(vec![(5, reinforced)]);
    assert_eq!(absorb_memory_file(&mut report, m, &answer(false)), Ok(true));
    assert_eq!(absorb_memory_file(&mut report, m, &answer(true)), Ok(true));
    assert_eq!((report.facts_created, report.facts_reinforced), (1, 1));
    assert_eq!(report.secrets_redacted, 2);
    assert_eq!(report.prewarm_metrics.procedural_count, 1);
    assert_eq!(report.prewarm_metrics.importances, vec![num(0.7)]);

    let before = report.clone();
    assert!(absorb_memory_file(&mut report, m, &BootstrapIngestOutcome::Skipped).is_err());
    let heavy = meta(FactType::Episodic, 0.7, usize::MAX);
    assert_eq!(absorb_memory_file(&mut report, heavy, &answer(false)), Ok(false));
    assert_eq!(report, before);
}

#[test]
fn outcomes_are_tallied_and_merged() {
    let mut a = BootstrapReport::default();
    assert!(a.outcomes.record(SessionOutcome::Success));
    assert!(a.outcomes.record(SessionOutcome::Failure));
    let mut b = BootstrapReport::default();
    assert!(b.outcomes.record(SessionOutcome::Success));
    assert!(b.outcomes.record(SessionOutcome::Indeterminate));
    a.merge(&b);
    assert_eq!(a.outcomes, OutcomeTallies { success: 2, failure: 1, indeterminate: 1 });
    a.outcomes.failure = usize::MAX;
    assert!(!a.outcomes.record(SessionOutcome::Failure));
    assert_eq!(a.outcomes.failure, usize::MAX);
}

fn marker(session_id: &str) -> NewEvent {
    new_event("bootstrap", Some(session_id))
}

/// Imports a session of seven entries into a log; `late` comes into the log after
/// the marker events were counted.
fn import(log: &mut Vec<NewEvent>, id: &str, skip: bool, late: Option<NewEvent>) -> BootstrapReport {
    let count = |f: &EventFilter, log: &Vec<NewEvent>| log.iter().filter(|e| f.admits(e)).count();
    let step = match begin_session(id, 7, 2, skip) {
        SessionStep::CountMarkers(filter) => after_marker_count(count(&filter, log), 7, 2),
        step => step,
    };
    log.extend(late);
    if let SessionStep::Done(report) = step {
        return report;
    }
    let outcome = if skip && count(&MemoryEngine::bootstrap_marker_filter(id), log) > 0 {
        BootstrapIngestOutcome::Skipped
    } else {
        log.push(marker(id));
        BootstrapIngestOutcome::Ingested(vec![(1, false), (2, false), (3, false), (4, false)])
    };
    complete_session(7, 2, &BootstrapReport::default(), &metas(), &outcome).unwrap().unwrap()
}

#[test]
fn repeated_import_stores_nothing() {
    let mut log = vec![new_event("chat", Some("s1"))];
    let first = import(&mut log, "s1", true, None);
    assert_eq!((first.sessions_processed, first.facts_created), (1, 4));
    assert_eq!(log.len(), 2);
    assert_eq!(import(&mut log, "s1", true, None), skipped_session(7, 2));
    assert_eq!(log.len(), 2);
    // Another session is imported, and this one again where nothing is skipped.
    assert_eq!(import(&mut log, "s2", true, None).sessions_processed, 1);
    assert_eq!(import(&mut log, "s1", false, None).sessions_processed, 1);
    assert_eq!(log.len(), 4);
    // Another import of the session came first.
    assert_eq!(import(&mut log, "s3", true, Some(marker("s3"))), skipped_session(7, 2));
    assert_eq!(log.len(), 5);
}

#[test]
fn filter_admits_what_matches_every_field() {
    let event = marker("s1");
    assert!(EventFilter::default().admits(&event));
    assert!(EventFilter { event_type: Some(event.event_type), ..EventFilter::default() }.admits(&event));
    assert_eq!(event.event_type, EventType::Interaction);
    let other = EventFilter { event_type: Some(EventType::OutcomeSignal), ..EventFilter::default() };
    assert!(!other.admits(&event));
    let filter = MemoryEngine::bootstrap_marker_filter("s1");
    assert!(filter.admits(&event));
    assert!(!filter.admits(&marker("s2")));
    assert!(!filter.admits(&NewEvent { session_id: None, ..marker("s1") }));
    assert!(!filter.admits(&NewEvent { source: "chat".to_string(), ..marker("s1") }));
}
