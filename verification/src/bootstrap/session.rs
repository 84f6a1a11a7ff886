//! Importing a session, or a directory of memory files, step by step.
//!
//! The host reads, embeds and stores; the functions here say what comes next and
//! keep the accounts.

use crate::binary64::Binary64;
use crate::bootstrap::outcome::SessionOutcome;
use crate::bootstrap::report::{BootstrapReport, Counter, PrewarmMetrics};
use crate::engine::batch::count_error;
use crate::engine::state::MemoryEngine;
use crate::error::MemoryError;
use crate::types::events::{EventFilter, NewEvent};
use crate::types::facts::{FactType, NewFact};
use vstd::prelude::*;

verus! {

/// What the accounts need to know of a fact that goes to the store.
#[derive(Debug, Clone, Copy, PartialEq, Eq, Structural)]
pub struct FactMeta {
    pub fact_type: FactType,
    pub base_importance: Binary64,
    /// The secrets that were taken out of the fact.
    pub redactions: usize,
}

/// What became of the facts that went to the store.
#[derive(Debug, Clone, PartialEq, Eq)]
pub enum BootstrapIngestOutcome {
    /// The session had been imported meanwhile: nothing was stored.
    Skipped,
    /// For each fact its id, and whether it reinforced one that was there.
    Ingested(Vec<(i64, bool)>),
}

/// How the import of a session goes on.
#[derive(Debug, Clone, PartialEq, Eq)]
pub enum SessionStep {
    /// It is over.
    Done(BootstrapReport),
    /// The events that the filter admits are to be counted first: with any, the
    /// session was imported before.
    CountMarkers(EventFilter),
    /// The session is to be prepared.
    Prepare,
}

/// The report counts the entries of a session and nothing else.
pub open spec fn counts_entries(r: BootstrapReport, parsed: usize, malformed: usize) -> bool {
    &&& forall|c: Counter| #[trigger]
        r.count(c) == (match c {
            Counter::EntriesParsed => parsed,
            Counter::EntriesMalformed => malformed,
            _ => 0,
        })
    &&& r.importances().len() == 0
}

/// The report counts the entries of a session that was skipped.
pub open spec fn counts_skip(r: BootstrapReport, parsed: usize, malformed: usize) -> bool {
    &&& forall|c: Counter| #[trigger]
        r.count(c) == (match c {
            Counter::EntriesParsed => parsed,
            Counter::EntriesMalformed => malformed,
            Counter::SessionsSkipped => 1,
            _ => 0,
        })
    &&& r.importances().len() == 0
}

fn entries_report(parsed: usize, malformed: usize) -> (r: BootstrapReport)
    ensures
        counts_entries(r, parsed, malformed),
{
    let mut report = BootstrapReport::default();
    let ghost blank = report;
    report.entries_parsed = parsed;
    report.entries_malformed = malformed;
    assert forall|c: Counter| #[trigger] report.count(c) == (match c {
        Counter::EntriesParsed => parsed,
        Counter::EntriesMalformed => malformed,
        _ => 0,
    }) by {
        assert(blank.count(c) == 0);
        match c {
            Counter::OfType(t) => match t {
                FactType::Episodic => {},
                FactType::Semantic => {},
                FactType::Procedural => {},
            },
            Counter::OfOutcome(o) => match o {
                SessionOutcome::Success => {},
                SessionOutcome::Failure => {},
                SessionOutcome::Indeterminate => {},
            },
            _ => {},
        }
    }
    report
}

/// The report of a session that was imported before.
pub fn skipped_session(parsed: usize, malformed: usize) -> (r: BootstrapReport)
    ensures
        counts_skip(r, parsed, malformed),
{
    let mut report = entries_report(parsed, malformed);
    let ghost before = report;
    report.sessions_skipped = 1;
    assert forall|c: Counter| #[trigger] report.count(c) == (match c {
        Counter::EntriesParsed => parsed,
        Counter::EntriesMalformed => malformed,
        Counter::SessionsSkipped => 1,
        _ => 0,
    }) by {
        assert(before.count(c) == (match c {
            Counter::EntriesParsed => parsed,
            Counter::EntriesMalformed => malformed,
            _ => 0,
        }));
        match c {
            Counter::OfType(t) => match t {
                FactType::Episodic => {},
                FactType::Semantic => {},
                FactType::Procedural => {},
            },
            Counter::OfOutcome(o) => match o {
                SessionOutcome::Success => {},
                SessionOutcome::Failure => {},
                SessionOutcome::Indeterminate => {},
            },
            _ => {},
        }
    }
    report
}

/// The filter admits exactly the marker events of a session's import.
pub open spec fn is_marker_filter(filter: EventFilter, session_id: Seq<char>) -> bool {
    &&& (filter.session_id matches Some(id) && id@ == session_id)
    &&& (filter.source matches Some(source) && source@ == "bootstrap"@)
    &&& filter.event_type is None
}

impl MemoryEngine {
    /// Starts an import, of a session, a directory of sessions or a directory of
    /// memory files: the engine must not wait to be reopened, and must accept
    /// writes.
    pub fn begin_bootstrap(&self) -> (r: Result<(), MemoryError>)
        ensures
            r is Ok <==> !self.fenced() && !self.read_only,
            r matches Err(e) ==> if self.fenced() {
                e == (MemoryError::EmbeddingReopenRequired { new_dim: self.reopen_required })
            } else {
                e == MemoryError::ReadOnly
            },
    {
        self.ensure_open()?;
        self.ensure_writable()
    }

    /// The filter for the marker events of a session's import.
    pub fn bootstrap_marker_filter(session_id: &str) -> (r: EventFilter)
        ensures
            is_marker_filter(r, session_id@),
    {
        EventFilter {
            session_id: Some(session_id.to_owned()),
            source: Some("bootstrap".to_owned()),
            event_type: None,
        }
    }
}

/// How the import of a session starts.
pub open spec fn begins(
    step: SessionStep,
    session_id: Seq<char>,
    parsed: usize,
    malformed: usize,
    skip_existing: bool,
) -> bool {
    match step {
        SessionStep::Done(report) => session_id.len() == 0 && counts_entries(
            report,
            parsed,
            malformed,
        ),
        SessionStep::CountMarkers(filter) => session_id.len() > 0 && skip_existing
            && is_marker_filter(filter, session_id),
        SessionStep::Prepare => session_id.len() > 0 && !skip_existing,
    }
}

/// How the import of a session goes on with a number of marker events.
pub open spec fn goes_on(step: SessionStep, markers: nat, parsed: usize, malformed: usize) -> bool {
    match step {
        SessionStep::Done(report) => markers > 0 && counts_skip(report, parsed, malformed),
        SessionStep::CountMarkers(_) => false,
        SessionStep::Prepare => markers == 0,
    }
}

/// Starts the import of a session whose log was parsed. A log without a session
/// id has nothing to import. Where sessions that were imported before are to be
/// skipped, the store is asked about this one before anything is embedded.
pub fn begin_session(session_id: &str, parsed: usize, malformed: usize, skip_existing: bool) -> (r:
    SessionStep)
    ensures
        begins(r, session_id@, parsed, malformed, skip_existing),
{
    if session_id.is_empty() {
        return SessionStep::Done(entries_report(parsed, malformed));
    }
    if skip_existing {
        return SessionStep::CountMarkers(MemoryEngine::bootstrap_marker_filter(session_id));
    }
    SessionStep::Prepare
}

/// Goes on with a session once its marker events are counted: with any, it is
/// skipped.
pub fn after_marker_count(markers: usize, parsed: usize, malformed: usize) -> (r: SessionStep)
    ensures
        goes_on(r, markers as nat, parsed, malformed),
{
    if markers > 0 {
        SessionStep::Done(skipped_session(parsed, malformed))
    } else {
        SessionStep::Prepare
    }
}

/// What a prepared fact is accounted by.
pub open spec fn meta_of(fact: NewFact, redactions: usize) -> FactMeta {
    FactMeta { fact_type: fact.fact_type, base_importance: fact.base_importance, redactions }
}

/// Parts the prepared facts from what the accounts need of them.
pub fn split_prepared(prepared: Vec<(NewFact, usize)>) -> (r: (Vec<FactMeta>, Vec<NewFact>))
    ensures
        r.0@.len() == prepared@.len(),
        r.1@.len() == prepared@.len(),
        forall|i: int|
            0 <= i < prepared@.len() ==> #[trigger] r.0@[i] == meta_of(
                prepared@[i].0,
                prepared@[i].1,
            ),
        forall|i: int| 0 <= i < prepared@.len() ==> #[trigger] r.1@[i] == prepared@[i].0,
{
    let ghost all = prepared@;
    let mut metas: Vec<FactMeta> = Vec::new();
    let mut facts: Vec<NewFact> = Vec::new();
    for pair in it: prepared
        invariant
            it.seq() == all,
            metas@.len() == it.index(),
            facts@.len() == it.index(),
            forall|i: int|
                0 <= i < it.index() ==> #[trigger] metas@[i] == meta_of(all[i].0, all[i].1),
            forall|i: int| 0 <= i < it.index() ==> #[trigger] facts@[i] == all[i].0,
    {
        let (fact, redactions) = pair;
        metas.push(
            FactMeta {
                fact_type: fact.fact_type,
                base_importance: fact.base_importance,
                redactions,
            },
        );
        facts.push(fact);
    }
    (metas, facts)
}

/// What a stored fact adds to a counter. A fact that only reinforced another adds
/// nothing but to the number of those.
pub open spec fn adds(meta: FactMeta, reinforced: bool, c: Counter) -> int {
    match c {
        Counter::FactsReinforced => if reinforced {
            1
        } else {
            0
        },
        Counter::FactsCreated => if reinforced {
            0
        } else {
            1
        },
        Counter::SecretsRedacted => if reinforced {
            0
        } else {
            meta.redactions as int
        },
        Counter::OfType(t) => if !reinforced && meta.fact_type == t {
            1
        } else {
            0
        },
        _ => 0,
    }
}

/// What the first `k` stored facts add to a counter.
pub open spec fn gain(metas: Seq<FactMeta>, flags: Seq<(i64, bool)>, c: Counter, k: int) -> int
    decreases k,
{
    if k <= 0 {
        0
    } else {
        gain(metas, flags, c, k - 1) + adds(metas[k - 1], flags[k - 1].1, c)
    }
}

/// The importances of those of the first `k` stored facts that were created.
pub open spec fn created_importances(
    metas: Seq<FactMeta>,
    flags: Seq<(i64, bool)>,
    k: int,
) -> Seq<Binary64>
    decreases k,
{
    if k <= 0 {
        Seq::empty()
    } else if flags[k - 1].1 {
        created_importances(metas, flags, k - 1)
    } else {
        created_importances(metas, flags, k - 1).push(metas[k - 1].base_importance)
    }
}

/// Enters one created fact into the metrics.
fn account_created(metrics: &mut PrewarmMetrics, meta: FactMeta)
    requires
        old(metrics).of_type(meta.fact_type) < usize::MAX,
    ensures
        forall|t: FactType| #[trigger]
            final(metrics).of_type(t) == old(metrics).of_type(t) + (if meta.fact_type == t {
                1int
            } else {
                0
            }),
        final(metrics).importances@ == old(metrics).importances@.push(meta.base_importance),
{
    match meta.fact_type {
        FactType::Episodic => {
            metrics.episodic_count = metrics.episodic_count + 1;
        },
        FactType::Semantic => {
            metrics.semantic_count = metrics.semantic_count + 1;
        },
        FactType::Procedural => {
            metrics.procedural_count = metrics.procedural_count + 1;
        },
    }
    metrics.importances.push(meta.base_importance);
}

/// Enters one stored fact into a report.
fn account_fact(report: &mut BootstrapReport, meta: FactMeta, reinforced: bool)
    requires
        forall|c: Counter| #[trigger]
            old(report).count(c) + adds(meta, reinforced, c) <= usize::MAX,
    ensures
        forall|c: Counter| #[trigger]
            final(report).count(c) == old(report).count(c) + adds(meta, reinforced, c),
        final(report).importances() == (if reinforced {
            old(report).importances()
        } else {
            old(report).importances().push(meta.base_importance)
        }),
{
    let ghost before = *report;
    let ghost one = Counter::OfType(meta.fact_type);
    assert(before.count(one) + adds(meta, reinforced, one) <= usize::MAX);
    if reinforced {
        let ghost c = Counter::FactsReinforced;
        assert(before.count(c) + adds(meta, reinforced, c) <= usize::MAX);
        report.facts_reinforced = report.facts_reinforced + 1;
    } else {
        let ghost c = Counter::FactsCreated;
        let ghost d = Counter::SecretsRedacted;
        assert(before.count(c) + adds(meta, reinforced, c) <= usize::MAX);
        assert(before.count(d) + adds(meta, reinforced, d) <= usize::MAX);
        report.facts_created = report.facts_created + 1;
        report.secrets_redacted = report.secrets_redacted + meta.redactions;
        account_created(&mut report.prewarm_metrics, meta);
    }
}

/// The report holds what the stored facts add, and nothing else.
pub open spec fn tallies(
    r: BootstrapReport,
    metas: Seq<FactMeta>,
    flags: Seq<(i64, bool)>,
) -> bool {
    &&& forall|c: Counter| #[trigger] r.count(c) == gain(metas, flags, c, metas.len() as int)
    &&& r.importances() == created_importances(metas, flags, metas.len() as int)
}

proof fn lemma_gain_bound(metas: Seq<FactMeta>, flags: Seq<(i64, bool)>, c: Counter, k: int)
    requires
        k >= 0,
    ensures
        0 <= gain(metas, flags, c, k),
        c !is SecretsRedacted ==> gain(metas, flags, c, k) <= k,
    decreases k,
{
    if k > 0 {
        lemma_gain_bound(metas, flags, c, k - 1);
    }
}

/// Adds up what the stored facts add to a report. The store must have said of
/// each fact what became of it. There is no sum when the secrets that were taken
/// out are more than a counter holds.
pub fn tally_ingest(metas: &Vec<FactMeta>, flags: &Vec<(i64, bool)>) -> (r: Result<
    Option<BootstrapReport>,
    MemoryError,
>)
    ensures
        r is Ok <==> metas@.len() == flags@.len(),
        match r {
            Ok(Some(report)) => tallies(report, metas@, flags@),
            Ok(None) => exists|k: int|
                0 <= k <= metas@.len() && #[trigger] gain(
                    metas@,
                    flags@,
                    Counter::SecretsRedacted,
                    k,
                ) > usize::MAX,
            Err(e) => e matches MemoryError::Internal(text) && text@
                == crate::engine::batch::count_message(
                "bootstrap ingest returned "@,
                flags@.len(),
                " flags for "@,
                metas@.len(),
                " facts (port contract violation)"@,
            ),
        },
{
    if metas.len() != flags.len() {
        return Err(
            count_error(
                "bootstrap ingest returned ",
                flags.len(),
                " flags for ",
                metas.len(),
                " facts (port contract violation)",
            ),
        );
    }
    let total: usize = metas.len();
    let mut report = BootstrapReport::default();
    let mut i: usize = 0;
    while i < metas.len()
        invariant
            i <= metas@.len(),
            total == metas@.len(),
            metas@.len() == flags@.len(),
            forall|c: Counter| #[trigger] report.count(c) == gain(metas@, flags@, c, i as int),
            report.importances() == created_importances(metas@, flags@, i as int),
        decreases metas@.len() - i,
    {
        let meta = metas[i];
        let reinforced = flags[i].1;
        assert(report.count(Counter::SecretsRedacted) == gain(
            metas@,
            flags@,
            Counter::SecretsRedacted,
            i as int,
        ));
        if !reinforced && meta.redactions > usize::MAX - report.secrets_redacted {
            assert(gain(metas@, flags@, Counter::SecretsRedacted, i + 1) > usize::MAX);
            return Ok(None);
        }
        assert forall|c: Counter| #[trigger] report.count(c) + adds(meta, reinforced, c)
            <= usize::MAX by {
            lemma_gain_bound(metas@, flags@, c, i as int);
        }
        account_fact(&mut report, meta, reinforced);
        i = i + 1;
    }
    Ok(Some(report))
}

/// Each counter can hold the entries of a session, what its preparation counted,
/// and what its facts added.
pub open spec fn session_sums_fit(
    parsed: usize,
    malformed: usize,
    prepared: BootstrapReport,
    tally: BootstrapReport,
) -> bool {
    forall|c: Counter| #[trigger]
        prepared.count(c) + tally.count(c) + (match c {
            Counter::EntriesParsed => parsed,
            Counter::EntriesMalformed => malformed,
            _ => 0,
        }) <= usize::MAX
}

/// Whether each counter can hold the entries of a session, what its preparation
/// counted, and what its facts added.
pub fn can_finish_session(
    parsed: usize,
    malformed: usize,
    prepared: &BootstrapReport,
    tally: &BootstrapReport,
) -> (r: bool)
    ensures
        r == session_sums_fit(parsed, malformed, *prepared, *tally),
{
    let mut report = entries_report(parsed, malformed);
    let ghost entries = report;
    if !report.can_merge(prepared) {
        assert(!session_sums_fit(parsed, malformed, *prepared, *tally)) by {
            let c = choose|c: Counter| !(#[trigger] entries.count(c) + prepared.count(c)
                <= usize::MAX);
            assert(prepared.count(c) + tally.count(c) >= 0);
        }
        return false;
    }
    report.merge(prepared);
    let ghost merged = report;
    let fits = report.can_merge(tally);
    proof {
        if fits {
            assert forall|c: Counter| #[trigger] prepared.count(c) + tally.count(c) + (match c {
                Counter::EntriesParsed => parsed,
                Counter::EntriesMalformed => malformed,
                _ => 0,
            }) <= usize::MAX by {
                assert(merged.count(c) == entries.count(c) + prepared.count(c));
                assert(merged.count(c) + tally.count(c) <= usize::MAX);
            }
        } else {
            let c = choose|c: Counter| !(#[trigger] merged.count(c) + tally.count(c)
                <= usize::MAX);
            assert(merged.count(c) == entries.count(c) + prepared.count(c));
            assert(prepared.count(c) + tally.count(c) >= 0);
        }
    }
    fits
}

/// Ends the import of a session that was stored: its entries, what its
/// preparation counted, and what its facts added, as one processed session.
pub fn finish_session(
    parsed: usize,
    malformed: usize,
    prepared: &BootstrapReport,
    tally: &BootstrapReport,
) -> (r: BootstrapReport)
    requires
        session_sums_fit(parsed, malformed, *prepared, *tally),
    ensures
        forall|c: Counter| #[trigger]
            r.count(c) == (match c {
                Counter::SessionsProcessed => 1,
                Counter::EntriesParsed => parsed + prepared.count(c) + tally.count(c),
                Counter::EntriesMalformed => malformed + prepared.count(c) + tally.count(c),
                _ => prepared.count(c) + tally.count(c),
            }),
        r.importances() == prepared.importances() + tally.importances(),
{
    let mut report = entries_report(parsed, malformed);
    let ghost entries = report;
    assert forall|c: Counter| #[trigger] report.count(c) + prepared.count(c) <= usize::MAX by {
        assert(prepared.count(c) + tally.count(c) >= 0);
    }
    report.merge(prepared);
    let ghost merged = report;
    assert forall|c: Counter| #[trigger] report.count(c) + tally.count(c) <= usize::MAX by {
        assert(merged.count(c) == entries.count(c) + prepared.count(c));
    }
    report.merge(tally);
    let ghost before = report;
    assert forall|c: Counter| #[trigger] before.count(c) == entries.count(c) + prepared.count(c)
        + tally.count(c) by {
        assert(merged.count(c) == entries.count(c) + prepared.count(c));
    }
    report.sessions_processed = 1;
    assert forall|c: Counter| #[trigger] report.count(c) == (match c {
        Counter::SessionsProcessed => 1,
        Counter::EntriesParsed => parsed + prepared.count(c) + tally.count(c),
        Counter::EntriesMalformed => malformed + prepared.count(c) + tally.count(c),
        _ => prepared.count(c) + tally.count(c),
    }) by {
        assert(before.count(c) == entries.count(c) + prepared.count(c) + tally.count(c));
        assert(c !is SessionsProcessed ==> report.count(c) == before.count(c)) by {
            match c {
                Counter::OfType(t) => match t {
                    FactType::Episodic => {},
                    FactType::Semantic => {},
                    FactType::Procedural => {},
                },
                Counter::OfOutcome(o) => match o {
                    SessionOutcome::Success => {},
                    SessionOutcome::Failure => {},
                    SessionOutcome::Indeterminate => {},
                },
                _ => {},
            }
        }
    }
    assert(report.importances() =~= prepared.importances() + tally.importances());
    report
}

/// What an imported session counts: its entries, what its preparation counted,
/// and what its stored facts add.
pub open spec fn session_sum(
    parsed: usize,
    malformed: usize,
    prepared: BootstrapReport,
    metas: Seq<FactMeta>,
    flags: Seq<(i64, bool)>,
    c: Counter,
) -> int {
    prepared.count(c) + gain(metas, flags, c, metas.len() as int) + (match c {
        Counter::EntriesParsed => parsed as int,
        Counter::EntriesMalformed => malformed as int,
        _ => 0,
    })
}

/// Each counter can hold what an imported session counts.
pub open spec fn session_fits(
    parsed: usize,
    malformed: usize,
    prepared: BootstrapReport,
    metas: Seq<FactMeta>,
    flags: Seq<(i64, bool)>,
) -> bool {
    forall|c: Counter| #[trigger]
        session_sum(parsed, malformed, prepared, metas, flags, c) <= usize::MAX
}

/// The report is that of an imported session.
pub open spec fn reports_session(
    r: BootstrapReport,
    parsed: usize,
    malformed: usize,
    prepared: BootstrapReport,
    metas: Seq<FactMeta>,
    flags: Seq<(i64, bool)>,
) -> bool {
    &&& forall|c: Counter| #[trigger]
        r.count(c) == (if c is SessionsProcessed {
            1
        } else {
            session_sum(parsed, malformed, prepared, metas, flags, c)
        })
    &&& r.importances() == prepared.importances() + created_importances(
        metas,
        flags,
        metas.len() as int,
    )
}

proof fn lemma_gain_grows(
    metas: Seq<FactMeta>,
    flags: Seq<(i64, bool)>,
    c: Counter,
    k: int,
    n: int,
)
    requires
        0 <= k <= n,
    ensures
        gain(metas, flags, c, k) <= gain(metas, flags, c, n),
    decreases n,
{
    if k < n {
        lemma_gain_grows(metas, flags, c, k, n - 1);
    }
}

/// How the import of a prepared session ends.
pub open spec fn completes(
    r: Result<Option<BootstrapReport>, MemoryError>,
    parsed: usize,
    malformed: usize,
    prepared: BootstrapReport,
    metas: Seq<FactMeta>,
    outcome: BootstrapIngestOutcome,
) -> bool {
    match outcome {
        BootstrapIngestOutcome::Skipped => r matches Ok(Some(report)) && counts_skip(
            report,
            parsed,
            malformed,
        ),
        BootstrapIngestOutcome::Ingested(flags) => match r {
            Ok(Some(report)) => {
                &&& metas.len() == flags@.len()
                &&& session_fits(parsed, malformed, prepared, metas, flags@)
                &&& reports_session(report, parsed, malformed, prepared, metas, flags@)
            },
            Ok(None) => {
                &&& metas.len() == flags@.len()
                &&& !session_fits(parsed, malformed, prepared, metas, flags@)
            },
            Err(e) => {
                &&& metas.len() != flags@.len()
                &&& (e matches MemoryError::Internal(text) && text@
                    == crate::engine::batch::count_message(
                    "bootstrap ingest returned "@,
                    flags@.len(),
                    " flags for "@,
                    metas.len(),
                    " facts (port contract violation)"@,
                ))
            },
        },
    }
}

/// Ends the import of a prepared session once the store has said what became of
/// its facts.
///
/// Where another import of the session was first, the report is that of a
/// skipped session, and the preparation does not count. Else the store must have
/// said of each fact what became of it. There is no report when a counter cannot
/// hold what the session counts.
pub fn complete_session(
    parsed: usize,
    malformed: usize,
    prepared: &BootstrapReport,
    metas: &Vec<FactMeta>,
    outcome: &BootstrapIngestOutcome,
) -> (r: Result<Option<BootstrapReport>, MemoryError>)
    ensures
        completes(r, parsed, malformed, *prepared, metas@, *outcome),
{
    let flags = match outcome {
        BootstrapIngestOutcome::Skipped => return Ok(Some(skipped_session(parsed, malformed))),
        BootstrapIngestOutcome::Ingested(flags) => flags,
    };
    let ghost n = metas@.len() as int;
    let tally = match tally_ingest(metas, flags) {
        Err(e) => return Err(e),
        Ok(None) => {
            proof {
                let c = Counter::SecretsRedacted;
                let k = choose|k: int|
                    0 <= k <= n && #[trigger] gain(metas@, flags@, c, k) > usize::MAX;
                lemma_gain_grows(metas@, flags@, c, k, n);
                assert(session_sum(parsed, malformed, *prepared, metas@, flags@, c) > usize::MAX);
            }
            return Ok(None);
        },
        Ok(Some(tally)) => tally,
    };
    assert forall|c: Counter| #[trigger] prepared.count(c) + tally.count(c) + (match c {
        Counter::EntriesParsed => parsed,
        Counter::EntriesMalformed => malformed,
        _ => 0,
    }) == session_sum(parsed, malformed, *prepared, metas@, flags@, c) by {
        assert(tally.count(c) == gain(metas@, flags@, c, n));
    }
    if !can_finish_session(parsed, malformed, prepared, &tally) {
        proof {
            let c = choose|c: Counter| !(#[trigger] prepared.count(c) + tally.count(c) + (match c {
                Counter::EntriesParsed => parsed,
                Counter::EntriesMalformed => malformed,
                _ => 0,
            }) <= usize::MAX);
            assert(session_sum(parsed, malformed, *prepared, metas@, flags@, c) > usize::MAX);
        }
        return Ok(None);
    }
    let report = finish_session(parsed, malformed, prepared, &tally);
    proof {
        assert forall|c: Counter| #[trigger]
            session_sum(parsed, malformed, *prepared, metas@, flags@, c) <= usize::MAX by {
            assert(prepared.count(c) + tally.count(c) >= 0);
        }
        assert forall|c: Counter| #[trigger] report.count(c) == (if c is SessionsProcessed {
            1
        } else {
            session_sum(parsed, malformed, *prepared, metas@, flags@, c)
        }) by {
            assert(prepared.count(c) + tally.count(c) >= 0);
        }
    }
    Ok(Some(report))
}

/// A session that lost the race against another import of it is reported just
/// like one that was seen to be imported before: two reports of a skipped
/// session with the same entries do not differ.
pub proof fn lost_race_looks_like_an_early_skip(
    early: BootstrapReport,
    late: BootstrapReport,
    parsed: usize,
    malformed: usize,
)
    requires
        counts_skip(early, parsed, malformed),
        counts_skip(late, parsed, malformed),
    ensures
        forall|c: Counter| #[trigger] early.count(c) == late.count(c),
        early.importances() == late.importances(),
{
    assert(early.importances() =~= late.importances());
}

/// How many events of a log the filter admits.
pub open spec fn admitted(filter: EventFilter, log: Seq<NewEvent>) -> nat {
    log.filter(|e: NewEvent| filter.admits_event(e)).len()
}

/// The event marks that a session was imported.
pub open spec fn is_marker(event: NewEvent, session_id: Seq<char>) -> bool {
    &&& (event.session_id matches Some(id) && id@ == session_id)
    &&& event.source@ == "bootstrap"@
}

/// What a store does with a prepared session, in one transaction: with a filter
/// that admits some event of its log it stores nothing; else it logs the marker
/// and stores the facts.
pub open spec fn ingests(
    log: Seq<NewEvent>,
    log_after: Seq<NewEvent>,
    skip: Option<EventFilter>,
    marker: NewEvent,
    outcome: BootstrapIngestOutcome,
) -> bool {
    if skip is Some && admitted(skip->0, log) > 0 {
        outcome is Skipped && log_after == log
    } else {
        outcome is Ingested && log_after == log.push(marker)
    }
}

/// One import of a session, with all that was asked and answered in its course.
pub ghost struct SessionImport {
    pub session_id: Seq<char>,
    pub parsed: usize,
    pub malformed: usize,
    pub skip_existing: bool,
    /// The log when the marker events were counted.
    pub counted: Seq<NewEvent>,
    /// The log just before the session was stored or left out.
    pub met: Seq<NewEvent>,
    /// The log just after.
    pub left: Seq<NewEvent>,
    pub begun: SessionStep,
    pub step: SessionStep,
    pub skip: Option<EventFilter>,
    pub marker: NewEvent,
    pub prepared: BootstrapReport,
    pub metas: Seq<FactMeta>,
    pub outcome: BootstrapIngestOutcome,
    pub report: BootstrapReport,
}

impl SessionImport {
    /// The import went as [`begin_session`], [`after_marker_count`] and
    /// [`complete_session`] say, on a log that only grows, and was reported.
    pub open spec fn valid(self) -> bool {
        &&& self.counted.is_prefix_of(self.met)
        &&& begins(self.begun, self.session_id, self.parsed, self.malformed, self.skip_existing)
        &&& match self.begun {
            SessionStep::CountMarkers(filter) => goes_on(
                self.step,
                admitted(filter, self.counted),
                self.parsed,
                self.malformed,
            ),
            _ => self.step == self.begun,
        }
        &&& match self.step {
            SessionStep::Done(report) => self.report == report && self.left == self.met,
            _ => {
                &&& self.skip is Some <==> self.skip_existing
                &&& (self.skip matches Some(filter) ==> is_marker_filter(filter, self.session_id))
                &&& is_marker(self.marker, self.session_id)
                &&& ingests(self.met, self.left, self.skip, self.marker, self.outcome)
                &&& completes(
                    Ok(Some(self.report)),
                    self.parsed,
                    self.malformed,
                    self.prepared,
                    self.metas,
                    self.outcome,
                )
            },
        }
    }
}

proof fn lemma_marker_is_admitted(
    filter: EventFilter,
    session_id: Seq<char>,
    log: Seq<NewEvent>,
    i: int,
)
    requires
        is_marker_filter(filter, session_id),
        0 <= i < log.len(),
        is_marker(log[i], session_id),
    ensures
        admitted(filter, log) > 0,
{
    let wanted = |e: NewEvent| filter.admits_event(e);
    assert(wanted(log[i]));
    log.lemma_filter_contains(wanted, i);
}

/// A session that was imported is not imported again where sessions that are
/// there are to be skipped: nothing is stored, and the report is that of a skipped
/// session. So it is too when the other import came in between, after the marker
/// events were counted.
pub proof fn repeated_import_stores_nothing(first: SessionImport, second: SessionImport)
    requires
        first.valid(),
        first.report.count(Counter::SessionsProcessed) == 1,
        second.valid(),
        second.session_id == first.session_id,
        second.skip_existing,
        first.left.is_prefix_of(second.met),
    ensures
        second.left == second.met,
        counts_skip(second.report, second.parsed, second.malformed),
{
    let id = first.session_id;
    assert(first.step !is Done) by {
        if first.step is Done {
            let c = Counter::SessionsProcessed;
            assert(first.report.count(c) == 0);
        }
    }
    assert(first.outcome is Ingested) by {
        if first.outcome is Skipped {
            let c = Counter::SessionsProcessed;
            assert(first.report.count(c) == 0);
        }
    }
    let i = first.met.len() as int;
    assert(first.left[i] == first.marker);
    assert(second.met[i] == first.left[i]);
    if second.step !is Done {
        lemma_marker_is_admitted(second.skip->0, id, second.met, i);
    }
}

/// A session that was not imported before is imported, whether or not sessions
/// that are there are to be skipped: its marker is logged, and the report counts
/// one processed session.
pub proof fn fresh_session_is_stored(import: SessionImport)
    requires
        import.valid(),
        import.session_id.len() > 0,
        forall|i: int|
            0 <= i < import.met.len() ==> !is_marker(#[trigger] import.met[i], import.session_id),
    ensures
        import.left == import.met.push(import.marker),
        import.report.count(Counter::SessionsProcessed) == 1,
{
    if import.step is Done {
        lemma_none_is_admitted(
            import.begun->CountMarkers_0,
            import.session_id,
            import.counted,
        );
    } else if import.skip is Some {
        lemma_none_is_admitted(import.skip->0, import.session_id, import.met);
    }
    if import.step !is Done {
        let c = Counter::SessionsProcessed;
        assert(import.report.count(c) == 1);
    }
}

proof fn lemma_none_is_admitted(filter: EventFilter, session_id: Seq<char>, log: Seq<NewEvent>)
    requires
        is_marker_filter(filter, session_id),
        forall|i: int| 0 <= i < log.len() ==> !is_marker(#[trigger] log[i], session_id),
    ensures
        admitted(filter, log) == 0,
{
    broadcast use vstd::seq_lib::group_filter_ensures;

    let wanted = |e: NewEvent| filter.admits_event(e);
    let left = log.filter(wanted);
    if left.len() > 0 {
        let e = left[0];
        assert(wanted(e));
        assert(left.contains(e));
        log.lemma_filter_contains_rev(wanted, e);
        let i = choose|i: int| 0 <= i < log.len() && log[i] == e;
        assert(is_marker(log[i], session_id));
    }
}

/// Every stored fact is counted once: as created or as reinforced. And every
/// created one is counted once by its type.
pub proof fn stored_facts_are_counted_once(
    metas: Seq<FactMeta>,
    flags: Seq<(i64, bool)>,
    k: int,
)
    requires
        0 <= k,
    ensures
        gain(metas, flags, Counter::FactsCreated, k) + gain(
            metas,
            flags,
            Counter::FactsReinforced,
            k,
        ) == k,
        gain(metas, flags, Counter::OfType(FactType::Episodic), k) + gain(
            metas,
            flags,
            Counter::OfType(FactType::Semantic),
            k,
        ) + gain(metas, flags, Counter::OfType(FactType::Procedural), k) == gain(
            metas,
            flags,
            Counter::FactsCreated,
            k,
        ),
        created_importances(metas, flags, k).len() == gain(metas, flags, Counter::FactsCreated, k),
    decreases k,
{
    if k > 0 {
        stored_facts_are_counted_once(metas, flags, k - 1);
    }
}

/// Importing again what is there already changes nothing but the number of
/// reinforcements: no fact counts as created, and no secret as taken out anew.
pub proof fn repeated_import_only_reinforces(
    metas: Seq<FactMeta>,
    flags: Seq<(i64, bool)>,
    c: Counter,
    k: int,
)
    requires
        0 <= k <= flags.len(),
        forall|i: int| 0 <= i < k ==> (#[trigger] flags[i]).1,
    ensures
        gain(metas, flags, c, k) == (if c is FactsReinforced {
            k
        } else {
            0
        }),
        created_importances(metas, flags, k).len() == 0,
    decreases k,
{
    if k > 0 {
        repeated_import_only_reinforces(metas, flags, c, k - 1);
        assert(flags[k - 1].1);
    }
}

/// What became of one file of a directory of session logs.
#[derive(Debug, Clone, PartialEq, Eq)]
pub enum FileOutcome {
    /// The file could not be read.
    Unreadable,
    /// The session could not be imported.
    Failed,
    /// The session was imported or skipped.
    Reported(BootstrapReport),
}

/// Enters one file of a directory into the report of the directory. A file that
/// cannot be read, or a session that cannot be imported, leaves no trace in it.
pub fn absorb_file(aggregate: &mut BootstrapReport, outcome: &FileOutcome)
    requires
        *outcome matches FileOutcome::Reported(report) ==> old(aggregate).sums_fit(report),
    ensures
        match *outcome {
            FileOutcome::Reported(report) => final(aggregate).is_sum_of(*old(aggregate), report),
            _ => *final(aggregate) == *old(aggregate),
        },
{
    match outcome {
        FileOutcome::Reported(report) => {
            aggregate.merge(report);
        },
        FileOutcome::Unreadable => {},
        FileOutcome::Failed => {},
    }
}

/// What a memory file adds to a counter, before its fact is stored.
pub open spec fn file_adds(parsed: bool, c: Counter) -> int {
    match c {
        Counter::MemoryFilesParsed => if parsed {
            1
        } else {
            0
        },
        Counter::MemoryFilesSkipped => if parsed {
            0
        } else {
            1
        },
        _ => 0,
    }
}

/// Enters a memory file that was read into the report: as parsed when it gave a
/// fact, else as skipped.
pub fn account_memory_file(report: &mut BootstrapReport, parsed: bool)
    requires
        old(report).memory_files_parsed < usize::MAX,
        old(report).memory_files_skipped < usize::MAX,
    ensures
        forall|c: Counter| #[trigger]
            final(report).count(c) == old(report).count(c) + file_adds(parsed, c),
        final(report).importances() == old(report).importances(),
{
    let ghost before = *report;
    if parsed {
        report.memory_files_parsed = report.memory_files_parsed + 1;
    } else {
        report.memory_files_skipped = report.memory_files_skipped + 1;
    }
    assert forall|c: Counter| #[trigger] report.count(c) == before.count(c) + file_adds(
        parsed,
        c,
    ) by {
        match c {
            Counter::OfType(t) => match t {
                FactType::Episodic => {},
                FactType::Semantic => {},
                FactType::Procedural => {},
            },
            Counter::OfOutcome(o) => match o {
                SessionOutcome::Success => {},
                SessionOutcome::Failure => {},
                SessionOutcome::Indeterminate => {},
            },
            _ => {},
        }
    }
}

/// Whether the only fact that went to the store reinforced one that was there;
/// nothing when the store did not answer for exactly one fact.
pub open spec fn sole_flag(outcome: BootstrapIngestOutcome) -> Option<bool> {
    match outcome {
        BootstrapIngestOutcome::Ingested(flags) => if flags@.len() == 1 {
            Some(flags@[0].1)
        } else {
            None
        },
        BootstrapIngestOutcome::Skipped => None,
    }
}

/// The error says that the store did not answer for exactly one fact.
pub open spec fn says_no_sole_flag(e: MemoryError, outcome: BootstrapIngestOutcome) -> bool {
    e matches MemoryError::Internal(text) && text@ == (match outcome {
        BootstrapIngestOutcome::Ingested(flags) => "memory-dir bootstrap ingest returned "@
            + crate::text::decimal(flags@.len())
            + " flags for 1 fact (port contract violation)"@,
        BootstrapIngestOutcome::Skipped =>
            "memory-dir bootstrap passed no skip filter but storage returned Skipped (port contract violation)"@,
    })
}

/// Whether the fact of a memory file reinforced one that was there. The store is
/// given one fact and no reason to skip it, so it must answer with one flag.
pub fn memory_file_reinforced(outcome: &BootstrapIngestOutcome) -> (r: Result<bool, MemoryError>)
    ensures
        match r {
            Ok(reinforced) => sole_flag(*outcome) == Some(reinforced),
            Err(e) => sole_flag(*outcome) is None && says_no_sole_flag(e, *outcome),
        },
{
    match outcome {
        BootstrapIngestOutcome::Ingested(flags) => {
            if flags.len() == 1 {
                Ok(flags[0].1)
            } else {
                let mut text = "memory-dir bootstrap ingest returned ".to_owned();
                text.append(crate::text::decimal_text(flags.len() as u64).as_str());
                text.append(" flags for 1 fact (port contract violation)");
                Err(MemoryError::Internal(text))
            }
        },
        BootstrapIngestOutcome::Skipped => Err(
            MemoryError::Internal(
                "memory-dir bootstrap passed no skip filter but storage returned Skipped (port contract violation)".to_owned(),
            ),
        ),
    }
}

/// Each counter can hold what a stored fact adds to it.
pub open spec fn fact_fits(report: BootstrapReport, meta: FactMeta, reinforced: bool) -> bool {
    forall|c: Counter| #[trigger] report.count(c) + adds(meta, reinforced, c) <= usize::MAX
}

/// Enters the fact of a memory file into the report once the store has said what
/// became of it, and says whether the counters could hold it. Where they cannot,
/// or the store did not answer for the one fact, the report stays as it is.
pub fn absorb_memory_file(
    report: &mut BootstrapReport,
    meta: FactMeta,
    outcome: &BootstrapIngestOutcome,
) -> (r: Result<bool, MemoryError>)
    ensures
        match (r, sole_flag(*outcome)) {
            (Ok(entered), Some(reinforced)) => {
                &&& entered == fact_fits(*old(report), meta, reinforced)
                &&& if entered {
                    &&& forall|c: Counter| #[trigger]
                        final(report).count(c) == old(report).count(c) + adds(meta, reinforced, c)
                    &&& final(report).importances() == (if reinforced {
                        old(report).importances()
                    } else {
                        old(report).importances().push(meta.base_importance)
                    })
                } else {
                    *final(report) == *old(report)
                }
            },
            (Err(e), None) => says_no_sole_flag(e, *outcome) && *final(report) == *old(report),
            _ => false,
        },
{
    let reinforced = match memory_file_reinforced(outcome) {
        Ok(reinforced) => reinforced,
        Err(e) => return Err(e),
    };
    let ghost before = *report;
    let of_type: usize = match meta.fact_type {
        FactType::Episodic => report.prewarm_metrics.episodic_count,
        FactType::Semantic => report.prewarm_metrics.semantic_count,
        FactType::Procedural => report.prewarm_metrics.procedural_count,
    };
    let fits = if reinforced {
        report.facts_reinforced < usize::MAX
    } else {
        report.facts_created < usize::MAX && of_type < usize::MAX && meta.redactions <= usize::MAX
            - report.secrets_redacted
    };
    if !fits {
        proof {
            let c = if reinforced {
                Counter::FactsReinforced
            } else if before.facts_created == usize::MAX {
                Counter::FactsCreated
            } else if of_type == usize::MAX {
                Counter::OfType(meta.fact_type)
            } else {
                Counter::SecretsRedacted
            };
            assert(before.count(c) + adds(meta, reinforced, c) > usize::MAX);
        }
        return Ok(false);
    }
    assert forall|c: Counter| #[trigger] report.count(c) + adds(meta, reinforced, c)
        <= usize::MAX by {
        match c {
            Counter::OfType(t) => {
                if t == meta.fact_type {
                    assert(before.prewarm_metrics.of_type(t) == of_type);
                }
            },
            _ => {},
        }
    }
    account_fact(report, meta, reinforced);
    Ok(true)
}

/// The report of a skipped session counts its entries and one skipped session, and
/// nothing else.
pub proof fn skipped_session_counts_its_entries(parsed: usize, malformed: usize, r: BootstrapReport)
    requires
        call_ensures(skipped_session, (parsed, malformed), r),
    ensures
        r.entries_parsed == parsed,
        r.entries_malformed == malformed,
        r.sessions_processed == 0,
        r.sessions_skipped == 1,
        r.turns == 0,
        r.candidates == 0,
        r.events == 0,
        r.facts_created == 0,
        r.facts_reinforced == 0,
        r.secrets_redacted == 0,
        r.memory_files_parsed == 0,
        r.memory_files_skipped == 0,
        r.outcomes.success == 0,
        r.outcomes.failure == 0,
        r.outcomes.indeterminate == 0,
        r.prewarm_metrics.episodic_count == 0,
        r.prewarm_metrics.semantic_count == 0,
        r.prewarm_metrics.procedural_count == 0,
        r.prewarm_metrics.importances@.len() == 0,
{
    assert(r.count(Counter::EntriesParsed) == r.entries_parsed);
    assert(r.count(Counter::EntriesMalformed) == r.entries_malformed);
    assert(r.count(Counter::SessionsProcessed) == r.sessions_processed);
    assert(r.count(Counter::SessionsSkipped) == r.sessions_skipped);
    assert(r.count(Counter::Turns) == r.turns);
    assert(r.count(Counter::Candidates) == r.candidates);
    assert(r.count(Counter::Events) == r.events);
    assert(r.count(Counter::FactsCreated) == r.facts_created);
    assert(r.count(Counter::FactsReinforced) == r.facts_reinforced);
    assert(r.count(Counter::SecretsRedacted) == r.secrets_redacted);
    assert(r.count(Counter::MemoryFilesParsed) == r.memory_files_parsed);
    assert(r.count(Counter::MemoryFilesSkipped) == r.memory_files_skipped);
    assert(r.count(Counter::OfOutcome(SessionOutcome::Success)) == r.outcomes.success);
    assert(r.count(Counter::OfOutcome(SessionOutcome::Failure)) == r.outcomes.failure);
    assert(r.count(Counter::OfOutcome(SessionOutcome::Indeterminate)) == r.outcomes.indeterminate);
    assert(r.count(Counter::OfType(FactType::Episodic)) == r.prewarm_metrics.episodic_count);
    assert(r.count(Counter::OfType(FactType::Semantic)) == r.prewarm_metrics.semantic_count);
    assert(r.count(Counter::OfType(FactType::Procedural)) == r.prewarm_metrics.procedural_count);
}

/// A session without an id is over at once, and its report counts its entries and
/// nothing else. Another session is prepared, unless imported sessions are to be
/// skipped: then its own markers are counted first.
pub proof fn session_starts_by_its_id(
    session_id: &str,
    parsed: usize,
    malformed: usize,
    skip_existing: bool,
    r: SessionStep,
)
    requires
        call_ensures(begin_session, (session_id, parsed, malformed, skip_existing), r),
    ensures
        r is Done <==> session_id@.len() == 0,
        session_id@.len() > 0 && !skip_existing ==> r is Prepare,
        session_id@.len() > 0 && skip_existing ==> (r matches SessionStep::CountMarkers(filter)
            && (filter.session_id matches Some(id) && id@ == session_id@) && (
        filter.source matches Some(source) && source@ == "bootstrap"@) && filter.event_type
            is None),
        r matches SessionStep::Done(report) ==> {
            &&& report.entries_parsed == parsed
            &&& report.entries_malformed == malformed
            &&& report.sessions_processed == 0
            &&& report.sessions_skipped == 0
            &&& report.facts_created == 0
            &&& report.facts_reinforced == 0
            &&& report.events == 0
            &&& report.turns == 0
        },
{
    if r is Done {
        let report = r->Done_0;
        assert(report.count(Counter::EntriesParsed) == report.entries_parsed);
        assert(report.count(Counter::EntriesMalformed) == report.entries_malformed);
        assert(report.count(Counter::SessionsProcessed) == report.sessions_processed);
        assert(report.count(Counter::SessionsSkipped) == report.sessions_skipped);
        assert(report.count(Counter::Turns) == report.turns);
        assert(report.count(Counter::Events) == report.events);
        assert(report.count(Counter::FactsCreated) == report.facts_created);
        assert(report.count(Counter::FactsReinforced) == report.facts_reinforced);
    }
}

/// A session with a marker is skipped, and one without is prepared.
pub proof fn marked_session_is_skipped(
    markers: usize,
    parsed: usize,
    malformed: usize,
    r: SessionStep,
)
    requires
        call_ensures(after_marker_count, (markers, parsed, malformed), r),
    ensures
        markers == 0 ==> r is Prepare,
        markers > 0 ==> (r matches SessionStep::Done(report) && report.sessions_skipped == 1
            && report.sessions_processed == 0 && report.entries_parsed == parsed
            && report.entries_malformed == malformed && report.facts_created == 0),
{
    if r is Done {
        let report = r->Done_0;
        assert(report.count(Counter::SessionsSkipped) == report.sessions_skipped);
        assert(report.count(Counter::SessionsProcessed) == report.sessions_processed);
        assert(report.count(Counter::EntriesParsed) == report.entries_parsed);
        assert(report.count(Counter::EntriesMalformed) == report.entries_malformed);
        assert(report.count(Counter::FactsCreated) == report.facts_created);
    }
}

/// Parting the prepared facts from their accounts loses none, keeps their order, and
/// leaves each account with its fact.
pub proof fn accounts_stay_with_their_facts(
    prepared: Vec<(NewFact, usize)>,
    r: (Vec<FactMeta>, Vec<NewFact>),
    i: int,
)
    requires
        call_ensures(split_prepared, (prepared,), r),
    ensures
        r.0@.len() == prepared@.len(),
        r.1@.len() == prepared@.len(),
        0 <= i < prepared@.len() ==> r.1@[i] == prepared@[i].0 && r.0@[i].fact_type
            == r.1@[i].fact_type && r.0@[i].base_importance == r.1@[i].base_importance
            && r.0@[i].redactions == prepared@[i].1,
{
}

proof fn lemma_gain_of_prefix(
    metas: Seq<FactMeta>,
    flags: Seq<(i64, bool)>,
    meta: FactMeta,
    flag: (i64, bool),
    c: Counter,
    k: int,
)
    requires
        0 <= k <= metas.len(),
        metas.len() == flags.len(),
    ensures
        gain(metas.push(meta), flags.push(flag), c, k) == gain(metas, flags, c, k),
        created_importances(metas.push(meta), flags.push(flag), k) == created_importances(
            metas,
            flags,
            k,
        ),
    decreases k,
{
    if k > 0 {
        lemma_gain_of_prefix(metas, flags, meta, flag, c, k - 1);
        assert(metas.push(meta)[k - 1] == metas[k - 1]);
        assert(flags.push(flag)[k - 1] == flags[k - 1]);
    }
}

/// One more stored fact adds to the tally what it stands for. A created fact counts
/// as created, under its type, with its secrets and its importance; one that
/// reinforced another counts as that and as nothing else. No tally counts
/// anything of the session itself, and no facts give an empty one.
pub proof fn each_stored_fact_adds_its_share(
    metas: &Vec<FactMeta>,
    flags: &Vec<(i64, bool)>,
    meta: FactMeta,
    flag: (i64, bool),
    more_metas: &Vec<FactMeta>,
    more_flags: &Vec<(i64, bool)>,
    r: BootstrapReport,
    s: BootstrapReport,
)
    requires
        more_metas@ == metas@.push(meta),
        more_flags@ == flags@.push(flag),
        call_ensures(
            tally_ingest,
            (metas, flags),
            Ok::<Option<BootstrapReport>, MemoryError>(Some(r)),
        ),
        call_ensures(
            tally_ingest,
            (more_metas, more_flags),
            Ok::<Option<BootstrapReport>, MemoryError>(Some(s)),
        ),
    ensures
        flag.1 ==> s.facts_reinforced == r.facts_reinforced + 1 && s.facts_created
            == r.facts_created && s.secrets_redacted == r.secrets_redacted
            && s.prewarm_metrics.episodic_count == r.prewarm_metrics.episodic_count
            && s.prewarm_metrics.semantic_count == r.prewarm_metrics.semantic_count
            && s.prewarm_metrics.procedural_count == r.prewarm_metrics.procedural_count
            && s.prewarm_metrics.importances@ == r.prewarm_metrics.importances@,
        !flag.1 ==> s.facts_reinforced == r.facts_reinforced && s.facts_created == r.facts_created
            + 1 && s.secrets_redacted == r.secrets_redacted + meta.redactions
            && s.prewarm_metrics.episodic_count == r.prewarm_metrics.episodic_count + (
        if meta.fact_type == FactType::Episodic {
            1int
        } else {
            0
        }) && s.prewarm_metrics.semantic_count == r.prewarm_metrics.semantic_count + (
        if meta.fact_type == FactType::Semantic {
            1int
        } else {
            0
        }) && s.prewarm_metrics.procedural_count == r.prewarm_metrics.procedural_count + (
        if meta.fact_type == FactType::Procedural {
            1int
        } else {
            0
        }) && s.prewarm_metrics.importances@ == r.prewarm_metrics.importances@.push(
            meta.base_importance,
        ),
        s.entries_parsed == 0 && s.entries_malformed == 0 && s.sessions_processed == 0
            && s.sessions_skipped == 0 && s.turns == 0 && s.candidates == 0 && s.events == 0
            && s.memory_files_parsed == 0 && s.memory_files_skipped == 0 && s.outcomes.success == 0
            && s.outcomes.failure == 0 && s.outcomes.indeterminate == 0,
        metas@.len() == 0 ==> r.facts_created == 0 && r.facts_reinforced == 0
            && r.secrets_redacted == 0 && r.prewarm_metrics.importances@.len() == 0
            && r.prewarm_metrics.episodic_count == 0 && r.prewarm_metrics.semantic_count == 0
            && r.prewarm_metrics.procedural_count == 0,
{
    let n = metas@.len() as int;
    assert forall|c: Counter| s.count(c) == r.count(c) + adds(meta, flag.1, c) by {
        lemma_gain_of_prefix(metas@, flags@, meta, flag, c, n);
        assert(s.count(c) == gain(more_metas@, more_flags@, c, n + 1));
        assert(r.count(c) == gain(metas@, flags@, c, n));
        assert(more_metas@[n] == meta && more_flags@[n] == flag);
    }
    lemma_gain_of_prefix(metas@, flags@, meta, flag, Counter::Turns, n);
    assert(more_metas@[n] == meta && more_flags@[n] == flag);
    lemma_quiet_counters(metas@, flags@, n);
    assert(s.count(Counter::EntriesParsed) == r.count(Counter::EntriesParsed) + adds(meta, flag.1, Counter::EntriesParsed));
    assert(s.count(Counter::EntriesMalformed) == r.count(Counter::EntriesMalformed) + adds(meta, flag.1, Counter::EntriesMalformed));
    assert(s.count(Counter::SessionsProcessed) == r.count(Counter::SessionsProcessed) + adds(meta, flag.1, Counter::SessionsProcessed));
    assert(s.count(Counter::SessionsSkipped) == r.count(Counter::SessionsSkipped) + adds(meta, flag.1, Counter::SessionsSkipped));
    assert(s.count(Counter::Turns) == r.count(Counter::Turns) + adds(meta, flag.1, Counter::Turns));
    assert(s.count(Counter::Candidates) == r.count(Counter::Candidates) + adds(meta, flag.1, Counter::Candidates));
    assert(s.count(Counter::Events) == r.count(Counter::Events) + adds(meta, flag.1, Counter::Events));
    assert(s.count(Counter::FactsCreated) == r.count(Counter::FactsCreated) + adds(meta, flag.1, Counter::FactsCreated));
    assert(s.count(Counter::FactsReinforced) == r.count(Counter::FactsReinforced) + adds(meta, flag.1, Counter::FactsReinforced));
    assert(s.count(Counter::SecretsRedacted) == r.count(Counter::SecretsRedacted) + adds(meta, flag.1, Counter::SecretsRedacted));
    assert(s.count(Counter::MemoryFilesParsed) == r.count(Counter::MemoryFilesParsed) + adds(meta, flag.1, Counter::MemoryFilesParsed));
    assert(s.count(Counter::MemoryFilesSkipped) == r.count(Counter::MemoryFilesSkipped) + adds(meta, flag.1, Counter::MemoryFilesSkipped));
    assert(s.count(Counter::OfOutcome(SessionOutcome::Success)) == r.count(Counter::OfOutcome(SessionOutcome::Success)) + adds(meta, flag.1, Counter::OfOutcome(SessionOutcome::Success)));
    assert(s.count(Counter::OfOutcome(SessionOutcome::Failure)) == r.count(Counter::OfOutcome(SessionOutcome::Failure)) + adds(meta, flag.1, Counter::OfOutcome(SessionOutcome::Failure)));
    assert(s.count(Counter::OfOutcome(SessionOutcome::Indeterminate)) == r.count(Counter::OfOutcome(SessionOutcome::Indeterminate)) + adds(meta, flag.1, Counter::OfOutcome(SessionOutcome::Indeterminate)));
    assert(s.count(Counter::OfType(FactType::Episodic)) == r.count(Counter::OfType(FactType::Episodic)) + adds(meta, flag.1, Counter::OfType(FactType::Episodic)));
    assert(s.count(Counter::OfType(FactType::Semantic)) == r.count(Counter::OfType(FactType::Semantic)) + adds(meta, flag.1, Counter::OfType(FactType::Semantic)));
    assert(s.count(Counter::OfType(FactType::Procedural)) == r.count(Counter::OfType(FactType::Procedural)) + adds(meta, flag.1, Counter::OfType(FactType::Procedural)));
    if n == 0 {
        assert(r.count(Counter::FactsCreated) == 0);
        assert(r.count(Counter::FactsReinforced) == 0);
        assert(r.count(Counter::SecretsRedacted) == 0);
        assert(r.count(Counter::OfType(FactType::Episodic)) == 0);
        assert(r.count(Counter::OfType(FactType::Semantic)) == 0);
        assert(r.count(Counter::OfType(FactType::Procedural)) == 0);
    }
}

proof fn lemma_quiet_counters(metas: Seq<FactMeta>, flags: Seq<(i64, bool)>, k: int)
    ensures
        gain(metas, flags, Counter::EntriesParsed, k) == 0,
        gain(metas, flags, Counter::EntriesMalformed, k) == 0,
        gain(metas, flags, Counter::SessionsProcessed, k) == 0,
        gain(metas, flags, Counter::SessionsSkipped, k) == 0,
        gain(metas, flags, Counter::Turns, k) == 0,
        gain(metas, flags, Counter::Candidates, k) == 0,
        gain(metas, flags, Counter::Events, k) == 0,
        gain(metas, flags, Counter::MemoryFilesParsed, k) == 0,
        gain(metas, flags, Counter::MemoryFilesSkipped, k) == 0,
        gain(metas, flags, Counter::OfOutcome(SessionOutcome::Success), k) == 0,
        gain(metas, flags, Counter::OfOutcome(SessionOutcome::Failure), k) == 0,
        gain(metas, flags, Counter::OfOutcome(SessionOutcome::Indeterminate), k) == 0,
    decreases k,
{
    if k > 0 {
        lemma_quiet_counters(metas, flags, k - 1);
    }
}

/// Facts and answers must be as many; else there is no tally.
pub proof fn tally_needs_an_answer_for_each_fact(
    metas: &Vec<FactMeta>,
    flags: &Vec<(i64, bool)>,
    r: Result<Option<BootstrapReport>, MemoryError>,
)
    requires
        call_ensures(tally_ingest, (metas, flags), r),
    ensures
        r is Ok <==> metas@.len() == flags@.len(),
        r matches Err(e) ==> e is Internal,
{
}

/// An imported session is reported as one processed session, with its entries, what
/// its preparation counted and the tally of its stored facts, each counter on its
/// own. A session that another import was quicker with is reported as skipped,
/// without anything of its preparation.
pub proof fn completed_session_reports_all_its_parts(
    parsed: usize,
    malformed: usize,
    prepared: &BootstrapReport,
    metas: &Vec<FactMeta>,
    outcome: &BootstrapIngestOutcome,
    tally: BootstrapReport,
    r: BootstrapReport,
)
    requires
        call_ensures(
            complete_session,
            (parsed, malformed, prepared, metas, outcome),
            Ok::<Option<BootstrapReport>, MemoryError>(Some(r)),
        ),
        *outcome matches BootstrapIngestOutcome::Ingested(flags) ==> call_ensures(
            tally_ingest,
            (metas, &flags),
            Ok::<Option<BootstrapReport>, MemoryError>(Some(tally)),
        ),
    ensures
        *outcome is Skipped ==> {
            &&& r.entries_parsed == parsed
            &&& r.entries_malformed == malformed
            &&& r.sessions_processed == 0
            &&& r.sessions_skipped == 1
            &&& r.turns == 0
            &&& r.candidates == 0
            &&& r.events == 0
            &&& r.facts_created == 0
            &&& r.facts_reinforced == 0
            &&& r.secrets_redacted == 0
            &&& r.memory_files_parsed == 0
            &&& r.memory_files_skipped == 0
            &&& r.outcomes.success == 0
            &&& r.outcomes.failure == 0
            &&& r.outcomes.indeterminate == 0
            &&& r.prewarm_metrics.episodic_count == 0
            &&& r.prewarm_metrics.semantic_count == 0
            &&& r.prewarm_metrics.procedural_count == 0
            &&& r.prewarm_metrics.importances@.len() == 0
        },
        *outcome is Ingested ==> {
            &&& r.entries_parsed == parsed + prepared.entries_parsed
            &&& r.entries_malformed == malformed + prepared.entries_malformed
            &&& r.sessions_processed == 1
            &&& r.sessions_skipped == prepared.sessions_skipped + tally.sessions_skipped
            &&& r.turns == prepared.turns + tally.turns
            &&& r.candidates == prepared.candidates + tally.candidates
            &&& r.events == prepared.events + tally.events
            &&& r.facts_created == prepared.facts_created + tally.facts_created
            &&& r.facts_reinforced == prepared.facts_reinforced + tally.facts_reinforced
            &&& r.secrets_redacted == prepared.secrets_redacted + tally.secrets_redacted
            &&& r.memory_files_parsed == prepared.memory_files_parsed + tally.memory_files_parsed
            &&& r.memory_files_skipped == prepared.memory_files_skipped + tally.memory_files_skipped
            &&& r.outcomes.success == prepared.outcomes.success + tally.outcomes.success
            &&& r.outcomes.failure == prepared.outcomes.failure + tally.outcomes.failure
            &&& r.outcomes.indeterminate == prepared.outcomes.indeterminate + tally.outcomes.indeterminate
            &&& r.prewarm_metrics.episodic_count == prepared.prewarm_metrics.episodic_count + tally.prewarm_metrics.episodic_count
            &&& r.prewarm_metrics.semantic_count == prepared.prewarm_metrics.semantic_count + tally.prewarm_metrics.semantic_count
            &&& r.prewarm_metrics.procedural_count == prepared.prewarm_metrics.procedural_count + tally.prewarm_metrics.procedural_count
            &&& r.prewarm_metrics.importances@ == prepared.prewarm_metrics.importances@
                + tally.prewarm_metrics.importances@
        },
{
    let n = metas@.len() as int;
    if *outcome is Ingested {
        let flags = outcome->Ingested_0;
        lemma_quiet_counters(metas@, flags@, n);
        assert forall|c: Counter| c !is SessionsProcessed implies #[trigger] r.count(c)
            == prepared.count(c) + tally.count(c) + (match c {
            Counter::EntriesParsed => parsed as int,
            Counter::EntriesMalformed => malformed as int,
            _ => 0,
        }) by {
            assert(r.count(c) == session_sum(parsed, malformed, *prepared, metas@, flags@, c));
            assert(tally.count(c) == gain(metas@, flags@, c, n));
        }
        assert(r.count(Counter::EntriesParsed) == r.entries_parsed);
        assert(r.count(Counter::EntriesMalformed) == r.entries_malformed);
        assert(r.count(Counter::SessionsProcessed) == r.sessions_processed);
        assert(r.count(Counter::SessionsSkipped) == r.sessions_skipped);
        assert(r.count(Counter::Turns) == r.turns);
        assert(r.count(Counter::Candidates) == r.candidates);
        assert(r.count(Counter::Events) == r.events);
        assert(r.count(Counter::FactsCreated) == r.facts_created);
        assert(r.count(Counter::FactsReinforced) == r.facts_reinforced);
        assert(r.count(Counter::SecretsRedacted) == r.secrets_redacted);
        assert(r.count(Counter::MemoryFilesParsed) == r.memory_files_parsed);
        assert(r.count(Counter::MemoryFilesSkipped) == r.memory_files_skipped);
        assert(r.count(Counter::OfOutcome(SessionOutcome::Success)) == r.outcomes.success);
        assert(r.count(Counter::OfOutcome(SessionOutcome::Failure)) == r.outcomes.failure);
        assert(r.count(Counter::OfOutcome(SessionOutcome::Indeterminate)) == r.outcomes.indeterminate);
        assert(r.count(Counter::OfType(FactType::Episodic)) == r.prewarm_metrics.episodic_count);
        assert(r.count(Counter::OfType(FactType::Semantic)) == r.prewarm_metrics.semantic_count);
        assert(r.count(Counter::OfType(FactType::Procedural)) == r.prewarm_metrics.procedural_count);
        assert(tally.count(Counter::EntriesParsed) == 0);
        assert(tally.count(Counter::EntriesMalformed) == 0);
    } else {
        assert(r.count(Counter::EntriesParsed) == r.entries_parsed);
        assert(r.count(Counter::EntriesMalformed) == r.entries_malformed);
        assert(r.count(Counter::SessionsProcessed) == r.sessions_processed);
        assert(r.count(Counter::SessionsSkipped) == r.sessions_skipped);
        assert(r.count(Counter::Turns) == r.turns);
        assert(r.count(Counter::Candidates) == r.candidates);
        assert(r.count(Counter::Events) == r.events);
        assert(r.count(Counter::FactsCreated) == r.facts_created);
        assert(r.count(Counter::FactsReinforced) == r.facts_reinforced);
        assert(r.count(Counter::SecretsRedacted) == r.secrets_redacted);
        assert(r.count(Counter::MemoryFilesParsed) == r.memory_files_parsed);
        assert(r.count(Counter::MemoryFilesSkipped) == r.memory_files_skipped);
        assert(r.count(Counter::OfOutcome(SessionOutcome::Success)) == r.outcomes.success);
        assert(r.count(Counter::OfOutcome(SessionOutcome::Failure)) == r.outcomes.failure);
        assert(r.count(Counter::OfOutcome(SessionOutcome::Indeterminate)) == r.outcomes.indeterminate);
        assert(r.count(Counter::OfType(FactType::Episodic)) == r.prewarm_metrics.episodic_count);
        assert(r.count(Counter::OfType(FactType::Semantic)) == r.prewarm_metrics.semantic_count);
        assert(r.count(Counter::OfType(FactType::Procedural)) == r.prewarm_metrics.procedural_count);
    }
}

/// A stored session is reported unless the store did not answer for each fact, or a
/// counter is full; a session that another import was quicker with always is.
pub proof fn stored_session_is_reported(
    parsed: usize,
    malformed: usize,
    prepared: &BootstrapReport,
    metas: &Vec<FactMeta>,
    outcome: &BootstrapIngestOutcome,
    r: Result<Option<BootstrapReport>, MemoryError>,
)
    requires
        call_ensures(complete_session, (parsed, malformed, prepared, metas, outcome), r),
    ensures
        *outcome is Skipped ==> r matches Ok(Some(_)),
        *outcome matches BootstrapIngestOutcome::Ingested(flags) ==> (r is Ok <==> flags@.len()
            == metas@.len()),
        r matches Ok(None) ==> exists|c: Counter| #[trigger]
            session_sum(parsed, malformed, *prepared, metas@, outcome->Ingested_0@, c) > usize::MAX,
{
}

/// A file of a directory that was reported adds its report to the directory's; one
/// that could not be read or imported leaves it as it is.
pub proof fn failed_file_leaves_no_trace(
    aggregate: &mut BootstrapReport,
    outcome: &FileOutcome,
)
    requires
        call_ensures(absorb_file, (aggregate, outcome), ()),
    ensures
        *outcome is Unreadable || *outcome is Failed ==> *final(aggregate) == *old(aggregate),
        *outcome matches FileOutcome::Reported(report) ==> {
            &&& final(aggregate).entries_parsed == old(aggregate).entries_parsed + report.entries_parsed
            &&& final(aggregate).entries_malformed == old(aggregate).entries_malformed + report.entries_malformed
            &&& final(aggregate).sessions_processed == old(aggregate).sessions_processed + report.sessions_processed
            &&& final(aggregate).sessions_skipped == old(aggregate).sessions_skipped + report.sessions_skipped
            &&& final(aggregate).turns == old(aggregate).turns + report.turns
            &&& final(aggregate).candidates == old(aggregate).candidates + report.candidates
            &&& final(aggregate).events == old(aggregate).events + report.events
            &&& final(aggregate).facts_created == old(aggregate).facts_created + report.facts_created
            &&& final(aggregate).facts_reinforced == old(aggregate).facts_reinforced + report.facts_reinforced
            &&& final(aggregate).secrets_redacted == old(aggregate).secrets_redacted + report.secrets_redacted
            &&& final(aggregate).memory_files_parsed == old(aggregate).memory_files_parsed + report.memory_files_parsed
            &&& final(aggregate).memory_files_skipped == old(aggregate).memory_files_skipped + report.memory_files_skipped
            &&& final(aggregate).outcomes.success == old(aggregate).outcomes.success + report.outcomes.success
            &&& final(aggregate).outcomes.failure == old(aggregate).outcomes.failure + report.outcomes.failure
            &&& final(aggregate).outcomes.indeterminate == old(aggregate).outcomes.indeterminate + report.outcomes.indeterminate
            &&& final(aggregate).prewarm_metrics.episodic_count == old(aggregate).prewarm_metrics.episodic_count + report.prewarm_metrics.episodic_count
            &&& final(aggregate).prewarm_metrics.semantic_count == old(aggregate).prewarm_metrics.semantic_count + report.prewarm_metrics.semantic_count
            &&& final(aggregate).prewarm_metrics.procedural_count == old(aggregate).prewarm_metrics.procedural_count + report.prewarm_metrics.procedural_count
        },
{
    if *outcome is Reported {
        let sum = *final(aggregate);
        let a = *old(aggregate);
        let b = outcome->Reported_0;
        assert(sum.count(Counter::EntriesParsed) == a.count(Counter::EntriesParsed) + b.count(Counter::EntriesParsed));
        assert(sum.count(Counter::EntriesMalformed) == a.count(Counter::EntriesMalformed) + b.count(Counter::EntriesMalformed));
        assert(sum.count(Counter::SessionsProcessed) == a.count(Counter::SessionsProcessed) + b.count(Counter::SessionsProcessed));
        assert(sum.count(Counter::SessionsSkipped) == a.count(Counter::SessionsSkipped) + b.count(Counter::SessionsSkipped));
        assert(sum.count(Counter::Turns) == a.count(Counter::Turns) + b.count(Counter::Turns));
        assert(sum.count(Counter::Candidates) == a.count(Counter::Candidates) + b.count(Counter::Candidates));
        assert(sum.count(Counter::Events) == a.count(Counter::Events) + b.count(Counter::Events));
        assert(sum.count(Counter::FactsCreated) == a.count(Counter::FactsCreated) + b.count(Counter::FactsCreated));
        assert(sum.count(Counter::FactsReinforced) == a.count(Counter::FactsReinforced) + b.count(Counter::FactsReinforced));
        assert(sum.count(Counter::SecretsRedacted) == a.count(Counter::SecretsRedacted) + b.count(Counter::SecretsRedacted));
        assert(sum.count(Counter::MemoryFilesParsed) == a.count(Counter::MemoryFilesParsed) + b.count(Counter::MemoryFilesParsed));
        assert(sum.count(Counter::MemoryFilesSkipped) == a.count(Counter::MemoryFilesSkipped) + b.count(Counter::MemoryFilesSkipped));
        assert(sum.count(Counter::OfOutcome(SessionOutcome::Success)) == a.count(Counter::OfOutcome(SessionOutcome::Success)) + b.count(Counter::OfOutcome(SessionOutcome::Success)));
        assert(sum.count(Counter::OfOutcome(SessionOutcome::Failure)) == a.count(Counter::OfOutcome(SessionOutcome::Failure)) + b.count(Counter::OfOutcome(SessionOutcome::Failure)));
        assert(sum.count(Counter::OfOutcome(SessionOutcome::Indeterminate)) == a.count(Counter::OfOutcome(SessionOutcome::Indeterminate)) + b.count(Counter::OfOutcome(SessionOutcome::Indeterminate)));
        assert(sum.count(Counter::OfType(FactType::Episodic)) == a.count(Counter::OfType(FactType::Episodic)) + b.count(Counter::OfType(FactType::Episodic)));
        assert(sum.count(Counter::OfType(FactType::Semantic)) == a.count(Counter::OfType(FactType::Semantic)) + b.count(Counter::OfType(FactType::Semantic)));
        assert(sum.count(Counter::OfType(FactType::Procedural)) == a.count(Counter::OfType(FactType::Procedural)) + b.count(Counter::OfType(FactType::Procedural)));
    }
}

/// A memory file counts once: as parsed when it gave a fact, else as skipped.
pub proof fn memory_file_counts_once(report: &mut BootstrapReport, parsed: bool)
    requires
        call_ensures(account_memory_file, (report, parsed), ()),
    ensures
        parsed ==> final(report).memory_files_parsed == old(report).memory_files_parsed + 1
            && final(report).memory_files_skipped == old(report).memory_files_skipped,
        !parsed ==> final(report).memory_files_skipped == old(report).memory_files_skipped + 1
            && final(report).memory_files_parsed == old(report).memory_files_parsed,
        final(report).facts_created == old(report).facts_created,
        final(report).facts_reinforced == old(report).facts_reinforced,
        final(report).sessions_processed == old(report).sessions_processed,
        final(report).secrets_redacted == old(report).secrets_redacted,
{
    let a = *old(report);
    let b = *final(report);
    assert(b.count(Counter::MemoryFilesParsed) == a.count(Counter::MemoryFilesParsed) + file_adds(
        parsed,
        Counter::MemoryFilesParsed,
    ));
    assert(b.count(Counter::MemoryFilesSkipped) == a.count(Counter::MemoryFilesSkipped)
        + file_adds(parsed, Counter::MemoryFilesSkipped));
    assert(b.count(Counter::FactsCreated) == a.count(Counter::FactsCreated) + file_adds(
        parsed,
        Counter::FactsCreated,
    ));
    assert(b.count(Counter::FactsReinforced) == a.count(Counter::FactsReinforced) + file_adds(
        parsed,
        Counter::FactsReinforced,
    ));
    assert(b.count(Counter::SessionsProcessed) == a.count(Counter::SessionsProcessed) + file_adds(
        parsed,
        Counter::SessionsProcessed,
    ));
    assert(b.count(Counter::SecretsRedacted) == a.count(Counter::SecretsRedacted) + file_adds(
        parsed,
        Counter::SecretsRedacted,
    ));
}

/// The fact of a memory file is entered as created, with its type, secrets and
/// importance, or as one that reinforced another, as the store says of it. Where
/// the store does not answer for the one fact, nothing is entered.
pub proof fn memory_fact_is_entered_as_the_store_says(
    report: &mut BootstrapReport,
    meta: FactMeta,
    outcome: &BootstrapIngestOutcome,
    r: Result<bool, MemoryError>,
)
    requires
        call_ensures(absorb_memory_file, (report, meta, outcome), r),
    ensures
        *outcome is Skipped ==> r is Err && *final(report) == *old(report),
        *outcome matches BootstrapIngestOutcome::Ingested(flags) ==> (r is Ok <==> flags@.len()
            == 1),
        r is Err ==> *final(report) == *old(report),
        r == Ok::<bool, MemoryError>(false) ==> *final(report) == *old(report),
        r == Ok::<bool, MemoryError>(true) && outcome->Ingested_0@[0].1 ==> {
            &&& final(report).facts_reinforced == old(report).facts_reinforced + 1
            &&& final(report).facts_created == old(report).facts_created
            &&& final(report).secrets_redacted == old(report).secrets_redacted
            &&& final(report).prewarm_metrics.importances@
                == old(report).prewarm_metrics.importances@
        },
        r == Ok::<bool, MemoryError>(true) && !outcome->Ingested_0@[0].1 ==> {
            &&& final(report).facts_created == old(report).facts_created + 1
            &&& final(report).facts_reinforced == old(report).facts_reinforced
            &&& final(report).secrets_redacted == old(report).secrets_redacted + meta.redactions
            &&& final(report).prewarm_metrics.episodic_count + final(report).prewarm_metrics.semantic_count + final(report).prewarm_metrics.procedural_count
                == old(report).prewarm_metrics.episodic_count + old(report).prewarm_metrics.semantic_count + old(report).prewarm_metrics.procedural_count + 1
            &&& final(report).prewarm_metrics.of_type(meta.fact_type) == old(report).prewarm_metrics.of_type(meta.fact_type) + 1
            &&& final(report).prewarm_metrics.importances@ == old(report).prewarm_metrics.importances@.push(meta.base_importance)
        },
{
    let a = *old(report);
    let b = *final(report);
    if r == Ok::<bool, MemoryError>(true) {
        let flag = outcome->Ingested_0@[0].1;
        assert(b.count(Counter::FactsCreated) == a.count(Counter::FactsCreated) + adds(meta, flag, Counter::FactsCreated));
        assert(b.count(Counter::FactsReinforced) == a.count(Counter::FactsReinforced) + adds(meta, flag, Counter::FactsReinforced));
        assert(b.count(Counter::SecretsRedacted) == a.count(Counter::SecretsRedacted) + adds(meta, flag, Counter::SecretsRedacted));
        assert(b.count(Counter::OfType(FactType::Episodic)) == a.count(Counter::OfType(FactType::Episodic)) + adds(meta, flag, Counter::OfType(FactType::Episodic)));
        assert(b.count(Counter::OfType(FactType::Semantic)) == a.count(Counter::OfType(FactType::Semantic)) + adds(meta, flag, Counter::OfType(FactType::Semantic)));
        assert(b.count(Counter::OfType(FactType::Procedural)) == a.count(Counter::OfType(FactType::Procedural)) + adds(meta, flag, Counter::OfType(FactType::Procedural)));
    }
}

/// The markers of a session are the import's own events of that session, of any type,
/// and no others.
pub proof fn marker_filter_admits_the_sessions_own(
    session_id: &str,
    filter: EventFilter,
    event: &NewEvent,
    r: bool,
)
    requires
        call_ensures(MemoryEngine::bootstrap_marker_filter, (session_id,), filter),
        call_ensures(EventFilter::admits, (&filter, event), r),
    ensures
        r <==> event.source@ == "bootstrap"@ && event.session_id is Some && event.session_id->0@
            == session_id@,
{
}

/// The end of a session sums up its entries, its preparation and its tally, counter by
/// counter, as one processed session. It can be reached just when every counter can
/// hold its sum.
pub proof fn end_of_a_session_sums_up(
    parsed: usize,
    malformed: usize,
    prepared: &BootstrapReport,
    tally: &BootstrapReport,
    fits: bool,
    r: BootstrapReport,
)
    requires
        call_ensures(can_finish_session, (parsed, malformed, prepared, tally), fits),
        call_ensures(finish_session, (parsed, malformed, prepared, tally), r),
    ensures
        r.entries_parsed == parsed + prepared.entries_parsed + tally.entries_parsed,
        r.entries_malformed == malformed + prepared.entries_malformed + tally.entries_malformed,
        r.sessions_processed == 1,
        r.sessions_skipped == prepared.sessions_skipped + tally.sessions_skipped,
        r.turns == prepared.turns + tally.turns,
        r.candidates == prepared.candidates + tally.candidates,
        r.events == prepared.events + tally.events,
        r.facts_created == prepared.facts_created + tally.facts_created,
        r.facts_reinforced == prepared.facts_reinforced + tally.facts_reinforced,
        r.secrets_redacted == prepared.secrets_redacted + tally.secrets_redacted,
        r.memory_files_parsed == prepared.memory_files_parsed + tally.memory_files_parsed,
        r.memory_files_skipped == prepared.memory_files_skipped + tally.memory_files_skipped,
        r.outcomes.success == prepared.outcomes.success + tally.outcomes.success,
        r.outcomes.failure == prepared.outcomes.failure + tally.outcomes.failure,
        r.outcomes.indeterminate == prepared.outcomes.indeterminate + tally.outcomes.indeterminate,
        r.prewarm_metrics.episodic_count == prepared.prewarm_metrics.episodic_count + tally.prewarm_metrics.episodic_count,
        r.prewarm_metrics.semantic_count == prepared.prewarm_metrics.semantic_count + tally.prewarm_metrics.semantic_count,
        r.prewarm_metrics.procedural_count == prepared.prewarm_metrics.procedural_count + tally.prewarm_metrics.procedural_count,
        r.prewarm_metrics.importances@ == prepared.prewarm_metrics.importances@
            + tally.prewarm_metrics.importances@,
        fits <==> {
            &&& parsed + prepared.entries_parsed + tally.entries_parsed <= usize::MAX
            &&& malformed + prepared.entries_malformed + tally.entries_malformed <= usize::MAX
            &&& prepared.sessions_processed + tally.sessions_processed <= usize::MAX
            &&& prepared.sessions_skipped + tally.sessions_skipped <= usize::MAX
            &&& prepared.turns + tally.turns <= usize::MAX
            &&& prepared.candidates + tally.candidates <= usize::MAX
            &&& prepared.events + tally.events <= usize::MAX
            &&& prepared.facts_created + tally.facts_created <= usize::MAX
            &&& prepared.facts_reinforced + tally.facts_reinforced <= usize::MAX
            &&& prepared.secrets_redacted + tally.secrets_redacted <= usize::MAX
            &&& prepared.memory_files_parsed + tally.memory_files_parsed <= usize::MAX
            &&& prepared.memory_files_skipped + tally.memory_files_skipped <= usize::MAX
            &&& prepared.outcomes.success + tally.outcomes.success <= usize::MAX
            &&& prepared.outcomes.failure + tally.outcomes.failure <= usize::MAX
            &&& prepared.outcomes.indeterminate + tally.outcomes.indeterminate <= usize::MAX
            &&& prepared.prewarm_metrics.episodic_count + tally.prewarm_metrics.episodic_count <= usize::MAX
            &&& prepared.prewarm_metrics.semantic_count + tally.prewarm_metrics.semantic_count <= usize::MAX
            &&& prepared.prewarm_metrics.procedural_count + tally.prewarm_metrics.procedural_count <= usize::MAX
        },
{
    assert(r.count(Counter::EntriesParsed) == r.entries_parsed);
    assert(r.count(Counter::EntriesMalformed) == r.entries_malformed);
    assert(r.count(Counter::SessionsProcessed) == r.sessions_processed);
    assert(r.count(Counter::SessionsSkipped) == r.sessions_skipped);
    assert(r.count(Counter::Turns) == r.turns);
    assert(r.count(Counter::Candidates) == r.candidates);
    assert(r.count(Counter::Events) == r.events);
    assert(r.count(Counter::FactsCreated) == r.facts_created);
    assert(r.count(Counter::FactsReinforced) == r.facts_reinforced);
    assert(r.count(Counter::SecretsRedacted) == r.secrets_redacted);
    assert(r.count(Counter::MemoryFilesParsed) == r.memory_files_parsed);
    assert(r.count(Counter::MemoryFilesSkipped) == r.memory_files_skipped);
    assert(r.count(Counter::OfOutcome(SessionOutcome::Success)) == r.outcomes.success);
    assert(r.count(Counter::OfOutcome(SessionOutcome::Failure)) == r.outcomes.failure);
    assert(r.count(Counter::OfOutcome(SessionOutcome::Indeterminate)) == r.outcomes.indeterminate);
    assert(r.count(Counter::OfType(FactType::Episodic)) == r.prewarm_metrics.episodic_count);
    assert(r.count(Counter::OfType(FactType::Semantic)) == r.prewarm_metrics.semantic_count);
    assert(r.count(Counter::OfType(FactType::Procedural)) == r.prewarm_metrics.procedural_count);
    if fits {
        assert(prepared.count(Counter::EntriesParsed) + tally.count(Counter::EntriesParsed) + parsed <= usize::MAX);
        assert(prepared.count(Counter::EntriesMalformed) + tally.count(Counter::EntriesMalformed) + malformed <= usize::MAX);
        assert(prepared.count(Counter::SessionsProcessed) + tally.count(Counter::SessionsProcessed) + 0 <= usize::MAX);
        assert(prepared.count(Counter::SessionsSkipped) + tally.count(Counter::SessionsSkipped) + 0 <= usize::MAX);
        assert(prepared.count(Counter::Turns) + tally.count(Counter::Turns) + 0 <= usize::MAX);
        assert(prepared.count(Counter::Candidates) + tally.count(Counter::Candidates) + 0 <= usize::MAX);
        assert(prepared.count(Counter::Events) + tally.count(Counter::Events) + 0 <= usize::MAX);
        assert(prepared.count(Counter::FactsCreated) + tally.count(Counter::FactsCreated) + 0 <= usize::MAX);
        assert(prepared.count(Counter::FactsReinforced) + tally.count(Counter::FactsReinforced) + 0 <= usize::MAX);
        assert(prepared.count(Counter::SecretsRedacted) + tally.count(Counter::SecretsRedacted) + 0 <= usize::MAX);
        assert(prepared.count(Counter::MemoryFilesParsed) + tally.count(Counter::MemoryFilesParsed) + 0 <= usize::MAX);
        assert(prepared.count(Counter::MemoryFilesSkipped) + tally.count(Counter::MemoryFilesSkipped) + 0 <= usize::MAX);
        assert(prepared.count(Counter::OfOutcome(SessionOutcome::Success)) + tally.count(Counter::OfOutcome(SessionOutcome::Success)) + 0 <= usize::MAX);
        assert(prepared.count(Counter::OfOutcome(SessionOutcome::Failure)) + tally.count(Counter::OfOutcome(SessionOutcome::Failure)) + 0 <= usize::MAX);
        assert(prepared.count(Counter::OfOutcome(SessionOutcome::Indeterminate)) + tally.count(Counter::OfOutcome(SessionOutcome::Indeterminate)) + 0 <= usize::MAX);
        assert(prepared.count(Counter::OfType(FactType::Episodic)) + tally.count(Counter::OfType(FactType::Episodic)) + 0 <= usize::MAX);
        assert(prepared.count(Counter::OfType(FactType::Semantic)) + tally.count(Counter::OfType(FactType::Semantic)) + 0 <= usize::MAX);
        assert(prepared.count(Counter::OfType(FactType::Procedural)) + tally.count(Counter::OfType(FactType::Procedural)) + 0 <= usize::MAX);
    } else {
        let c = choose|c: Counter| !(#[trigger] prepared.count(c) + tally.count(c) + (match c {
            Counter::EntriesParsed => parsed,
            Counter::EntriesMalformed => malformed,
            _ => 0,
        }) <= usize::MAX);
        match c {
            Counter::OfType(t) => match t {
                FactType::Episodic => {},
                FactType::Semantic => {},
                FactType::Procedural => {},
            },
            Counter::OfOutcome(o) => match o {
                SessionOutcome::Success => {},
                SessionOutcome::Failure => {},
                SessionOutcome::Indeterminate => {},
            },
            _ => {},
        }
    }
}

/// The fact of a memory file reinforced another just when the one answer of the store
/// says so. No answer, or more than one, is an error.
pub proof fn one_fact_has_one_answer(outcome: &BootstrapIngestOutcome, r: Result<bool, MemoryError>)
    requires
        call_ensures(memory_file_reinforced, (outcome,), r),
    ensures
        *outcome is Skipped ==> r is Err,
        *outcome matches BootstrapIngestOutcome::Ingested(flags) ==> (r is Ok <==> flags@.len()
            == 1),
        r matches Ok(reinforced) ==> reinforced == outcome->Ingested_0@[0].1,
        r matches Err(e) ==> e is Internal,
{
}

} // verus!
