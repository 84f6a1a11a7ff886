//! What a bootstrap run reports.

use crate::binary64::Binary64;
use crate::bootstrap::outcome::SessionOutcome;
use crate::types::facts::FactType;
use vstd::prelude::*;

verus! {

/// The facts that a run created, by type, with their importances.
#[derive(Debug, Clone, PartialEq, Eq)]
pub struct PrewarmMetrics {
    pub episodic_count: usize,
    pub semantic_count: usize,
    pub procedural_count: usize,
    /// The base importance of each created fact, in order.
    pub importances: Vec<Binary64>,
}

/// How the sessions of a run turned out, in numbers.
#[derive(Debug, Clone, Copy, PartialEq, Eq, Structural, Default)]
pub struct OutcomeTallies {
    pub success: usize,
    pub failure: usize,
    pub indeterminate: usize,
}

impl OutcomeTallies {
    /// The number of sessions with an outcome.
    pub open spec fn of(self, outcome: SessionOutcome) -> usize {
        match outcome {
            SessionOutcome::Success => self.success,
            SessionOutcome::Failure => self.failure,
            SessionOutcome::Indeterminate => self.indeterminate,
        }
    }

    /// Counts one more session with an outcome, if the counter can hold it, and
    /// says whether it could.
    pub fn record(&mut self, outcome: SessionOutcome) -> (counted: bool)
        ensures
            counted == (old(self).of(outcome) < usize::MAX),
            forall|o: SessionOutcome| #[trigger]
                final(self).of(o) == old(self).of(o) + (if counted && o == outcome {
                    1int
                } else {
                    0
                }),
    {
        match outcome {
            SessionOutcome::Success => {
                if self.success == usize::MAX {
                    return false;
                }
                self.success = self.success + 1;
            },
            SessionOutcome::Failure => {
                if self.failure == usize::MAX {
                    return false;
                }
                self.failure = self.failure + 1;
            },
            SessionOutcome::Indeterminate => {
                if self.indeterminate == usize::MAX {
                    return false;
                }
                self.indeterminate = self.indeterminate + 1;
            },
        }
        true
    }
}

/// What a run did, in numbers.
#[derive(Debug, Clone, PartialEq, Eq)]
pub struct BootstrapReport {
    pub entries_parsed: usize,
    pub entries_malformed: usize,
    pub sessions_processed: usize,
    pub sessions_skipped: usize,
    /// Conversation turns that were put together from the entries.
    pub turns: usize,
    /// Episodes that were looked at more closely.
    pub candidates: usize,
    /// Events that were prepared.
    pub events: usize,
    pub outcomes: OutcomeTallies,
    pub facts_created: usize,
    pub facts_reinforced: usize,
    pub secrets_redacted: usize,
    pub memory_files_parsed: usize,
    pub memory_files_skipped: usize,
    pub prewarm_metrics: PrewarmMetrics,
}

/// The counters of a report, by name.
pub enum Counter {
    EntriesParsed,
    EntriesMalformed,
    SessionsProcessed,
    SessionsSkipped,
    Turns,
    Candidates,
    Events,
    FactsCreated,
    FactsReinforced,
    SecretsRedacted,
    MemoryFilesParsed,
    MemoryFilesSkipped,
    OfType(FactType),
    OfOutcome(SessionOutcome),
}

impl PrewarmMetrics {
    /// The number of created facts of a type.
    pub open spec fn of_type(self, fact_type: FactType) -> usize {
        match fact_type {
            FactType::Episodic => self.episodic_count,
            FactType::Semantic => self.semantic_count,
            FactType::Procedural => self.procedural_count,
        }
    }

    /// The number of created facts.
    pub open spec fn total(self) -> int {
        self.episodic_count + self.semantic_count + self.procedural_count
    }

    /// The number of created facts.
    pub fn total_count(&self) -> (r: usize)
        requires
            self.total() <= usize::MAX,
        ensures
            r == self.total(),
    {
        self.episodic_count + self.semantic_count + self.procedural_count
    }
}

impl BootstrapReport {
    /// The value of a counter.
    pub open spec fn count(self, counter: Counter) -> usize {
        match counter {
            Counter::EntriesParsed => self.entries_parsed,
            Counter::EntriesMalformed => self.entries_malformed,
            Counter::SessionsProcessed => self.sessions_processed,
            Counter::SessionsSkipped => self.sessions_skipped,
            Counter::Turns => self.turns,
            Counter::Candidates => self.candidates,
            Counter::Events => self.events,
            Counter::FactsCreated => self.facts_created,
            Counter::FactsReinforced => self.facts_reinforced,
            Counter::SecretsRedacted => self.secrets_redacted,
            Counter::MemoryFilesParsed => self.memory_files_parsed,
            Counter::MemoryFilesSkipped => self.memory_files_skipped,
            Counter::OfType(fact_type) => self.prewarm_metrics.of_type(fact_type),
            Counter::OfOutcome(outcome) => self.outcomes.of(outcome),
        }
    }

    /// The importances of the created facts.
    pub open spec fn importances(self) -> Seq<Binary64> {
        self.prewarm_metrics.importances@
    }

    /// Nothing has been counted.
    pub open spec fn is_blank(self) -> bool {
        &&& forall|c: Counter| #[trigger] self.count(c) == 0
        &&& self.importances().len() == 0
    }

    /// Each counter can hold the sum of both reports.
    pub open spec fn sums_fit(self, other: BootstrapReport) -> bool {
        forall|c: Counter| #[trigger] self.count(c) + other.count(c) <= usize::MAX
    }

    /// The report is the sum of two others.
    pub open spec fn is_sum_of(self, a: BootstrapReport, b: BootstrapReport) -> bool {
        &&& forall|c: Counter| #[trigger] self.count(c) == a.count(c) + b.count(c)
        &&& self.importances() == a.importances() + b.importances()
    }

    /// Whether each counter can hold the sum of both reports.
    pub fn can_merge(&self, other: &BootstrapReport) -> (r: bool)
        ensures
            r == self.sums_fit(*other),
    {
        let fits = self.entries_parsed <= usize::MAX - other.entries_parsed
            && self.entries_malformed <= usize::MAX - other.entries_malformed
            && self.sessions_processed <= usize::MAX - other.sessions_processed
            && self.sessions_skipped <= usize::MAX - other.sessions_skipped && self.turns
            <= usize::MAX - other.turns && self.candidates <= usize::MAX - other.candidates
            && self.events <= usize::MAX - other.events && self.facts_created <= usize::MAX
            - other.facts_created && self.facts_reinforced <= usize::MAX - other.facts_reinforced
            && self.secrets_redacted <= usize::MAX - other.secrets_redacted
            && self.memory_files_parsed <= usize::MAX - other.memory_files_parsed
            && self.memory_files_skipped <= usize::MAX - other.memory_files_skipped
            && self.prewarm_metrics.episodic_count <= usize::MAX
            - other.prewarm_metrics.episodic_count && self.prewarm_metrics.semantic_count
            <= usize::MAX - other.prewarm_metrics.semantic_count
            && self.prewarm_metrics.procedural_count <= usize::MAX
            - other.prewarm_metrics.procedural_count && self.outcomes.success <= usize::MAX
            - other.outcomes.success && self.outcomes.failure <= usize::MAX
            - other.outcomes.failure && self.outcomes.indeterminate <= usize::MAX
            - other.outcomes.indeterminate;
        proof {
            if self.sums_fit(*other) {
                lemma_sums_fit_each(*self, *other);
            }
            if fits {
                assert forall|c: Counter| #[trigger] self.count(c) + other.count(c)
                    <= usize::MAX by {
                    match c {
                        Counter::OfType(fact_type) => match fact_type {
                            FactType::Episodic => {},
                            FactType::Semantic => {},
                            FactType::Procedural => {},
                        },
                        Counter::OfOutcome(o) => match o {
                            SessionOutcome::Success => {},
                            SessionOutcome::Failure => {},
                            SessionOutcome::Indeterminate => {},
                        },
                        _ => {},
                    }
                }
            }
        }
        fits
    }

    /// Adds another report to this one.
    pub fn merge(&mut self, other: &BootstrapReport)
        requires
            old(self).sums_fit(*other),
        ensures
            final(self).is_sum_of(*old(self), *other),
    {
        proof {
            lemma_sums_fit_each(*self, *other);
        }
        let ghost before = *self;
        self.entries_parsed = self.entries_parsed + other.entries_parsed;
        self.entries_malformed = self.entries_malformed + other.entries_malformed;
        self.sessions_processed = self.sessions_processed + other.sessions_processed;
        self.sessions_skipped = self.sessions_skipped + other.sessions_skipped;
        self.turns = self.turns + other.turns;
        self.candidates = self.candidates + other.candidates;
        self.events = self.events + other.events;
        self.outcomes.success = self.outcomes.success + other.outcomes.success;
        self.outcomes.failure = self.outcomes.failure + other.outcomes.failure;
        self.outcomes.indeterminate = self.outcomes.indeterminate + other.outcomes.indeterminate;
        self.facts_created = self.facts_created + other.facts_created;
        self.facts_reinforced = self.facts_reinforced + other.facts_reinforced;
        self.secrets_redacted = self.secrets_redacted + other.secrets_redacted;
        self.memory_files_parsed = self.memory_files_parsed + other.memory_files_parsed;
        self.memory_files_skipped = self.memory_files_skipped + other.memory_files_skipped;
        self.prewarm_metrics.episodic_count = self.prewarm_metrics.episodic_count
            + other.prewarm_metrics.episodic_count;
        self.prewarm_metrics.semantic_count = self.prewarm_metrics.semantic_count
            + other.prewarm_metrics.semantic_count;
        self.prewarm_metrics.procedural_count = self.prewarm_metrics.procedural_count
            + other.prewarm_metrics.procedural_count;
        let ghost counted = *self;
        let mut i: usize = 0;
        while i < other.prewarm_metrics.importances.len()
            invariant
                i <= other.importances().len(),
                self.importances() == before.importances() + other.importances().take(i as int),
                forall|c: Counter| #[trigger] self.count(c) == counted.count(c),
            decreases other.importances().len() - i,
        {
            let ghost here = *self;
            self.prewarm_metrics.importances.push(other.prewarm_metrics.importances[i]);
            assert forall|c: Counter| #[trigger] self.count(c) == counted.count(c) by {
                assert(here.count(c) == counted.count(c));
                match c {
                    Counter::OfType(fact_type) => match fact_type {
                        FactType::Episodic => {},
                        FactType::Semantic => {},
                        FactType::Procedural => {},
                    },
                    Counter::OfOutcome(o) => match o {
                        SessionOutcome::Success => {},
                        SessionOutcome::Failure => {},
                        SessionOutcome::Indeterminate => {},
                    },
                    _ => {},
                }
            }
            assert(self.importances() =~= before.importances() + other.importances().take(i + 1));
            i = i + 1;
        }
        assert(other.importances().take(i as int) =~= other.importances());
        assert forall|c: Counter| #[trigger] self.count(c) == before.count(c) + other.count(c) by {
            assert(self.count(c) == counted.count(c));
            match c {
                Counter::OfType(fact_type) => match fact_type {
                    FactType::Episodic => {},
                    FactType::Semantic => {},
                    FactType::Procedural => {},
                },
                Counter::OfOutcome(o) => match o {
                    SessionOutcome::Success => {},
                    SessionOutcome::Failure => {},
                    SessionOutcome::Indeterminate => {},
                },
                _ => {},
            }
        }
    }
}

impl Default for PrewarmMetrics {
    fn default() -> (r: PrewarmMetrics)
        ensures
            forall|t: FactType| #[trigger] r.of_type(t) == 0,
            r.importances@.len() == 0,
    {
        PrewarmMetrics {
            episodic_count: 0,
            semantic_count: 0,
            procedural_count: 0,
            importances: Vec::new(),
        }
    }
}

impl Default for BootstrapReport {
    fn default() -> (r: BootstrapReport)
        ensures
            r.is_blank(),
    {
        BootstrapReport {
            entries_parsed: 0,
            entries_malformed: 0,
            sessions_processed: 0,
            sessions_skipped: 0,
            turns: 0,
            candidates: 0,
            events: 0,
            outcomes: OutcomeTallies { success: 0, failure: 0, indeterminate: 0 },
            facts_created: 0,
            facts_reinforced: 0,
            secrets_redacted: 0,
            memory_files_parsed: 0,
            memory_files_skipped: 0,
            prewarm_metrics: PrewarmMetrics::default(),
        }
    }
}

proof fn lemma_sums_fit_each(a: BootstrapReport, b: BootstrapReport)
    requires
        a.sums_fit(b),
    ensures
        a.entries_parsed + b.entries_parsed <= usize::MAX,
        a.entries_malformed + b.entries_malformed <= usize::MAX,
        a.sessions_processed + b.sessions_processed <= usize::MAX,
        a.sessions_skipped + b.sessions_skipped <= usize::MAX,
        a.turns + b.turns <= usize::MAX,
        a.candidates + b.candidates <= usize::MAX,
        a.events + b.events <= usize::MAX,
        a.outcomes.success + b.outcomes.success <= usize::MAX,
        a.outcomes.failure + b.outcomes.failure <= usize::MAX,
        a.outcomes.indeterminate + b.outcomes.indeterminate <= usize::MAX,
        a.facts_created + b.facts_created <= usize::MAX,
        a.facts_reinforced + b.facts_reinforced <= usize::MAX,
        a.secrets_redacted + b.secrets_redacted <= usize::MAX,
        a.memory_files_parsed + b.memory_files_parsed <= usize::MAX,
        a.memory_files_skipped + b.memory_files_skipped <= usize::MAX,
        a.prewarm_metrics.episodic_count + b.prewarm_metrics.episodic_count <= usize::MAX,
        a.prewarm_metrics.semantic_count + b.prewarm_metrics.semantic_count <= usize::MAX,
        a.prewarm_metrics.procedural_count + b.prewarm_metrics.procedural_count <= usize::MAX,
{
    assert(a.count(Counter::EntriesParsed) + b.count(Counter::EntriesParsed) <= usize::MAX);
    assert(a.count(Counter::EntriesMalformed) + b.count(Counter::EntriesMalformed) <= usize::MAX);
    assert(a.count(Counter::SessionsProcessed) + b.count(Counter::SessionsProcessed)
        <= usize::MAX);
    assert(a.count(Counter::SessionsSkipped) + b.count(Counter::SessionsSkipped) <= usize::MAX);
    assert(a.count(Counter::Turns) + b.count(Counter::Turns) <= usize::MAX);
    assert(a.count(Counter::Candidates) + b.count(Counter::Candidates) <= usize::MAX);
    assert(a.count(Counter::Events) + b.count(Counter::Events) <= usize::MAX);
    assert(a.count(Counter::OfOutcome(SessionOutcome::Success)) + b.count(
        Counter::OfOutcome(SessionOutcome::Success),
    ) <= usize::MAX);
    assert(a.count(Counter::OfOutcome(SessionOutcome::Failure)) + b.count(
        Counter::OfOutcome(SessionOutcome::Failure),
    ) <= usize::MAX);
    assert(a.count(Counter::OfOutcome(SessionOutcome::Indeterminate)) + b.count(
        Counter::OfOutcome(SessionOutcome::Indeterminate),
    ) <= usize::MAX);
    assert(a.count(Counter::FactsCreated) + b.count(Counter::FactsCreated) <= usize::MAX);
    assert(a.count(Counter::FactsReinforced) + b.count(Counter::FactsReinforced) <= usize::MAX);
    assert(a.count(Counter::SecretsRedacted) + b.count(Counter::SecretsRedacted) <= usize::MAX);
    assert(a.count(Counter::MemoryFilesParsed) + b.count(Counter::MemoryFilesParsed)
        <= usize::MAX);
    assert(a.count(Counter::MemoryFilesSkipped) + b.count(Counter::MemoryFilesSkipped)
        <= usize::MAX);
    assert(a.count(Counter::OfType(FactType::Episodic)) + b.count(
        Counter::OfType(FactType::Episodic),
    ) <= usize::MAX);
    assert(a.count(Counter::OfType(FactType::Semantic)) + b.count(
        Counter::OfType(FactType::Semantic),
    ) <= usize::MAX);
    assert(a.count(Counter::OfType(FactType::Procedural)) + b.count(
        Counter::OfType(FactType::Procedural),
    ) <= usize::MAX);
}

/// Merging reports in any grouping gives the same sums.
pub proof fn merging_is_associative(
    a: BootstrapReport,
    b: BootstrapReport,
    c: BootstrapReport,
    ab: BootstrapReport,
    bc: BootstrapReport,
    left: BootstrapReport,
    right: BootstrapReport,
)
    requires
        ab.is_sum_of(a, b),
        left.is_sum_of(ab, c),
        bc.is_sum_of(b, c),
        right.is_sum_of(a, bc),
    ensures
        forall|x: Counter| #[trigger] left.count(x) == right.count(x),
        left.importances() == right.importances(),
{
    assert forall|x: Counter| #[trigger] left.count(x) == right.count(x) by {
        assert(ab.count(x) == a.count(x) + b.count(x));
        assert(bc.count(x) == b.count(x) + c.count(x));
        assert(right.count(x) == a.count(x) + bc.count(x));
    }
    assert(left.importances() =~= right.importances());
}

/// Every counter has a name, and the names stand for different counters: a report
/// is known by what its named counters say.
pub proof fn counters_are_the_fields(r: BootstrapReport)
    ensures
        r.count(Counter::EntriesParsed) == r.entries_parsed,
        r.count(Counter::EntriesMalformed) == r.entries_malformed,
        r.count(Counter::SessionsProcessed) == r.sessions_processed,
        r.count(Counter::SessionsSkipped) == r.sessions_skipped,
        r.count(Counter::Turns) == r.turns,
        r.count(Counter::Candidates) == r.candidates,
        r.count(Counter::Events) == r.events,
        r.count(Counter::FactsCreated) == r.facts_created,
        r.count(Counter::FactsReinforced) == r.facts_reinforced,
        r.count(Counter::SecretsRedacted) == r.secrets_redacted,
        r.count(Counter::MemoryFilesParsed) == r.memory_files_parsed,
        r.count(Counter::MemoryFilesSkipped) == r.memory_files_skipped,
        r.count(Counter::OfOutcome(SessionOutcome::Success)) == r.outcomes.success,
        r.count(Counter::OfOutcome(SessionOutcome::Failure)) == r.outcomes.failure,
        r.count(Counter::OfOutcome(SessionOutcome::Indeterminate)) == r.outcomes.indeterminate,
        r.count(Counter::OfType(FactType::Episodic)) == r.prewarm_metrics.episodic_count,
        r.count(Counter::OfType(FactType::Semantic)) == r.prewarm_metrics.semantic_count,
        r.count(Counter::OfType(FactType::Procedural)) == r.prewarm_metrics.procedural_count,
        r.importances() == r.prewarm_metrics.importances@,
{
}

/// Merging adds every counter of the one report to the same counter of the other,
/// and puts the importances behind those that are there.
pub proof fn merging_adds_every_counter(report: &mut BootstrapReport, other: &BootstrapReport)
    requires
        call_ensures(BootstrapReport::merge, (report, other), ()),
    ensures
        final(report).entries_parsed == old(report).entries_parsed + other.entries_parsed,
        final(report).entries_malformed == old(report).entries_malformed + other.entries_malformed,
        final(report).sessions_processed == old(report).sessions_processed + other.sessions_processed,
        final(report).sessions_skipped == old(report).sessions_skipped + other.sessions_skipped,
        final(report).turns == old(report).turns + other.turns,
        final(report).candidates == old(report).candidates + other.candidates,
        final(report).events == old(report).events + other.events,
        final(report).facts_created == old(report).facts_created + other.facts_created,
        final(report).facts_reinforced == old(report).facts_reinforced + other.facts_reinforced,
        final(report).secrets_redacted == old(report).secrets_redacted + other.secrets_redacted,
        final(report).memory_files_parsed == old(report).memory_files_parsed + other.memory_files_parsed,
        final(report).memory_files_skipped == old(report).memory_files_skipped + other.memory_files_skipped,
        final(report).outcomes.success == old(report).outcomes.success + other.outcomes.success,
        final(report).outcomes.failure == old(report).outcomes.failure + other.outcomes.failure,
        final(report).outcomes.indeterminate == old(report).outcomes.indeterminate + other.outcomes.indeterminate,
        final(report).prewarm_metrics.episodic_count == old(report).prewarm_metrics.episodic_count + other.prewarm_metrics.episodic_count,
        final(report).prewarm_metrics.semantic_count == old(report).prewarm_metrics.semantic_count + other.prewarm_metrics.semantic_count,
        final(report).prewarm_metrics.procedural_count == old(report).prewarm_metrics.procedural_count + other.prewarm_metrics.procedural_count,
        final(report).prewarm_metrics.importances@ == old(report).prewarm_metrics.importances@
            + other.prewarm_metrics.importances@,
{
    let sum = *final(report);
    let a = *old(report);
    let b = *other;
    assert(sum.count(Counter::EntriesParsed) == a.count(Counter::EntriesParsed) + b.count(Counter::EntriesParsed));
    assert(sum.count(Counter::EntriesMalformed) == a.count(Counter::EntriesMalformed) + b.count(Counter::EntriesMalformed));
    assert(sum.count(Counter::SessionsProcessed) == a.count(Counter::SessionsProcessed) + b.count(Counter::SessionsProcessed));
    assert(sum.count(Counter::SessionsSkipped) == a.count(Counter::SessionsSkipped) + b.count(Counter::SessionsSkipped));
    assert(sum.count(Counter::Turns) == a.count(Counter::Turns) + b.count(Counter::Turns));
    assert(sum.count(Counter::Candidates) == a.count(Counter::Candidates) + b.count(Counter::Candidates));
    assert(sum.count(Counter::Events) == a.count(Counter::Events) + b.count(Counter::Events));
    assert(sum.count(Counter::FactsCreated) == a.count(Counter::FactsCreated) + b.count(Counter::FactsCreated));
    assert(sum.count(Counter::FactsReinforced) == a.count(Counter::FactsReinforced) + b.count(Counter::FactsReinforced));
    assert(sum.count(Counter::SecretsRedacted) == a.count(Counter::SecretsRedacted) + b.count(Counter::SecretsRedacted));
    assert(sum.count(Counter::MemoryFilesParsed) == a.count(Counter::MemoryFilesParsed) + b.count(Counter::MemoryFilesParsed));
    assert(sum.count(Counter::MemoryFilesSkipped) == a.count(Counter::MemoryFilesSkipped) + b.count(Counter::MemoryFilesSkipped));
    assert(sum.count(Counter::OfOutcome(SessionOutcome::Success)) == a.count(Counter::OfOutcome(SessionOutcome::Success)) + b.count(Counter::OfOutcome(SessionOutcome::Success)));
    assert(sum.count(Counter::OfOutcome(SessionOutcome::Failure)) == a.count(Counter::OfOutcome(SessionOutcome::Failure)) + b.count(Counter::OfOutcome(SessionOutcome::Failure)));
    assert(sum.count(Counter::OfOutcome(SessionOutcome::Indeterminate)) == a.count(Counter::OfOutcome(SessionOutcome::Indeterminate)) + b.count(Counter::OfOutcome(SessionOutcome::Indeterminate)));
    assert(sum.count(Counter::OfType(FactType::Episodic)) == a.count(Counter::OfType(FactType::Episodic)) + b.count(Counter::OfType(FactType::Episodic)));
    assert(sum.count(Counter::OfType(FactType::Semantic)) == a.count(Counter::OfType(FactType::Semantic)) + b.count(Counter::OfType(FactType::Semantic)));
    assert(sum.count(Counter::OfType(FactType::Procedural)) == a.count(Counter::OfType(FactType::Procedural)) + b.count(Counter::OfType(FactType::Procedural)));
}

/// Two reports can be merged just when every counter can hold the sum.
pub proof fn merging_needs_room_in_every_counter(
    report: &BootstrapReport,
    other: &BootstrapReport,
    r: bool,
)
    requires
        call_ensures(BootstrapReport::can_merge, (report, other), r),
    ensures
        r <==> {
            &&& report.entries_parsed + other.entries_parsed <= usize::MAX
            &&& report.entries_malformed + other.entries_malformed <= usize::MAX
            &&& report.sessions_processed + other.sessions_processed <= usize::MAX
            &&& report.sessions_skipped + other.sessions_skipped <= usize::MAX
            &&& report.turns + other.turns <= usize::MAX
            &&& report.candidates + other.candidates <= usize::MAX
            &&& report.events + other.events <= usize::MAX
            &&& report.facts_created + other.facts_created <= usize::MAX
            &&& report.facts_reinforced + other.facts_reinforced <= usize::MAX
            &&& report.secrets_redacted + other.secrets_redacted <= usize::MAX
            &&& report.memory_files_parsed + other.memory_files_parsed <= usize::MAX
            &&& report.memory_files_skipped + other.memory_files_skipped <= usize::MAX
            &&& report.outcomes.success + other.outcomes.success <= usize::MAX
            &&& report.outcomes.failure + other.outcomes.failure <= usize::MAX
            &&& report.outcomes.indeterminate + other.outcomes.indeterminate <= usize::MAX
            &&& report.prewarm_metrics.episodic_count + other.prewarm_metrics.episodic_count <= usize::MAX
            &&& report.prewarm_metrics.semantic_count + other.prewarm_metrics.semantic_count <= usize::MAX
            &&& report.prewarm_metrics.procedural_count + other.prewarm_metrics.procedural_count <= usize::MAX
        },
{
    let a = *report;
    let b = *other;
    if a.sums_fit(b) {
        lemma_sums_fit_each(a, b);
    }
    if {
        &&& a.entries_parsed + b.entries_parsed <= usize::MAX
        &&& a.entries_malformed + b.entries_malformed <= usize::MAX
        &&& a.sessions_processed + b.sessions_processed <= usize::MAX
        &&& a.sessions_skipped + b.sessions_skipped <= usize::MAX
        &&& a.turns + b.turns <= usize::MAX
        &&& a.candidates + b.candidates <= usize::MAX
        &&& a.events + b.events <= usize::MAX
        &&& a.facts_created + b.facts_created <= usize::MAX
        &&& a.facts_reinforced + b.facts_reinforced <= usize::MAX
        &&& a.secrets_redacted + b.secrets_redacted <= usize::MAX
        &&& a.memory_files_parsed + b.memory_files_parsed <= usize::MAX
        &&& a.memory_files_skipped + b.memory_files_skipped <= usize::MAX
        &&& a.outcomes.success + b.outcomes.success <= usize::MAX
        &&& a.outcomes.failure + b.outcomes.failure <= usize::MAX
        &&& a.outcomes.indeterminate + b.outcomes.indeterminate <= usize::MAX
        &&& a.prewarm_metrics.episodic_count + b.prewarm_metrics.episodic_count <= usize::MAX
        &&& a.prewarm_metrics.semantic_count + b.prewarm_metrics.semantic_count <= usize::MAX
        &&& a.prewarm_metrics.procedural_count + b.prewarm_metrics.procedural_count <= usize::MAX
    } {
        assert forall|c: Counter| #[trigger] a.count(c) + b.count(c) <= usize::MAX by {
            match c {
                Counter::OfType(t) => match t {
                    FactType::Episodic => {},
                    FactType::Semantic => {},
                    FactType::Procedural => {},
                },
                Counter::OfOutcome(o) => match o {
                    SessionOutcome::Success => {},
                    SessionOutcome::Failure => {},
                    SessionOutcome::Indeterminate => {},
                },
                _ => {},
            }
        }
    }
}

/// A fresh report has counted nothing.
pub proof fn fresh_report_has_counted_nothing(r: BootstrapReport)
    requires
        call_ensures(BootstrapReport::default, (), r),
    ensures
        r.entries_parsed == 0,
        r.entries_malformed == 0,
        r.sessions_processed == 0,
        r.sessions_skipped == 0,
        r.turns == 0,
        r.candidates == 0,
        r.events == 0,
        r.facts_created == 0,
        r.facts_reinforced == 0,
        r.secrets_redacted == 0,
        r.memory_files_parsed == 0,
        r.memory_files_skipped == 0,
        r.outcomes.success == 0,
        r.outcomes.failure == 0,
        r.outcomes.indeterminate == 0,
        r.prewarm_metrics.episodic_count == 0,
        r.prewarm_metrics.semantic_count == 0,
        r.prewarm_metrics.procedural_count == 0,
        r.prewarm_metrics.importances@.len() == 0,
{
    assert(r.count(Counter::EntriesParsed) == 0);
    assert(r.count(Counter::EntriesMalformed) == 0);
    assert(r.count(Counter::SessionsProcessed) == 0);
    assert(r.count(Counter::SessionsSkipped) == 0);
    assert(r.count(Counter::Turns) == 0);
    assert(r.count(Counter::Candidates) == 0);
    assert(r.count(Counter::Events) == 0);
    assert(r.count(Counter::FactsCreated) == 0);
    assert(r.count(Counter::FactsReinforced) == 0);
    assert(r.count(Counter::SecretsRedacted) == 0);
    assert(r.count(Counter::MemoryFilesParsed) == 0);
    assert(r.count(Counter::MemoryFilesSkipped) == 0);
    assert(r.count(Counter::OfOutcome(SessionOutcome::Success)) == 0);
    assert(r.count(Counter::OfOutcome(SessionOutcome::Failure)) == 0);
    assert(r.count(Counter::OfOutcome(SessionOutcome::Indeterminate)) == 0);
    assert(r.count(Counter::OfType(FactType::Episodic)) == 0);
    assert(r.count(Counter::OfType(FactType::Semantic)) == 0);
    assert(r.count(Counter::OfType(FactType::Procedural)) == 0);
}

/// A session with an outcome is counted once, under that outcome and no other, as
/// long as its counter has room.
pub proof fn outcome_is_counted_once(
    tallies: &mut OutcomeTallies,
    outcome: SessionOutcome,
    counted: bool,
)
    requires
        call_ensures(OutcomeTallies::record, (tallies, outcome), counted),
    ensures
        counted && outcome == SessionOutcome::Success ==> final(tallies).success
            == old(tallies).success + 1,
        counted && outcome == SessionOutcome::Failure ==> final(tallies).failure
            == old(tallies).failure + 1,
        counted && outcome == SessionOutcome::Indeterminate ==> final(tallies).indeterminate
            == old(tallies).indeterminate + 1,
        counted ==> final(tallies).success + final(tallies).failure + final(tallies).indeterminate
            == old(tallies).success + old(tallies).failure + old(tallies).indeterminate + 1,
        !counted ==> *final(tallies) == *old(tallies),
        outcome != SessionOutcome::Success ==> final(tallies).success == old(tallies).success,
        outcome != SessionOutcome::Failure ==> final(tallies).failure == old(tallies).failure,
        outcome != SessionOutcome::Indeterminate ==> final(tallies).indeterminate
            == old(tallies).indeterminate,
        old(tallies).success < usize::MAX && old(tallies).failure < usize::MAX
            && old(tallies).indeterminate < usize::MAX ==> counted,
{
    let a = *old(tallies);
    let b = *final(tallies);
    assert(b.of(SessionOutcome::Success) == a.of(SessionOutcome::Success) + (if counted
        && SessionOutcome::Success == outcome {
        1int
    } else {
        0
    }));
    assert(b.of(SessionOutcome::Failure) == a.of(SessionOutcome::Failure) + (if counted
        && SessionOutcome::Failure == outcome {
        1int
    } else {
        0
    }));
    assert(b.of(SessionOutcome::Indeterminate) == a.of(SessionOutcome::Indeterminate) + (
    if counted && SessionOutcome::Indeterminate == outcome {
        1int
    } else {
        0
    }));
}

/// The total counts every created fact once, under its type.
pub proof fn total_is_the_sum_of_the_types(metrics: &PrewarmMetrics, r: usize)
    requires
        call_ensures(PrewarmMetrics::total_count, (metrics,), r),
    ensures
        r == metrics.episodic_count + metrics.semantic_count + metrics.procedural_count,
{
}

} // verus!
