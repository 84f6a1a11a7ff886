//! Consolidation: dedup, cluster summaries, one global summary.
//!
//! A run has three phases. The store is read into a [`Snapshot`]; a
//! [`ConsolidationPlan`] is computed from it without touching the store; the
//! plan is applied in one transaction. Between the first phase and the last
//! other writers may expire facts, and the last phase copes with that.

use crate::binary64::Binary64;
use crate::engine::state::MemoryEngine;
use crate::error::{ConflictError, MemoryError, MigrationError};
use crate::time::{format_rfc3339, parse_rfc3339, utc_now, Timestamp};
use crate::types::cognitive::EmbeddingFingerprint;
use crate::types::consolidation::{
    ConsolidationPlan, ConsolidationStats, DedupComputed, Expiry, NewSummary, Snapshot,
};
use crate::types::facts::Fact;
use std::collections::HashSet;
use vstd::prelude::*;

verus! {

/// With more active facts than this, dedup is skipped and tried again later.
pub const MAX_FACTS_FOR_DEDUP: usize = 50_000;

/// With more active facts than this, clustering is skipped and the summaries of
/// an earlier run stay.
pub const MAX_FACTS_FOR_CLUSTERING: usize = 50_000;

impl MemoryEngine {
    /// Starts a run, before anything is read: the engine must not wait to be
    /// reopened, and the settings must be valid. `settings` is what their
    /// validation said.
    pub fn begin_consolidation(&self, settings: Result<(), ConflictError>) -> (r: Result<
        (),
        MemoryError,
    >)
        ensures
            r is Ok <==> !self.fenced() && settings is Ok,
            r matches Err(e) ==> if self.fenced() {
                e == (MemoryError::EmbeddingReopenRequired { new_dim: self.reopen_required })
            } else {
                settings matches Err(breach) && e == MemoryError::Conflict(breach)
            },
    {
        self.ensure_open()?;
        match settings {
            Ok(()) => Ok(()),
            Err(breach) => Err(MemoryError::Conflict(breach)),
        }
    }
}

/// The watermark cannot be read, for this reason.
pub open spec fn unreadable_watermark(text: Seq<char>, reason: Seq<char>) -> bool {
    crate::time::rfc3339_instant(text) matches Err(e) && e == reason
}

/// The text that the last run left in the store, if any, says that it was at
/// `last`.
pub open spec fn watermark_says(raw: Option<String>, last: Option<Timestamp>) -> bool {
    match (raw, last) {
        (None, None) => true,
        (Some(text), Some(t)) => t.valid() && crate::time::names_instant(text@, t),
        _ => false,
    }
}

/// The text that the last run left in the store can be read, or there is none.
pub open spec fn watermark_is_readable(raw: Option<String>) -> bool {
    raw matches Some(text) ==> crate::time::rfc3339_instant(text@) is Ok
}

/// The error says why the watermark cannot be read.
pub open spec fn says_bad_watermark(e: MemoryError, raw: Option<String>) -> bool {
    raw matches Some(text) && (e matches MemoryError::Migration(
        MigrationError::Incompatible(message),
    ) && exists|reason: Seq<char>| #[trigger]
        unreadable_watermark(text@, reason) && message@ == "invalid last_consolidated_at: "@
            + reason)
}

/// When the last run consolidated, from the text that it left in the store.
pub fn read_watermark(raw: &Option<String>) -> (r: Result<Option<Timestamp>, MemoryError>)
    ensures
        r is Ok <==> watermark_is_readable(*raw),
        match r {
            Ok(last) => watermark_says(*raw, last),
            Err(e) => says_bad_watermark(e, *raw),
        },
{
    match raw {
        None => Ok(None),
        Some(text) => match parse_rfc3339(text.as_str()) {
            Ok(t) => Ok(Some(t)),
            Err(reason) => {
                let mut message = "invalid last_consolidated_at: ".to_owned();
                message.append(reason.as_str());
                assert(unreadable_watermark(text@, reason@));
                Err(MemoryError::Migration(MigrationError::Incompatible(message)))
            },
        },
    }
}

/// How the read phase goes on once the active facts are counted.
#[derive(Debug, Clone, PartialEq)]
pub enum SnapshotStep {
    /// The snapshot is complete; the facts need not be loaded.
    Skip(Snapshot),
    /// The active facts must be loaded, and the snapshot made with
    /// [`loaded_snapshot`].
    LoadActive { last: Option<Timestamp>, now: Timestamp },
}

impl SnapshotStep {
    /// When the last run consolidated.
    pub open spec fn last(self) -> Option<Timestamp> {
        match self {
            SnapshotStep::Skip(s) => s.last,
            SnapshotStep::LoadActive { last, .. } => last,
        }
    }

    /// The time of this run.
    pub open spec fn now(self) -> Timestamp {
        match self {
            SnapshotStep::Skip(s) => s.now,
            SnapshotStep::LoadActive { now, .. } => now,
        }
    }

    /// The step is the one that this many active facts call for: they are loaded
    /// unless there are too many for either pass.
    pub open spec fn suits(self, active_count: nat, max_dedup: nat, max_cluster: nat) -> bool {
        match self {
            SnapshotStep::Skip(s) => {
                &&& active_count > max_dedup
                &&& active_count > max_cluster
                &&& s.over_both_caps
                &&& s.active_facts@.len() == 0
            },
            SnapshotStep::LoadActive { .. } => active_count <= max_dedup || active_count
                <= max_cluster,
        }
    }
}

/// Decides by the number of active facts whether they must be loaded: not when
/// there are too many for either pass.
pub fn snapshot_step(
    last: Option<Timestamp>,
    now: Timestamp,
    active_count: usize,
    max_dedup_facts: usize,
    max_cluster_facts: usize,
) -> (r: SnapshotStep)
    ensures
        r.suits(active_count as nat, max_dedup_facts as nat, max_cluster_facts as nat),
        r.last() == last,
        r.now() == now,
{
    if active_count > max_dedup_facts && active_count > max_cluster_facts {
        SnapshotStep::Skip(
            Snapshot { active_facts: Vec::new(), last, now, over_both_caps: true },
        )
    } else {
        SnapshotStep::LoadActive { last, now }
    }
}

/// The read phase of a run that starts now: the settings must be valid, and the
/// watermark readable if there is one; then the number of active facts decides
/// whether they must be loaded. Settings that are not valid come before
/// everything else.
pub fn load_snapshot_capped(
    settings: Result<(), ConflictError>,
    raw_watermark: &Option<String>,
    active_count: usize,
    max_dedup_facts: usize,
    max_cluster_facts: usize,
) -> (r: Result<SnapshotStep, MemoryError>)
    ensures
        r is Ok <==> settings is Ok && watermark_is_readable(*raw_watermark),
        match r {
            Ok(step) => {
                &&& step.suits(
                    active_count as nat,
                    max_dedup_facts as nat,
                    max_cluster_facts as nat,
                )
                &&& watermark_says(*raw_watermark, step.last())
                &&& step.now().valid()
            },
            Err(e) => match settings {
                Err(breach) => e == MemoryError::Conflict(breach),
                Ok(()) => says_bad_watermark(e, *raw_watermark),
            },
        },
{
    if let Err(breach) = settings {
        return Err(MemoryError::Conflict(breach));
    }
    match read_watermark(raw_watermark) {
        Ok(last) => Ok(
            snapshot_step(last, utc_now(), active_count, max_dedup_facts, max_cluster_facts),
        ),
        Err(e) => Err(e),
    }
}

/// [`load_snapshot_capped`] with the standard caps.
pub fn load_snapshot(
    settings: Result<(), ConflictError>,
    raw_watermark: &Option<String>,
    active_count: usize,
) -> (r: Result<SnapshotStep, MemoryError>)
    ensures
        r is Ok <==> settings is Ok && watermark_is_readable(*raw_watermark),
        match r {
            Ok(step) => {
                &&& step.suits(active_count as nat, 50_000, 50_000)
                &&& watermark_says(*raw_watermark, step.last())
                &&& step.now().valid()
            },
            Err(e) => match settings {
                Err(breach) => e == MemoryError::Conflict(breach),
                Ok(()) => says_bad_watermark(e, *raw_watermark),
            },
        },
{
    load_snapshot_capped(
        settings,
        raw_watermark,
        active_count,
        MAX_FACTS_FOR_DEDUP,
        MAX_FACTS_FOR_CLUSTERING,
    )
}

/// The snapshot of a store whose active facts were loaded.
pub fn loaded_snapshot(active_facts: Vec<Fact>, last: Option<Timestamp>, now: Timestamp) -> (r:
    Snapshot)
    ensures
        r == (Snapshot { active_facts, last, now, over_both_caps: false }),
{
    Snapshot { active_facts, last, now, over_both_caps: false }
}

/// A fact with this id is to expire.
pub open spec fn is_loser(expirations: Seq<Expiry>, id: i64) -> bool {
    exists|i: int| 0 <= i < expirations.len() && (#[trigger] expirations[i]).loser == id
}

/// The facts that dedup leaves active.
pub open spec fn surviving(facts: Seq<Fact>, expirations: Seq<Expiry>) -> Seq<Fact> {
    facts.filter(|f: Fact| !is_loser(expirations, f.id))
}

/// The facts that dedup leaves active, in their order.
pub fn survivors<'a>(active_facts: &'a Vec<Fact>, dedup: &DedupComputed) -> (r: Vec<&'a Fact>)
    ensures
        r@.map_values(|f: &Fact| *f) == surviving(active_facts@, dedup.expirations@),
{
    let mut expired: HashSet<i64> = HashSet::new();
    let mut i: usize = 0;
    while i < dedup.expirations.len()
        invariant
            i <= dedup.expirations@.len(),
            forall|id: i64| #[trigger]
                expired@.contains(id) <==> is_loser(dedup.expirations@.take(i as int), id),
        decreases dedup.expirations@.len() - i,
    {
        let ghost before = expired@;
        let ghost seen = dedup.expirations@.take(i as int);
        let ghost now = dedup.expirations@.take(i + 1);
        expired.insert(dedup.expirations[i].loser);
        assert forall|id: i64| #[trigger] expired@.contains(id) <==> is_loser(now, id) by {
            if before.contains(id) {
                let k = choose|k: int| 0 <= k < seen.len() && (#[trigger] seen[k]).loser == id;
                assert(now[k].loser == id);
            }
            if id == dedup.expirations@[i as int].loser {
                assert(now[i as int].loser == id);
            }
            if is_loser(now, id) {
                let k = choose|k: int| 0 <= k < now.len() && (#[trigger] now[k]).loser == id;
                if k < i {
                    assert(seen[k].loser == id);
                }
            }
        }
        i = i + 1;
    }
    assert(dedup.expirations@.take(dedup.expirations@.len() as int) =~= dedup.expirations@);
    let ghost keep = |f: Fact| !is_loser(dedup.expirations@, f.id);
    let mut out: Vec<&'a Fact> = Vec::new();
    let mut k: usize = 0;
    assert(active_facts@.take(0).filter(keep) =~= Seq::<Fact>::empty()) by {
        reveal(Seq::filter);
    }
    while k < active_facts.len()
        invariant
            k <= active_facts@.len(),
            keep == (|f: Fact| !is_loser(dedup.expirations@, f.id)),
            forall|id: i64| #[trigger]
                expired@.contains(id) <==> is_loser(dedup.expirations@, id),
            out@.map_values(|f: &Fact| *f) == active_facts@.take(k as int).filter(keep),
        decreases active_facts@.len() - k,
    {
        let ghost before = out@.map_values(|f: &Fact| *f);
        proof {
            reveal(Seq::filter);
            assert(active_facts@.take(k + 1).drop_last() =~= active_facts@.take(k as int));
            assert(active_facts@.take(k + 1).last() == active_facts@[k as int]);
        }
        if !expired.contains(&active_facts[k].id) {
            out.push(&active_facts[k]);
            assert(out@.map_values(|f: &Fact| *f) =~= before.push(active_facts@[k as int]));
        }
        k = k + 1;
    }
    assert(active_facts@.take(active_facts@.len() as int) =~= active_facts@);
    out
}

/// What a clustering pass produced.
#[derive(Debug, Clone, PartialEq, Eq)]
pub struct ClusterComputed {
    /// The pass ran, as opposed to being skipped for too many facts.
    pub ran: bool,
    pub summaries: Vec<NewSummary>,
}

/// Takes a summary and its embedding, if the embedding has the engine's
/// dimension.
pub fn summarize_and_embed(text: String, embedding: Vec<u32>, embed_dim: usize) -> (r: Result<
    (String, Vec<u32>),
    MemoryError,
>)
    ensures
        match r {
            Ok(summary) => embedding@.len() == embed_dim && summary == (text, embedding),
            Err(e) => embedding@.len() != embed_dim && e == (MemoryError::EmbeddingDimension {
                expected: embed_dim,
                actual: embedding@.len() as usize,
            }),
        },
{
    let actual: usize = embedding.len();
    if actual != embed_dim {
        return Err(MemoryError::EmbeddingDimension { expected: embed_dim, actual });
    }
    Ok((text, embedding))
}

/// The plan writes nothing and keeps the watermark where it is.
pub open spec fn is_noop_plan(plan: ConsolidationPlan) -> bool {
    &&& plan.dedup.is_skip()
    &&& !plan.cluster_ran
    &&& plan.cluster_summaries@.len() == 0
    &&& plan.global_summary is None
    &&& plan.embedding_fingerprint is None
}

/// The plan of a run over too many facts for either pass; `None` when the
/// passes have to run.
pub fn plan_without_passes(snapshot: &Snapshot) -> (r: Option<ConsolidationPlan>)
    ensures
        r is Some <==> snapshot.over_both_caps,
        r matches Some(plan) ==> is_noop_plan(plan) && plan.now == snapshot.now,
{
    if snapshot.over_both_caps {
        Some(
            ConsolidationPlan {
                dedup: DedupComputed::skipped(),
                cluster_ran: false,
                cluster_summaries: Vec::new(),
                global_summary: None,
                embedding_fingerprint: None,
                now: snapshot.now,
            },
        )
    } else {
        None
    }
}

/// The plan is the one that these results of the passes make.
pub open spec fn is_plan_of(
    plan: ConsolidationPlan,
    snapshot: Snapshot,
    dedup: DedupComputed,
    cluster: ClusterComputed,
    global: Option<NewSummary>,
    embedder: EmbeddingFingerprint,
) -> bool {
    &&& plan.now == snapshot.now
    &&& plan.dedup == dedup
    &&& plan.cluster_ran == cluster.ran
    &&& plan.cluster_summaries == cluster.summaries
    &&& plan.global_summary == (if cluster.ran {
        global
    } else {
        None
    })
    &&& plan.embedding_fingerprint == (if plan.cluster_summaries@.len() > 0
        || plan.global_summary is Some {
        Some(embedder)
    } else {
        None
    })
}

/// The plan of a run, from what its passes produced.
///
/// Over both caps the passes do not count, and the plan writes nothing. A global
/// summary counts only when clustering ran, so that it never covers clusters
/// that could not be refreshed. The embedder's identity goes into the plan just
/// when the plan holds a vector that the embedder made.
pub fn compute_plan(
    snapshot: &Snapshot,
    dedup: DedupComputed,
    cluster: ClusterComputed,
    global: Option<NewSummary>,
    embedder: &EmbeddingFingerprint,
) -> (plan: ConsolidationPlan)
    ensures
        plan.now == snapshot.now,
        snapshot.over_both_caps ==> is_noop_plan(plan),
        !snapshot.over_both_caps ==> is_plan_of(plan, *snapshot, dedup, cluster, global, *embedder),
        !snapshot.over_both_caps ==> plan.cluster_summaries@ == cluster.summaries@,
        !snapshot.over_both_caps && cluster.ran ==> plan.global_summary == global,
{
    match plan_without_passes(snapshot) {
        Some(plan) => plan,
        None => {
            let global_summary = if cluster.ran {
                global
            } else {
                None
            };
            let stamp = !cluster.summaries.is_empty() || global_summary.is_some();
            let embedding_fingerprint = if stamp {
                Some(embedder.copied())
            } else {
                None
            };
            ConsolidationPlan {
                dedup,
                cluster_ran: cluster.ran,
                cluster_summaries: cluster.summaries,
                global_summary,
                embedding_fingerprint,
                now: snapshot.now,
            }
        },
    }
}

/// The compute phase of a run, one pass at a time.
///
/// The run says which pass comes next and is handed what the pass produced. So
/// the clustering pass sees the facts that dedup leaves active and no others, and
/// the global pass sees the summaries of this run's clustering, if that ran.
#[derive(Debug, Clone, PartialEq)]
pub struct PlanRun {
    pub snapshot: Snapshot,
    pub dedup: Option<DedupComputed>,
    pub cluster: Option<ClusterComputed>,
    /// What the global pass produced, once it is over.
    pub global: Option<Option<NewSummary>>,
}

/// What a run needs next.
#[derive(Debug)]
pub enum PlanStep<'a> {
    /// Duplicates among these facts, of which those after `last` are new.
    Dedup { active_facts: &'a Vec<Fact>, last: Option<Timestamp> },
    /// Cluster summaries of these facts.
    Cluster(Vec<&'a Fact>),
    /// One summary of these cluster summaries.
    Global(&'a Vec<NewSummary>),
    /// Nothing: the plan can be made.
    Finish,
}

impl PlanRun {
    /// The step is the one that the run needs next.
    pub open spec fn needs(self, step: PlanStep<'_>) -> bool {
        match step {
            PlanStep::Dedup { active_facts, last } => {
                &&& !self.snapshot.over_both_caps
                &&& self.dedup is None
                &&& *active_facts == self.snapshot.active_facts
                &&& last == self.snapshot.last
            },
            PlanStep::Cluster(facts) => {
                &&& !self.snapshot.over_both_caps
                &&& self.cluster is None
                &&& (self.dedup matches Some(dedup) && facts@.map_values(|f: &Fact| *f)
                    == surviving(self.snapshot.active_facts@, dedup.expirations@))
            },
            PlanStep::Global(summaries) => {
                &&& !self.snapshot.over_both_caps
                &&& self.dedup is Some
                &&& self.global is None
                &&& (self.cluster matches Some(cluster) && cluster.ran && *summaries
                    == cluster.summaries)
            },
            PlanStep::Finish => self.finished(),
        }
    }

    /// No pass is left to run.
    pub open spec fn finished(self) -> bool {
        self.snapshot.over_both_caps || (self.dedup is Some && (self.cluster matches Some(cluster)
            && (cluster.ran ==> self.global is Some)))
    }

    /// Starts the compute phase on a snapshot.
    pub fn start(snapshot: Snapshot) -> (r: PlanRun)
        ensures
            r == (PlanRun { snapshot, dedup: None, cluster: None, global: None }),
    {
        PlanRun { snapshot, dedup: None, cluster: None, global: None }
    }

    /// What the run needs next.
    pub fn next<'a>(&'a self) -> (step: PlanStep<'a>)
        ensures
            self.needs(step),
    {
        if self.snapshot.over_both_caps {
            return PlanStep::Finish;
        }
        match &self.dedup {
            None => PlanStep::Dedup {
                active_facts: &self.snapshot.active_facts,
                last: self.snapshot.last,
            },
            Some(dedup) => match &self.cluster {
                None => PlanStep::Cluster(survivors(&self.snapshot.active_facts, dedup)),
                Some(cluster) => if cluster.ran && self.global.is_none() {
                    PlanStep::Global(&cluster.summaries)
                } else {
                    PlanStep::Finish
                },
            },
        }
    }

    /// Goes on with what dedup produced.
    pub fn deduped(self, dedup: DedupComputed) -> (r: PlanRun)
        ensures
            r == (PlanRun { dedup: Some(dedup), ..self }),
    {
        PlanRun { dedup: Some(dedup), ..self }
    }

    /// Goes on with what clustering produced.
    pub fn clustered(self, cluster: ClusterComputed) -> (r: PlanRun)
        ensures
            r == (PlanRun { cluster: Some(cluster), ..self }),
    {
        PlanRun { cluster: Some(cluster), ..self }
    }

    /// Goes on with what the global pass produced.
    pub fn globalized(self, global: Option<NewSummary>) -> (r: PlanRun)
        ensures
            r == (PlanRun { global: Some(global), ..self }),
    {
        PlanRun { global: Some(global), ..self }
    }

    /// The plan of the run, once no pass is left to run.
    pub fn finish(self, embedder: &EmbeddingFingerprint) -> (r: Option<ConsolidationPlan>)
        ensures
            r is Some <==> self.finished(),
            r matches Some(plan) ==> !self.snapshot.over_both_caps ==> plan.cluster_summaries@
                == self.cluster->0.summaries@,
            r matches Some(plan) ==> if self.snapshot.over_both_caps {
                is_noop_plan(plan) && plan.now == self.snapshot.now
            } else {
                is_plan_of(
                    plan,
                    self.snapshot,
                    self.dedup->0,
                    self.cluster->0,
                    match self.global {
                        Some(global) => global,
                        None => None,
                    },
                    *embedder,
                )
            },
    {
        if let Some(plan) = plan_without_passes(&self.snapshot) {
            return Some(plan);
        }
        let dedup = match self.dedup {
            Some(dedup) => dedup,
            None => return None,
        };
        let cluster = match self.cluster {
            Some(cluster) => cluster,
            None => return None,
        };
        if cluster.ran && self.global.is_none() {
            return None;
        }
        let global = match self.global {
            Some(global) => global,
            None => None,
        };
        Some(compute_plan(&self.snapshot, dedup, cluster, global, embedder))
    }
}

/// Clustering never sees a fact that the run is about to expire.
pub proof fn clustering_sees_no_loser(run: PlanRun, facts: Vec<&Fact>, i: int)
    requires
        run.needs(PlanStep::Cluster(facts)),
        0 <= i < facts@.len(),
    ensures
        run.snapshot.active_facts@.contains(*facts@[i]),
        !is_loser(run.dedup->0.expirations@, facts@[i].id),
{
    broadcast use vstd::seq_lib::group_filter_ensures;

    let exps = run.dedup->0.expirations@;
    let keep = |f: Fact| !is_loser(exps, f.id);
    let left = surviving(run.snapshot.active_facts@, exps);
    assert(facts@.map_values(|f: &Fact| *f)[i] == *facts@[i]);
    assert(left[i] == *facts@[i]);
    assert(keep(left[i]));
    assert(left.contains(left[i]));
    run.snapshot.active_facts@.lemma_filter_contains_rev(keep, left[i]);
}

/// The facts that applying the expirations expires, in order, when `active` are
/// the active facts at that moment.
///
/// A loser is kept when its survivor is no longer active: the merge is void, and
/// the loser may be all that is left of its group. A survivor counts as active
/// when it was so before the first expiry. A loser that is no longer active
/// itself is not expired again.
pub open spec fn expired_by(expirations: Seq<Expiry>, active: Set<i64>) -> Seq<i64>
    decreases expirations.len(),
{
    if expirations.len() == 0 {
        Seq::empty()
    } else {
        let earlier = expired_by(expirations.drop_last(), active);
        let e = expirations.last();
        if active.contains(e.survivor) && active.contains(e.loser) && !earlier.contains(e.loser) {
            earlier.push(e.loser)
        } else {
            earlier
        }
    }
}

/// Some planned survivor is no longer active.
pub open spec fn survivor_lost(expirations: Seq<Expiry>, active: Set<i64>) -> bool {
    exists|i: int|
        0 <= i < expirations.len() && !active.contains((#[trigger] expirations[i]).survivor)
}

/// What became of the expirations.
#[derive(Debug, Clone, PartialEq, Eq)]
pub struct DedupApplied {
    pub expired: Vec<i64>,
    pub survivor_lost: bool,
}

/// Applies the expirations to the facts that are active now.
pub fn apply_dedup(dedup: &DedupComputed, active: &HashSet<i64>) -> (r: DedupApplied)
    ensures
        r.expired@ == expired_by(dedup.expirations@, active@),
        r.survivor_lost == survivor_lost(dedup.expirations@, active@),
{
    let mut expired: Vec<i64> = Vec::new();
    let mut gone: HashSet<i64> = HashSet::new();
    let mut lost = false;
    let mut i: usize = 0;
    let ghost exps = dedup.expirations@;
    while i < dedup.expirations.len()
        invariant
            i <= dedup.expirations@.len(),
            exps == dedup.expirations@,
            expired@ == expired_by(exps.take(i as int), active@),
            forall|id: i64| #[trigger] gone@.contains(id) <==> expired@.contains(id),
            lost == survivor_lost(exps.take(i as int), active@),
        decreases dedup.expirations@.len() - i,
    {
        let e = dedup.expirations[i];
        let ghost earlier = exps.take(i as int);
        let ghost now = exps.take(i + 1);
        proof {
            assert(now.drop_last() =~= earlier);
            assert(now.last() == e);
        }
        let alive = active.contains(&e.survivor);
        if !alive {
            lost = true;
            assert(now[i as int].survivor == e.survivor);
        } else if active.contains(&e.loser) && !gone.contains(&e.loser) {
            let ghost before = expired@;
            expired.push(e.loser);
            gone.insert(e.loser);
            assert forall|id: i64| #[trigger] gone@.contains(id) <==> expired@.contains(id) by {
                if before.contains(id) {
                    let k = choose|k: int| 0 <= k < before.len() && before[k] == id;
                    assert(expired@[k] == id);
                }
                if id == e.loser {
                    assert(expired@[before.len() as int] == id);
                }
                if expired@.contains(id) && id != e.loser {
                    let k = choose|k: int| 0 <= k < expired@.len() && expired@[k] == id;
                    assert(before[k] == id);
                }
            }
        }
        assert(lost == survivor_lost(now, active@)) by {
            if survivor_lost(earlier, active@) {
                let k = choose|k: int|
                    0 <= k < earlier.len() && !active@.contains((#[trigger] earlier[k]).survivor);
                assert(now[k] == earlier[k]);
            }
            if survivor_lost(now, active@) {
                let k = choose|k: int|
                    0 <= k < now.len() && !active@.contains((#[trigger] now[k]).survivor);
                if k < i {
                    assert(earlier[k] == now[k]);
                }
            }
        }
        i = i + 1;
    }
    assert(exps.take(exps.len() as int) =~= exps);
    DedupApplied { expired, survivor_lost: lost }
}

/// The importances that survivors take over: those of survivors that are active,
/// in order. A survivor that is no longer active takes over nothing: the merge is
/// void.
pub open spec fn inherited(updates: Seq<(i64, Binary64)>, active: Set<i64>) -> Seq<(i64, Binary64)> {
    updates.filter(|u: (i64, Binary64)| active.contains(u.0))
}

fn inherit(updates: &Vec<(i64, Binary64)>, active: &HashSet<i64>) -> (r: Vec<(i64, Binary64)>)
    ensures
        r@ == inherited(updates@, active@),
{
    let ghost keep = |u: (i64, Binary64)| active@.contains(u.0);
    let mut out: Vec<(i64, Binary64)> = Vec::new();
    let mut i: usize = 0;
    assert(updates@.take(0).filter(keep) =~= out@) by {
        reveal(Seq::filter);
    }
    while i < updates.len()
        invariant
            i <= updates@.len(),
            keep == (|u: (i64, Binary64)| active@.contains(u.0)),
            out@ == updates@.take(i as int).filter(keep),
        decreases updates@.len() - i,
    {
        proof {
            reveal(Seq::filter);
            assert(updates@.take(i + 1).drop_last() =~= updates@.take(i as int));
            assert(updates@.take(i + 1).last() == updates@[i as int]);
        }
        let (id, value) = updates[i];
        if active.contains(&id) {
            out.push((id, value));
        }
        i = i + 1;
    }
    assert(updates@.take(i as int) =~= updates@);
    out
}

/// A plan that nothing disturbed writes all the importances it names, as long as
/// they go to facts that are active.
pub proof fn undisturbed_plan_passes_on_all(updates: Seq<(i64, Binary64)>, active: Set<i64>)
    requires
        forall|i: int| 0 <= i < updates.len() ==> active.contains((#[trigger] updates[i]).0),
    ensures
        inherited(updates, active) == updates,
    decreases updates.len(),
{
    reveal(Seq::filter);
    if updates.len() > 0 {
        let front = updates.drop_last();
        assert forall|i: int| 0 <= i < front.len() implies active.contains(
            (#[trigger] front[i]).0,
        ) by {
            assert(front[i] == updates[i]);
        }
        undisturbed_plan_passes_on_all(front, active);
        assert(updates.last() == updates[updates.len() - 1]);
        assert(front.push(updates.last()) =~= updates);
    }
}

/// The writes of a plan. The importances come before the expiries.
#[derive(Debug, Clone, PartialEq, Eq)]
pub struct PlanWrites {
    /// The base importances that survivors take over.
    pub importances: Vec<(i64, Binary64)>,
    /// The importance scores that survivors take over.
    pub importance_scores: Vec<(i64, Binary64)>,
    /// The facts to expire.
    pub expired: Vec<i64>,
    /// The plan's summaries replace those in the store.
    pub write_summaries: bool,
    /// The identity to record, if the store has none yet.
    pub stamp: Option<EmbeddingFingerprint>,
    /// The new watermark, if it moves.
    pub watermark: Option<String>,
    pub stats: ConsolidationStats,
}

/// The plan's summaries are written: clustering ran, and no survivor was lost
/// since, so that the summaries cover the facts that are active now.
pub open spec fn summaries_written(plan: ConsolidationPlan, active: Set<i64>) -> bool {
    plan.cluster_ran && !survivor_lost(plan.dedup.expirations@, active)
}

/// Decides the writes of a plan, when `active` are the active facts now.
///
/// The watermark moves to the plan's time unless dedup was skipped: facts that
/// were skipped must come up again.
pub fn apply_plan(plan: &ConsolidationPlan, active: &HashSet<i64>) -> (w: PlanWrites)
    requires
        plan.now.valid(),
    ensures
        w.importances@ == inherited(plan.dedup.importance_updates@, active@),
        w.importance_scores@ == inherited(plan.dedup.importance_score_updates@, active@),
        w.expired@ == expired_by(plan.dedup.expirations@, active@),
        w.write_summaries == summaries_written(*plan, active@),
        w.stamp == (if w.write_summaries {
            plan.embedding_fingerprint
        } else {
            None
        }),
        match w.watermark {
            Some(text) => !plan.dedup.skipped && is_watermark_of(text@, plan.now),
            None => plan.dedup.skipped,
        },
        w.stats.duplicates_removed == w.expired@.len(),
        w.stats.clusters_created == (if w.write_summaries {
            plan.cluster_summaries@.len()
        } else {
            0
        }),
        w.stats.global_summaries == (if w.write_summaries && plan.global_summary is Some {
            1int
        } else {
            0
        }),
{
    let applied = apply_dedup(&plan.dedup, active);
    let write_summaries = plan.cluster_ran && !applied.survivor_lost;
    let stamp = if write_summaries {
        match &plan.embedding_fingerprint {
            Some(fingerprint) => Some(fingerprint.copied()),
            None => None,
        }
    } else {
        None
    };
    let watermark = if plan.dedup.skipped {
        None
    } else {
        Some(format_rfc3339(plan.now))
    };
    let stats = ConsolidationStats {
        duplicates_removed: applied.expired.len(),
        clusters_created: if write_summaries {
            plan.cluster_summaries.len()
        } else {
            0
        },
        global_summaries: if write_summaries && plan.global_summary.is_some() {
            1
        } else {
            0
        },
    };
    PlanWrites {
        importances: inherit(&plan.dedup.importance_updates, active),
        importance_scores: inherit(&plan.dedup.importance_score_updates, active),
        expired: applied.expired,
        write_summaries,
        stamp,
        watermark,
        stats,
    }
}

/// The watermark is the text of a plan's time.
pub open spec fn is_watermark_of(text: Seq<char>, now: Timestamp) -> bool {
    &&& text == crate::time::rfc3339_text(now.secs as int, now.nanos as int)
    &&& now.has_four_digit_year() ==> crate::time::names_instant(text, now)
}

/// What one run writes as the watermark, the next run reads as the time of that
/// run, as long as the year has four digits.
pub proof fn next_run_reads_the_watermark(
    text: String,
    now: Timestamp,
    last: Option<Timestamp>,
)
    requires
        is_watermark_of(text@, now),
        now.has_four_digit_year(),
        watermark_says(Some(text), last),
    ensures
        watermark_is_readable(Some(text)),
        last == Some(now),
{
}

/// A plan that does nothing is applied by doing nothing, whatever is active by
/// then: no importance is taken over, no fact expires and no summary is written.
pub proof fn noop_plan_expires_nothing(plan: ConsolidationPlan, active: Set<i64>)
    requires
        is_noop_plan(plan),
    ensures
        inherited(plan.dedup.importance_updates@, active).len() == 0,
        inherited(plan.dedup.importance_score_updates@, active).len() == 0,
        expired_by(plan.dedup.expirations@, active).len() == 0,
        !summaries_written(plan, active),
        plan.dedup.skipped,
{
    reveal(Seq::filter);
}

/// Only facts that are active and that the plan names as losers expire, and
/// none of them twice.
pub proof fn expired_facts_were_planned(expirations: Seq<Expiry>, active: Set<i64>)
    ensures
        expired_by(expirations, active).no_duplicates(),
        forall|id: i64| #[trigger]
            expired_by(expirations, active).contains(id) ==> active.contains(id)
                && exists|i: int|
                0 <= i < expirations.len() && (#[trigger] expirations[i]).loser == id
                    && active.contains(expirations[i].survivor),
        expired_by(expirations, active).len() <= expirations.len(),
    decreases expirations.len(),
{
    if expirations.len() > 0 {
        let front = expirations.drop_last();
        let earlier = expired_by(front, active);
        let all = expired_by(expirations, active);
        expired_facts_were_planned(front, active);
        assert forall|id: i64| #[trigger] all.contains(id) implies active.contains(id) && exists|
            i: int,
        |
            0 <= i < expirations.len() && (#[trigger] expirations[i]).loser == id
                && active.contains(expirations[i].survivor) by {
            if earlier.contains(id) {
                let i = choose|i: int|
                    0 <= i < front.len() && (#[trigger] front[i]).loser == id && active.contains(
                        front[i].survivor,
                    );
                assert(expirations[i].loser == id);
            } else {
                assert(all == earlier.push(expirations.last().loser));
                let k = choose|k: int| 0 <= k < all.len() && all[k] == id;
                if k < earlier.len() {
                    assert(earlier[k] == id);
                }
                assert(expirations[expirations.len() - 1].loser == id);
            }
        }
    }
}

/// Following at most `steps` expirations from a loser to its survivor leads from
/// `from` to `to`.
pub open spec fn folds_into(expirations: Seq<Expiry>, from: i64, to: i64, steps: nat) -> bool
    decreases steps,
{
    from == to || (steps > 0 && exists|i: int|
        0 <= i < expirations.len() && (#[trigger] expirations[i]).loser == from && folds_into(
            expirations,
            expirations[i].survivor,
            to,
            (steps - 1) as nat,
        ))
}

/// A duplicate group is never left without an active fact. Whatever other
/// writers expired before the plan is applied, each fact that is active then is
/// either still active afterwards, or was folded, directly or through others,
/// into a fact that is.
///
/// The plan must fold each loser into a fact that ranks above it, as dedup does
/// with the importance of facts.
pub proof fn group_keeps_a_representative(
    expirations: Seq<Expiry>,
    active: Set<i64>,
    rank: spec_fn(i64) -> nat,
    top: nat,
    id: i64,
)
    requires
        forall|i: int|
            0 <= i < expirations.len() ==> rank((#[trigger] expirations[i]).loser) < rank(
                expirations[i].survivor,
            ),
        forall|x: i64| #[trigger] rank(x) <= top,
        active.contains(id),
    ensures
        exists|kept: i64|
            active.contains(kept) && !expired_by(expirations, active).contains(kept)
                && #[trigger] folds_into(expirations, id, kept, (top - rank(id)) as nat),
    decreases top - rank(id),
{
    expired_facts_were_planned(expirations, active);
    let gone = expired_by(expirations, active);
    if gone.contains(id) {
        let i = choose|i: int|
            0 <= i < expirations.len() && (#[trigger] expirations[i]).loser == id
                && active.contains(expirations[i].survivor);
        let s = expirations[i].survivor;
        assert(rank(expirations[i].loser) < rank(expirations[i].survivor));
        assert(rank(s) <= top);
        group_keeps_a_representative(expirations, active, rank, top, s);
        let kept = choose|kept: i64|
            active.contains(kept) && !gone.contains(kept) && #[trigger] folds_into(
                expirations,
                s,
                kept,
                (top - rank(s)) as nat,
            );
        folds_into_in_more_steps(
            expirations,
            s,
            kept,
            (top - rank(s)) as nat,
            (top - rank(id) - 1) as nat,
        );
        assert(folds_into(expirations, id, kept, (top - rank(id)) as nat));
    } else {
        assert(folds_into(expirations, id, id, (top - rank(id)) as nat));
    }
}

proof fn folds_into_in_more_steps(
    expirations: Seq<Expiry>,
    from: i64,
    to: i64,
    steps: nat,
    more: nat,
)
    requires
        folds_into(expirations, from, to, steps),
        steps <= more,
    ensures
        folds_into(expirations, from, to, more),
    decreases steps,
{
    if from != to {
        let i = choose|i: int|
            0 <= i < expirations.len() && (#[trigger] expirations[i]).loser == from
                && folds_into(expirations, expirations[i].survivor, to, (steps - 1) as nat);
        folds_into_in_more_steps(
            expirations,
            expirations[i].survivor,
            to,
            (steps - 1) as nat,
            (more - 1) as nat,
        );
    }
}

/// Without interference, when every planned fact is still active, no survivor is
/// lost and exactly the planned losers expire.
pub proof fn undisturbed_plan_expires_all_losers(expirations: Seq<Expiry>, active: Set<i64>)
    requires
        forall|i: int|
            0 <= i < expirations.len() ==> active.contains((#[trigger] expirations[i]).loser)
                && active.contains(expirations[i].survivor),
    ensures
        !survivor_lost(expirations, active),
        forall|id: i64| #[trigger]
            expired_by(expirations, active).contains(id) <==> is_loser(expirations, id),
    decreases expirations.len(),
{
    expired_facts_were_planned(expirations, active);
    if expirations.len() > 0 {
        let front = expirations.drop_last();
        let earlier = expired_by(front, active);
        let all = expired_by(expirations, active);
        assert forall|i: int| 0 <= i < front.len() implies active.contains(
            (#[trigger] front[i]).loser,
        ) && active.contains(front[i].survivor) by {
            assert(front[i] == expirations[i]);
        }
        undisturbed_plan_expires_all_losers(front, active);
        let last = expirations[expirations.len() - 1];
        assert(active.contains(last.loser) && active.contains(last.survivor));
        assert forall|id: i64| is_loser(expirations, id) implies #[trigger] all.contains(id) by {
            let i = choose|i: int|
                0 <= i < expirations.len() && (#[trigger] expirations[i]).loser == id;
            if i < front.len() {
                assert(front[i].loser == id);
                assert(is_loser(front, id));
                assert(earlier.contains(id));
                let k = choose|k: int| 0 <= k < earlier.len() && earlier[k] == id;
                assert(all[k] == id);
            } else if !earlier.contains(id) {
                assert(all[earlier.len() as int] == id);
            }
        }
    }
}

/// Facts that dedup expires do not take part in clustering, and all others do:
/// each active fact is either a survivor or a loser.
pub proof fn survivors_are_the_rest(facts: Seq<Fact>, expirations: Seq<Expiry>, fact: Fact)
    requires
        facts.contains(fact),
    ensures
        surviving(facts, expirations).contains(fact) <==> !is_loser(expirations, fact.id),
{
    broadcast use vstd::seq_lib::group_filter_ensures;

    let keep = |f: Fact| !is_loser(expirations, f.id);
    if keep(fact) {
        let k = choose|k: int| 0 <= k < facts.len() && facts[k] == fact;
        facts.lemma_filter_contains(keep, k);
    }
}

/// Below the caps the plan holds what the passes produced: every cluster summary
/// in its order and no other; the expirations and importances of dedup; and the
/// global summary when clustering ran. It names the embedder just when it holds a
/// summary.
pub proof fn plan_holds_what_the_passes_produced(
    snapshot: &Snapshot,
    dedup: DedupComputed,
    cluster: ClusterComputed,
    global: Option<NewSummary>,
    embedder: &EmbeddingFingerprint,
    plan: ConsolidationPlan,
    summary: NewSummary,
)
    requires
        call_ensures(compute_plan, (snapshot, dedup, cluster, global, embedder), plan),
        !snapshot.over_both_caps,
    ensures
        plan.cluster_summaries@.len() == cluster.summaries@.len(),
        forall|i: int|
            0 <= i < cluster.summaries@.len() ==> #[trigger] plan.cluster_summaries@[i]
                == cluster.summaries@[i],
        plan.cluster_summaries@.contains(summary) <==> cluster.summaries@.contains(summary),
        plan.cluster_ran == cluster.ran,
        plan.dedup.skipped == dedup.skipped,
        plan.dedup.expirations@ == dedup.expirations@,
        plan.dedup.importance_updates@ == dedup.importance_updates@,
        plan.dedup.importance_score_updates@ == dedup.importance_score_updates@,
        cluster.ran ==> plan.global_summary == global,
        !cluster.ran ==> plan.global_summary is None,
        cluster.summaries@.len() > 0 ==> plan.embedding_fingerprint == Some(*embedder),
        plan.global_summary is Some ==> plan.embedding_fingerprint == Some(*embedder),
        cluster.summaries@.len() == 0 && plan.global_summary is None
            ==> plan.embedding_fingerprint is None,
        plan.now == snapshot.now,
{
}

/// Over both caps the plan writes nothing, whatever the passes produced, and leaves
/// the watermark where it is.
pub proof fn plan_over_the_caps_writes_nothing(
    snapshot: &Snapshot,
    dedup: DedupComputed,
    cluster: ClusterComputed,
    global: Option<NewSummary>,
    embedder: &EmbeddingFingerprint,
    plan: ConsolidationPlan,
    active: &HashSet<i64>,
    w: PlanWrites,
)
    requires
        call_ensures(compute_plan, (snapshot, dedup, cluster, global, embedder), plan),
        call_ensures(apply_plan, (&plan, active), w),
        snapshot.over_both_caps,
    ensures
        w.expired@.len() == 0,
        w.importances@.len() == 0,
        w.importance_scores@.len() == 0,
        !w.write_summaries,
        w.stamp is None,
        w.watermark is None,
        w.stats.duplicates_removed == 0,
        w.stats.clusters_created == 0,
        w.stats.global_summaries == 0,
{
    reveal(Seq::filter);
}

/// A run that nothing disturbed stores every summary that its passes made: it
/// counts as many clusters as clustering found, and the global summary if there is
/// one; it records the embedder of the summaries, and moves the watermark unless
/// dedup was skipped.
pub proof fn undisturbed_run_stores_every_summary(
    snapshot: &Snapshot,
    dedup: DedupComputed,
    cluster: ClusterComputed,
    global: Option<NewSummary>,
    embedder: &EmbeddingFingerprint,
    plan: ConsolidationPlan,
    active: &HashSet<i64>,
    w: PlanWrites,
)
    requires
        call_ensures(compute_plan, (snapshot, dedup, cluster, global, embedder), plan),
        call_ensures(apply_plan, (&plan, active), w),
        !snapshot.over_both_caps,
        cluster.ran,
        forall|i: int|
            0 <= i < dedup.expirations@.len() ==> active@.contains(
                (#[trigger] dedup.expirations@[i]).survivor,
            ),
    ensures
        w.write_summaries,
        plan.cluster_summaries@ == cluster.summaries@,
        w.stats.clusters_created == cluster.summaries@.len(),
        w.stats.global_summaries == (if global is Some {
            1int
        } else {
            0
        }),
        cluster.summaries@.len() > 0 || global is Some ==> w.stamp == Some(*embedder),
        w.watermark is Some <==> !dedup.skipped,
{
}

/// A run goes through its passes in order: dedup on all active facts; clustering on
/// those that dedup leaves, in their order; the global pass on the summaries of
/// this clustering, if that ran; then the plan. Over both caps there is no pass.
pub proof fn passes_come_in_order(run: &PlanRun, step: PlanStep<'_>)
    requires
        call_ensures(PlanRun::next, (run,), step),
    ensures
        run.snapshot.over_both_caps ==> step is Finish,
        !run.snapshot.over_both_caps && run.dedup is None && run.cluster is None && run.global
            is None ==> (step matches PlanStep::Dedup { active_facts, last } && *active_facts
            == run.snapshot.active_facts && last == run.snapshot.last),
        !run.snapshot.over_both_caps && run.dedup is Some && run.cluster is None && run.global
            is None ==> (step matches PlanStep::Cluster(facts) && facts@.map_values(|f: &Fact| *f)
            == run.snapshot.active_facts@.filter(
            |f: Fact|
                !(exists|i: int|
                    0 <= i < run.dedup->0.expirations@.len() && (
                    #[trigger] run.dedup->0.expirations@[i]).loser == f.id),
        )),
        !run.snapshot.over_both_caps && run.dedup is Some && (run.cluster matches Some(c) && c.ran)
            && run.global is None ==> (step matches PlanStep::Global(summaries) && *summaries
            == run.cluster->0.summaries),
        !run.snapshot.over_both_caps && run.dedup is Some && (run.cluster matches Some(c)
            && !c.ran) ==> step is Finish,
        !run.snapshot.over_both_caps && run.dedup is Some && run.cluster is Some && run.global
            is Some ==> step is Finish,
{
    if step is Cluster {
        let exps = run.dedup->0.expirations@;
        let keep = |f: Fact|
            !(exists|i: int| 0 <= i < exps.len() && (#[trigger] exps[i]).loser == f.id);
        assert(keep =~= (|f: Fact| !is_loser(exps, f.id)));
    }
}

/// A run that was handed the results of its passes makes the plan of just those
/// results.
pub proof fn finished_run_holds_its_results(
    snapshot: Snapshot,
    dedup: DedupComputed,
    cluster: ClusterComputed,
    global: Option<NewSummary>,
    embedder: &EmbeddingFingerprint,
    a: PlanRun,
    b: PlanRun,
    c: PlanRun,
    d: PlanRun,
    r: Option<ConsolidationPlan>,
)
    requires
        call_ensures(PlanRun::start, (snapshot,), a),
        call_ensures(PlanRun::deduped, (a, dedup), b),
        call_ensures(PlanRun::clustered, (b, cluster), c),
        call_ensures(PlanRun::globalized, (c, global), d),
        call_ensures(PlanRun::finish, (d, embedder), r),
        !snapshot.over_both_caps,
    ensures
        r matches Some(plan) && {
            &&& plan.cluster_summaries@ == cluster.summaries@
            &&& plan.cluster_ran == cluster.ran
            &&& plan.dedup == dedup
            &&& plan.global_summary == (if cluster.ran {
                global
            } else {
                None
            })
            &&& plan.embedding_fingerprint == (if cluster.summaries@.len() > 0
                || plan.global_summary is Some {
                Some(*embedder)
            } else {
                None
            })
            &&& plan.now == snapshot.now
        },
{
}

/// No plan is made before all passes are over, except over both caps.
pub proof fn unfinished_run_has_no_plan(
    run: PlanRun,
    embedder: &EmbeddingFingerprint,
    r: Option<ConsolidationPlan>,
)
    requires
        call_ensures(PlanRun::finish, (run, embedder), r),
    ensures
        run.snapshot.over_both_caps ==> r is Some,
        !run.snapshot.over_both_caps && run.dedup is None ==> r is None,
        !run.snapshot.over_both_caps && run.cluster is None ==> r is None,
        !run.snapshot.over_both_caps && (run.cluster matches Some(c) && c.ran) && run.global
            is None ==> r is None,
{
}

/// Clustering is shown every active fact that is no loser, once for each time it is
/// there, and none that is.
pub proof fn survivors_are_all_but_the_losers(
    active_facts: &Vec<Fact>,
    dedup: &DedupComputed,
    r: Vec<&Fact>,
    i: int,
)
    requires
        call_ensures(survivors, (active_facts, dedup), r),
    ensures
        0 <= i < active_facts@.len() && (forall|k: int|
            0 <= k < dedup.expirations@.len() ==> (#[trigger] dedup.expirations@[k]).loser
                != active_facts@[i].id) ==> r@.map_values(|f: &Fact| *f).contains(active_facts@[i]),
        forall|j: int, k: int|
            0 <= j < r@.len() && 0 <= k < dedup.expirations@.len() ==> (
            #[trigger] dedup.expirations@[k]).loser != (#[trigger] r@[j]).id,
        dedup.expirations@.len() == 0 ==> r@.map_values(|f: &Fact| *f) == active_facts@,
{
    broadcast use vstd::seq_lib::group_filter_ensures;

    let exps = dedup.expirations@;
    let keep = |f: Fact| !is_loser(exps, f.id);
    let left = active_facts@.filter(keep);
    if 0 <= i < active_facts@.len() && forall|k: int|
        0 <= k < exps.len() ==> (#[trigger] exps[k]).loser != active_facts@[i].id {
        active_facts@.lemma_filter_contains(keep, i);
    }
    assert forall|j: int, k: int| 0 <= j < r@.len() && 0 <= k < exps.len() implies (
    #[trigger] exps[k]).loser != (#[trigger] r@[j]).id by {
        assert(r@.map_values(|f: &Fact| *f)[j] == left[j]);
        assert(keep(left[j]));
    }
    if exps.len() == 0 {
        lemma_keeps_all(active_facts@, keep);
    }
}

proof fn lemma_keeps_all(facts: Seq<Fact>, keep: spec_fn(Fact) -> bool)
    requires
        forall|i: int| 0 <= i < facts.len() ==> keep(#[trigger] facts[i]),
    ensures
        facts.filter(keep) == facts,
    decreases facts.len(),
{
    reveal(Seq::filter);
    if facts.len() > 0 {
        let front = facts.drop_last();
        assert forall|i: int| 0 <= i < front.len() implies keep(#[trigger] front[i]) by {
            assert(front[i] == facts[i]);
        }
        lemma_keeps_all(front, keep);
        assert(keep(facts[facts.len() - 1]));
        assert(front.push(facts.last()) =~= facts);
    }
}

/// Applying a plan expires each loser just when it and its survivor are active: no
/// planned merge is left out that still holds, and none is made that is void. No
/// fact expires twice, and the facts expire in the order of the plan.
pub proof fn merges_that_hold_are_made(
    plan: &ConsolidationPlan,
    active: &HashSet<i64>,
    w: PlanWrites,
    id: i64,
)
    requires
        call_ensures(apply_plan, (plan, active), w),
    ensures
        w.expired@.contains(id) <==> exists|i: int|
            0 <= i < plan.dedup.expirations@.len() && (
            #[trigger] plan.dedup.expirations@[i]).loser == id && active@.contains(id)
                && active@.contains(plan.dedup.expirations@[i].survivor),
        w.expired@.no_duplicates(),
        w.stats.duplicates_removed == w.expired@.len(),
        forall|a: int, b: int|
            0 <= a < b < w.expired@.len() ==> before_in(
                plan.dedup.expirations@,
                #[trigger] w.expired@[a],
                #[trigger] w.expired@[b],
            ),
{
    let exps = plan.dedup.expirations@;
    expired_facts_were_planned(exps, active@);
    lemma_holding_merges_expire(exps, active@);
    if w.expired@.contains(id) {
        let i = choose|i: int|
            0 <= i < exps.len() && (#[trigger] exps[i]).loser == id && active@.contains(
                exps[i].survivor,
            );
        assert(exps[i].loser == id);
    }
}

/// The plan names the one loser before the other.
pub open spec fn before_in(expirations: Seq<Expiry>, first: i64, second: i64) -> bool {
    exists|i: int, j: int|
        0 <= i < j < expirations.len() && (#[trigger] expirations[i]).loser == first && (
        #[trigger] expirations[j]).loser == second
}

proof fn lemma_holding_merges_expire(expirations: Seq<Expiry>, active: Set<i64>)
    ensures
        forall|i: int|
            0 <= i < expirations.len() && active.contains((#[trigger] expirations[i]).loser)
                && active.contains(expirations[i].survivor) ==> expired_by(
                expirations,
                active,
            ).contains(expirations[i].loser),
        forall|a: int, b: int|
            0 <= a < b < expired_by(expirations, active).len() ==> before_in(
                expirations,
                #[trigger] expired_by(expirations, active)[a],
                #[trigger] expired_by(expirations, active)[b],
            ),
    decreases expirations.len(),
{
    if expirations.len() > 0 {
        let front = expirations.drop_last();
        let n = expirations.len() - 1;
        let e = expirations.last();
        let earlier = expired_by(front, active);
        let all = expired_by(expirations, active);
        lemma_holding_merges_expire(front, active);
        expired_facts_were_planned(front, active);
        assert forall|i: int|
            0 <= i < expirations.len() && active.contains((#[trigger] expirations[i]).loser)
                && active.contains(expirations[i].survivor) implies all.contains(
            expirations[i].loser,
        ) by {
            if i < n {
                assert(front[i] == expirations[i]);
                let k = choose|k: int| 0 <= k < earlier.len() && earlier[k] == front[i].loser;
                assert(all[k] == front[i].loser);
            } else if !earlier.contains(e.loser) {
                assert(all[earlier.len() as int] == e.loser);
            }
        }
        assert forall|a: int, b: int| 0 <= a < b < all.len() implies before_in(
            expirations,
            #[trigger] all[a],
            #[trigger] all[b],
        ) by {
            assert(all[a] == earlier[a]);
            if b < earlier.len() {
                assert(all[b] == earlier[b]);
                assert(before_in(front, earlier[a], earlier[b]));
                let (i, j) = choose|i: int, j: int|
                    0 <= i < j < front.len() && (#[trigger] front[i]).loser == earlier[a] && (
                    #[trigger] front[j]).loser == earlier[b];
                assert(expirations[i].loser == all[a] && expirations[j].loser == all[b]);
            } else {
                assert(earlier.contains(earlier[a]));
                let i = choose|i: int|
                    0 <= i < front.len() && (#[trigger] front[i]).loser == earlier[a]
                        && active.contains(front[i].survivor);
                assert(expirations[i].loser == all[a] && expirations[n].loser == all[b]);
            }
        }
    }
}

/// Applying a plan writes its summaries just when clustering ran and every planned
/// survivor is still active; the identity of the embedder goes with them. It
/// writes the importances of the survivors that are active, in order. The
/// watermark moves, to the time of the plan, unless dedup was skipped.
pub proof fn plan_is_written_as_far_as_it_holds(
    plan: &ConsolidationPlan,
    active: &HashSet<i64>,
    w: PlanWrites,
)
    requires
        call_ensures(apply_plan, (plan, active), w),
    ensures
        w.write_summaries <==> plan.cluster_ran && forall|i: int|
            0 <= i < plan.dedup.expirations@.len() ==> active@.contains(
                (#[trigger] plan.dedup.expirations@[i]).survivor,
            ),
        w.write_summaries ==> w.stats.clusters_created == plan.cluster_summaries@.len()
            && w.stamp == plan.embedding_fingerprint && (w.stats.global_summaries == 1
            <==> plan.global_summary is Some) && w.stats.global_summaries <= 1,
        !w.write_summaries ==> w.stats.clusters_created == 0 && w.stats.global_summaries == 0
            && w.stamp is None,
        w.importances@ == plan.dedup.importance_updates@.filter(
            |u: (i64, Binary64)| active@.contains(u.0),
        ),
        w.importance_scores@ == plan.dedup.importance_score_updates@.filter(
            |u: (i64, Binary64)| active@.contains(u.0),
        ),
        w.watermark is None <==> plan.dedup.skipped,
        w.watermark matches Some(text) ==> text@ == crate::time::rfc3339_text(
            plan.now.secs as int,
            plan.now.nanos as int,
        ),
        plan.now.has_four_digit_year() ==> (w.watermark matches Some(text)
            ==> crate::time::rfc3339_instant(text@) == Ok::<(int, int), Seq<char>>(
            (plan.now.secs as int, plan.now.nanos as int),
        )),
{
}

/// The decision on the expirations is the one that the writes of the plan show.
pub proof fn dedup_is_applied_alike(
    plan: &ConsolidationPlan,
    active: &HashSet<i64>,
    w: PlanWrites,
    applied: DedupApplied,
)
    requires
        call_ensures(apply_plan, (plan, active), w),
        call_ensures(apply_dedup, (&plan.dedup, active), applied),
    ensures
        applied.expired@ == w.expired@,
        plan.cluster_ran ==> w.write_summaries == !applied.survivor_lost,
        applied.survivor_lost <==> exists|i: int|
            0 <= i < plan.dedup.expirations@.len() && !active@.contains(
                (#[trigger] plan.dedup.expirations@[i]).survivor,
            ),
{
}

/// The active facts are loaded unless there are more of them than either pass
/// takes; the snapshot keeps the time of the last run and of this one.
pub proof fn facts_are_loaded_up_to_the_larger_cap(
    last: Option<Timestamp>,
    now: Timestamp,
    active_count: usize,
    max_dedup_facts: usize,
    max_cluster_facts: usize,
    step: SnapshotStep,
)
    requires
        call_ensures(
            snapshot_step,
            (last, now, active_count, max_dedup_facts, max_cluster_facts),
            step,
        ),
    ensures
        active_count <= max_dedup_facts || active_count <= max_cluster_facts ==> step == (
        SnapshotStep::LoadActive { last, now }),
        active_count > max_dedup_facts && active_count > max_cluster_facts ==> (
        step matches SnapshotStep::Skip(s) && s.over_both_caps && s.active_facts@.len() == 0
            && s.last == last && s.now == now),
{
}

/// A run reads the store: invalid settings come first, then a watermark that cannot
/// be read; then up to fifty thousand facts are loaded, and more are skipped. The
/// watermark is the instant that its text names.
pub proof fn run_reads_the_store(
    settings: Result<(), ConflictError>,
    raw: &Option<String>,
    active_count: usize,
    r: Result<SnapshotStep, MemoryError>,
)
    requires
        call_ensures(load_snapshot, (settings, raw, active_count), r),
    ensures
        settings matches Err(breach) ==> r == Err::<SnapshotStep, MemoryError>(
            MemoryError::Conflict(breach),
        ),
        settings is Ok && *raw is None ==> r is Ok,
        settings is Ok && (*raw matches Some(text) && crate::time::rfc3339_instant(text@) is Ok)
            ==> r is Ok,
        settings is Ok && (*raw matches Some(text) && crate::time::rfc3339_instant(text@) is Err)
            ==> (r matches Err(MemoryError::Migration(MigrationError::Incompatible(message)))
            && message@ == "invalid last_consolidated_at: "@ + crate::time::rfc3339_instant(
            raw->0@,
        )->Err_0),
        r matches Ok(step) ==> (step is LoadActive <==> active_count <= 50_000),
        r matches Ok(SnapshotStep::LoadActive { last, now }) ==> names_last_run(*raw, last)
            && now.valid(),
        r matches Ok(SnapshotStep::Skip(s)) ==> names_last_run(*raw, s.last) && s.over_both_caps
            && s.active_facts@.len() == 0 && s.now.valid(),
{
}

/// There is a last run just when there is a text about it, and it was at the instant
/// that the text names.
pub open spec fn names_last_run(raw: Option<String>, last: Option<Timestamp>) -> bool {
    &&& raw is Some <==> last is Some
    &&& raw is Some ==> crate::time::rfc3339_instant(raw->0@) == Ok::<(int, int), Seq<char>>(
        (last->0.secs as int, last->0.nanos as int),
    )
}

/// The text of a watermark is read as the instant that it names; where it names
/// none, the error says why.
pub proof fn watermark_is_the_instant_of_its_text(
    raw: &Option<String>,
    r: Result<Option<Timestamp>, MemoryError>,
)
    requires
        call_ensures(read_watermark, (raw,), r),
    ensures
        *raw is None ==> r == Ok::<Option<Timestamp>, MemoryError>(None),
        *raw matches Some(text) ==> (r is Ok <==> crate::time::rfc3339_instant(text@) is Ok),
        r matches Ok(last) ==> names_last_run(*raw, last),
        r matches Err(e) ==> (e matches MemoryError::Migration(
            MigrationError::Incompatible(message),
        ) && message@ == "invalid last_consolidated_at: "@ + crate::time::rfc3339_instant(
            raw->0@,
        )->Err_0),
{
}

/// A summary is taken with a vector of the engine's dimension, unchanged, and with
/// no other.
pub proof fn summary_vector_has_the_dimension(
    text: String,
    embedding: Vec<u32>,
    embed_dim: usize,
    r: Result<(String, Vec<u32>), MemoryError>,
)
    requires
        call_ensures(summarize_and_embed, (text, embedding, embed_dim), r),
    ensures
        r is Ok <==> embedding@.len() == embed_dim,
        r matches Ok(summary) ==> summary.0 == text && summary.1 == embedding,
        r matches Err(e) ==> e == (MemoryError::EmbeddingDimension {
            expected: embed_dim,
            actual: embedding@.len() as usize,
        }),
{
}

/// A loaded snapshot holds all facts that were loaded, and is not over the caps.
pub proof fn loaded_snapshot_holds_the_facts(
    facts: Vec<Fact>,
    last: Option<Timestamp>,
    now: Timestamp,
    r: Snapshot,
)
    requires
        call_ensures(loaded_snapshot, (facts, last, now), r),
    ensures
        r.active_facts@ == facts@,
        r.last == last,
        r.now == now,
        !r.over_both_caps,
{
}

/// Over both caps there is a plan without any pass, and it writes nothing; else there
/// is none before the passes have run.
pub proof fn plan_without_passes_is_empty(snapshot: &Snapshot, r: Option<ConsolidationPlan>)
    requires
        call_ensures(plan_without_passes, (snapshot,), r),
    ensures
        r is Some <==> snapshot.over_both_caps,
        r matches Some(plan) ==> plan.dedup.skipped && plan.dedup.expirations@.len() == 0
            && plan.dedup.importance_updates@.len() == 0
            && plan.dedup.importance_score_updates@.len() == 0 && !plan.cluster_ran
            && plan.cluster_summaries@.len() == 0 && plan.global_summary is None
            && plan.embedding_fingerprint is None && plan.now == snapshot.now,
{
}

/// With caps of choice a run reads the store just as with the standard ones, but for
/// the number of facts up to which they are loaded.
pub proof fn caps_decide_what_is_loaded(
    settings: Result<(), ConflictError>,
    raw: &Option<String>,
    active_count: usize,
    max_dedup_facts: usize,
    max_cluster_facts: usize,
    r: Result<SnapshotStep, MemoryError>,
)
    requires
        call_ensures(
            load_snapshot_capped,
            (settings, raw, active_count, max_dedup_facts, max_cluster_facts),
            r,
        ),
    ensures
        settings matches Err(breach) ==> r == Err::<SnapshotStep, MemoryError>(
            MemoryError::Conflict(breach),
        ),
        settings is Ok && *raw is None ==> r is Ok,
        settings is Ok && (*raw matches Some(text)) ==> (r is Ok <==> crate::time::rfc3339_instant(
            raw->0@,
        ) is Ok),
        r matches Ok(step) ==> (step is LoadActive <==> active_count <= max_dedup_facts
            || active_count <= max_cluster_facts),
        r matches Ok(SnapshotStep::LoadActive { last, now }) ==> names_last_run(*raw, last)
            && now.valid(),
        r matches Ok(SnapshotStep::Skip(s)) ==> names_last_run(*raw, s.last) && s.over_both_caps
            && s.active_facts@.len() == 0,
{
}

} // verus!
