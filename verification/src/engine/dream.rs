//! The guard in front of a dream cycle.
//!
//! A cycle that fires together with the caller's writes stands down once, so
//! that it never consolidates facts that are still coming in. What it noticed is
//! kept in a cursor: the largest id of a caller's fact that it has seen.

use crate::engine::state::MemoryEngine;
use crate::error::{CycleError, MemoryError};
use vstd::prelude::*;

verus! {

/// How a guarded cycle goes on.
#[derive(Debug, Clone, Copy, PartialEq, Eq, Structural)]
pub enum GuardStep {
    /// The caller wrote facts: the cycle stands down, and the cursor moves to
    /// the newest of them.
    Skip { since_fact_id: i64, new_max_fact_id: i64 },
    /// All is quiet: the cycle runs, and the cursor stays.
    Run,
}

/// The cursor; 0 where none was kept yet.
pub open spec fn cursor_or_zero(cursor: Option<i64>) -> i64 {
    match cursor {
        Some(id) => id,
        None => 0,
    }
}

/// The caller wrote facts that the cursor does not cover.
pub open spec fn caller_wrote(newest: Option<i64>, cursor: Option<i64>) -> bool {
    newest matches Some(id) && id > cursor_or_zero(cursor)
}

/// The cursor after a step.
pub open spec fn cursor_after(step: GuardStep, cursor: Option<i64>) -> Option<i64> {
    match step {
        GuardStep::Skip { new_max_fact_id, .. } => Some(new_max_fact_id),
        GuardStep::Run => cursor,
    }
}

/// The step is the one that the guard takes.
pub open spec fn guards(step: GuardStep, newest: Option<i64>, cursor: Option<i64>) -> bool {
    match step {
        GuardStep::Skip { since_fact_id, new_max_fact_id } => {
            &&& caller_wrote(newest, cursor)
            &&& since_fact_id == cursor_or_zero(cursor)
            &&& newest == Some(new_max_fact_id)
        },
        GuardStep::Run => !caller_wrote(newest, cursor),
    }
}

impl MemoryEngine {
    /// Decides whether a guarded cycle runs. `newest` is the largest id of a
    /// caller's fact that no cycle has processed, and `cursor` what the guard has
    /// seen so far. A read-only engine runs no cycles.
    pub fn run_dream_cycle_guarded(&self, newest: Option<i64>, cursor: Option<i64>) -> (r: Result<
        GuardStep,
        MemoryError,
    >)
        ensures
            match r {
                Ok(step) => !self.read_only && guards(step, newest, cursor),
                Err(e) => self.read_only && e == MemoryError::ReadOnly,
            },
    {
        self.ensure_writable()?;
        let since_fact_id: i64 = match cursor {
            Some(id) => id,
            None => 0,
        };
        match newest {
            Some(new_max_fact_id) => if new_max_fact_id > since_fact_id {
                Ok(GuardStep::Skip { since_fact_id, new_max_fact_id })
            } else {
                Ok(GuardStep::Run)
            },
            None => Ok(GuardStep::Run),
        }
    }
}

/// Checks what a cycle reports: one that selected facts must say which it
/// processed, else they would be selected for ever.
pub fn check_report(facts_selected: usize, processed: usize) -> (r: Result<(), MemoryError>)
    ensures
        match r {
            Ok(()) => facts_selected == 0 || processed > 0,
            Err(e) => facts_selected > 0 && processed == 0 && e == MemoryError::Cycle(
                (CycleError::MalformedReport { facts_selected }),
            ),
        },
{
    if facts_selected > 0 && processed == 0 {
        return Err(MemoryError::Cycle(CycleError::MalformedReport { facts_selected }));
    }
    Ok(())
}

/// A cycle is put off once, not dropped: after it stood down it runs, as long as
/// the caller writes nothing new, and keeps running.
pub proof fn deferred_cycle_runs_when_quiet(
    first: GuardStep,
    second: GuardStep,
    newest: Option<i64>,
    cursor: Option<i64>,
)
    requires
        guards(first, newest, cursor),
        guards(second, newest, cursor_after(first, cursor)),
    ensures
        second is Run,
        cursor_after(second, cursor_after(first, cursor)) == cursor_after(first, cursor),
{
}

/// No write is overlooked: a newer fact of the caller makes the guard stand down
/// again.
pub proof fn newer_write_defers_again(
    first: GuardStep,
    second: GuardStep,
    newest: i64,
    cursor: Option<i64>,
    newer: i64,
)
    requires
        guards(first, Some(newest), cursor),
        newer > newest,
        newer > cursor_or_zero(cursor),
        guards(second, Some(newer), cursor_after(first, cursor)),
    ensures
        second is Skip,
{
}

/// The cursor never moves back.
pub proof fn cursor_only_advances(step: GuardStep, newest: Option<i64>, cursor: Option<i64>)
    requires
        guards(step, newest, cursor),
    ensures
        cursor_or_zero(cursor_after(step, cursor)) >= cursor_or_zero(cursor),
{
}

/// A guarded cycle stands down just when the caller wrote a fact that is newer than
/// the cursor, and then names that fact and the cursor; else it runs. Without a
/// cursor every fact is newer that has an id above zero.
pub proof fn cycle_stands_down_for_newer_facts(
    engine: &MemoryEngine,
    newest: Option<i64>,
    cursor: Option<i64>,
    r: Result<GuardStep, MemoryError>,
)
    requires
        call_ensures(MemoryEngine::run_dream_cycle_guarded, (engine, newest, cursor), r),
    ensures
        engine.read_only <==> r is Err,
        r matches Err(e) ==> e == MemoryError::ReadOnly,
        !engine.read_only && newest is None ==> r == Ok::<GuardStep, MemoryError>(GuardStep::Run),
        !engine.read_only && newest is Some && cursor is Some && newest->0 > cursor->0 ==> r
            == Ok::<GuardStep, MemoryError>(
            GuardStep::Skip { since_fact_id: cursor->0, new_max_fact_id: newest->0 },
        ),
        !engine.read_only && newest is Some && cursor is Some && newest->0 <= cursor->0 ==> r
            == Ok::<GuardStep, MemoryError>(GuardStep::Run),
        !engine.read_only && newest is Some && cursor is None && newest->0 > 0 ==> r
            == Ok::<GuardStep, MemoryError>(
            GuardStep::Skip { since_fact_id: 0, new_max_fact_id: newest->0 },
        ),
        !engine.read_only && newest is Some && cursor is None && newest->0 <= 0 ==> r
            == Ok::<GuardStep, MemoryError>(GuardStep::Run),
{
}

/// A cycle that stood down runs the next time, with the cursor where it put it, unless
/// the caller wrote more.
pub proof fn cycle_stands_down_once(
    engine: &MemoryEngine,
    newest: i64,
    cursor: Option<i64>,
    since: i64,
    seen: i64,
    again: Option<i64>,
    r: Result<GuardStep, MemoryError>,
)
    requires
        call_ensures(
            MemoryEngine::run_dream_cycle_guarded,
            (engine, Some(newest), cursor),
            Ok::<GuardStep, MemoryError>(
                GuardStep::Skip { since_fact_id: since, new_max_fact_id: seen },
            ),
        ),
        call_ensures(MemoryEngine::run_dream_cycle_guarded, (engine, again, Some(seen)), r),
    ensures
        seen == newest,
        again is None || again->0 <= newest ==> r == Ok::<GuardStep, MemoryError>(GuardStep::Run),
        again is Some && again->0 > newest ==> r == Ok::<GuardStep, MemoryError>(
            GuardStep::Skip { since_fact_id: newest, new_max_fact_id: again->0 },
        ),
{
}

/// A cycle that selected facts must have processed some; any other report is fine.
pub proof fn report_names_what_it_processed(
    facts_selected: usize,
    processed: usize,
    r: Result<(), MemoryError>,
)
    requires
        call_ensures(check_report, (facts_selected, processed), r),
    ensures
        r is Err <==> facts_selected > 0 && processed == 0,
        r matches Err(e) ==> e == MemoryError::Cycle(
            (CycleError::MalformedReport { facts_selected }),
        ),
{
}

} // verus!
