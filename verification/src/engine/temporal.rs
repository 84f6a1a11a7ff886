//! When a fact holds.

use crate::time::Timestamp;
use crate::types::facts::Fact;
use crate::types::search::{MatchType, SearchResult};
use std::collections::HashMap;
use vstd::prelude::*;

verus! {

/// A fact with these bounds holds at an instant: from its start on, up to but
/// without its end. A missing bound is no bound.
pub open spec fn holds_at(
    t_valid: Option<Timestamp>,
    t_invalid: Option<Timestamp>,
    at: Timestamp,
) -> bool {
    &&& (t_valid matches Some(from) ==> from.at_or_before(at))
    &&& (t_invalid matches Some(until) ==> at.before(until))
}

/// A fact with these bounds holds at some time in the period from `start` up to
/// but without `end`.
pub open spec fn holds_within(
    t_valid: Option<Timestamp>,
    t_invalid: Option<Timestamp>,
    start: Timestamp,
    end: Timestamp,
) -> bool {
    &&& (t_valid matches Some(from) ==> from.before(end))
    &&& (t_invalid matches Some(until) ==> start.before(until))
}

/// Whether a fact holds at the cutoff.
pub fn passes_temporal_cutoff(fact: &Fact, cutoff: Timestamp) -> (r: bool)
    ensures
        r == holds_at(fact.t_valid, fact.t_invalid, cutoff),
{
    if let Some(t_valid) = fact.t_valid {
        if cutoff.is_before(t_valid) {
            return false;
        }
    }
    if let Some(t_invalid) = fact.t_invalid {
        if t_invalid.is_at_or_before(cutoff) {
            return false;
        }
    }
    true
}

/// Whether the time in which a fact holds overlaps the period from `start` up to
/// but without `end`.
pub fn fact_overlaps_period(fact: &Fact, start: Timestamp, end: Timestamp) -> (r: bool)
    ensures
        r == holds_within(fact.t_valid, fact.t_invalid, start, end),
{
    let starts_in_time = match fact.t_valid {
        Some(t_valid) => t_valid.is_before(end),
        None => true,
    };
    let ends_late_enough = match fact.t_invalid {
        Some(t_invalid) => start.is_before(t_invalid),
        None => true,
    };
    starts_in_time && ends_late_enough
}

/// A fact without an end that holds at an instant holds at every later one.
pub proof fn open_ended_fact_keeps_holding(
    t_valid: Option<Timestamp>,
    at: Timestamp,
    later: Timestamp,
)
    requires
        at.at_or_before(later),
        holds_at(t_valid, None, at),
    ensures
        holds_at(t_valid, None, later),
{
}

/// A fact that starts after an instant does not hold at it.
pub proof fn future_fact_does_not_hold(
    t_valid: Timestamp,
    t_invalid: Option<Timestamp>,
    at: Timestamp,
)
    requires
        at.before(t_valid),
    ensures
        !holds_at(Some(t_valid), t_invalid, at),
{
}

/// A fact that overlaps a period overlaps every wider one.
pub proof fn overlap_survives_widening(
    t_valid: Option<Timestamp>,
    t_invalid: Option<Timestamp>,
    start: Timestamp,
    end: Timestamp,
    wider_start: Timestamp,
    wider_end: Timestamp,
)
    requires
        wider_start.at_or_before(start),
        end.at_or_before(wider_end),
        holds_within(t_valid, t_invalid, start, end),
    ensures
        holds_within(t_valid, t_invalid, wider_start, wider_end),
{
}

/// A fact without bounds overlaps every period.
pub proof fn unbounded_fact_overlaps_everything(start: Timestamp, end: Timestamp)
    ensures
        holds_within(None, None, start, end),
{
}

/// A fact that holds at some instant of a period overlaps the period.
pub proof fn holding_within_a_period_is_overlap(
    t_valid: Option<Timestamp>,
    t_invalid: Option<Timestamp>,
    start: Timestamp,
    end: Timestamp,
    at: Timestamp,
)
    requires
        start.at_or_before(at),
        at.before(end),
        holds_at(t_valid, t_invalid, at),
    ensures
        holds_within(t_valid, t_invalid, start, end),
{
}

/// A fact as a result that was found by its importance.
pub fn fact_to_search_result(fact: Fact) -> (r: SearchResult)
    ensures
        r.fact == fact,
        r.score == fact.importance_score,
        r.match_type == MatchType::ImportanceRank,
{
    SearchResult { score: fact.importance_score, match_type: MatchType::ImportanceRank, fact }
}

/// The fact with the time of its surfacing, where `stamps` has one for it.
pub open spec fn stamped(fact: Fact, stamps: Map<i64, Timestamp>) -> Fact {
    if stamps.contains_key(fact.id) {
        Fact { surfaced_at: Some(stamps[fact.id]), ..fact }
    } else {
        fact
    }
}

/// Writes the times of surfacing that the store gave into the facts.
pub fn apply_surfaced_stamps(facts: &mut Vec<Fact>, stamps: &HashMap<i64, Timestamp>)
    ensures
        final(facts)@ == old(facts)@.map_values(|f: Fact| stamped(f, stamps@)),
{
    let ghost all = facts@;
    let mut i: usize = 0;
    while i < facts.len()
        invariant
            i <= facts@.len(),
            facts@.len() == all.len(),
            forall|j: int| 0 <= j < i ==> #[trigger] facts@[j] == stamped(all[j], stamps@),
            forall|j: int| i <= j < all.len() ==> #[trigger] facts@[j] == all[j],
        decreases facts@.len() - i,
    {
        let id: i64 = facts[i].id;
        if let Some(at) = stamps.get(&id) {
            facts[i].surfaced_at = Some(*at);
        }
        i = i + 1;
    }
    assert(facts@ =~= all.map_values(|f: Fact| stamped(f, stamps@)));
}

/// The ids of the facts that have not been surfaced yet.
pub open spec fn unsurfaced(facts: Seq<Fact>) -> Seq<i64> {
    facts.filter(|f: Fact| f.surfaced_at is None).map_values(|f: Fact| f.id)
}

/// The ids of the facts that have not been surfaced yet, in order.
pub fn unsurfaced_ids(facts: &Vec<Fact>) -> (r: Vec<i64>)
    ensures
        r@ == unsurfaced(facts@),
{
    let ghost fresh = |f: Fact| f.surfaced_at is None;
    let ghost name = |f: Fact| f.id;
    let mut out: Vec<i64> = Vec::new();
    let mut i: usize = 0;
    proof {
        reveal(Seq::filter);
        assert(facts@.take(0).filter(fresh).map_values(name) =~= out@);
    }
    while i < facts.len()
        invariant
            i <= facts@.len(),
            fresh == (|f: Fact| f.surfaced_at is None),
            name == (|f: Fact| f.id),
            out@ == facts@.take(i as int).filter(fresh).map_values(name),
        decreases facts@.len() - i,
    {
        let ghost before = facts@.take(i as int).filter(fresh);
        proof {
            reveal(Seq::filter);
            assert(facts@.take(i + 1).drop_last() =~= facts@.take(i as int));
            assert(facts@.take(i + 1).last() == facts@[i as int]);
        }
        if facts[i].surfaced_at.is_none() {
            out.push(facts[i].id);
            assert(before.push(facts@[i as int]).map_values(name) =~= out@);
        }
        i = i + 1;
    }
    assert(facts@.take(i as int) =~= facts@);
    out
}

/// The facts as they are handed out: each with the stamp that the store gave it.
pub open spec fn all_stamped(facts: Seq<Fact>, stamps: Map<i64, Timestamp>) -> Seq<Fact> {
    facts.map_values(|f: Fact| stamped(f, stamps))
}

/// A fact that was surfaced before keeps the time of its first surfacing, as
/// long as the store gives stamps only to the facts it was asked about.
pub proof fn surfaced_facts_keep_their_time(
    facts: Seq<Fact>,
    stamps: Map<i64, Timestamp>,
    i: int,
)
    requires
        forall|a: int, b: int|
            0 <= a < b < facts.len() ==> (#[trigger] facts[a]).id != (#[trigger] facts[b]).id,
        forall|id: i64| #[trigger] stamps.contains_key(id) ==> unsurfaced(facts).contains(id),
        0 <= i < facts.len(),
        facts[i].surfaced_at is Some,
    ensures
        all_stamped(facts, stamps)[i] == facts[i],
{
    broadcast use vstd::seq_lib::group_filter_ensures;

    if stamps.contains_key(facts[i].id) {
        let fresh = |f: Fact| f.surfaced_at is None;
        let left = facts.filter(fresh);
        assert(unsurfaced(facts).contains(facts[i].id));
        let k = choose|k: int| 0 <= k < left.len() && unsurfaced(facts)[k] == facts[i].id;
        assert(left[k].id == facts[i].id && fresh(left[k]));
        facts.lemma_filter_contains_rev(fresh, left[k]);
        let j = choose|j: int| 0 <= j < facts.len() && facts[j] == left[k];
        assert(facts[j].id == facts[i].id && j != i);
    }
}

/// Once the store has stamped all facts that it was asked about, nothing is left
/// to ask: a second listing stamps none of them again.
pub proof fn stamped_facts_are_all_surfaced(facts: Seq<Fact>, stamps: Map<i64, Timestamp>)
    requires
        forall|id: i64| #[trigger] unsurfaced(facts).contains(id) ==> stamps.contains_key(id),
    ensures
        unsurfaced(all_stamped(facts, stamps)) == Seq::<i64>::empty(),
{
    broadcast use vstd::seq_lib::group_filter_ensures;

    let fresh = |f: Fact| f.surfaced_at is None;
    let after = all_stamped(facts, stamps);
    let left = after.filter(fresh);
    if left.len() > 0 {
        let f = left[0];
        assert(fresh(f));
        assert(left.contains(f));
        after.lemma_filter_contains_rev(fresh, f);
        let i = choose|i: int| 0 <= i < after.len() && after[i] == f;
        assert(facts[i].surfaced_at is None);
        facts.lemma_filter_contains(fresh, i);
        let k = choose|k: int|
            0 <= k < facts.filter(fresh).len() && facts.filter(fresh)[k] == facts[i];
        assert(unsurfaced(facts)[k] == facts[i].id);
        assert(unsurfaced(facts).contains(facts[i].id));
    }
    assert(unsurfaced(after) =~= Seq::<i64>::empty());
}

/// The fact is due: it is active, in one of the scopes, and has a start that has
/// come.
pub open spec fn due(fact: Fact, now: Timestamp, scopes: Seq<i64>) -> bool {
    &&& fact.t_expired is None
    &&& (fact.t_valid matches Some(from) && from.at_or_before(now))
    &&& scopes.contains(fact.scope_id)
}

/// Whether a fact is due. A store lists the facts for which this holds.
pub fn is_due(fact: &Fact, now: Timestamp, scopes: &Vec<i64>) -> (r: bool)
    ensures
        r == due(*fact, now, scopes@),
{
    if fact.t_expired.is_some() {
        return false;
    }
    let begun = match fact.t_valid {
        Some(from) => from.is_at_or_before(now),
        None => false,
    };
    if !begun {
        return false;
    }
    let mut i: usize = 0;
    while i < scopes.len()
        invariant
            i <= scopes@.len(),
            fact.t_expired is None,
            fact.t_valid is Some && fact.t_valid->0.at_or_before(now),
            forall|j: int| 0 <= j < i ==> scopes@[j] != fact.scope_id,
        decreases scopes@.len() - i,
    {
        if scopes[i] == fact.scope_id {
            return true;
        }
        i = i + 1;
    }
    false
}

/// When a fact surfaced that surfaces at `now`: at its first surfacing.
pub open spec fn surfacing(fact: Fact, now: Timestamp) -> Timestamp {
    match fact.surfaced_at {
        Some(at) => at,
        None => now,
    }
}

/// Stamps a stored fact that surfaces at `now`, and says when it surfaced first.
/// A fact that surfaced before keeps its stamp. A store does this with each fact
/// that it is asked to stamp.
pub fn surface(fact: &mut Fact, now: Timestamp) -> (r: Timestamp)
    ensures
        r == surfacing(*old(fact), now),
        *final(fact) == (Fact { surfaced_at: Some(r), ..*old(fact) }),
{
    match fact.surfaced_at {
        Some(at) => at,
        None => {
            fact.surfaced_at = Some(now);
            now
        },
    }
}

/// The facts of a store that a listing asks for.
pub open spec fn listing(store: Seq<Fact>, now: Timestamp, scopes: Seq<i64>) -> Seq<Fact> {
    store.filter(|f: Fact| due(f, now, scopes))
}

/// The stamps are those that the store gives when it is asked to stamp the facts
/// with these ids: for each of them that it holds, when it surfaced first.
pub open spec fn are_stamps_of(
    stamps: Map<i64, Timestamp>,
    store: Seq<Fact>,
    ids: Seq<i64>,
    now: Timestamp,
) -> bool {
    forall|i: int|
        0 <= i < store.len() ==> {
            &&& stamps.contains_key((#[trigger] store[i]).id) <==> ids.contains(store[i].id)
            &&& stamps.contains_key(store[i].id) ==> stamps[store[i].id] == surfacing(
                store[i],
                now,
            )
        }
}

/// What a listing hands out: the due facts, with the stamps that the store gave
/// to those that had not surfaced before.
pub open spec fn lists(
    out: Seq<Fact>,
    store: Seq<Fact>,
    now: Timestamp,
    scopes: Seq<i64>,
    stamps: Map<i64, Timestamp>,
) -> bool {
    &&& are_stamps_of(stamps, store, unsurfaced(listing(store, now, scopes)), now)
    &&& out == all_stamped(listing(store, now, scopes), stamps)
}

proof fn lemma_listed(
    out: Seq<Fact>,
    store: Seq<Fact>,
    now: Timestamp,
    scopes: Seq<i64>,
    stamps: Map<i64, Timestamp>,
    i: int,
)
    requires
        lists(out, store, now, scopes, stamps),
        0 <= i < listing(store, now, scopes).len(),
    ensures
        out.len() == listing(store, now, scopes).len(),
        due(listing(store, now, scopes)[i], now, scopes),
        out[i] == (Fact {
            surfaced_at: Some(surfacing(listing(store, now, scopes)[i], now)),
            ..listing(store, now, scopes)[i]
        }),
{
    broadcast use vstd::seq_lib::group_filter_ensures;

    let wanted = |f: Fact| due(f, now, scopes);
    let fresh = |f: Fact| f.surfaced_at is None;
    let found = listing(store, now, scopes);
    let f = found[i];
    assert(wanted(f));
    assert(found.contains(f));
    store.lemma_filter_contains_rev(wanted, f);
    let j = choose|j: int| 0 <= j < store.len() && store[j] == f;
    assert(out[i] == stamped(f, stamps));
    assert(stamps.contains_key(store[j].id) <==> unsurfaced(found).contains(store[j].id));
    if f.surfaced_at is None {
        found.lemma_filter_contains(fresh, i);
        let k = choose|k: int| 0 <= k < found.filter(fresh).len() && found.filter(fresh)[k] == f;
        assert(unsurfaced(found)[k] == f.id);
        assert(unsurfaced(found).contains(f.id));
    }
}

/// Every fact of a listing is due, and says when it surfaced first.
pub proof fn listed_facts_are_due_and_surfaced(
    out: Seq<Fact>,
    store: Seq<Fact>,
    now: Timestamp,
    scopes: Seq<i64>,
    stamps: Map<i64, Timestamp>,
    i: int,
)
    requires
        lists(out, store, now, scopes, stamps),
        0 <= i < out.len(),
    ensures
        due(out[i], now, scopes),
        out[i].surfaced_at is Some,
{
    lemma_listed(out, store, now, scopes, stamps, i);
}

/// A later listing hands out every fact of an earlier one again, with the stamp
/// that it had, as long as the fact was not expired or changed between. The
/// first stamp is never overwritten.
pub proof fn later_listing_keeps_the_first_stamps(
    first: Seq<Fact>,
    second: Seq<Fact>,
    store: Seq<Fact>,
    store_later: Seq<Fact>,
    now: Timestamp,
    later: Timestamp,
    scopes: Seq<i64>,
    stamps: Map<i64, Timestamp>,
    stamps_later: Map<i64, Timestamp>,
    i: int,
)
    requires
        now.at_or_before(later),
        lists(first, store, now, scopes, stamps),
        forall|k: int| 0 <= k < first.len() ==> store_later.contains(#[trigger] first[k]),
        lists(second, store_later, later, scopes, stamps_later),
        0 <= i < first.len(),
    ensures
        first[i].surfaced_at is Some,
        second.contains(first[i]),
{
    let f = first[i];
    let wanted = |x: Fact| due(x, later, scopes);
    let found = listing(store_later, later, scopes);
    listed_facts_are_due_and_surfaced(first, store, now, scopes, stamps, i);
    assert(wanted(f));
    assert(store_later.contains(f));
    let j = choose|j: int| 0 <= j < store_later.len() && store_later[j] == f;
    store_later.lemma_filter_contains(wanted, j);
    let k = choose|k: int| 0 <= k < found.len() && found[k] == f;
    lemma_listed(second, store_later, later, scopes, stamps_later, k);
    assert(second[k] == f);
}

/// How a listing of due facts goes on.
#[derive(Debug, Clone, PartialEq)]
pub enum DueStep {
    /// These are the facts: all of them surfaced before.
    Done(Vec<Fact>),
    /// The store is to stamp the facts with these ids; its stamps then go into the
    /// facts.
    Stamp { facts: Vec<Fact>, ids: Vec<i64> },
}

/// Goes on with a listing once the store has given the due facts: those that have
/// not surfaced yet are to be stamped.
pub fn after_due_facts(facts: Vec<Fact>) -> (r: DueStep)
    ensures
        match r {
            DueStep::Done(all) => all == facts && unsurfaced(facts@).len() == 0,
            DueStep::Stamp { facts: all, ids } => all == facts && ids@ == unsurfaced(facts@)
                && ids@.len() > 0,
        },
{
    let ids = unsurfaced_ids(&facts);
    if ids.len() == 0 {
        DueStep::Done(facts)
    } else {
        DueStep::Stamp { facts, ids }
    }
}

/// Ends a listing with the stamps that the store gave.
pub fn finish_listing(facts: Vec<Fact>, stamps: &HashMap<i64, Timestamp>) -> (r: Vec<Fact>)
    ensures
        r@ == all_stamped(facts@, stamps@),
{
    let mut out = facts;
    apply_surfaced_stamps(&mut out, stamps);
    out
}

/// A listing that has nothing to stamp hands out what one with stamps would: the
/// due facts as they are.
pub proof fn listing_without_stamps_is_a_listing(
    store: Seq<Fact>,
    now: Timestamp,
    scopes: Seq<i64>,
)
    requires
        unsurfaced(listing(store, now, scopes)).len() == 0,
    ensures
        lists(listing(store, now, scopes), store, now, scopes, Map::empty()),
{
    let found = listing(store, now, scopes);
    let none = Map::<i64, Timestamp>::empty();
    assert(all_stamped(found, none) =~= found);
    assert forall|i: int| 0 <= i < store.len() implies !unsurfaced(found).contains(
        (#[trigger] store[i]).id,
    ) by {}
}

/// What a listing hands out stands in the store once the stamps are written, just
/// as it was handed out.
pub proof fn listed_facts_stand_in_the_store(
    out: Seq<Fact>,
    store: Seq<Fact>,
    now: Timestamp,
    scopes: Seq<i64>,
    stamps: Map<i64, Timestamp>,
    i: int,
)
    requires
        lists(out, store, now, scopes, stamps),
        0 <= i < out.len(),
    ensures
        all_stamped(store, stamps).contains(out[i]),
{
    let wanted = |f: Fact| due(f, now, scopes);
    let found = listing(store, now, scopes);
    assert(found.contains(found[i]));
    store.lemma_filter_contains_rev(wanted, found[i]);
    let j = choose|j: int| 0 <= j < store.len() && store[j] == found[i];
    assert(all_stamped(store, stamps)[j] == out[i]);
}

/// A listing at the same time or later, with no other change between, hands out
/// every fact of the first one again with the stamp that it had.
pub proof fn listing_again_keeps_the_first_stamps(
    first: Seq<Fact>,
    second: Seq<Fact>,
    store: Seq<Fact>,
    now: Timestamp,
    later: Timestamp,
    scopes: Seq<i64>,
    stamps: Map<i64, Timestamp>,
    stamps_later: Map<i64, Timestamp>,
)
    requires
        now.at_or_before(later),
        lists(first, store, now, scopes, stamps),
        lists(second, all_stamped(store, stamps), later, scopes, stamps_later),
    ensures
        forall|i: int|
            0 <= i < first.len() ==> (#[trigger] first[i]).surfaced_at is Some && second.contains(
                first[i],
            ),
{
    let store_later = all_stamped(store, stamps);
    assert forall|k: int| 0 <= k < first.len() implies store_later.contains(#[trigger] first[k]) by {
        listed_facts_stand_in_the_store(first, store, now, scopes, stamps, k);
    }
    assert forall|i: int| 0 <= i < first.len() implies (#[trigger] first[i]).surfaced_at is Some
        && second.contains(first[i]) by {
        later_listing_keeps_the_first_stamps(
            first,
            second,
            store,
            store_later,
            now,
            later,
            scopes,
            stamps,
            stamps_later,
            i,
        );
    }
}

/// A fact passes a cutoff just when it holds then. One whose end has come does
/// not, whatever its start is and whether it has one; nor does one whose start is
/// still to come, whatever its end is. Every other fact passes: without a start, at
/// every instant before its end; without an end, from its start on; without
/// either, always.
pub proof fn cutoff_keeps_what_holds(fact: &Fact, cutoff: Timestamp, r: bool)
    requires
        call_ensures(passes_temporal_cutoff, (fact, cutoff), r),
    ensures
        fact.t_invalid matches Some(until) && until.at_or_before(cutoff) ==> !r,
        fact.t_valid matches Some(from) && cutoff.before(from) ==> !r,
        fact.t_valid is None && fact.t_invalid is None ==> r,
        fact.t_valid is None && (fact.t_invalid matches Some(until) && cutoff.before(until)) ==> r,
        fact.t_invalid is None && (fact.t_valid matches Some(from) && from.at_or_before(cutoff))
            ==> r,
        (fact.t_valid matches Some(from) && from.at_or_before(cutoff)) && (
        fact.t_invalid matches Some(until) && cutoff.before(until)) ==> r,
{
}

/// A fact overlaps a period unless it is over when the period starts or has not
/// begun when the period ends. Neither bound matters to the other.
pub proof fn overlap_misses_only_before_and_after(
    fact: &Fact,
    start: Timestamp,
    end: Timestamp,
    r: bool,
)
    requires
        call_ensures(fact_overlaps_period, (fact, start, end), r),
    ensures
        fact.t_invalid matches Some(until) && until.at_or_before(start) ==> !r,
        fact.t_valid matches Some(from) && end.at_or_before(from) ==> !r,
        fact.t_valid is None && fact.t_invalid is None ==> r,
        fact.t_valid is None && (fact.t_invalid matches Some(until) && start.before(until)) ==> r,
        fact.t_invalid is None && (fact.t_valid matches Some(from) && from.before(end)) ==> r,
        (fact.t_valid matches Some(from) && from.before(end)) && (
        fact.t_invalid matches Some(until) && start.before(until)) ==> r,
{
}

/// A fact that passes a cutoff within a period overlaps the period.
pub proof fn passing_within_a_period_is_overlap(
    fact: &Fact,
    start: Timestamp,
    end: Timestamp,
    at: Timestamp,
    overlaps: bool,
)
    requires
        start.at_or_before(at),
        at.before(end),
        call_ensures(passes_temporal_cutoff, (fact, at), true),
        call_ensures(fact_overlaps_period, (fact, start, end), overlaps),
    ensures
        overlaps,
{
}

/// A fact that overlaps a period passes the cutoff at some instant of it: at the
/// start of the period, or at its own start if that is later. The period and the
/// time of the fact must not be empty.
pub proof fn overlap_is_passing_at_some_instant(
    fact: &Fact,
    start: Timestamp,
    end: Timestamp,
    at_start: bool,
    at_own_start: bool,
)
    requires
        start.before(end),
        fact.t_valid is Some && fact.t_invalid is Some ==> fact.t_valid->0.before(
            fact.t_invalid->0,
        ),
        call_ensures(fact_overlaps_period, (fact, start, end), true),
        call_ensures(passes_temporal_cutoff, (fact, start), at_start),
        fact.t_valid is Some ==> call_ensures(
            passes_temporal_cutoff,
            (fact, fact.t_valid->0),
            at_own_start,
        ),
    ensures
        at_start || (fact.t_valid is Some && start.before(fact.t_valid->0)
            && fact.t_valid->0.before(end) && at_own_start),
{
}

/// A result that was found by importance shows the fact unchanged, with its
/// importance as its score.
pub proof fn importance_result_shows_the_fact(fact: Fact, r: SearchResult)
    requires
        call_ensures(fact_to_search_result, (fact,), r),
    ensures
        r.fact == fact,
        r.score == fact.importance_score,
        r.match_type == MatchType::ImportanceRank,
{
}

/// Stamping changes when a fact surfaced and nothing else, and only of the facts
/// that have a stamp. No fact goes, comes or moves.
pub proof fn stamping_changes_the_stamp_only(
    facts: &mut Vec<Fact>,
    stamps: &HashMap<i64, Timestamp>,
    i: int,
)
    requires
        call_ensures(apply_surfaced_stamps, (facts, stamps), ()),
    ensures
        final(facts)@.len() == old(facts)@.len(),
        0 <= i < old(facts)@.len() && stamps@.contains_key(old(facts)@[i].id) ==> final(facts)@[i] == (Fact {
            surfaced_at: Some(stamps@[old(facts)@[i].id]),
            ..old(facts)@[i]
        }),
        0 <= i < old(facts)@.len() && !stamps@.contains_key(old(facts)@[i].id) ==> final(facts)@[i] == old(facts)@[i],
{
}

/// The facts that are to be stamped are exactly those that have not surfaced, in
/// their order.
pub proof fn unsurfaced_facts_are_asked_for(facts: &Vec<Fact>, r: Vec<i64>, id: i64)
    requires
        call_ensures(unsurfaced_ids, (facts,), r),
    ensures
        r@ == facts@.filter(|f: Fact| f.surfaced_at is None).map_values(|f: Fact| f.id),
        r@.contains(id) <==> exists|i: int|
            0 <= i < facts@.len() && (#[trigger] facts@[i]).id == id && facts@[i].surfaced_at
                is None,
{
    broadcast use vstd::seq_lib::group_filter_ensures;

    let fresh = |f: Fact| f.surfaced_at is None;
    let left = facts@.filter(fresh);
    if r@.contains(id) {
        let k = choose|k: int| 0 <= k < r@.len() && r@[k] == id;
        assert(fresh(left[k]));
        assert(left.contains(left[k]));
        facts@.lemma_filter_contains_rev(fresh, left[k]);
        let i = choose|i: int| 0 <= i < facts@.len() && facts@[i] == left[k];
        assert(facts@[i].id == id && facts@[i].surfaced_at is None);
    }
    if exists|i: int|
        0 <= i < facts@.len() && (#[trigger] facts@[i]).id == id && facts@[i].surfaced_at is None {
        let i = choose|i: int|
            0 <= i < facts@.len() && (#[trigger] facts@[i]).id == id && facts@[i].surfaced_at
                is None;
        facts@.lemma_filter_contains(fresh, i);
        let k = choose|k: int| 0 <= k < left.len() && left[k] == facts@[i];
        assert(r@[k] == id);
    }
}

/// A fact is due from its start on, for as long as it is active, in each of the
/// scopes that are asked about. One without a start never is.
pub proof fn due_facts_have_begun(fact: &Fact, now: Timestamp, scopes: &Vec<i64>, r: bool)
    requires
        call_ensures(is_due, (fact, now, scopes), r),
    ensures
        fact.t_expired is Some ==> !r,
        fact.t_valid is None ==> !r,
        fact.t_valid matches Some(from) && now.before(from) ==> !r,
        !scopes@.contains(fact.scope_id) ==> !r,
        fact.t_expired is None && (fact.t_valid matches Some(from) && from.at_or_before(now))
            && scopes@.contains(fact.scope_id) ==> r,
{
}

/// A fact surfaces once: the first time it is stamped with that time, and ever
/// after it keeps its stamp. Nothing else of it changes.
pub proof fn fact_surfaces_once(fact: &mut Fact, now: Timestamp, r: Timestamp)
    requires
        call_ensures(surface, (fact, now), r),
    ensures
        old(fact).surfaced_at is None ==> r == now,
        old(fact).surfaced_at matches Some(at) ==> r == at && *final(fact) == *old(fact),
        *final(fact) == (Fact { surfaced_at: Some(r), ..*old(fact) }),
{
}

/// A listing asks the store for stamps just when some of its facts have not
/// surfaced, for those facts and no others, and hands out all its facts.
pub proof fn listing_asks_for_missing_stamps(
    facts: Vec<Fact>,
    step: DueStep,
    stamps: &HashMap<i64, Timestamp>,
    out: Vec<Fact>,
    i: int,
)
    requires
        call_ensures(after_due_facts, (facts,), step),
        step is Stamp ==> call_ensures(finish_listing, (step->facts, stamps), out),
        step is Done ==> out == step->Done_0,
    ensures
        out@.len() == facts@.len(),
        0 <= i < facts@.len() ==> out@[i] == facts@[i] || out@[i] == (Fact {
            surfaced_at: Some(stamps@[facts@[i].id]),
            ..facts@[i]
        }),
        0 <= i < facts@.len() && facts@[i].surfaced_at is None ==> step is Stamp && step->ids@.contains(facts@[i].id),
        0 <= i < facts@.len() && step is Stamp && stamps@.contains_key(facts@[i].id) ==> out@[i].surfaced_at == Some(
            stamps@[facts@[i].id],
        ),
        step is Stamp ==> step->ids@ == facts@.filter(
            |f: Fact| f.surfaced_at is None,
        ).map_values(|f: Fact| f.id),
{
    broadcast use vstd::seq_lib::group_filter_ensures;

    let fresh = |f: Fact| f.surfaced_at is None;
    let left = facts@.filter(fresh);
    if 0 <= i < facts@.len() && facts@[i].surfaced_at is None {
        facts@.lemma_filter_contains(fresh, i);
        let k = choose|k: int| 0 <= k < left.len() && left[k] == facts@[i];
        assert(unsurfaced(facts@)[k] == facts@[i].id);
        assert(unsurfaced(facts@).contains(facts@[i].id));
    }
}

} // verus!
