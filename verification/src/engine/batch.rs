//! Adding facts in batches.

use crate::engine::ingest::{new_fact_of, pin_step, PinStep};
use crate::engine::state::MemoryEngine;
use crate::error::MemoryError;
use crate::text::decimal_text;
use crate::time::{utc_now, Timestamp};
use crate::types::facts::{AddFactRequest, ClassifierInput, NewFact, ROOT_SCOPE_ID};
use vstd::prelude::*;

verus! {

/// How many of the first `i` slots are empty.
pub open spec fn gaps<T>(slots: Seq<Option<T>>, i: int) -> nat
    decreases i,
{
    if i <= 0 {
        0
    } else {
        gaps(slots, i - 1) + (if slots[i - 1] is None {
            1nat
        } else {
            0nat
        })
    }
}

proof fn lemma_gaps_agree<T>(a: Seq<Option<T>>, b: Seq<Option<T>>, i: int)
    requires
        0 <= i <= a.len(),
        i <= b.len(),
        forall|j: int| 0 <= j < i ==> (#[trigger] a[j] is None <==> b[j] is None),
    ensures
        gaps(a, i) == gaps(b, i),
    decreases i,
{
    if i > 0 {
        lemma_gaps_agree(a, b, i - 1);
        assert(a[i - 1] is None <==> b[i - 1] is None);
    }
}

proof fn lemma_gaps_grow<T>(slots: Seq<Option<T>>, i: int, j: int)
    requires
        0 <= i <= j,
    ensures
        gaps(slots, i) <= gaps(slots, j) <= gaps(slots, i) + (j - i),
    decreases j - i,
{
    if i < j {
        lemma_gaps_grow(slots, i, j - 1);
    }
}

/// The message about a count that is not what it should be.
pub open spec fn count_message(
    who: Seq<char>,
    got: nat,
    what: Seq<char>,
    expected: nat,
    things: Seq<char>,
) -> Seq<char> {
    who + crate::text::decimal(got) + what + crate::text::decimal(expected) + things
}

/// The error about a count that is not what it should be.
pub fn count_error(who: &str, got: usize, what: &str, expected: usize, things: &str) -> (r:
    MemoryError)
    ensures
        r matches MemoryError::Internal(text) && text@ == count_message(
            who@,
            got as nat,
            what@,
            expected as nat,
            things@,
        ),
{
    let mut text = who.to_owned();
    text.append(decimal_text(got as u64).as_str());
    text.append(what);
    text.append(decimal_text(expected as u64).as_str());
    text.append(things);
    MemoryError::Internal(text)
}

/// Checks a batch before anything is embedded or written. The batch is taken
/// whole or not at all, so the first request that cannot be accepted decides.
pub fn validate_batch(entries: &[AddFactRequest]) -> (r: Result<(), MemoryError>)
    ensures
        r is Ok <==> forall|i: int|
            0 <= i < entries@.len() ==> crate::engine::ingest::acceptable(#[trigger] entries@[i]),
        r matches Err(e) ==> exists|i: int|
            0 <= i < entries@.len() && !crate::engine::ingest::acceptable(entries@[i])
                && crate::engine::ingest::says_why_refused(e, #[trigger] entries@[i]) && forall|
                j: int,
            |
                0 <= j < i ==> crate::engine::ingest::acceptable(#[trigger] entries@[j]),
{
    let mut i: usize = 0;
    while i < entries.len()
        invariant
            i <= entries@.len(),
            forall|j: int|
                0 <= j < i ==> crate::engine::ingest::acceptable(#[trigger] entries@[j]),
        decreases entries@.len() - i,
    {
        match MemoryEngine::validate_add_fact_request(&entries[i]) {
            Ok(()) => {},
            Err(e) => {
                return Err(e);
            },
        }
        i = i + 1;
    }
    Ok(())
}

/// A batch, split into what can be accepted and what cannot.
#[derive(Debug)]
pub struct Partition<'a> {
    /// For each request, why it is refused; nothing when it is accepted.
    pub validation: Vec<Option<MemoryError>>,
    /// The accepted requests, in order.
    pub valid: Vec<&'a AddFactRequest>,
}

/// The partition splits the batch: each request that can be accepted has its
/// place among the accepted ones, and each other one its reason.
pub open spec fn is_partition_of(p: Partition<'_>, entries: Seq<AddFactRequest>) -> bool {
    &&& p.validation@.len() == entries.len()
    &&& p.valid@.len() == gaps(p.validation@, entries.len() as int)
    &&& forall|i: int|
        0 <= i < entries.len() ==> match #[trigger] p.validation@[i] {
            None => crate::engine::ingest::acceptable(entries[i]) && gaps(p.validation@, i)
                < p.valid@.len() && *p.valid@[gaps(p.validation@, i) as int] == entries[i],
            Some(e) => !crate::engine::ingest::acceptable(entries[i])
                && crate::engine::ingest::says_why_refused(e, entries[i]),
        }
}

/// Splits a batch into the requests that can be accepted, which go on together,
/// and those that cannot, which fail alone.
pub fn partition_batch<'a>(entries: &'a [AddFactRequest]) -> (r: Partition<'a>)
    ensures
        is_partition_of(r, entries@),
{
    let mut validation: Vec<Option<MemoryError>> = Vec::new();
    let mut valid: Vec<&'a AddFactRequest> = Vec::new();
    let mut i: usize = 0;
    while i < entries.len()
        invariant
            i <= entries@.len(),
            validation@.len() == i,
            valid@.len() == gaps(validation@, i as int),
            forall|j: int|
                0 <= j < i ==> match #[trigger] validation@[j] {
                    None => crate::engine::ingest::acceptable(entries@[j]) && gaps(validation@, j)
                        < valid@.len() && *valid@[gaps(validation@, j) as int] == entries@[j],
                    Some(e) => !crate::engine::ingest::acceptable(entries@[j])
                        && crate::engine::ingest::says_why_refused(e, entries@[j]),
                },
        decreases entries@.len() - i,
    {
        let ghost before = validation@;
        let ghost valid_before = valid@;
        match MemoryEngine::validate_add_fact_request(&entries[i]) {
            Ok(()) => {
                valid.push(&entries[i]);
                validation.push(None);
            },
            Err(e) => {
                validation.push(Some(e));
            },
        }
        proof {
            lemma_gaps_agree(before, validation@, i as int);
            assert forall|j: int| 0 <= j < i + 1 implies match #[trigger] validation@[j] {
                None => crate::engine::ingest::acceptable(entries@[j]) && gaps(validation@, j)
                    < valid@.len() && *valid@[gaps(validation@, j) as int] == entries@[j],
                Some(e) => !crate::engine::ingest::acceptable(entries@[j])
                    && crate::engine::ingest::says_why_refused(e, entries@[j]),
            } by {
                if j < i {
                    assert(validation@[j] == before[j]);
                    lemma_gaps_agree(before, validation@, j);
                }
            }
        }
        i = i + 1;
    }
    Partition { validation, valid }
}

/// The results of a partly accepted batch, in the order of its requests: each
/// accepted one has the next id, each other one its reason.
pub open spec fn is_rethreaded(
    results: Seq<Result<i64, MemoryError>>,
    validation: Seq<Option<MemoryError>>,
    ids: Seq<i64>,
) -> bool {
    &&& results.len() == validation.len()
    &&& forall|i: int|
        0 <= i < validation.len() ==> #[trigger] results[i] == (match validation[i] {
            None => Ok::<i64, MemoryError>(ids[gaps(validation, i) as int]),
            Some(e) => Err::<i64, MemoryError>(e),
        })
}

/// Brings the ids of the accepted requests and the reasons of the others into the
/// order of the batch. The store must have given one id for each accepted
/// request.
pub fn rethread_results(validation: Vec<Option<MemoryError>>, ids: Vec<i64>) -> (r: Result<
    Vec<Result<i64, MemoryError>>,
    MemoryError,
>)
    ensures
        r is Ok <==> ids@.len() == gaps(validation@, validation@.len() as int),
        match r {
            Ok(results) => is_rethreaded(results@, validation@, ids@),
            Err(e) => e matches MemoryError::Internal(text) && text@ == count_message(
                "batch insert returned "@,
                ids@.len(),
                " ids for "@,
                gaps(validation@, validation@.len() as int),
                " valid entries"@,
            ),
        },
{
    let ghost slots = validation@;
    let mut accepted: usize = 0;
    let mut i: usize = 0;
    while i < validation.len()
        invariant
            i <= validation@.len(),
            slots == validation@,
            accepted == gaps(slots, i as int),
            accepted <= i,
        decreases validation@.len() - i,
    {
        if validation[i].is_none() {
            accepted = accepted + 1;
        }
        i = i + 1;
    }
    if ids.len() != accepted {
        return Err(
            count_error(
                "batch insert returned ",
                ids.len(),
                " ids for ",
                accepted,
                " valid entries",
            ),
        );
    }
    let mut results: Vec<Result<i64, MemoryError>> = Vec::new();
    let mut next: usize = 0;
    let total: usize = ids.len();
    for slot in it: validation
        invariant
            total == ids@.len(),
            it.seq() == slots,
            ids@.len() == gaps(slots, slots.len() as int),
            results@.len() == it.index(),
            next == gaps(slots, it.index() as int),
            forall|j: int|
                0 <= j < it.index() ==> #[trigger] results@[j] == (match slots[j] {
                    None => Ok::<i64, MemoryError>(ids@[gaps(slots, j) as int]),
                    Some(e) => Err::<i64, MemoryError>(e),
                }),
    {
        match slot {
            Some(e) => {
                results.push(Err(e));
            },
            None => {
                proof {
                    lemma_gaps_grow(slots, it.index() + 1, slots.len() as int);
                }
                results.push(Ok(ids[next]));
                next = next + 1;
            },
        }
    }
    Ok(results)
}

/// The pin that is known of a request without asking a classifier.
pub open spec fn known_pin(req: AddFactRequest, has_classifier: bool) -> Option<bool> {
    match crate::engine::ingest::asked_pin(req) {
        Some(p) => Some(p),
        None => if has_classifier {
            None
        } else {
            Some(false)
        },
    }
}

/// The pins that are known of a batch, and what a classifier has to be asked.
#[derive(Debug)]
pub struct PinSlots {
    /// For each request its pin; nothing where the classifier decides.
    pub slots: Vec<Option<bool>>,
    /// What the classifier is shown of each request that it decides, in order.
    pub pending: Vec<ClassifierInput>,
}

/// The slots are those of the batch, and each empty one has its question among
/// the pending ones, at the place that the empty slots before it leave to it.
pub open spec fn are_slots_of(
    p: PinSlots,
    entries: Seq<&AddFactRequest>,
    has_classifier: bool,
) -> bool {
    &&& p.slots@.len() == entries.len()
    &&& p.pending@.len() == gaps(p.slots@, entries.len() as int)
    &&& forall|i: int|
        0 <= i < entries.len() ==> #[trigger] p.slots@[i] == known_pin(*entries[i], has_classifier)
            && (p.slots@[i] is None ==> gaps(p.slots@, i) < p.pending@.len()
            && crate::engine::ingest::is_input_of(
            p.pending@[gaps(p.slots@, i) as int],
            *entries[i],
        ))
}

/// Finds the pins of a batch as far as they are known, and collects what the
/// classifier has to be asked, so that it can be asked all at once.
pub fn compute_batch_pins(entries: &[&AddFactRequest], has_classifier: bool) -> (r: PinSlots)
    ensures
        are_slots_of(r, entries@, has_classifier),
{
    let mut slots: Vec<Option<bool>> = Vec::new();
    let mut pending: Vec<ClassifierInput> = Vec::new();
    let mut i: usize = 0;
    while i < entries.len()
        invariant
            i <= entries@.len(),
            slots@.len() == i,
            pending@.len() == gaps(slots@, i as int),
            forall|j: int|
                0 <= j < i ==> #[trigger] slots@[j] == known_pin(*entries@[j], has_classifier) && (
                slots@[j] is None ==> gaps(slots@, j) < pending@.len()
                    && crate::engine::ingest::is_input_of(
                    pending@[gaps(slots@, j) as int],
                    *entries@[j],
                )),
        decreases entries@.len() - i,
    {
        let ghost before = slots@;
        match pin_step(entries[i], has_classifier) {
            PinStep::Known(p) => {
                slots.push(Some(p));
            },
            PinStep::Ask(input) => {
                pending.push(input);
                slots.push(None);
            },
        }
        proof {
            lemma_gaps_agree(before, slots@, i as int);
            assert forall|j: int| 0 <= j < i + 1 implies #[trigger] slots@[j] == known_pin(
                *entries@[j],
                has_classifier,
            ) && (slots@[j] is None ==> gaps(slots@, j) < pending@.len()
                && crate::engine::ingest::is_input_of(
                pending@[gaps(slots@, j) as int],
                *entries@[j],
            )) by {
                if j < i {
                    assert(slots@[j] == before[j]);
                    lemma_gaps_agree(before, slots@, j);
                }
            }
        }
        i = i + 1;
    }
    PinSlots { slots, pending }
}

/// The pin of the `i`th request: the known one, else the classifier's next
/// answer, else none.
pub open spec fn stitched(slots: Seq<Option<bool>>, answers: Seq<bool>, i: int) -> bool {
    match slots[i] {
        Some(p) => p,
        None => if gaps(slots, i) < answers.len() {
            answers[gaps(slots, i) as int]
        } else {
            false
        },
    }
}

/// Fills the empty slots with the classifier's answers, in order.
pub fn stitch_pins(slots: &Vec<Option<bool>>, answers: &Vec<bool>) -> (r: Vec<bool>)
    ensures
        r@.len() == slots@.len(),
        forall|i: int| 0 <= i < slots@.len() ==> #[trigger] r@[i] == stitched(slots@, answers@, i),
{
    let mut pins: Vec<bool> = Vec::new();
    let mut next: usize = 0;
    let mut i: usize = 0;
    while i < slots.len()
        invariant
            i <= slots@.len(),
            pins@.len() == i,
            next == gaps(slots@, i as int),
            next <= i,
            forall|j: int| 0 <= j < i ==> #[trigger] pins@[j] == stitched(slots@, answers@, j),
        decreases slots@.len() - i,
    {
        match slots[i] {
            Some(p) => {
                pins.push(p);
            },
            None => {
                let answer = if next < answers.len() {
                    answers[next]
                } else {
                    false
                };
                pins.push(answer);
                next = next + 1;
            },
        }
        i = i + 1;
    }
    pins
}

/// Each request gets its own pin: the one it asks for; else the classifier's
/// verdict on that very request; else none.
pub proof fn pins_belong_to_their_requests(
    p: PinSlots,
    entries: Seq<&AddFactRequest>,
    has_classifier: bool,
    verdict: spec_fn(ClassifierInput) -> bool,
    answers: Seq<bool>,
    i: int,
)
    requires
        are_slots_of(p, entries, has_classifier),
        answers.len() == p.pending@.len(),
        forall|k: int|
            0 <= k < answers.len() ==> #[trigger] answers[k] == verdict(p.pending@[k]),
        0 <= i < entries.len(),
    ensures
        match crate::engine::ingest::asked_pin(*entries[i]) {
            Some(pin) => stitched(p.slots@, answers, i) == pin,
            None => if has_classifier {
                exists|input: ClassifierInput| #[trigger]
                    crate::engine::ingest::is_input_of(input, *entries[i]) && stitched(
                        p.slots@,
                        answers,
                        i,
                    ) == verdict(input)
            } else {
                !stitched(p.slots@, answers, i)
            },
        },
{
    assert(p.slots@[i] == known_pin(*entries[i], has_classifier));
    if p.slots@[i] is None {
        let k = gaps(p.slots@, i) as int;
        assert(crate::engine::ingest::is_input_of(p.pending@[k], *entries[i]));
        assert(answers[k] == verdict(p.pending@[k]));
    }
}

/// Checks that the embedder gave one vector for each request.
pub fn check_embedding_count(embeddings: usize, entries: usize) -> (r: Result<(), MemoryError>)
    ensures
        match r {
            Ok(()) => embeddings == entries,
            Err(e) => embeddings != entries && (e matches MemoryError::Internal(text) && text@
                == count_message(
                "embed_batch returned "@,
                embeddings as nat,
                " embeddings for "@,
                entries as nat,
                " entries"@,
            )),
        },
{
    if embeddings != entries {
        return Err(
            count_error(
                "embed_batch returned ",
                embeddings,
                " embeddings for ",
                entries,
                " entries",
            ),
        );
    }
    Ok(())
}

/// The facts of a batch, with the scope path of each.
#[derive(Debug)]
pub struct BatchFacts {
    /// The facts; their scope is the root until the store resolves their paths.
    pub facts: Vec<NewFact>,
    pub scope_paths: Vec<Option<String>>,
}

/// The scope path is the one that the request names.
pub open spec fn is_scope_of(path: Option<String>, req: AddFactRequest) -> bool {
    match (path, req.scope) {
        (Some(a), Some(b)) => a@ == b@,
        (None, None) => true,
        _ => false,
    }
}

/// The facts that the requests of a batch ask for, in order.
pub fn batch_facts(
    entries: &[&AddFactRequest],
    embeddings: Vec<Vec<u32>>,
    pins: &Vec<bool>,
    now: Timestamp,
) -> (r: BatchFacts)
    requires
        embeddings@.len() == entries@.len(),
        pins@.len() == entries@.len(),
    ensures
        r.facts@.len() == entries@.len(),
        r.scope_paths@.len() == entries@.len(),
        forall|i: int|
            0 <= i < entries@.len() ==> crate::engine::ingest::is_fact_of(
                #[trigger] r.facts@[i],
                *entries@[i],
                embeddings@[i],
                ROOT_SCOPE_ID,
                pins@[i],
                now,
            ),
        forall|i: int|
            0 <= i < entries@.len() ==> is_scope_of(#[trigger] r.scope_paths@[i], *entries@[i]),
        forall|i: int|
            0 <= i < entries@.len() ==> {
                &&& (#[trigger] r.facts@[i]).content@ == entries@[i].content@
                &&& r.facts@[i].fact_type == entries@[i].fact_type
                &&& r.facts@[i].source_event_id == entries@[i].source_event_id
                &&& entries@[i].opts matches Some(o) ==> {
                    &&& r.facts@[i].t_valid == o.t_valid
                    &&& r.facts@[i].t_invalid == o.t_invalid
                    &&& o.t_created matches Some(t) ==> r.facts@[i].t_created == t
                    &&& o.last_accessed matches Some(t) ==> r.facts@[i].last_accessed == t
                    &&& o.base_importance matches Some(v) ==> r.facts@[i].base_importance == v
                    &&& o.metadata matches Some(m) ==> r.facts@[i].metadata == m
                }
            },
{
    let ghost vectors = embeddings@;
    let mut facts: Vec<NewFact> = Vec::new();
    let mut scope_paths: Vec<Option<String>> = Vec::new();
    let mut i: usize = 0;
    for embedding in it: embeddings
        invariant
            it.seq() == vectors,
            vectors.len() == entries@.len(),
            pins@.len() == entries@.len(),
            i == it.index(),
            facts@.len() == i,
            scope_paths@.len() == i,
            forall|j: int|
                0 <= j < i ==> crate::engine::ingest::is_fact_of(
                    #[trigger] facts@[j],
                    *entries@[j],
                    vectors[j],
                    ROOT_SCOPE_ID,
                    pins@[j],
                    now,
                ),
            forall|j: int|
                0 <= j < i ==> is_scope_of(#[trigger] scope_paths@[j], *entries@[j]),
    {
        let entry = entries[i];
        facts.push(new_fact_of(entry, embedding, ROOT_SCOPE_ID, pins[i], now));
        scope_paths.push(
            match &entry.scope {
                Some(path) => Some(path.clone()),
                None => None,
            },
        );
        i = i + 1;
    }
    BatchFacts { facts, scope_paths }
}

/// Checks that the store gave one id for each fact.
pub fn check_id_count(ids: Vec<i64>, facts: usize) -> (r: Result<Vec<i64>, MemoryError>)
    ensures
        match r {
            Ok(same) => ids@.len() == facts && same == ids,
            Err(e) => ids@.len() != facts && (e matches MemoryError::Internal(text) && text@
                == count_message(
                "batch insert returned "@,
                ids@.len(),
                " ids for "@,
                facts as nat,
                " facts"@,
            )),
        },
{
    if ids.len() != facts {
        return Err(count_error("batch insert returned ", ids.len(), " ids for ", facts, " facts"));
    }
    Ok(ids)
}

/// The facts of a batch, from the vectors and the pins that were found for it.
pub open spec fn are_facts_of(
    b: BatchFacts,
    entries: Seq<&AddFactRequest>,
    embeddings: Seq<Vec<u32>>,
    slots: Seq<Option<bool>>,
    answers: Seq<bool>,
    now: Timestamp,
) -> bool {
    &&& b.facts@.len() == entries.len()
    &&& b.scope_paths@.len() == entries.len()
    &&& forall|i: int|
        0 <= i < entries.len() ==> crate::engine::ingest::is_fact_of(
            #[trigger] b.facts@[i],
            *entries[i],
            embeddings[i],
            ROOT_SCOPE_ID,
            stitched(slots, answers, i),
            now,
        )
    &&& forall|i: int|
        0 <= i < entries.len() ==> is_scope_of(#[trigger] b.scope_paths@[i], *entries[i])
}

/// The facts of a batch, as of some calendar instant.
pub open spec fn are_facts_of_some_time(
    b: BatchFacts,
    entries: Seq<&AddFactRequest>,
    embeddings: Seq<Vec<u32>>,
    slots: Seq<Option<bool>>,
    answers: Seq<bool>,
) -> bool {
    exists|now: Timestamp|
        now.valid() && #[trigger] are_facts_of(b, entries, embeddings, slots, answers, now)
}

/// Makes the facts of a batch whose requests were accepted, as of the current
/// time. The embedder must have given one vector for each request. `pins` are
/// the pins of the batch, and `answers` what the classifier said of the pending
/// ones.
pub fn insert_validated_batch(
    entries: &[&AddFactRequest],
    embeddings: Vec<Vec<u32>>,
    pins: &PinSlots,
    answers: &Vec<bool>,
) -> (r: Result<BatchFacts, MemoryError>)
    requires
        pins.slots@.len() == entries@.len(),
    ensures
        r is Ok <==> embeddings@.len() == entries@.len(),
        r matches Ok(b) ==> are_facts_of_some_time(
            b,
            entries@,
            embeddings@,
            pins.slots@,
            answers@,
        ),
        r matches Err(e) ==> (e matches MemoryError::Internal(text) && text@ == count_message(
            "embed_batch returned "@,
            embeddings@.len(),
            " embeddings for "@,
            entries@.len(),
            " entries"@,
        )),
{
    check_embedding_count(embeddings.len(), entries.len())?;
    let now = utc_now();
    let found = stitch_pins(&pins.slots, answers);
    let ghost vectors = embeddings@;
    let b = batch_facts(entries, embeddings, &found, now);
    assert(are_facts_of(b, entries@, vectors, pins.slots@, answers@, now));
    Ok(b)
}

/// The texts of a batch that the embedder is given, in order.
pub fn batch_texts(entries: &[&AddFactRequest]) -> (r: Vec<String>)
    ensures
        r@.len() == entries@.len(),
        forall|i: int| 0 <= i < entries@.len() ==> (#[trigger] r@[i])@ == entries@[i].content@,
{
    let mut texts: Vec<String> = Vec::new();
    let mut i: usize = 0;
    while i < entries.len()
        invariant
            i <= entries@.len(),
            texts@.len() == i,
            forall|j: int| 0 <= j < i ==> (#[trigger] texts@[j])@ == entries@[j].content@,
        decreases entries@.len() - i,
    {
        texts.push(entries[i].content.clone());
        i = i + 1;
    }
    texts
}

impl MemoryEngine {
    /// Starts to add a batch that is taken whole or not at all: hands out its
    /// requests, if the engine need not be reopened, accepts writes, and each of
    /// them is acceptable. Of an empty batch there is nothing to add.
    pub fn add_facts_batch<'a>(&self, entries: &'a [AddFactRequest]) -> (r: Result<
        Vec<&'a AddFactRequest>,
        MemoryError,
    >)
        ensures
            r is Ok <==> !self.fenced() && !self.read_only && forall|i: int|
                0 <= i < entries@.len() ==> crate::engine::ingest::acceptable(
                    #[trigger] entries@[i],
                ),
            match r {
                Ok(all) => all@.map_values(|e: &AddFactRequest| *e) == entries@,
                Err(e) => if self.fenced() {
                    e == (MemoryError::EmbeddingReopenRequired { new_dim: self.reopen_required })
                } else if self.read_only {
                    e == MemoryError::ReadOnly
                } else {
                    exists|i: int|
                        0 <= i < entries@.len() && !crate::engine::ingest::acceptable(entries@[i])
                            && crate::engine::ingest::says_why_refused(e, #[trigger] entries@[i])
                            && forall|j: int|
                            0 <= j < i ==> crate::engine::ingest::acceptable(
                                #[trigger] entries@[j],
                            )
                },
            },
    {
        self.ensure_open()?;
        self.ensure_writable()?;
        validate_batch(entries)?;
        let mut all: Vec<&'a AddFactRequest> = Vec::new();
        let mut i: usize = 0;
        while i < entries.len()
            invariant
                i <= entries@.len(),
                all@.len() == i,
                forall|j: int| 0 <= j < i ==> *(#[trigger] all@[j]) == entries@[j],
            decreases entries@.len() - i,
        {
            all.push(&entries[i]);
            i = i + 1;
        }
        assert(all@.map_values(|e: &AddFactRequest| *e) =~= entries@);
        Ok(all)
    }

    /// Starts to add a batch of which each request is taken or refused for
    /// itself, if the engine need not be reopened.
    pub fn add_facts_batch_partial<'a>(&self, entries: &'a [AddFactRequest]) -> (r: Result<
        Partition<'a>,
        MemoryError,
    >)
        ensures
            match r {
                Ok(p) => !self.fenced() && is_partition_of(p, entries@),
                Err(e) => self.fenced() && e == (MemoryError::EmbeddingReopenRequired {
                    new_dim: self.reopen_required,
                }),
            },
    {
        self.ensure_open()?;
        Ok(partition_batch(entries))
    }
}

/// One request that cannot be accepted does not harm the others: every accepted
/// request of a batch gets an id of its own, in order, and every other one gets
/// its own reason.
pub proof fn refusals_do_not_spread(
    p: Partition<'_>,
    entries: Seq<AddFactRequest>,
    ids: Seq<i64>,
    results: Seq<Result<i64, MemoryError>>,
    i: int,
)
    requires
        is_partition_of(p, entries),
        ids.len() == p.valid@.len(),
        is_rethreaded(results, p.validation@, ids),
        0 <= i < entries.len(),
    ensures
        results.len() == entries.len(),
        results[i] is Ok <==> crate::engine::ingest::acceptable(entries[i]),
        match results[i] {
            Ok(id) => exists|k: int|
                0 <= k < ids.len() && id == #[trigger] ids[k] && *p.valid@[k] == entries[i],
            Err(e) => crate::engine::ingest::says_why_refused(e, entries[i]),
        },
{
    match p.validation@[i] {
        None => {
            let k = gaps(p.validation@, i) as int;
            assert(results[i] == Ok::<i64, MemoryError>(ids[k]));
            assert(*p.valid@[k] == entries[i]);
        },
        Some(e) => {
            assert(results[i] == Err::<i64, MemoryError>(e));
        },
    }
}

/// The ids go to the accepted requests in the order of the batch: of two, the
/// later one has the later id.
pub proof fn ids_follow_the_batch(
    p: Partition<'_>,
    entries: Seq<AddFactRequest>,
    i: int,
    j: int,
)
    requires
        is_partition_of(p, entries),
        0 <= i < j < entries.len(),
        crate::engine::ingest::acceptable(entries[i]),
    ensures
        gaps(p.validation@, i) < gaps(p.validation@, j),
{
    assert(p.validation@[i] is None);
    lemma_gaps_grow(p.validation@, i + 1, j);
}

/// Every fact of a batch carries its own request, field by field, and its own
/// vector and scope path, in the order of the batch.
pub proof fn batch_facts_carry_their_requests(
    entries: &[&AddFactRequest],
    embeddings: Vec<Vec<u32>>,
    pins: &PinSlots,
    answers: &Vec<bool>,
    r: Result<BatchFacts, MemoryError>,
    i: int,
)
    requires
        call_ensures(insert_validated_batch, (entries, embeddings, pins, answers), r),
    ensures
        r is Ok <==> embeddings@.len() == entries@.len(),
        r matches Ok(b) ==> b.facts@.len() == entries@.len() && b.scope_paths@.len()
            == entries@.len(),
        r is Ok && 0 <= i < entries@.len() ==> {
            let b = r->Ok_0;
            let fact = b.facts@[i];
            let req = entries@[i];
            &&& fact.content@ == req.content@
            &&& fact.fact_type == req.fact_type
            &&& fact.source_event_id == req.source_event_id
            &&& fact.embedding@ == embeddings@[i]@
            &&& fact.scope_id == 1
            &&& fact.t_expired is None
            &&& req.opts is None ==> fact.t_valid is None && fact.t_invalid is None
                && fact.base_importance.bits == 0x3FE0_0000_0000_0000
                && crate::json::is_empty_object(fact.metadata)
            &&& req.opts matches Some(o) ==> {
                &&& fact.t_valid == o.t_valid
                &&& fact.t_invalid == o.t_invalid
                &&& o.t_created matches Some(t) ==> fact.t_created == t
                &&& o.last_accessed matches Some(t) ==> fact.last_accessed == t
                &&& o.base_importance matches Some(v) ==> fact.base_importance == v
                &&& o.metadata matches Some(m) ==> fact.metadata == m
            }
            &&& req.scope is None <==> b.scope_paths@[i] is None
            &&& req.scope is Some ==> b.scope_paths@[i]->0@ == req.scope->0@
        },
{
    if r is Ok {
        let b = r->Ok_0;
        let now = choose|now: Timestamp|
            now.valid() && #[trigger] are_facts_of(
                b,
                entries@,
                embeddings@,
                pins.slots@,
                answers@,
                now,
            );
        if 0 <= i < entries@.len() {
            assert(crate::engine::ingest::is_fact_of(
                b.facts@[i],
                *entries@[i],
                embeddings@[i],
                ROOT_SCOPE_ID,
                stitched(pins.slots@, answers@, i),
                now,
            ));
            assert(is_scope_of(b.scope_paths@[i], *entries@[i]));
        }
    }
}

/// A batch pins its facts as single additions would: as the caller says; else as
/// the classifier says of that very request; else not at all.
pub proof fn batch_pins_like_single_additions(
    entries: &[&AddFactRequest],
    has_classifier: bool,
    p: PinSlots,
    verdict: spec_fn(ClassifierInput) -> bool,
    answers: &Vec<bool>,
    embeddings: Vec<Vec<u32>>,
    b: BatchFacts,
    i: int,
)
    requires
        call_ensures(compute_batch_pins, (entries, has_classifier), p),
        answers@.len() == p.pending@.len(),
        forall|k: int|
            0 <= k < answers@.len() ==> #[trigger] answers@[k] == verdict(p.pending@[k]),
        call_ensures(
            insert_validated_batch,
            (entries, embeddings, &p, answers),
            Ok::<BatchFacts, MemoryError>(b),
        ),
        0 <= i < entries@.len(),
    ensures
        entries@[i].opts is Some && entries@[i].opts->0.pinned is Some ==> b.facts@[i].is_pinned
            == entries@[i].opts->0.pinned->0,
        (entries@[i].opts is None || entries@[i].opts->0.pinned is None) && !has_classifier
            ==> !b.facts@[i].is_pinned,
        (entries@[i].opts is None || entries@[i].opts->0.pinned is None) && has_classifier
            ==> exists|k: int|
            0 <= k < p.pending@.len() && (#[trigger] p.pending@[k]).content@ == entries@[i].content@
                && p.pending@[k].fact_type == entries@[i].fact_type && b.facts@[i].is_pinned
                == verdict(p.pending@[k]),
{
    let now = choose|now: Timestamp|
        now.valid() && #[trigger] are_facts_of(
            b,
            entries@,
            embeddings@,
            p.slots@,
            answers@,
            now,
        );
    assert(crate::engine::ingest::is_fact_of(
        b.facts@[i],
        *entries@[i],
        embeddings@[i],
        ROOT_SCOPE_ID,
        stitched(p.slots@, answers@, i),
        now,
    ));
    assert(p.slots@[i] == known_pin(*entries@[i], has_classifier));
    if p.slots@[i] is None {
        let k = gaps(p.slots@, i) as int;
        assert(crate::engine::ingest::is_input_of(p.pending@[k], *entries@[i]));
        assert(answers@[k] == verdict(p.pending@[k]));
    }
}

/// The classifier is asked once for each request that leaves its pin open, in the
/// order of the batch, and not at all without one.
pub proof fn classifier_is_asked_for_open_pins(
    entries: &[&AddFactRequest],
    has_classifier: bool,
    p: PinSlots,
)
    requires
        call_ensures(compute_batch_pins, (entries, has_classifier), p),
    ensures
        !has_classifier ==> p.pending@.len() == 0,
        has_classifier ==> p.pending@.map_values(|c: ClassifierInput| c.content@)
            == entries@.filter(
            |e: &AddFactRequest| e.opts is None || e.opts->0.pinned is None,
        ).map_values(|e: &AddFactRequest| e.content@),
        p.slots@.len() == entries@.len(),
        forall|i: int|
            0 <= i < entries@.len() ==> match #[trigger] p.slots@[i] {
                Some(pin) => pin == (entries@[i].opts is Some && entries@[i].opts->0.pinned
                    == Some(true)),
                None => has_classifier && (entries@[i].opts is None || entries@[i].opts->0.pinned
                    is None),
            },
{
    let open = |e: &AddFactRequest| e.opts is None || e.opts->0.pinned is None;
    assert forall|i: int| 0 <= i < entries@.len() implies match #[trigger] p.slots@[i] {
        Some(pin) => pin == (entries@[i].opts is Some && entries@[i].opts->0.pinned == Some(
            true,
        )),
        None => has_classifier && (entries@[i].opts is None || entries@[i].opts->0.pinned is None),
    } by {
        assert(p.slots@[i] == known_pin(*entries@[i], has_classifier));
    }
    if has_classifier {
        lemma_pending_of(entries@, p, entries@.len() as int);
        assert(entries@.take(entries@.len() as int) =~= entries@);
        assert(p.pending@.take(p.pending@.len() as int) =~= p.pending@);
    } else {
        lemma_gaps_none(p.slots@, entries@.len() as int);
    }
}

proof fn lemma_gaps_none<T>(slots: Seq<Option<T>>, n: int)
    requires
        0 <= n <= slots.len(),
        forall|i: int| 0 <= i < n ==> #[trigger] slots[i] is Some,
    ensures
        gaps(slots, n) == 0,
    decreases n,
{
    if n > 0 {
        lemma_gaps_none(slots, n - 1);
        assert(slots[n - 1] is Some);
    }
}

proof fn lemma_pending_of(entries: Seq<&AddFactRequest>, p: PinSlots, n: int)
    requires
        are_slots_of(p, entries, true),
        0 <= n <= entries.len(),
    ensures
        gaps(p.slots@, n) <= p.pending@.len(),
        p.pending@.take(gaps(p.slots@, n) as int).map_values(|c: ClassifierInput| c.content@)
            == entries.take(n).filter(
            |e: &AddFactRequest| e.opts is None || e.opts->0.pinned is None,
        ).map_values(|e: &AddFactRequest| e.content@),
    decreases n,
{
    reveal(Seq::filter);
    let open = |e: &AddFactRequest| e.opts is None || e.opts->0.pinned is None;
    let shown = |c: ClassifierInput| c.content@;
    let asked = |e: &AddFactRequest| e.content@;
    lemma_gaps_grow(p.slots@, n, entries.len() as int);
    if n > 0 {
        lemma_pending_of(entries, p, n - 1);
        let k = gaps(p.slots@, n - 1) as int;
        let front = entries.take(n).drop_last();
        assert(front =~= entries.take(n - 1));
        assert(entries.take(n).last() == entries[n - 1]);
        assert(p.slots@[n - 1] == known_pin(*entries[n - 1], true));
        if p.slots@[n - 1] is None {
            assert(crate::engine::ingest::is_input_of(p.pending@[k], *entries[n - 1]));
            assert(p.pending@.take(k + 1).map_values(shown) =~= p.pending@.take(k).map_values(
                shown,
            ).push(p.pending@[k].content@));
            assert(front.filter(open).push(entries[n - 1]).map_values(asked) =~= front.filter(
                open,
            ).map_values(asked).push(entries[n - 1].content@));
        }
    } else {
        assert(entries.take(0).filter(open).map_values(asked) =~= Seq::<Seq<char>>::empty());
        assert(p.pending@.take(0).map_values(shown) =~= Seq::<Seq<char>>::empty());
    }
}

/// A batch is split by the checks of a single request: just the requests that pass
/// them go on, in their order, and each other one has its own reason.
pub proof fn batch_is_split_by_the_checks(entries: &[AddFactRequest], p: Partition<'_>, i: int)
    requires
        call_ensures(partition_batch, (entries,), p),
    ensures
        p.validation@.len() == entries@.len(),
        0 <= i < entries@.len() ==> (p.validation@[i] is None <==> crate::engine::ingest::acceptable(
            entries@[i],
        )),
        0 <= i < entries@.len() && p.validation@[i] is Some
            ==> crate::engine::ingest::says_why_refused(p.validation@[i]->0, entries@[i]),
        p.valid@.map_values(|e: &AddFactRequest| *e) == entries@.filter(
            |e: AddFactRequest| crate::engine::ingest::acceptable(e),
        ),
{
    lemma_valid_of(entries@, p, entries@.len() as int);
    assert(entries@.take(entries@.len() as int) =~= entries@);
    assert(p.valid@.take(p.valid@.len() as int) =~= p.valid@);
}

proof fn lemma_valid_of(entries: Seq<AddFactRequest>, p: Partition<'_>, n: int)
    requires
        is_partition_of(p, entries),
        0 <= n <= entries.len(),
    ensures
        gaps(p.validation@, n) <= p.valid@.len(),
        p.valid@.take(gaps(p.validation@, n) as int).map_values(|e: &AddFactRequest| *e)
            == entries.take(n).filter(
            |e: AddFactRequest| crate::engine::ingest::acceptable(e),
        ),
    decreases n,
{
    reveal(Seq::filter);
    let good = |e: AddFactRequest| crate::engine::ingest::acceptable(e);
    let own = |e: &AddFactRequest| *e;
    lemma_gaps_grow(p.validation@, n, entries.len() as int);
    if n > 0 {
        lemma_valid_of(entries, p, n - 1);
        let k = gaps(p.validation@, n - 1) as int;
        assert(entries.take(n).drop_last() =~= entries.take(n - 1));
        assert(entries.take(n).last() == entries[n - 1]);
        if p.validation@[n - 1] is None {
            assert(p.valid@.take(k + 1).map_values(own) =~= p.valid@.take(k).map_values(own).push(
                *p.valid@[k],
            ));
        }
    } else {
        assert(entries.take(0).filter(good) =~= Seq::<AddFactRequest>::empty());
        assert(p.valid@.take(0).map_values(own) =~= Seq::<AddFactRequest>::empty());
    }
}

/// The results of a partly accepted batch stand where their requests stand: each
/// refused one has its reason, and the accepted ones have the ids of the store, all
/// of them, in order.
pub proof fn ids_and_reasons_find_their_places(
    validation: Vec<Option<MemoryError>>,
    ids: Vec<i64>,
    results: Vec<Result<i64, MemoryError>>,
    i: int,
)
    requires
        call_ensures(
            rethread_results,
            (validation, ids),
            Ok::<Vec<Result<i64, MemoryError>>, MemoryError>(results),
        ),
    ensures
        results@.len() == validation@.len(),
        0 <= i < validation@.len() ==> (results@[i] is Err <==> validation@[i] is Some),
        0 <= i < validation@.len() && validation@[i] is Some ==> results@[i] == Err::<
            i64,
            MemoryError,
        >(validation@[i]->0),
        results@.filter(|r: Result<i64, MemoryError>| r is Ok).map_values(
            |r: Result<i64, MemoryError>| r->Ok_0,
        ) == ids@,
{
    lemma_ids_in_order(results@, validation@, ids@, validation@.len() as int);
    assert(results@.take(results@.len() as int) =~= results@);
    assert(ids@.take(ids@.len() as int) =~= ids@);
}

proof fn lemma_ids_in_order(
    results: Seq<Result<i64, MemoryError>>,
    validation: Seq<Option<MemoryError>>,
    ids: Seq<i64>,
    n: int,
)
    requires
        is_rethreaded(results, validation, ids),
        ids.len() == gaps(validation, validation.len() as int),
        0 <= n <= validation.len(),
    ensures
        gaps(validation, n) <= ids.len(),
        results.take(n).filter(|r: Result<i64, MemoryError>| r is Ok).map_values(
            |r: Result<i64, MemoryError>| r->Ok_0,
        ) == ids.take(gaps(validation, n) as int),
    decreases n,
{
    reveal(Seq::filter);
    let good = |r: Result<i64, MemoryError>| r is Ok;
    let id_of = |r: Result<i64, MemoryError>| r->Ok_0;
    lemma_gaps_grow(validation, n, validation.len() as int);
    if n > 0 {
        lemma_ids_in_order(results, validation, ids, n - 1);
        let k = gaps(validation, n - 1) as int;
        let front = results.take(n).drop_last();
        assert(front =~= results.take(n - 1));
        assert(results.take(n).last() == results[n - 1]);
        if validation[n - 1] is None {
            assert(results[n - 1] == Ok::<i64, MemoryError>(ids[k]));
            assert(front.filter(good).push(results[n - 1]).map_values(id_of) =~= front.filter(
                good,
            ).map_values(id_of).push(ids[k]));
            assert(ids.take(k + 1) =~= ids.take(k).push(ids[k]));
        } else {
            assert(results[n - 1] is Err);
        }
    } else {
        assert(results.take(0).filter(good).map_values(id_of) =~= Seq::<i64>::empty());
        assert(ids.take(0) =~= Seq::<i64>::empty());
    }
}

/// A whole batch goes on just when the engine need not be reopened, accepts writes
/// and every request passes its checks; then all of it goes on, in its order. Else
/// the batch fails as its first bad request would.
pub proof fn whole_batch_goes_on_or_fails(
    engine: &MemoryEngine,
    entries: &[AddFactRequest],
    r: Result<Vec<&AddFactRequest>, MemoryError>,
    i: int,
)
    requires
        call_ensures(MemoryEngine::add_facts_batch, (engine, entries), r),
    ensures
        engine.reopen_required != 0 ==> r is Err,
        engine.read_only ==> r is Err,
        0 <= i < entries@.len() && !crate::engine::ingest::acceptable(entries@[i]) ==> r is Err,
        engine.reopen_required == 0 && !engine.read_only && (forall|k: int|
            0 <= k < entries@.len() ==> crate::engine::ingest::acceptable(#[trigger] entries@[k]))
            ==> r is Ok,
        r matches Ok(all) ==> all@.len() == entries@.len(),
        r is Ok && 0 <= i < entries@.len() ==> *r->Ok_0@[i] == entries@[i],
        0 <= i < entries@.len() && engine.reopen_required == 0 && !engine.read_only
            && !crate::engine::ingest::acceptable(
            entries@[i],
        ) && (forall|k: int|
            0 <= k < i ==> crate::engine::ingest::acceptable(#[trigger] entries@[k])) ==> (
        r matches Err(e) && crate::engine::ingest::says_why_refused(e, entries@[i])),
{
    if r is Ok {
        let all = r->Ok_0;
        assert(all@.map_values(|e: &AddFactRequest| *e).len() == entries@.len());
        if 0 <= i < entries@.len() {
            assert(all@.map_values(|e: &AddFactRequest| *e)[i] == entries@[i]);
        }
    }
}

/// The embedder is given the content of each request, in order, and must answer
/// with as many vectors; the store must answer with as many ids.
pub proof fn counts_must_agree(
    entries: &[&AddFactRequest],
    texts: Vec<String>,
    embeddings: usize,
    r: Result<(), MemoryError>,
    ids: Vec<i64>,
    facts: usize,
    s: Result<Vec<i64>, MemoryError>,
    i: int,
)
    requires
        call_ensures(batch_texts, (entries,), texts),
        call_ensures(check_embedding_count, (embeddings, entries@.len() as usize), r),
        call_ensures(check_id_count, (ids, facts), s),
    ensures
        texts@.len() == entries@.len(),
        0 <= i < entries@.len() ==> texts@[i]@ == entries@[i].content@,
        r is Ok <==> embeddings == entries@.len() as usize,
        s is Ok <==> ids@.len() == facts,
        s matches Ok(same) ==> same == ids,
        s matches Err(e) ==> e is Internal,
        r matches Err(e) ==> e is Internal,
{
}

/// Known pins stay; the answers of the classifier fill the gaps one after the other;
/// a gap that no answer is left for is not pinned.
pub proof fn answers_fill_the_gaps_in_order(
    slots: &Vec<Option<bool>>,
    answers: &Vec<bool>,
    r: Vec<bool>,
    i: int,
)
    requires
        call_ensures(stitch_pins, (slots, answers), r),
    ensures
        r@.len() == slots@.len(),
        0 <= i < slots@.len() && slots@[i] is Some ==> r@[i] == slots@[i]->0,
        0 <= i < slots@.len() ==> ({
            let k = slots@.take(i).filter(|s: Option<bool>| s is None).len();
            &&& slots@[i] is None && k < answers@.len() ==> r@[i] == answers@[k as int]
            &&& slots@[i] is None && k >= answers@.len() ==> !r@[i]
        }),
{
    if 0 <= i < slots@.len() {
        assert(r@[i] == stitched(slots@, answers@, i));
        lemma_gaps_are_counted(slots@, i);
    }
}

proof fn lemma_gaps_are_counted(slots: Seq<Option<bool>>, n: int)
    requires
        0 <= n <= slots.len(),
    ensures
        gaps(slots, n) == slots.take(n).filter(|s: Option<bool>| s is None).len(),
    decreases n,
{
    reveal(Seq::filter);
    let open = |s: Option<bool>| s is None;
    if n > 0 {
        lemma_gaps_are_counted(slots, n - 1);
        assert(slots.take(n).drop_last() =~= slots.take(n - 1));
        assert(slots.take(n).last() == slots[n - 1]);
    } else {
        assert(slots.take(0).filter(open).len() == 0);
    }
}

/// The facts of a batch are made like single ones: each from its own request, vector
/// and pin, in the root until its scope is found.
pub proof fn batch_makes_each_fact_from_its_own(
    entries: &[&AddFactRequest],
    embeddings: Vec<Vec<u32>>,
    pins: &Vec<bool>,
    now: Timestamp,
    r: BatchFacts,
    single: NewFact,
    i: int,
)
    requires
        call_ensures(batch_facts, (entries, embeddings, pins, now), r),
        0 <= i < entries@.len(),
        call_ensures(new_fact_of, (entries@[i], embeddings@[i], 1i64, pins@[i], now), single),
    ensures
        r.facts@.len() == entries@.len(),
        r.facts@[i].content@ == single.content@,
        r.facts@[i].embedding@ == single.embedding@,
        r.facts@[i].fact_type == single.fact_type,
        r.facts@[i].t_created == single.t_created,
        r.facts@[i].t_expired == single.t_expired,
        r.facts@[i].t_valid == single.t_valid,
        r.facts@[i].t_invalid == single.t_invalid,
        r.facts@[i].source_event_id == single.source_event_id,
        r.facts@[i].scope_id == single.scope_id,
        r.facts@[i].base_importance == single.base_importance,
        r.facts@[i].access_count == single.access_count,
        r.facts@[i].last_accessed == single.last_accessed,
        r.facts@[i].is_pinned == single.is_pinned,
        r.facts@[i].fact_type == entries@[i].fact_type,
        r.facts@[i].is_pinned == pins@[i],
{
    assert(crate::engine::ingest::is_fact_of(
        r.facts@[i],
        *entries@[i],
        embeddings@[i],
        ROOT_SCOPE_ID,
        pins@[i],
        now,
    ));
}

/// A batch passes its checks just when each of its requests does; else it fails as its
/// first bad request would.
pub proof fn batch_is_as_good_as_its_requests(
    entries: &[AddFactRequest],
    r: Result<(), MemoryError>,
    i: int,
)
    requires
        call_ensures(validate_batch, (entries,), r),
    ensures
        r is Ok && 0 <= i < entries@.len() ==> crate::engine::ingest::acceptable(entries@[i]),
        (forall|k: int|
            0 <= k < entries@.len() ==> crate::engine::ingest::acceptable(#[trigger] entries@[k]))
            ==> r is Ok,
        0 <= i < entries@.len() && !crate::engine::ingest::acceptable(entries@[i]) && (forall|k: int|
            0 <= k < i ==> crate::engine::ingest::acceptable(#[trigger] entries@[k])) ==> (
        r matches Err(e) && crate::engine::ingest::says_why_refused(e, entries@[i])),
{
    if r is Ok {
        if 0 <= i < entries@.len() {
            assert(crate::engine::ingest::acceptable(entries@[i]));
        }
    } else if 0 <= i < entries@.len() {
        let e = r->Err_0;
        let k = choose|k: int|
            0 <= k < entries@.len() && !crate::engine::ingest::acceptable(entries@[k])
                && crate::engine::ingest::says_why_refused(e, #[trigger] entries@[k]) && forall|
                j: int,
            |
                0 <= j < k ==> crate::engine::ingest::acceptable(#[trigger] entries@[j]);
        if k < i {
            assert(!crate::engine::ingest::acceptable(entries@[k]));
        } else if i < k {
            assert(crate::engine::ingest::acceptable(entries@[i]));
        }
    }
}

/// Where each request is taken or refused for itself, only an engine that must be
/// reopened refuses them all.
pub proof fn partial_batch_splits_unless_fenced(
    engine: &MemoryEngine,
    entries: &[AddFactRequest],
    r: Result<Partition<'_>, MemoryError>,
    i: int,
)
    requires
        call_ensures(MemoryEngine::add_facts_batch_partial, (engine, entries), r),
    ensures
        r is Ok <==> engine.reopen_required == 0,
        r matches Err(e) ==> e == (MemoryError::EmbeddingReopenRequired {
            new_dim: engine.reopen_required,
        }),
        r matches Ok(p) ==> p.validation@.len() == entries@.len() && (0 <= i < entries@.len() ==> (p.validation@[i]
            is None <==> crate::engine::ingest::acceptable(entries@[i]))) && p.valid@.map_values(
            |e: &AddFactRequest| *e,
        ) == entries@.filter(|e: AddFactRequest| crate::engine::ingest::acceptable(e)),
{
    if r is Ok {
        let p = r->Ok_0;
        lemma_valid_of(entries@, p, entries@.len() as int);
        assert(entries@.take(entries@.len() as int) =~= entries@);
        assert(p.valid@.take(p.valid@.len() as int) =~= p.valid@);
    }
}

/// The message about a count names both numbers, the one that came before the one that
/// was expected.
pub proof fn count_message_names_both_numbers(
    who: &str,
    got: usize,
    what: &str,
    expected: usize,
    things: &str,
    r: MemoryError,
)
    requires
        call_ensures(count_error, (who, got, what, expected, things), r),
    ensures
        r matches MemoryError::Internal(text) && text@ == who@ + crate::text::decimal(got as nat)
            + what@ + crate::text::decimal(expected as nat) + things@,
{
}

} // verus!
