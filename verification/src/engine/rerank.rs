//! What a reranker may hand back.

use crate::binary64::Binary64;
use crate::engine::state::MemoryEngine;
use crate::error::{MemoryError, RerankerError};
use std::collections::HashSet;
use vstd::prelude::*;

verus! {

/// An earlier result than the `k`th names the same candidate.
pub open spec fn named_before(output: Seq<(usize, Binary64)>, k: int) -> bool {
    exists|j: int| 0 <= j < k && (#[trigger] output[j]).0 == output[k].0
}

/// What is wrong with the `k`th result, if anything.
pub open spec fn problem_at(
    output: Seq<(usize, Binary64)>,
    num_candidates: usize,
    k: int,
) -> Option<RerankerError> {
    let (index, score) = output[k];
    if index >= num_candidates {
        Some(RerankerError::OutOfBoundsIndex { index, num_candidates })
    } else if named_before(output, k) {
        Some(RerankerError::DuplicateIndex { index })
    } else if !score.spec_is_finite() {
        Some(RerankerError::NonFiniteScore { score, index })
    } else {
        None
    }
}

/// Nothing is wrong with the results before the `k`th.
pub open spec fn sound_before(
    output: Seq<(usize, Binary64)>,
    num_candidates: usize,
    k: int,
) -> bool {
    forall|j: int| 0 <= j < k ==> #[trigger] problem_at(output, num_candidates, j) is None
}

/// The reranker picked and ordered some of the candidates, each with a score.
pub open spec fn sound_output(output: Seq<(usize, Binary64)>, num_candidates: usize) -> bool {
    output.len() <= num_candidates && sound_before(output, num_candidates, output.len() as int)
}

impl MemoryEngine {
    /// Checks what a reranker handed back for a number of candidates: no more
    /// results than candidates, each of them a candidate, none of them twice, and
    /// all scores finite. The first thing that is wrong is reported.
    pub fn validate_reranker_output(num_candidates: usize, output: &[(usize, Binary64)]) -> (r:
        Result<(), MemoryError>)
        ensures
            r is Ok <==> sound_output(output@, num_candidates),
            r matches Err(e) ==> if output@.len() > num_candidates {
                e == MemoryError::Reranker(
                    (RerankerError::OutputTooLong {
                        output_len: output@.len() as usize,
                        input_len: num_candidates,
                    }),
                )
            } else {
                exists|k: int|
                    0 <= k < output@.len() && sound_before(output@, num_candidates, k)
                        && #[trigger] problem_at(output@, num_candidates, k) is Some && e
                        == MemoryError::Reranker(problem_at(output@, num_candidates, k)->0)
            },
    {
        if output.len() > num_candidates {
            return Err(
                MemoryError::Reranker(
                    RerankerError::OutputTooLong {
                        output_len: output.len(),
                        input_len: num_candidates,
                    },
                ),
            );
        }
        let mut seen: HashSet<usize> = HashSet::with_capacity(output.len());
        let mut k: usize = 0;
        while k < output.len()
            invariant
                k <= output@.len() <= num_candidates,
                sound_before(output@, num_candidates, k as int),
                forall|index: usize| #[trigger]
                    seen@.contains(index) <==> exists|j: int|
                        0 <= j < k && (#[trigger] output@[j]).0 == index,
            decreases output@.len() - k,
        {
            let index: usize = output[k].0;
            let score = output[k].1;
            let ghost before = seen@;
            if index >= num_candidates {
                assert(problem_at(output@, num_candidates, k as int) is Some);
                return Err(
                    MemoryError::Reranker(
                        RerankerError::OutOfBoundsIndex { index, num_candidates },
                    ),
                );
            }
            if !seen.insert(index) {
                assert(named_before(output@, k as int));
                assert(problem_at(output@, num_candidates, k as int) is Some);
                return Err(MemoryError::Reranker(RerankerError::DuplicateIndex { index }));
            }
            assert(!named_before(output@, k as int)) by {
                assert(!before.contains(index));
            }
            if !score.is_finite() {
                assert(problem_at(output@, num_candidates, k as int) is Some);
                return Err(MemoryError::Reranker(RerankerError::NonFiniteScore { score, index }));
            }
            assert(problem_at(output@, num_candidates, k as int) is None);
            assert forall|i: usize| #[trigger] seen@.contains(i) <==> exists|j: int|
                0 <= j < k + 1 && (#[trigger] output@[j]).0 == i by {
                if before.contains(i) {
                    let j = choose|j: int| 0 <= j < k && (#[trigger] output@[j]).0 == i;
                    assert(output@[j].0 == i);
                }
                if i == index {
                    assert(output@[k as int].0 == i);
                }
                if exists|j: int| 0 <= j < k + 1 && (#[trigger] output@[j]).0 == i {
                    let j = choose|j: int| 0 <= j < k + 1 && (#[trigger] output@[j]).0 == i;
                    if j < k {
                        assert(output@[j].0 == i);
                        assert(before.contains(i));
                    }
                }
            }
            k = k + 1;
        }
        Ok(())
    }
}

/// What passes the check is a selection of the candidates: every result is one
/// of them, no two are the same, and every score is a number.
pub proof fn sound_output_selects_candidates(
    output: Seq<(usize, Binary64)>,
    num_candidates: usize,
    a: int,
    b: int,
)
    requires
        sound_output(output, num_candidates),
        0 <= a < b < output.len(),
    ensures
        output[a].0 < num_candidates,
        output[b].0 < num_candidates,
        output[a].0 != output[b].0,
        output[a].1.spec_is_finite(),
        output[b].1.spec_is_finite(),
{
    assert(problem_at(output, num_candidates, a) is None);
    assert(problem_at(output, num_candidates, b) is None);
    if output[a].0 == output[b].0 {
        assert(named_before(output, b));
    }
}

/// What a reranker hands back is accepted just when it is no longer than the
/// candidates, names only candidates, names none twice, and scores each with a
/// finite number.
pub proof fn reranker_selects_candidates(
    num_candidates: usize,
    output: &[(usize, Binary64)],
    r: Result<(), MemoryError>,
)
    requires
        call_ensures(MemoryEngine::validate_reranker_output, (num_candidates, output), r),
    ensures
        r is Ok ==> output@.len() <= num_candidates && (forall|a: int|
            0 <= a < output@.len() ==> (#[trigger] output@[a]).0 < num_candidates
                && output@[a].1.spec_is_finite()) && (forall|a: int, b: int|
            0 <= a < b < output@.len() ==> (#[trigger] output@[a]).0 != (#[trigger] output@[b]).0),
        output@.len() <= num_candidates && (forall|a: int|
            0 <= a < output@.len() ==> (#[trigger] output@[a]).0 < num_candidates
                && output@[a].1.spec_is_finite()) && (forall|a: int, b: int|
            0 <= a < b < output@.len() ==> (#[trigger] output@[a]).0 != (#[trigger] output@[b]).0)
            ==> r is Ok,
        output@.len() > num_candidates ==> r == Err::<(), MemoryError>(
            MemoryError::Reranker(
                (RerankerError::OutputTooLong {
                    output_len: output@.len() as usize,
                    input_len: num_candidates,
                }),
            ),
        ),
{
    let n = output@.len() as int;
    if r is Ok {
        assert forall|a: int| 0 <= a < n implies (#[trigger] output@[a]).0 < num_candidates
            && output@[a].1.spec_is_finite() by {
            assert(problem_at(output@, num_candidates, a) is None);
        }
        assert forall|a: int, b: int| 0 <= a < b < n implies (#[trigger] output@[a]).0 != (
        #[trigger] output@[b]).0 by {
            assert(problem_at(output@, num_candidates, b) is None);
            if output@[a].0 == output@[b].0 {
                assert(named_before(output@, b));
            }
        }
    }
    if n <= num_candidates && (forall|a: int|
        0 <= a < n ==> (#[trigger] output@[a]).0 < num_candidates
            && output@[a].1.spec_is_finite()) && (forall|a: int, b: int|
        0 <= a < b < n ==> (#[trigger] output@[a]).0 != (#[trigger] output@[b]).0) {
        assert forall|j: int| 0 <= j < n implies #[trigger] problem_at(
            output@,
            num_candidates,
            j,
        ) is None by {
            if named_before(output@, j) {
                let i = choose|i: int| 0 <= i < j && (#[trigger] output@[i]).0 == output@[j].0;
                assert(output@[i].0 != output@[j].0);
            }
        }
    }
}

/// The first result that is wrong is the one that is reported, and for what is wrong
/// with it: an index beyond the candidates before a repeated one, and that before a
/// score that is no finite number.
pub proof fn first_wrong_result_is_reported(
    num_candidates: usize,
    output: &[(usize, Binary64)],
    r: Result<(), MemoryError>,
    k: int,
)
    requires
        call_ensures(MemoryEngine::validate_reranker_output, (num_candidates, output), r),
        output@.len() <= num_candidates,
        0 <= k < output@.len(),
        forall|a: int|
            0 <= a < k ==> (#[trigger] output@[a]).0 < num_candidates
                && output@[a].1.spec_is_finite(),
        forall|a: int, b: int|
            0 <= a < b < k ==> (#[trigger] output@[a]).0 != (#[trigger] output@[b]).0,
    ensures
        output@[k].0 >= num_candidates ==> r == Err::<(), MemoryError>(
            MemoryError::Reranker(
                (RerankerError::OutOfBoundsIndex { index: output@[k].0, num_candidates }),
            ),
        ),
        output@[k].0 < num_candidates && (exists|a: int|
            0 <= a < k && (#[trigger] output@[a]).0 == output@[k].0) ==> r == Err::<
            (),
            MemoryError,
        >(MemoryError::Reranker((RerankerError::DuplicateIndex { index: output@[k].0 }))),
        output@[k].0 < num_candidates && (forall|a: int|
            0 <= a < k ==> (#[trigger] output@[a]).0 != output@[k].0)
            && !output@[k].1.spec_is_finite() ==> r == Err::<(), MemoryError>(
            MemoryError::Reranker(
                (RerankerError::NonFiniteScore { score: output@[k].1, index: output@[k].0 }),
            ),
        ),
{
    assert forall|j: int| 0 <= j < k implies #[trigger] problem_at(output@, num_candidates, j)
        is None by {
        if named_before(output@, j) {
            let i = choose|i: int| 0 <= i < j && (#[trigger] output@[i]).0 == output@[j].0;
            assert(output@[i].0 != output@[j].0);
        }
    }
    if problem_at(output@, num_candidates, k) is Some {
        assert(r is Err);
        let at = choose|at: int|
            0 <= at < output@.len() && sound_before(output@, num_candidates, at)
                && #[trigger] problem_at(output@, num_candidates, at) is Some && r->Err_0
                == MemoryError::Reranker(problem_at(output@, num_candidates, at)->0);
        assert(at == k) by {
            if at < k {
                assert(problem_at(output@, num_candidates, at) is None);
            } else if at > k {
                assert(problem_at(output@, num_candidates, k) is None);
            }
        }
    }
}

} // verus!
