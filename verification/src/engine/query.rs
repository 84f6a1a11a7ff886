//! Queries: the archive fallback and the ranking of its results.

use crate::engine::state::MemoryEngine;
use crate::types::search::{QueryDiagnostics, QueryResponse, SearchResult};
use vstd::prelude::*;

verus! {

/// What a query of the live store gave.
#[derive(Debug, Clone, PartialEq)]
pub enum QueryExecution {
    /// The query named a scope that does not exist.
    ScopeMissing,
    Executed(QueryResponse),
}

/// What a search of the archives found.
#[derive(Debug, Clone, PartialEq)]
pub struct ArchiveSearchResult {
    pub results: Vec<SearchResult>,
    pub paks_scanned: usize,
    pub search_ms: u64,
}

/// How a query goes on after the live store was asked.
#[derive(Debug, Clone, PartialEq)]
pub enum QueryStep {
    /// It is over.
    Done(QueryResponse),
    /// The archives are to be searched too.
    SearchArchives(QueryResponse),
}

impl MemoryEngine {
    /// Goes on with a query after the live store was asked. The archives know no
    /// scopes, so a query for a scope that does not exist never reaches them. They
    /// are searched only where a search was made at all and the caller wants them.
    pub fn execute_query(
        execution: QueryExecution,
        has_search: bool,
        include_archives: bool,
    ) -> (r: QueryStep)
        ensures
            match execution {
                QueryExecution::ScopeMissing => r matches QueryStep::Done(response)
                    && response.results@.len() == 0 && response.diagnostics
                    == crate::types::search::blank_diagnostics(),
                QueryExecution::Executed(response) => r == (if has_search && include_archives {
                    QueryStep::SearchArchives(response)
                } else {
                    QueryStep::Done(response)
                }),
            },
    {
        match execution {
            QueryExecution::ScopeMissing => QueryStep::Done(
                QueryResponse { results: Vec::new(), diagnostics: QueryDiagnostics::default() },
            ),
            QueryExecution::Executed(response) => if has_search && include_archives {
                QueryStep::SearchArchives(response)
            } else {
                QueryStep::Done(response)
            },
        }
    }
}

/// Where a result belongs in a ranking: before the first result with a lower
/// score, and after all others.
pub open spec fn place(ranking: Seq<SearchResult>, x: SearchResult) -> int
    decreases ranking.len(),
{
    if ranking.len() == 0 {
        0
    } else {
        let p = place(ranking.drop_last(), x);
        if p < ranking.len() - 1 {
            p
        } else if ranking.last().score.spec_less(x.score) {
            ranking.len() - 1
        } else {
            ranking.len() as int
        }
    }
}

/// The results by falling score; of equal ones, the earlier first.
pub open spec fn ranked(results: Seq<SearchResult>) -> Seq<SearchResult>
    decreases results.len(),
{
    if results.len() == 0 {
        Seq::empty()
    } else {
        let earlier = ranked(results.drop_last());
        earlier.insert(place(earlier, results.last()), results.last())
    }
}

/// The first `limit` of the results.
pub open spec fn first(results: Seq<SearchResult>, limit: usize) -> Seq<SearchResult> {
    if results.len() <= limit {
        results
    } else {
        results.take(limit as int)
    }
}

fn find_place(ranking: &Vec<SearchResult>, x: &SearchResult) -> (r: usize)
    ensures
        r == place(ranking@, *x),
        r <= ranking@.len(),
{
    let mut i: usize = 0;
    while i < ranking.len()
        invariant
            i <= ranking@.len(),
            place(ranking@.take(i as int), *x) == i,
        decreases ranking@.len() - i,
    {
        assert(ranking@.take(i + 1).drop_last() =~= ranking@.take(i as int));
        assert(ranking@.take(i + 1).last() == ranking@[i as int]);
        if ranking[i].score.less(x.score) {
            proof {
                lemma_place_is_stable(ranking@, i + 1, *x);
            }
            return i;
        }
        i = i + 1;
    }
    assert(ranking@.take(i as int) =~= ranking@);
    i
}

proof fn lemma_place_is_stable(ranking: Seq<SearchResult>, n: int, x: SearchResult)
    requires
        0 <= n <= ranking.len(),
        place(ranking.take(n), x) < n,
    ensures
        place(ranking, x) == place(ranking.take(n), x),
    decreases ranking.len() - n,
{
    if n < ranking.len() {
        assert(ranking.take(n + 1).drop_last() =~= ranking.take(n));
        lemma_place_is_stable(ranking, n + 1, x);
    } else {
        assert(ranking.take(n) =~= ranking);
    }
}

/// Brings results into the order of falling score; of equal ones, the earlier
/// comes first.
pub fn rank_results(results: Vec<SearchResult>) -> (r: Vec<SearchResult>)
    ensures
        r@ == ranked(results@),
{
    let ghost all = results@;
    let mut out: Vec<SearchResult> = Vec::new();
    assert(all.take(0) =~= Seq::<SearchResult>::empty());
    for x in it: results
        invariant
            it.seq() == all,
            out@ == ranked(all.take(it.index() as int)),
    {
        assert(all.take(it.index() + 1).drop_last() =~= all.take(it.index() as int));
        assert(all.take(it.index() + 1).last() == x);
        let p = find_place(&out, &x);
        out.insert(p, x);
    }
    assert(all.take(all.len() as int) =~= all);
    out
}

/// The number of results of a query that sets no limit.
pub const DEFAULT_QUERY_LIMIT: usize = 50;

/// The number of results that a query may have.
pub fn effective_limit(limit: Option<usize>) -> (r: usize)
    ensures
        r == (match limit {
            Some(n) => n,
            None => 50,
        }),
{
    match limit {
        Some(n) => n,
        None => DEFAULT_QUERY_LIMIT,
    }
}

/// Adds what the archives gave to a response. Results from the archives and from
/// the live store are ranked together and cut to the limit, and counted anew.
/// Where the archives gave nothing, or could not be searched, the response stays
/// as it is.
pub fn merge_archive_results(
    response: QueryResponse,
    archived: Option<ArchiveSearchResult>,
    limit: usize,
) -> (r: QueryResponse)
    ensures
        match archived {
            None => r == response,
            Some(a) => r.results@ == first(ranked(response.results@ + a.results@), limit)
                && r.diagnostics == (QueryDiagnostics {
                results_returned: r.results@.len() as usize,
                archive_paks_scanned: a.paks_scanned,
                archive_search_ms: a.search_ms,
                ..response.diagnostics
            }),
        },
        archived matches Some(a) ==> r.results@.len() == (if response.results@.len()
            + a.results@.len() <= limit {
            response.results@.len() + a.results@.len()
        } else {
            limit as nat
        }),
{
    match archived {
        None => response,
        Some(a) => {
            let mut all = response.results;
            let mut more = a.results;
            all.append(&mut more);
            proof {
                ranking_is_a_permutation(all@);
            }
            let mut results = rank_results(all);
            if results.len() > limit {
                results.truncate(limit);
            }
            let diagnostics = QueryDiagnostics {
                results_returned: results.len(),
                archive_paks_scanned: a.paks_scanned,
                archive_search_ms: a.search_ms,
                ..response.diagnostics
            };
            QueryResponse { results, diagnostics }
        },
    }
}

/// No score is NaN.
pub open spec fn all_numbers(results: Seq<SearchResult>) -> bool {
    forall|i: int| 0 <= i < results.len() ==> !(#[trigger] results[i]).score.spec_is_nan()
}

/// No result has a lower score than one that comes after it.
pub open spec fn falls(results: Seq<SearchResult>) -> bool {
    forall|i: int, j: int|
        0 <= i < j < results.len() ==> !(#[trigger] results[i]).score.spec_less(
            (#[trigger] results[j]).score,
        )
}

proof fn lemma_place(ranking: Seq<SearchResult>, x: SearchResult)
    ensures
        0 <= place(ranking, x) <= ranking.len(),
        place(ranking, x) < ranking.len() ==> ranking[place(ranking, x)].score.spec_less(x.score),
        forall|i: int|
            0 <= i < place(ranking, x) ==> !(#[trigger] ranking[i]).score.spec_less(x.score),
    decreases ranking.len(),
{
    if ranking.len() > 0 {
        let front = ranking.drop_last();
        lemma_place(front, x);
        assert forall|i: int| 0 <= i < place(ranking, x) implies !(
        #[trigger] ranking[i]).score.spec_less(x.score) by {
            if i < front.len() {
                assert(front[i] == ranking[i]);
            }
        }
    }
}

/// Ranking loses no result and invents none.
pub proof fn ranking_is_a_permutation(results: Seq<SearchResult>)
    ensures
        ranked(results).to_multiset() == results.to_multiset(),
        ranked(results).len() == results.len(),
    decreases results.len(),
{
    broadcast use vstd::seq_lib::group_to_multiset_ensures;

    if results.len() > 0 {
        let earlier = ranked(results.drop_last());
        let x = results.last();
        lemma_place(earlier, x);
        ranking_is_a_permutation(results.drop_last());
        assert(results =~= results.drop_last().push(x));
    }
}

/// A ranking of numbers falls from its first result to its last.
pub proof fn ranking_falls(results: Seq<SearchResult>)
    requires
        all_numbers(results),
    ensures
        all_numbers(ranked(results)),
        falls(ranked(results)),
    decreases results.len(),
{
    if results.len() > 0 {
        let front = results.drop_last();
        let x = results.last();
        assert(x == results[results.len() - 1]);
        assert forall|i: int| 0 <= i < front.len() implies !(
        #[trigger] front[i]).score.spec_is_nan() by {
            assert(front[i] == results[i]);
        }
        ranking_falls(front);
        let earlier = ranked(front);
        let p = place(earlier, x);
        lemma_place(earlier, x);
        let all = earlier.insert(p, x);
        assert forall|i: int| 0 <= i < all.len() implies !(
        #[trigger] all[i]).score.spec_is_nan() by {
            if i < p {
                assert(all[i] == earlier[i]);
            } else if i > p {
                assert(all[i] == earlier[i - 1]);
            }
        }
        assert forall|i: int, j: int| 0 <= i < j < all.len() implies !(
        #[trigger] all[i]).score.spec_less((#[trigger] all[j]).score) by {
            let a = if i < p {
                i
            } else {
                i - 1
            };
            let b = if j < p {
                j
            } else {
                j - 1
            };
            if i != p {
                assert(all[i] == earlier[a]);
            }
            if j != p {
                assert(all[j] == earlier[b]);
            }
            if i == p && p < earlier.len() {
                assert(earlier[p].score.spec_less(x.score));
                if p < b {
                    assert(!earlier[p].score.spec_less(earlier[b].score));
                }
            }
        }
    }
}

/// Results with the same score stay in the order in which they came.
pub proof fn ranking_is_stable(results: Seq<SearchResult>, rank: int)
    requires
        all_numbers(results),
    ensures
        ranked(results).filter(|r: SearchResult| r.score.rank() == rank) == results.filter(
            |r: SearchResult| r.score.rank() == rank,
        ),
    decreases results.len(),
{
    let same = |r: SearchResult| r.score.rank() == rank;
    if results.len() > 0 {
        let front = results.drop_last();
        let x = results.last();
        assert(x == results[results.len() - 1]);
        assert forall|i: int| 0 <= i < front.len() implies !(
        #[trigger] front[i]).score.spec_is_nan() by {
            assert(front[i] == results[i]);
        }
        ranking_falls(front);
        ranking_is_stable(front, rank);
        let earlier = ranked(front);
        let p = place(earlier, x);
        lemma_place(earlier, x);
        let head = earlier.take(p);
        let tail = earlier.skip(p);
        assert(earlier =~= head + tail);
        assert(earlier.insert(p, x) =~= (head.push(x)) + tail);
        Seq::filter_distributes_over_add(head, tail, same);
        Seq::filter_distributes_over_add(head.push(x), tail, same);
        head.lemma_filter_push(x, same);
        front.lemma_filter_push(x, same);
        assert(results =~= front.push(x));
        if same(x) {
            assert forall|k: int| 0 <= k < tail.len() implies !same(#[trigger] tail[k]) by {
                assert(tail[k] == earlier[p + k]);
                assert(earlier[p].score.spec_less(x.score));
                if k > 0 {
                    assert(!earlier[p].score.spec_less(earlier[p + k].score));
                }
            }
            lemma_filter_none(tail, same);
            assert(earlier.filter(same) =~= head.filter(same));
            assert(earlier.insert(p, x).filter(same) =~= head.filter(same).push(x));
        } else {
            assert(earlier.insert(p, x).filter(same) =~= earlier.filter(same));
        }
    }
}

proof fn lemma_filter_none(s: Seq<SearchResult>, pred: spec_fn(SearchResult) -> bool)
    requires
        forall|k: int| 0 <= k < s.len() ==> !pred(#[trigger] s[k]),
    ensures
        s.filter(pred) == Seq::<SearchResult>::empty(),
    decreases s.len(),
{
    reveal(Seq::filter);
    if s.len() > 0 {
        let front = s.drop_last();
        assert forall|k: int| 0 <= k < front.len() implies !pred(#[trigger] front[k]) by {
            assert(front[k] == s[k]);
        }
        lemma_filter_none(front, pred);
        assert(!pred(s[s.len() - 1]));
    }
}

/// A response that was merged with the archives holds no more than the limit,
/// and what it holds falls in score.
pub proof fn merged_results_are_ranked_and_cut(
    live: Seq<SearchResult>,
    archived: Seq<SearchResult>,
    limit: usize,
)
    requires
        all_numbers(live + archived),
    ensures
        first(ranked(live + archived), limit).len() <= limit,
        falls(first(ranked(live + archived), limit)),
{
    ranking_falls(live + archived);
}

/// Ranking hands out the same results, each as often as it came, by falling score;
/// those with equal scores stay in the order in which they came. A score that is
/// no number has no place among the others.
pub proof fn ranking_orders_the_same_results(
    results: Vec<SearchResult>,
    r: Vec<SearchResult>,
    rank: int,
)
    requires
        call_ensures(rank_results, (results,), r),
    ensures
        r@.len() == results@.len(),
        r@.to_multiset() == results@.to_multiset(),
        (forall|i: int|
            0 <= i < results@.len() ==> !(#[trigger] results@[i]).score.spec_is_nan()) ==> {
            &&& forall|i: int, j: int|
                0 <= i < j < r@.len() ==> (#[trigger] r@[i]).score.rank() >= (
                #[trigger] r@[j]).score.rank()
            &&& r@.filter(|x: SearchResult| x.score.rank() == rank) == results@.filter(
                |x: SearchResult| x.score.rank() == rank,
            )
        },
{
    ranking_is_a_permutation(results@);
    if forall|i: int| 0 <= i < results@.len() ==> !(#[trigger] results@[i]).score.spec_is_nan() {
        ranking_falls(results@);
        ranking_is_stable(results@, rank);
        assert forall|i: int, j: int| 0 <= i < j < r@.len() implies (
        #[trigger] r@[i]).score.rank() >= (#[trigger] r@[j]).score.rank() by {
            assert(!r@[i].score.spec_is_nan());
            assert(!r@[j].score.spec_is_nan());
            assert(!r@[i].score.spec_less(r@[j].score));
        }
    }
}

/// A response that was merged with the archives holds as many of the live and
/// archived results as the limit allows, each no more often than it was found.
/// Where all of them fit under the limit, it holds them all. Its diagnostics count
/// what it holds and say what was searched.
pub proof fn merged_response_holds_all_that_fit(
    response: QueryResponse,
    archived: ArchiveSearchResult,
    limit: usize,
    r: QueryResponse,
)
    requires
        call_ensures(merge_archive_results, (response, Some(archived), limit), r),
    ensures
        response.results@.len() + archived.results@.len() <= limit ==> r.results@.len()
            == response.results@.len() + archived.results@.len(),
        response.results@.len() + archived.results@.len() >= limit ==> r.results@.len() == limit,
        r.results@.to_multiset().subset_of((response.results@ + archived.results@).to_multiset()),
        response.results@.len() + archived.results@.len() <= limit ==> r.results@.to_multiset()
            == (response.results@ + archived.results@).to_multiset(),
        r.diagnostics.results_returned == r.results@.len(),
        r.diagnostics.archive_paks_scanned == archived.paks_scanned,
        r.diagnostics.archive_search_ms == archived.search_ms,
        r.diagnostics.candidates_before_filter == response.diagnostics.candidates_before_filter,
        r.diagnostics.expired_matches == response.diagnostics.expired_matches,
        r.diagnostics.fts_candidates == response.diagnostics.fts_candidates,
        r.diagnostics.vector_candidates == response.diagnostics.vector_candidates,
{
    let all = response.results@ + archived.results@;
    ranking_is_a_permutation(all);
    if all.len() > limit {
        lemma_cut(ranked(all), limit as int);
    }
}

proof fn lemma_cut(results: Seq<SearchResult>, n: int)
    requires
        0 <= n <= results.len(),
    ensures
        results.to_multiset() == results.take(n).to_multiset().add(results.skip(n).to_multiset()),
        results.take(n).to_multiset().subset_of(results.to_multiset()),
{
    vstd::seq_lib::lemma_multiset_commutative(results.take(n), results.skip(n));
    assert(results.take(n) + results.skip(n) =~= results);
}

/// The results that a merged response keeps are the best: no result that was left
/// out has a higher score than one that was kept, and what was kept falls in score.
/// Of results with equal scores the live ones come first, each kind in its order.
pub proof fn merged_response_keeps_the_best(
    response: QueryResponse,
    archived: ArchiveSearchResult,
    limit: usize,
    r: QueryResponse,
    out: SearchResult,
    rank: int,
)
    requires
        call_ensures(merge_archive_results, (response, Some(archived), limit), r),
        forall|i: int|
            0 <= i < response.results@.len() ==> !(
            #[trigger] response.results@[i]).score.spec_is_nan(),
        forall|i: int|
            0 <= i < archived.results@.len() ==> !(
            #[trigger] archived.results@[i]).score.spec_is_nan(),
    ensures
        forall|i: int, j: int|
            0 <= i < j < r.results@.len() ==> (#[trigger] r.results@[i]).score.rank() >= (
            #[trigger] r.results@[j]).score.rank(),
        (response.results@ + archived.results@).to_multiset().count(out)
            > r.results@.to_multiset().count(out) ==> forall|i: int|
            0 <= i < r.results@.len() ==> (#[trigger] r.results@[i]).score.rank()
                >= out.score.rank(),
        r.results@.filter(|x: SearchResult| x.score.rank() == rank).is_prefix_of(
            response.results@.filter(|x: SearchResult| x.score.rank() == rank)
                + archived.results@.filter(|x: SearchResult| x.score.rank() == rank),
        ),
{
    broadcast use vstd::seq_lib::group_to_multiset_ensures;

    let all = response.results@ + archived.results@;
    let same = |x: SearchResult| x.score.rank() == rank;
    assert(all_numbers(all)) by {
        assert forall|i: int| 0 <= i < all.len() implies !(
        #[trigger] all[i]).score.spec_is_nan() by {
            if i < response.results@.len() {
                assert(all[i] == response.results@[i]);
            } else {
                assert(all[i] == archived.results@[i - response.results@.len()]);
            }
        }
    }
    let order = ranked(all);
    ranking_is_a_permutation(all);
    ranking_falls(all);
    ranking_is_stable(all, rank);
    Seq::filter_distributes_over_add(response.results@, archived.results@, same);
    assert forall|i: int, j: int| 0 <= i < j < order.len() implies (
    #[trigger] order[i]).score.rank() >= (#[trigger] order[j]).score.rank() by {
        assert(!order[i].score.spec_less(order[j].score));
    }
    if all.len() > limit {
        let n = limit as int;
        let kept = order.take(n);
        let left = order.skip(n);
        lemma_cut(order, n);
        assert(kept + left =~= order);
        Seq::filter_distributes_over_add(kept, left, same);
        assert(kept.filter(same).is_prefix_of(kept.filter(same) + left.filter(same)));
        if all.to_multiset().count(out) > kept.to_multiset().count(out) {
            assert(left.to_multiset().count(out) > 0);
            assert(left.contains(out));
            let k = choose|k: int| 0 <= k < left.len() && left[k] == out;
            assert(order[n + k] == out);
            assert forall|i: int| 0 <= i < kept.len() implies (#[trigger] kept[i]).score.rank()
                >= out.score.rank() by {
                assert(kept[i] == order[i]);
            }
        }
    }
}

/// Where the archives gave nothing the response stays as it is; and an empty find
/// takes no live result away, as long as they were within the limit.
pub proof fn archives_take_nothing_away(
    response: QueryResponse,
    limit: usize,
    r: QueryResponse,
    archived: ArchiveSearchResult,
    s: QueryResponse,
    x: SearchResult,
)
    requires
        call_ensures(merge_archive_results, (response, None, limit), r),
        call_ensures(merge_archive_results, (response, Some(archived), limit), s),
        response.results@.len() + archived.results@.len() <= limit,
    ensures
        r == response,
        response.results@.contains(x) ==> s.results@.contains(x),
        archived.results@.contains(x) ==> s.results@.contains(x),
        s.results@.contains(x) ==> response.results@.contains(x) || archived.results@.contains(x),
{
    broadcast use vstd::seq_lib::group_to_multiset_ensures;

    let all = response.results@ + archived.results@;
    merged_response_holds_all_that_fit(response, archived, limit, s);
    if response.results@.contains(x) {
        let i = choose|i: int| 0 <= i < response.results@.len() && response.results@[i] == x;
        assert(all[i] == x);
    }
    if archived.results@.contains(x) {
        let i = choose|i: int| 0 <= i < archived.results@.len() && archived.results@[i] == x;
        assert(all[response.results@.len() + i] == x);
    }
    assert(all.contains(x) <==> s.results@.contains(x)) by {
        assert(all.to_multiset().count(x) > 0 <==> all.contains(x));
        assert(s.results@.to_multiset().count(x) > 0 <==> s.results@.contains(x));
    }
    if all.contains(x) {
        let i = choose|i: int| 0 <= i < all.len() && all[i] == x;
        if i < response.results@.len() {
            assert(response.results@[i] == x);
        } else {
            assert(archived.results@[i - response.results@.len()] == x);
        }
    }
}

/// A query reaches the archives just when it searched, found its scope, and the
/// caller wants them. Either way the live results go on as they are; without the
/// scope there are none.
pub proof fn query_reaches_the_archives_when_asked(
    execution: QueryExecution,
    has_search: bool,
    include_archives: bool,
    r: QueryStep,
)
    requires
        call_ensures(
            MemoryEngine::execute_query,
            (execution, has_search, include_archives),
            r,
        ),
    ensures
        r is SearchArchives <==> execution is Executed && has_search && include_archives,
        r matches QueryStep::SearchArchives(response) ==> execution == QueryExecution::Executed(
            response,
        ),
        r is Done && execution is Executed ==> execution == QueryExecution::Executed(r->Done_0),
        execution is ScopeMissing ==> r is Done && r->Done_0.results@.len() == 0
            && r->Done_0.diagnostics.results_returned == 0
            && r->Done_0.diagnostics.candidates_before_filter == 0,
{
}

/// A caller's limit counts as it is; without one it is fifty.
pub proof fn limit_is_the_callers(n: usize, r: usize, s: usize)
    requires
        call_ensures(effective_limit, (Some(n),), r),
        call_ensures(effective_limit, (None,), s),
    ensures
        r == n,
        s == 50,
{
}

} // verus!
