//! Queries and their results.

use crate::binary64::Binary64;
use crate::time::Timestamp;
use crate::types::facts::{Fact, FactType};
use crate::types::scope::ScopeQuery;
use vstd::prelude::*;

verus! {

/// Where a search looks.
#[derive(Debug, Clone, Copy, PartialEq, Eq, Structural)]
pub enum SearchMode {
    /// The words of the query text.
    Fts,
    /// The distance to the query embedding.
    Vector,
    /// Both, fused by reciprocal rank.
    Hybrid,
}

/// Where a result came from.
#[derive(Debug, Clone, Copy, PartialEq, Eq, Structural)]
#[non_exhaustive]
pub enum MatchType {
    Fts,
    Vector,
    Both,
    /// The store, ranked by importance, without a search.
    ImportanceRank,
    /// An archive file.
    Archive,
}

/// A search across words and vectors.
#[derive(Debug, Clone, PartialEq)]
#[non_exhaustive]
pub struct SearchQuery {
    pub text: Option<String>,
    pub embedding: Option<Vec<u32>>,
    pub mode: SearchMode,
    pub limit: usize,
    /// How many candidates the reranker sees before the cut to `limit`.
    pub rerank_depth: Option<usize>,
    pub valid_at: Option<Timestamp>,
    pub fact_type: Option<FactType>,
    pub scope: Option<ScopeQuery>,
}

impl SearchQuery {
    /// A query with nothing but its two required parts.
    pub fn new(mode: SearchMode, limit: usize) -> (r: SearchQuery)
        ensures
            r == (SearchQuery {
                text: None,
                embedding: None,
                mode,
                limit,
                rerank_depth: None,
                valid_at: None,
                fact_type: None,
                scope: None,
            }),
    {
        SearchQuery {
            text: None,
            embedding: None,
            mode,
            limit,
            rerank_depth: None,
            valid_at: None,
            fact_type: None,
            scope: None,
        }
    }

    /// Sets the query text.
    pub fn text(self, text: String) -> (r: SearchQuery)
        ensures
            r == (SearchQuery { text: Some(text), ..self }),
    {
        SearchQuery { text: Some(text), ..self }
    }

    /// Sets the query embedding.
    pub fn embedding(self, embedding: Vec<u32>) -> (r: SearchQuery)
        ensures
            r == (SearchQuery { embedding: Some(embedding), ..self }),
    {
        SearchQuery { embedding: Some(embedding), ..self }
    }

    /// Sets the mode.
    pub fn mode(self, mode: SearchMode) -> (r: SearchQuery)
        ensures
            r == (SearchQuery { mode, ..self }),
    {
        SearchQuery { mode, ..self }
    }

    /// Sets the limit.
    pub fn limit(self, limit: usize) -> (r: SearchQuery)
        ensures
            r == (SearchQuery { limit, ..self }),
    {
        SearchQuery { limit, ..self }
    }

    /// Sets how many candidates the reranker sees.
    pub fn rerank_depth(self, depth: usize) -> (r: SearchQuery)
        ensures
            r == (SearchQuery { rerank_depth: Some(depth), ..self }),
    {
        SearchQuery { rerank_depth: Some(depth), ..self }
    }

    /// Asks for what was valid at an instant.
    pub fn valid_at(self, at: Timestamp) -> (r: SearchQuery)
        ensures
            r == (SearchQuery { valid_at: Some(at), ..self }),
    {
        SearchQuery { valid_at: Some(at), ..self }
    }

    /// Asks for one type of fact.
    pub fn fact_type(self, fact_type: FactType) -> (r: SearchQuery)
        ensures
            r == (SearchQuery { fact_type: Some(fact_type), ..self }),
    {
        SearchQuery { fact_type: Some(fact_type), ..self }
    }

    /// Asks for some scopes.
    pub fn scope(self, scope: ScopeQuery) -> (r: SearchQuery)
        ensures
            r == (SearchQuery { scope: Some(scope), ..self }),
    {
        SearchQuery { scope: Some(scope), ..self }
    }
}

/// A fact that a search found, with its score.
#[derive(Debug, Clone, PartialEq)]
pub struct SearchResult {
    pub fact: Fact,
    pub score: Binary64,
    pub match_type: MatchType,
}

/// What a query saw on its way to the results.
#[derive(Debug, Clone, Copy, PartialEq, Eq, Structural)]
pub struct QueryDiagnostics {
    /// Candidates before the last filters.
    pub candidates_before_filter: usize,
    /// Results after all filters and the cut.
    pub results_returned: usize,
    /// Expired facts that match the query text, where that was asked for.
    pub expired_matches: Option<usize>,
    /// Candidates by words.
    pub fts_candidates: usize,
    /// Candidates by vector.
    pub vector_candidates: usize,
    /// Archive files that were searched.
    pub archive_paks_scanned: usize,
    /// Milliseconds spent on archives.
    pub archive_search_ms: u64,
}

/// The diagnostics of a query that saw nothing.
pub open spec fn blank_diagnostics() -> QueryDiagnostics {
    QueryDiagnostics {
        candidates_before_filter: 0,
        results_returned: 0,
        expired_matches: None,
        fts_candidates: 0,
        vector_candidates: 0,
        archive_paks_scanned: 0,
        archive_search_ms: 0,
    }
}

impl Default for QueryDiagnostics {
    fn default() -> (r: QueryDiagnostics)
        ensures
            r == blank_diagnostics(),
    {
        QueryDiagnostics {
            candidates_before_filter: 0,
            results_returned: 0,
            expired_matches: None,
            fts_candidates: 0,
            vector_candidates: 0,
            archive_paks_scanned: 0,
            archive_search_ms: 0,
        }
    }
}

/// The results of a query, with its diagnostics.
#[derive(Debug, Clone, PartialEq)]
pub struct QueryResponse {
    pub results: Vec<SearchResult>,
    pub diagnostics: QueryDiagnostics,
}

/// How slowly reciprocal rank fusion discounts lower ranks.
pub const RRF_K: u32 = 60;

/// A query is asked for as it was put together: each setting is what was set last,
/// and setting one leaves the others alone. A new query has its mode and its limit
/// and nothing else.
pub proof fn query_settings_are_kept(
    query: SearchQuery,
    fresh: SearchQuery,
    mode: SearchMode,
    limit: usize,
    text: String,
    embedding: Vec<u32>,
    depth: usize,
    at: Timestamp,
    fact_type: FactType,
    scope: ScopeQuery,
    a: SearchQuery,
    b: SearchQuery,
    c: SearchQuery,
    d: SearchQuery,
    e: SearchQuery,
    f: SearchQuery,
    g: SearchQuery,
    h: SearchQuery,
)
    requires
        call_ensures(SearchQuery::new, (mode, limit), fresh),
        call_ensures(SearchQuery::text, (query, text), a),
        call_ensures(SearchQuery::embedding, (query, embedding), b),
        call_ensures(SearchQuery::mode, (query, mode), c),
        call_ensures(SearchQuery::limit, (query, limit), d),
        call_ensures(SearchQuery::rerank_depth, (query, depth), e),
        call_ensures(SearchQuery::valid_at, (query, at), f),
        call_ensures(SearchQuery::fact_type, (query, fact_type), g),
        call_ensures(SearchQuery::scope, (query, scope), h),
    ensures
        fresh.mode == mode && fresh.limit == limit && fresh.text is None && fresh.embedding is None
            && fresh.rerank_depth is None && fresh.valid_at is None && fresh.fact_type is None
            && fresh.scope is None,
        a == (SearchQuery { text: Some(text), ..query }),
        b == (SearchQuery { embedding: Some(embedding), ..query }),
        c == (SearchQuery { mode, ..query }),
        d == (SearchQuery { limit, ..query }),
        e == (SearchQuery { rerank_depth: Some(depth), ..query }),
        f == (SearchQuery { valid_at: Some(at), ..query }),
        g == (SearchQuery { fact_type: Some(fact_type), ..query }),
        h == (SearchQuery { scope: Some(scope), ..query }),
{
}

} // verus!
