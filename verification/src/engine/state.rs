//! The state of an open engine, and the checks that guard its operations.

use crate::engine::config::UpcasterRegistry;
use crate::error::{MemoryError, MigrationError};
use crate::graph::{GraphEdge, MemoryGraph};
use crate::scope_tree::{ScopeChainWalk, ScopeTree};
use crate::types::cognitive::EmbeddingFingerprint;
use crate::types::scope::ScopeNode;
use std::collections::HashSet;
use vstd::prelude::*;

verus! {

/// An open engine: what it was opened with, and its in-memory projections of the
/// store.
#[derive(Debug)]
pub struct MemoryEngine {
    pub embed_dim: usize,
    pub graph: MemoryGraph,
    pub scope_tree: ScopeTree,
    /// The name of the reranker, if there is one.
    pub reranker: Option<String>,
    pub upcaster_registry: UpcasterRegistry,
    pub is_file_backed: bool,
    pub read_only: bool,
    /// The database file, if there is one.
    pub db_path: Option<String>,
    /// The projections were flushed since the engine was opened.
    pub closed: bool,
    /// The dimension at which the engine must be reopened; 0 when it need not.
    pub reopen_required: usize,
}

/// What is known of a store that is being opened.
#[derive(Debug, Clone, PartialEq, Eq)]
pub struct OpenedStore {
    pub is_file_backed: bool,
    pub read_only: bool,
    pub db_path: Option<String>,
    /// The identity of the store's vectors, if it holds any.
    pub identity: Option<EmbeddingFingerprint>,
}

/// A summary of the database that a sidecar file is checked against.
#[derive(Debug, Clone, PartialEq, Eq)]
pub struct DbFingerprint {
    pub active_edge_count: i64,
    /// Everything else that the summary covers.
    pub digest: String,
}

impl DbFingerprint {
    /// The two summaries agree.
    pub open spec fn agrees(self, other: DbFingerprint) -> bool {
        self.active_edge_count == other.active_edge_count && self.digest@ == other.digest@
    }

    /// Whether the two summaries agree.
    pub fn matches(&self, other: &DbFingerprint) -> (r: bool)
        ensures
            r == self.agrees(*other),
    {
        self.active_edge_count == other.active_edge_count && crate::text::same_text(
            self.digest.as_str(),
            other.digest.as_str(),
        )
    }
}

/// The projections that a sidecar file holds.
#[derive(Debug, Clone, PartialEq, Eq)]
pub struct SidecarPayload {
    pub edges: Vec<GraphEdge>,
    pub scopes: Vec<ScopeNode>,
    /// A vector index, in the backend's own form.
    pub hnsw: Option<Vec<u8>>,
}

/// A sidecar file: the projections, and the database they were made from.
#[derive(Debug, Clone, PartialEq, Eq)]
pub struct Sidecar {
    pub fingerprint: DbFingerprint,
    pub payload: SidecarPayload,
}

/// The projections that were recovered from a sidecar file.
#[derive(Debug)]
pub struct Recovered {
    pub graph: MemoryGraph,
    pub scope_tree: ScopeTree,
    pub hnsw: Option<Vec<u8>>,
}

/// The payload can be trusted: it has as many edges as the database has active
/// ones, and each joins facts that exist.
pub open spec fn payload_is_sound(
    payload: SidecarPayload,
    current: DbFingerprint,
    existing: Set<i64>,
) -> bool {
    &&& payload.edges@.len() == current.active_edge_count
    &&& crate::graph::edges_join_facts(payload.edges@, existing)
}

/// The recovered projections are those of the payload.
pub open spec fn recovers(r: Recovered, payload: SidecarPayload) -> bool {
    &&& r.graph.well_formed()
    &&& r.graph.edges() == payload.edges@
    &&& forall|id: i64| #[trigger]
        r.graph.nodes().contains(id) <==> crate::graph::touched(payload.edges@, id)
    &&& r.scope_tree.well_formed()
    &&& r.scope_tree.nodes() == crate::scope_tree::with_nodes(Seq::empty(), payload.scopes@)
    &&& r.hnsw == payload.hnsw
}

/// Recovers the projections from a payload whose file agrees with the database.
/// A payload that contradicts itself or the database is not used.
pub fn recover_from_payload(
    payload: SidecarPayload,
    current: &DbFingerprint,
    existing: &HashSet<i64>,
) -> (r: Option<Recovered>)
    ensures
        r is Some <==> payload_is_sound(payload, *current, existing@),
        r matches Some(p) ==> recovers(p, payload),
{
    if current.active_edge_count < 0 || payload.edges.len() as u64
        != current.active_edge_count as u64 {
        return None;
    }
    match MemoryGraph::from_snapshot(payload.edges, existing) {
        Some(graph) => {
            let mut scope_tree = ScopeTree::new();
            scope_tree.insert_all(payload.scopes);
            Some(Recovered { graph, scope_tree, hnsw: payload.hnsw })
        },
        None => None,
    }
}

/// Recovers the projections from a sidecar file, if the engine has a file at
/// all, the file is there, and it still describes the database. Whenever it
/// does not, the projections are to be rebuilt from the database instead.
pub fn try_load_snapshot(
    db_path: &Option<String>,
    sidecar: Option<Sidecar>,
    current: &DbFingerprint,
    existing: &HashSet<i64>,
) -> (r: Option<Recovered>)
    ensures
        r is Some <==> *db_path is Some && (sidecar matches Some(s) && s.fingerprint.agrees(
            *current,
        ) && payload_is_sound(s.payload, *current, existing@)),
        r matches Some(p) ==> recovers(p, sidecar->0.payload),
{
    if db_path.is_none() {
        return None;
    }
    match sidecar {
        None => None,
        Some(s) => {
            if !s.fingerprint.matches(current) {
                return None;
            }
            recover_from_payload(s.payload, current, existing)
        },
    }
}

/// Where the store takes its vector index from when it is opened.
#[derive(Debug, Clone, PartialEq, Eq)]
pub enum IndexSource {
    /// From the sidecar, if it holds one.
    Sidecar(Option<Vec<u8>>),
    /// From the facts in the store.
    Rebuild,
}

/// The projections to open an engine with: those that were recovered, or else
/// those that the store's active edges and scopes make. The vector index comes
/// from where the projections come from.
pub fn open_projections(
    recovered: Option<Recovered>,
    active_edges: Vec<GraphEdge>,
    scopes: Vec<ScopeNode>,
) -> (r: (MemoryGraph, ScopeTree, IndexSource))
    requires
        recovered matches Some(p) ==> p.graph.well_formed() && p.scope_tree.well_formed(),
    ensures
        r.0.well_formed(),
        r.1.well_formed(),
        match recovered {
            Some(p) => r == (p.graph, p.scope_tree, IndexSource::Sidecar(p.hnsw)),
            None => {
                &&& r.0.edges() == active_edges@
                &&& forall|id: i64| #[trigger]
                    r.0.nodes().contains(id) <==> crate::graph::touched(active_edges@, id)
                &&& r.1.nodes() == crate::scope_tree::with_nodes(Seq::empty(), scopes@)
                &&& r.2 == IndexSource::Rebuild
            },
        },
{
    match recovered {
        Some(p) => (p.graph, p.scope_tree, IndexSource::Sidecar(p.hnsw)),
        None => {
            let mut scope_tree = ScopeTree::new();
            scope_tree.insert_all(scopes);
            (MemoryGraph::from_active_edges(active_edges), scope_tree, IndexSource::Rebuild)
        },
    }
}

/// Recovering the projections and building them anew give the same: a sidecar
/// whose payload holds the store's active edges and scopes opens the engine with
/// the same edges, the same facts and the same scopes as the store itself.
pub proof fn recovery_and_rebuild_agree(
    payload: SidecarPayload,
    recovered: Recovered,
    rebuilt_graph: MemoryGraph,
    rebuilt_tree: ScopeTree,
)
    requires
        recovers(recovered, payload),
        rebuilt_graph.edges() == payload.edges@,
        forall|id: i64| #[trigger]
            rebuilt_graph.nodes().contains(id) <==> crate::graph::touched(payload.edges@, id),
        rebuilt_tree.nodes() == crate::scope_tree::with_nodes(Seq::empty(), payload.scopes@),
    ensures
        recovered.graph.edges() == rebuilt_graph.edges(),
        forall|id: i64| #[trigger]
            recovered.graph.nodes().contains(id) <==> rebuilt_graph.nodes().contains(id),
        recovered.scope_tree.nodes() == rebuilt_tree.nodes(),
{
}

/// How a flush goes on.
#[derive(Debug, Clone, PartialEq, Eq)]
pub enum FlushStep {
    /// Nothing is to be written.
    Skip,
    /// These projections are to be written.
    Write { edges: Vec<GraphEdge>, scopes: Vec<ScopeNode> },
}

/// An engine of this dimension can be opened on a store with this identity: a
/// store without vectors fits every dimension.
pub open spec fn fits_store(identity: Option<EmbeddingFingerprint>, embed_dim: usize) -> bool {
    identity matches Some(fp) ==> fp.dim == embed_dim
}

impl MemoryEngine {
    /// The projections are well-formed.
    pub open spec fn well_formed(self) -> bool {
        self.graph.well_formed() && self.scope_tree.well_formed()
    }

    /// The engine waits to be reopened at another dimension.
    pub open spec fn fenced(self) -> bool {
        self.reopen_required != 0
    }

    /// Checks the dimension that an engine is opened with against the vectors in
    /// the store. A store without vectors fits every dimension.
    pub fn validate_embed_dim_against_meta(
        identity: &Option<EmbeddingFingerprint>,
        embed_dim: usize,
    ) -> (r: Result<(), MemoryError>)
        ensures
            match r {
                Ok(()) => fits_store(*identity, embed_dim),
                Err(e) => !fits_store(*identity, embed_dim) && e == MemoryError::Migration(
                    (MigrationError::EmbedDimMismatch {
                        stored: identity->0.dim,
                        requested: embed_dim,
                    }),
                ),
            },
    {
        match identity {
            Some(fp) => {
                if fp.dim != embed_dim {
                    return Err(
                        MemoryError::Migration(
                            MigrationError::EmbedDimMismatch {
                                stored: fp.dim,
                                requested: embed_dim,
                            },
                        ),
                    );
                }
                Ok(())
            },
            None => Ok(()),
        }
    }

    /// Opens an engine on a store, with projections that were recovered or
    /// rebuilt. The dimension must fit the store.
    pub fn init_from_pool(
        store: OpenedStore,
        embed_dim: usize,
        graph: MemoryGraph,
        scope_tree: ScopeTree,
        upcaster_registry: UpcasterRegistry,
        reranker: Option<String>,
    ) -> (r: Result<MemoryEngine, MemoryError>)
        requires
            graph.well_formed(),
            scope_tree.well_formed(),
        ensures
            r is Ok <==> fits_store(store.identity, embed_dim),
            match r {
                Ok(engine) => engine.well_formed() && engine == (MemoryEngine {
                    embed_dim,
                    graph,
                    scope_tree,
                    reranker,
                    upcaster_registry,
                    is_file_backed: store.is_file_backed,
                    read_only: store.read_only,
                    db_path: store.db_path,
                    closed: false,
                    reopen_required: 0,
                }),
                Err(e) => e == MemoryError::Migration(
                    (MigrationError::EmbedDimMismatch {
                        stored: store.identity->0.dim,
                        requested: embed_dim,
                    }),
                ),
            },
    {
        match MemoryEngine::validate_embed_dim_against_meta(&store.identity, embed_dim) {
            Err(e) => Err(e),
            Ok(()) => Ok(
                MemoryEngine {
                    embed_dim,
                    graph,
                    scope_tree,
                    reranker,
                    upcaster_registry,
                    is_file_backed: store.is_file_backed,
                    read_only: store.read_only,
                    db_path: store.db_path,
                    closed: false,
                    reopen_required: 0,
                },
            ),
        }
    }

    /// The name of the reranker, if there is one.
    pub fn reranker_name(&self) -> (r: Option<&str>)
        ensures
            match r {
                Some(name) => self.reranker matches Some(own) && own@ == name@,
                None => self.reranker is None,
            },
    {
        match &self.reranker {
            Some(name) => Some(name.as_str()),
            None => None,
        }
    }

    /// Checks that vectors of the candidate's identity fit this engine and its
    /// store: the same dimension, and the same identity as the store's vectors,
    /// if it holds any.
    pub fn verify_embedding_fingerprint(
        &self,
        candidate: &EmbeddingFingerprint,
        recorded: &Option<EmbeddingFingerprint>,
    ) -> (r: Result<(), MemoryError>)
        ensures
            r is Ok <==> candidate.dim == self.embed_dim && (*recorded matches Some(own)
                ==> own.same_identity(*candidate)),
            r matches Err(e) ==> if candidate.dim != self.embed_dim {
                e == (MemoryError::EmbeddingDimension {
                    expected: self.embed_dim,
                    actual: candidate.dim,
                })
            } else {
                e == (MemoryError::EmbeddingModelMismatch {
                    stored: recorded->0,
                    offered: *candidate,
                })
            },
    {
        if candidate.dim != self.embed_dim {
            return Err(
                MemoryError::EmbeddingDimension {
                    expected: self.embed_dim,
                    actual: candidate.dim,
                },
            );
        }
        match recorded {
            None => Ok(()),
            Some(own) => {
                if own.matches(candidate) {
                    Ok(())
                } else {
                    Err(
                        MemoryError::EmbeddingModelMismatch {
                            stored: own.copied(),
                            offered: candidate.copied(),
                        },
                    )
                }
            },
        }
    }

    /// Whether writes are refused.
    pub fn is_read_only(&self) -> (r: bool)
        ensures
            r == self.read_only,
    {
        self.read_only
    }

    /// The dimension of the engine's vectors.
    pub fn embed_dim(&self) -> (r: usize)
        ensures
            r == self.embed_dim,
    {
        self.embed_dim
    }

    /// Whether the store is a file.
    pub fn is_file_backed(&self) -> (r: bool)
        ensures
            r == self.is_file_backed,
    {
        self.is_file_backed
    }

    /// The dimension at which the engine must be reopened, if it must.
    pub fn reopen_required(&self) -> (r: Option<usize>)
        ensures
            r == (if self.fenced() {
                Some(self.reopen_required)
            } else {
                None
            }),
    {
        if self.reopen_required == 0 {
            None
        } else {
            Some(self.reopen_required)
        }
    }

    /// Refuses an operation on vectors once the engine must be reopened.
    pub fn ensure_open(&self) -> (r: Result<(), MemoryError>)
        ensures
            match r {
                Ok(()) => !self.fenced(),
                Err(e) => self.fenced() && e == (MemoryError::EmbeddingReopenRequired {
                    new_dim: self.reopen_required,
                }),
            },
    {
        if self.reopen_required == 0 {
            Ok(())
        } else {
            Err(MemoryError::EmbeddingReopenRequired { new_dim: self.reopen_required })
        }
    }

    /// Refuses a write on a read-only engine.
    pub fn ensure_writable(&self) -> (r: Result<(), MemoryError>)
        ensures
            match r {
                Ok(()) => !self.read_only,
                Err(e) => self.read_only && e == MemoryError::ReadOnly,
            },
    {
        if self.read_only {
            Err(MemoryError::ReadOnly)
        } else {
            Ok(())
        }
    }

    /// Notes that the store was switched to vectors of dimension `new_dim`. Where
    /// that is another dimension than the engine's, the engine must be reopened.
    pub fn fence_after_promotion(&mut self, new_dim: usize)
        ensures
            *final(self) == (MemoryEngine {
                reopen_required: if new_dim != old(self).embed_dim {
                    new_dim
                } else {
                    old(self).reopen_required
                },
                ..*old(self)
            }),
    {
        if new_dim != self.embed_dim {
            self.reopen_required = new_dim;
        }
    }

    /// The engine has nothing to flush: its projections are out of date, or it has
    /// no file that it may write to.
    pub open spec fn nothing_to_flush(self) -> bool {
        self.fenced() || self.read_only || !self.is_file_backed
    }

    /// Starts a flush of the projections. On an engine that must be reopened they
    /// are out of date, and an engine in memory or without write access has no
    /// place for them: nothing is written, and that counts as flushed.
    pub fn flush_snapshot(&mut self) -> (r: FlushStep)
        ensures
            match r {
                FlushStep::Skip => old(self).nothing_to_flush(),
                FlushStep::Write { edges, scopes } => !old(self).nothing_to_flush() && edges@
                    == old(self).graph.edges() && scopes@ == old(self).scope_tree.nodes(),
            },
            *final(self) == (MemoryEngine {
                closed: old(self).closed || old(self).nothing_to_flush(),
                ..*old(self)
            }),
    {
        if self.reopen_required != 0 || self.read_only || !self.is_file_backed {
            self.closed = true;
            return FlushStep::Skip;
        }
        FlushStep::Write {
            edges: self.graph.to_snapshot(),
            scopes: self.scope_tree.to_snapshot(),
        }
    }

    /// Ends a flush whose write succeeded, and passes on whether there was
    /// anything to write.
    pub fn flushed(&mut self, wrote: bool) -> (r: bool)
        ensures
            r == wrote,
            *final(self) == (MemoryEngine { closed: true, ..*old(self) }),
    {
        self.closed = true;
        wrote
    }

    /// Whether dropping the engine now loses a flush that could have been made.
    pub fn dropped_without_flush(&self) -> (r: bool)
        ensures
            r == (self.is_file_backed && !self.closed),
    {
        self.is_file_backed && !self.closed
    }

    /// Puts the scopes that a walk met into the scope tree.
    pub fn cache_scope_chain(&mut self, walk: ScopeChainWalk)
        requires
            old(self).well_formed(),
        ensures
            final(self).well_formed(),
            final(self).scope_tree.nodes() == crate::scope_tree::with_nodes(
                old(self).scope_tree.nodes(),
                walk.nodes(),
            ),
            *final(self) == (MemoryEngine { scope_tree: final(self).scope_tree, ..*old(self) }),
    {
        walk.finish(&mut self.scope_tree);
    }

    /// The ids of the scopes that a listing looks at: a scope and everything
    /// above it, or the root alone when no scope is named. To name a scope that
    /// the store does not hold is a failure of the store's scopes.
    pub fn resolve_scope_ids(&self, scope: Option<&str>) -> (r: Result<Vec<i64>, MemoryError>)
        ensures
            match scope {
                None => r matches Ok(ids) && ids@ == seq![1i64],
                Some(path) => match crate::scope_tree::resolved(self.scope_tree.nodes(), path@) {
                    Some(id) => r matches Ok(ids) && ids@ == crate::scope_tree::chain_up(
                        self.scope_tree.nodes(),
                        id,
                    ),
                    None => r matches Err(MemoryError::Storage(text)) && text@ == "scope path: "@
                        + path@,
                },
            },
    {
        match scope {
            Some(path) => match self.scope_tree.resolve_path(path) {
                Some(id) => Ok(self.scope_tree.ancestors(id)),
                None => {
                    let mut text = "scope path: ".to_owned();
                    text.append(path);
                    Err(MemoryError::Storage(text))
                },
            },
            None => {
                let mut ids: Vec<i64> = Vec::new();
                ids.push(ScopeTree::root_id());
                assert(ids@ =~= seq![1i64]);
                Ok(ids)
            },
        }
    }
}

/// What a flush writes, the next opening recovers: from a payload with the
/// projections of an engine come a graph with the same edges and a tree with the
/// same scopes.
pub proof fn flushed_projections_are_recovered(
    engine: MemoryEngine,
    payload: SidecarPayload,
    r: Recovered,
)
    requires
        engine.well_formed(),
        payload.edges@ == engine.graph.edges(),
        payload.scopes@ == engine.scope_tree.nodes(),
        recovers(r, payload),
    ensures
        r.graph.edges() == engine.graph.edges(),
        r.scope_tree.nodes() == engine.scope_tree.nodes(),
{
    crate::scope_tree::lemma_with_nodes_of_distinct(engine.scope_tree.nodes());
}

/// An engine whose store was switched to vectors of another dimension is fenced,
/// and can be opened again at that dimension and at no other: not at its own.
pub proof fn reopening_takes_the_new_dimension(
    before: MemoryEngine,
    after: MemoryEngine,
    identity: EmbeddingFingerprint,
)
    requires
        identity.dim != before.embed_dim,
        identity.dim != 0,
        after == (MemoryEngine { reopen_required: identity.dim, ..before }),
    ensures
        after.fenced(),
        fits_store(Some(identity), after.reopen_required),
        !fits_store(Some(identity), after.embed_dim),
        forall|dim: usize|
            #[trigger] fits_store(Some(identity), dim) ==> dim == after.reopen_required,
{
}

/// The error for a scope path that names no scope.
pub fn scope_not_found(path: &str) -> (r: MemoryError)
    ensures
        r matches MemoryError::NotFound(text) && text@ == "scope path: "@ + path@,
{
    let mut text = "scope path: ".to_owned();
    text.append(path);
    MemoryError::NotFound(text)
}

/// An engine that must be reopened refuses whatever rests on its vectors, and says
/// at which dimension; one that need not refuses nothing on that account.
pub proof fn fenced_engine_refuses(
    engine: &MemoryEngine,
    open: Result<(), MemoryError>,
    required: Option<usize>,
    bootstrap: Result<(), MemoryError>,
    archive: Result<(), MemoryError>,
    consolidation: Result<(), MemoryError>,
)
    requires
        call_ensures(MemoryEngine::ensure_open, (engine,), open),
        call_ensures(MemoryEngine::reopen_required, (engine,), required),
        call_ensures(MemoryEngine::begin_bootstrap, (engine,), bootstrap),
        call_ensures(MemoryEngine::check_archive, (engine,), archive),
        call_ensures(
            MemoryEngine::begin_consolidation,
            (engine, Ok::<(), crate::error::ConflictError>(())),
            consolidation,
        ),
    ensures
        engine.reopen_required == 0 ==> open is Ok && required is None && consolidation is Ok,
        engine.reopen_required != 0 ==> {
            let refusal = Err::<(), MemoryError>(
                MemoryError::EmbeddingReopenRequired { new_dim: engine.reopen_required },
            );
            &&& open == refusal
            &&& bootstrap == refusal
            &&& archive == refusal
            &&& consolidation == refusal
            &&& required == Some(engine.reopen_required)
        },
        engine.reopen_required == 0 && !engine.read_only ==> bootstrap is Ok,
        engine.reopen_required == 0 && !engine.read_only && engine.is_file_backed ==> archive
            is Ok,
{
}

/// An engine that was opened read-only refuses every write, and another one refuses
/// none on that account.
pub proof fn read_only_engine_refuses_writes(
    engine: &MemoryEngine,
    writable: Result<(), MemoryError>,
    read_only: bool,
    bootstrap: Result<(), MemoryError>,
    archive: Result<(), MemoryError>,
    newest: Option<i64>,
    cursor: Option<i64>,
    cycle: Result<crate::engine::dream::GuardStep, MemoryError>,
)
    requires
        call_ensures(MemoryEngine::ensure_writable, (engine,), writable),
        call_ensures(MemoryEngine::is_read_only, (engine,), read_only),
        call_ensures(MemoryEngine::begin_bootstrap, (engine,), bootstrap),
        call_ensures(MemoryEngine::check_archive, (engine,), archive),
        call_ensures(MemoryEngine::run_dream_cycle_guarded, (engine, newest, cursor), cycle),
    ensures
        read_only == engine.read_only,
        engine.read_only ==> writable == Err::<(), MemoryError>(MemoryError::ReadOnly),
        engine.read_only && engine.reopen_required == 0 ==> bootstrap == Err::<(), MemoryError>(
            MemoryError::ReadOnly,
        ) && archive == Err::<(), MemoryError>(MemoryError::ReadOnly),
        engine.read_only ==> (cycle matches Err(e) && e == MemoryError::ReadOnly),
        !engine.read_only ==> writable is Ok && cycle is Ok,
{
}

/// Switching the store to vectors of another dimension makes the engine wait to be
/// reopened at that dimension; to vectors of its own dimension changes nothing.
pub proof fn other_dimension_fences(engine: &mut MemoryEngine, new_dim: usize)
    requires
        call_ensures(MemoryEngine::fence_after_promotion, (engine, new_dim), ()),
    ensures
        new_dim == old(engine).embed_dim ==> *final(engine) == *old(engine),
        new_dim != old(engine).embed_dim ==> final(engine).reopen_required == new_dim,
        *final(engine) == (MemoryEngine {
            reopen_required: final(engine).reopen_required,
            ..*old(engine)
        }),
{
}

/// An engine opens on a store just when the dimensions agree or the store has no
/// vectors; then it is what it was opened with, not waiting for anything and not
/// flushed.
pub proof fn engine_opens_as_it_was_asked(
    store: OpenedStore,
    embed_dim: usize,
    graph: MemoryGraph,
    scope_tree: ScopeTree,
    registry: UpcasterRegistry,
    reranker: Option<String>,
    r: Result<MemoryEngine, MemoryError>,
    checked: Result<(), MemoryError>,
)
    requires
        call_ensures(
            MemoryEngine::init_from_pool,
            (store, embed_dim, graph, scope_tree, registry, reranker),
            r,
        ),
        call_ensures(
            MemoryEngine::validate_embed_dim_against_meta,
            (&store.identity, embed_dim),
            checked,
        ),
    ensures
        r is Ok <==> store.identity is None || store.identity->0.dim == embed_dim,
        checked is Ok <==> r is Ok,
        r matches Ok(e) ==> {
            &&& e.embed_dim == embed_dim
            &&& e.graph == graph
            &&& e.scope_tree == scope_tree
            &&& e.reranker == reranker
            &&& e.upcaster_registry == registry
            &&& e.is_file_backed == store.is_file_backed
            &&& e.read_only == store.read_only
            &&& e.db_path == store.db_path
            &&& !e.closed
            &&& e.reopen_required == 0
        },
        r matches Err(e) ==> e == MemoryError::Migration(
            (MigrationError::EmbedDimMismatch {
                stored: store.identity->0.dim,
                requested: embed_dim,
            }),
        ) && checked == Err::<(), MemoryError>(e),
{
}

/// What an engine says of itself is what it was opened with.
pub proof fn engine_knows_itself(
    engine: &MemoryEngine,
    dim: usize,
    on_file: bool,
    reranker: Option<&str>,
    unflushed: bool,
)
    requires
        call_ensures(MemoryEngine::embed_dim, (engine,), dim),
        call_ensures(MemoryEngine::is_file_backed, (engine,), on_file),
        call_ensures(MemoryEngine::reranker_name, (engine,), reranker),
        call_ensures(MemoryEngine::dropped_without_flush, (engine,), unflushed),
    ensures
        dim == engine.embed_dim,
        on_file == engine.is_file_backed,
        reranker is Some <==> engine.reranker is Some,
        reranker is Some ==> reranker->0@ == engine.reranker->0@,
        unflushed <==> engine.is_file_backed && !engine.closed,
{
}

/// Vectors fit an engine when they have its dimension and, if the store has vectors,
/// come from the very same model: the same name, provider, dimension, truncation
/// and element type. A wrong dimension is told before a wrong model.
pub proof fn vectors_fit_by_model_and_dimension(
    engine: &MemoryEngine,
    candidate: &EmbeddingFingerprint,
    recorded: &Option<EmbeddingFingerprint>,
    r: Result<(), MemoryError>,
)
    requires
        call_ensures(
            MemoryEngine::verify_embedding_fingerprint,
            (engine, candidate, recorded),
            r,
        ),
    ensures
        candidate.dim != engine.embed_dim ==> r == Err::<(), MemoryError>(
            MemoryError::EmbeddingDimension {
                expected: engine.embed_dim,
                actual: candidate.dim,
            },
        ),
        candidate.dim == engine.embed_dim && *recorded is None ==> r is Ok,
        candidate.dim == engine.embed_dim && (*recorded matches Some(own)) ==> {
            let own = recorded->0;
            &&& r is Ok <==> own.model@ == candidate.model@ && own.provider@ == candidate.provider@
                && own.dim == candidate.dim && own.matryoshka_base_dim
                == candidate.matryoshka_base_dim && own.element_type@ == candidate.element_type@
            &&& r matches Err(e) ==> e == (MemoryError::EmbeddingModelMismatch {
                stored: own,
                offered: *candidate,
            })
        },
{
}

/// A flush hands out all edges and all scopes, on an engine that may write to a file
/// and need not be reopened. On any other it writes nothing and counts as done.
/// Nothing else of the engine changes.
pub proof fn flush_hands_out_the_projections(engine: &mut MemoryEngine, r: FlushStep)
    requires
        call_ensures(MemoryEngine::flush_snapshot, (engine,), r),
    ensures
        r is Write <==> old(engine).reopen_required == 0 && !old(engine).read_only && old(
            engine).is_file_backed,
        r matches FlushStep::Write { edges, scopes } ==> edges@ == old(engine).graph.edges()
            && scopes@ == old(engine).scope_tree.nodes() && final(engine).closed
            == old(engine).closed,
        r is Skip ==> final(engine).closed,
        *final(engine) == (MemoryEngine { closed: final(engine).closed, ..*old(engine) }),
{
}

/// Once a flush is over the engine counts as flushed, and the host learns whether
/// anything was written.
pub proof fn flushed_engine_needs_no_flush(engine: &mut MemoryEngine, wrote: bool, r: bool)
    requires
        call_ensures(MemoryEngine::flushed, (engine, wrote), r),
    ensures
        r == wrote,
        final(engine).closed,
        *final(engine) == (MemoryEngine { closed: true, ..*old(engine) }),
{
}

/// What a flush hands out, the next opening recovers, as long as the file describes
/// the database: the same edges and the same scopes.
pub proof fn next_opening_recovers_the_flush(
    engine: &mut MemoryEngine,
    step: FlushStep,
    path: &Option<String>,
    sidecar: Sidecar,
    current: &DbFingerprint,
    existing: &HashSet<i64>,
    r: Option<Recovered>,
)
    requires
        old(engine).well_formed(),
        call_ensures(MemoryEngine::flush_snapshot, (engine,), step),
        step matches FlushStep::Write { edges, scopes } && sidecar.payload.edges@ == edges@
            && sidecar.payload.scopes@ == scopes@,
        *path is Some,
        sidecar.fingerprint.active_edge_count == current.active_edge_count,
        sidecar.fingerprint.digest@ == current.digest@,
        current.active_edge_count == old(engine).graph.edges().len(),
        forall|i: int|
            0 <= i < old(engine).graph.edges().len() ==> existing@.contains(
                (#[trigger] old(engine).graph.edges()[i]).source,
            ) && existing@.contains(old(engine).graph.edges()[i].target),
        call_ensures(try_load_snapshot, (path, Some(sidecar), current, existing), r),
    ensures
        r matches Some(p) && p.graph.edges() == old(engine).graph.edges() && p.scope_tree.nodes()
            == old(engine).scope_tree.nodes() && p.hnsw == sidecar.payload.hnsw,
{
    crate::scope_tree::lemma_with_nodes_of_distinct(old(engine).scope_tree.nodes());
}

/// A sidecar that does not describe the database is not used: not without a file, not
/// when the summaries differ, not with another number of edges, and not when an edge
/// joins a fact that does not exist.
pub proof fn stale_sidecar_is_not_used(
    path: &Option<String>,
    sidecar: Option<Sidecar>,
    current: &DbFingerprint,
    existing: &HashSet<i64>,
    r: Option<Recovered>,
    i: int,
)
    requires
        call_ensures(try_load_snapshot, (path, sidecar, current, existing), r),
    ensures
        *path is None ==> r is None,
        sidecar is None ==> r is None,
        sidecar matches Some(s) && s.fingerprint.digest@ != current.digest@ ==> r is None,
        sidecar matches Some(s) && s.fingerprint.active_edge_count != current.active_edge_count
            ==> r is None,
        sidecar matches Some(s) && s.payload.edges@.len() != current.active_edge_count ==> r
            is None,
        sidecar is Some && 0 <= i < sidecar->0.payload.edges@.len() && !(existing@.contains(
            sidecar->0.payload.edges@[i].source,
        ) && existing@.contains(sidecar->0.payload.edges@[i].target)) ==> r is None,
{
}

/// An engine opens with the projections that were recovered, and with the index that
/// came with them; else with those of the store, and a new index.
pub proof fn projections_come_from_one_place(
    recovered: Option<Recovered>,
    edges: Vec<GraphEdge>,
    scopes: Vec<ScopeNode>,
    r: (MemoryGraph, ScopeTree, IndexSource),
)
    requires
        call_ensures(open_projections, (recovered, edges, scopes), r),
        forall|i: int, j: int|
            0 <= i < j < scopes@.len() ==> (#[trigger] scopes@[i]).id != (
            #[trigger] scopes@[j]).id,
    ensures
        recovered matches Some(p) ==> r.0 == p.graph && r.1 == p.scope_tree && r.2
            == IndexSource::Sidecar(p.hnsw),
        recovered is None ==> r.0.edges() == edges@ && r.1.nodes() == scopes@ && r.2
            == IndexSource::Rebuild,
{
    crate::scope_tree::lemma_with_nodes_of_distinct(scopes@);
}

/// A listing looks at the named scope and all above it, or at the root alone. A path
/// that names no scope is an error.
pub proof fn listing_looks_above_the_scope(
    engine: &MemoryEngine,
    path: &str,
    found: Option<i64>,
    above: Vec<i64>,
    r: Result<Vec<i64>, MemoryError>,
    unscoped: Result<Vec<i64>, MemoryError>,
)
    requires
        call_ensures(ScopeTree::resolve_path, (&engine.scope_tree, path), found),
        found matches Some(id) ==> call_ensures(
            ScopeTree::ancestors,
            (&engine.scope_tree, id),
            above,
        ),
        call_ensures(MemoryEngine::resolve_scope_ids, (engine, Some(path)), r),
        call_ensures(MemoryEngine::resolve_scope_ids, (engine, None), unscoped),
    ensures
        found is Some ==> (r matches Ok(ids) && ids@ == above@),
        found is None ==> (r matches Err(MemoryError::Storage(text)) && text@ == "scope path: "@
            + path@),
        unscoped matches Ok(ids) && ids@ == seq![1i64],
{
}

/// The scopes that a walk met are in the tree of the engine afterwards, and nothing
/// else of the engine changes.
pub proof fn walked_scopes_are_cached(engine: &mut MemoryEngine, walk: ScopeChainWalk)
    requires
        call_ensures(MemoryEngine::cache_scope_chain, (engine, walk), ()),
    ensures
        final(engine).scope_tree.nodes() == crate::scope_tree::with_nodes(
            old(engine).scope_tree.nodes(),
            walk.nodes(),
        ),
        *final(engine) == (MemoryEngine { scope_tree: final(engine).scope_tree, ..*old(engine) }),
{
}

/// The projections of a payload are recovered just when it has as many edges as the
/// database and each joins facts that exist; then they are those of the payload.
pub proof fn sound_payload_is_recovered(
    payload: SidecarPayload,
    current: &DbFingerprint,
    existing: &HashSet<i64>,
    r: Option<Recovered>,
)
    requires
        call_ensures(recover_from_payload, (payload, current, existing), r),
    ensures
        r is Some <==> payload.edges@.len() == current.active_edge_count && forall|i: int|
            0 <= i < payload.edges@.len() ==> existing@.contains(
                (#[trigger] payload.edges@[i]).source,
            ) && existing@.contains(payload.edges@[i].target),
        r matches Some(p) ==> p.graph.edges() == payload.edges@ && p.hnsw == payload.hnsw,
        r is Some && (forall|i: int, j: int|
            0 <= i < j < payload.scopes@.len() ==> (#[trigger] payload.scopes@[i]).id != (
            #[trigger] payload.scopes@[j]).id) ==> r->0.scope_tree.nodes() == payload.scopes@,
{
    if forall|i: int, j: int|
        0 <= i < j < payload.scopes@.len() ==> (#[trigger] payload.scopes@[i]).id != (
        #[trigger] payload.scopes@[j]).id {
        crate::scope_tree::lemma_with_nodes_of_distinct(payload.scopes@);
    }
}

/// Two summaries of a database match just when they agree in the number of edges and
/// in everything else that they cover.
pub proof fn summaries_match_in_both_parts(a: &DbFingerprint, b: &DbFingerprint, r: bool)
    requires
        call_ensures(DbFingerprint::matches, (a, b), r),
    ensures
        r <==> a.active_edge_count == b.active_edge_count && a.digest@ == b.digest@,
{
}

/// A path that names no scope is named in the error.
pub proof fn missing_scope_is_named(path: &str, r: MemoryError)
    requires
        call_ensures(scope_not_found, (path,), r),
    ensures
        r matches MemoryError::NotFound(text) && text@ == "scope path: "@ + path@,
{
}

} // verus!
