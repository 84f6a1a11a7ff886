//! A builder whose type says where the engine lives.
//!
//! A builder starts in memory; naming a file turns it into one for a file. The
//! settings that make sense for a file only exist only there.

use crate::engine::config::{
    BackendKind, EngineConfig, SearchConfig, UpcasterRegistry, DEFAULT_READ_POOL_SIZE,
};
use crate::engine::state::{MemoryEngine, OpenedStore};
use crate::error::{MemoryError, MigrationError};
use crate::graph::MemoryGraph;
use crate::scope_tree::ScopeTree;
use vstd::prelude::*;

verus! {

/// Where an engine lives.
pub trait Backing {

}

/// In memory.
#[derive(Debug)]
pub struct InMemory {

}

impl Backing for InMemory {

}

/// On a file.
#[derive(Debug)]
pub struct File {
    pub path: String,
    pub read_only: bool,
    pub backup_dir: Option<String>,
    pub read_pool_size: usize,
}

impl Backing for File {

}

/// Collects how an engine is to be opened.
#[derive(Debug)]
#[must_use]
pub struct MemoryEngineBuilder<B: Backing> {
    pub embed_dim: usize,
    pub search_config: Option<SearchConfig>,
    /// The name of the reranker, if there is one.
    pub reranker: Option<String>,
    pub upcaster_registry: UpcasterRegistry,
    pub backing: B,
}

impl MemoryEngine {
    /// A builder for an engine in memory, with vectors of the given dimension.
    pub fn builder(embed_dim: usize) -> (r: MemoryEngineBuilder<InMemory>)
        ensures
            r.embed_dim == embed_dim,
            r.search_config is None,
            r.reranker is None,
            r.upcaster_registry.steps@.len() == 0,
    {
        MemoryEngineBuilder {
            embed_dim,
            search_config: None,
            reranker: None,
            upcaster_registry: UpcasterRegistry::new(),
            backing: InMemory {  },
        }
    }
}

impl<B: Backing> MemoryEngineBuilder<B> {
    /// Sets how vector search is done.
    pub fn search_config(self, config: SearchConfig) -> (r: MemoryEngineBuilder<B>)
        ensures
            r == (MemoryEngineBuilder { search_config: Some(config), ..self }),
    {
        MemoryEngineBuilder { search_config: Some(config), ..self }
    }

    /// Attaches a reranker, by its name.
    pub fn reranker(self, reranker: String) -> (r: MemoryEngineBuilder<B>)
        ensures
            r == (MemoryEngineBuilder { reranker: Some(reranker), ..self }),
    {
        MemoryEngineBuilder { reranker: Some(reranker), ..self }
    }

    /// Sets the upcaster registry.
    pub fn upcaster_registry(self, registry: UpcasterRegistry) -> (r: MemoryEngineBuilder<B>)
        ensures
            r == (MemoryEngineBuilder { upcaster_registry: registry, ..self }),
    {
        MemoryEngineBuilder { upcaster_registry: registry, ..self }
    }
}

/// What a store is opened with, besides where it lives.
#[derive(Debug, Clone, PartialEq, Eq)]
pub struct StoreSettings {
    pub embed_dim: usize,
    pub search_config: Option<SearchConfig>,
    pub upcaster_registry: UpcasterRegistry,
}

impl<B: Backing> MemoryEngineBuilder<B> {
    /// What the host opens the store with, on a file or in memory.
    pub fn store_settings(&self) -> (r: StoreSettings)
        ensures
            r.embed_dim == self.embed_dim,
            r.search_config == self.search_config,
            r.upcaster_registry.same_steps(self.upcaster_registry),
    {
        StoreSettings {
            embed_dim: self.embed_dim,
            search_config: self.search_config,
            upcaster_registry: self.upcaster_registry.copied(),
        }
    }
}

impl MemoryEngineBuilder<File> {
    /// Opens the engine on its file, once the host has opened the file as
    /// [`MemoryEngine::open_from_config`] says and the projections are there. The
    /// dimension must fit the store.
    pub fn build(self, store: OpenedStore, graph: MemoryGraph, scope_tree: ScopeTree) -> (r: Result<
        MemoryEngine,
        MemoryError,
    >)
        requires
            graph.well_formed(),
            scope_tree.well_formed(),
        ensures
            r is Ok <==> crate::engine::state::fits_store(store.identity, self.embed_dim),
            match r {
                Ok(engine) => engine.well_formed() && engine == (MemoryEngine {
                    embed_dim: self.embed_dim,
                    graph,
                    scope_tree,
                    reranker: self.reranker,
                    upcaster_registry: self.upcaster_registry,
                    is_file_backed: store.is_file_backed,
                    read_only: store.read_only,
                    db_path: store.db_path,
                    closed: false,
                    reopen_required: 0,
                }),
                Err(e) => e == MemoryError::Migration(
                    (MigrationError::EmbedDimMismatch {
                        stored: store.identity->0.dim,
                        requested: self.embed_dim,
                    }),
                ),
            },
    {
        MemoryEngine::init_from_pool(
            store,
            self.embed_dim,
            graph,
            scope_tree,
            self.upcaster_registry,
            self.reranker,
        )
    }
}

impl MemoryEngineBuilder<InMemory> {
    /// Opens the engine on a fresh store in memory, which holds nothing yet.
    pub fn build(self) -> (r: Result<MemoryEngine, MemoryError>)
        ensures
            r matches Ok(engine) && engine.well_formed() && engine.graph.edges().len() == 0
                && engine.graph.nodes().len() == 0
                && engine.scope_tree.nodes().len() == 0 && engine == (MemoryEngine {
                embed_dim: self.embed_dim,
                graph: engine.graph,
                scope_tree: engine.scope_tree,
                reranker: self.reranker,
                upcaster_registry: self.upcaster_registry,
                is_file_backed: false,
                read_only: false,
                db_path: None,
                closed: false,
                reopen_required: 0,
            }),
    {
        let store = OpenedStore {
            is_file_backed: false,
            read_only: false,
            db_path: None,
            identity: None,
        };
        MemoryEngine::init_from_pool(
            store,
            self.embed_dim,
            MemoryGraph::new(),
            ScopeTree::new(),
            self.upcaster_registry,
            self.reranker,
        )
    }

    /// Puts the engine on a file. All settings so far stay.
    pub fn path(self, path: String) -> (r: MemoryEngineBuilder<File>)
        ensures
            r.embed_dim == self.embed_dim,
            r.search_config == self.search_config,
            r.reranker == self.reranker,
            r.upcaster_registry == self.upcaster_registry,
            r.backing.path == path,
            !r.backing.read_only,
            r.backing.backup_dir is None,
            r.backing.read_pool_size == 4,
    {
        MemoryEngineBuilder {
            embed_dim: self.embed_dim,
            search_config: self.search_config,
            reranker: self.reranker,
            upcaster_registry: self.upcaster_registry,
            backing: File {
                path,
                read_only: false,
                backup_dir: None,
                read_pool_size: DEFAULT_READ_POOL_SIZE,
            },
        }
    }
}

/// The configuration is the one that the builder describes.
pub open spec fn is_config_of(config: EngineConfig, builder: MemoryEngineBuilder<File>) -> bool {
    &&& config.path@ == builder.backing.path@
    &&& config.embed_dim == builder.embed_dim
    &&& config.read_pool_size == builder.backing.read_pool_size
    &&& config.search_config == builder.search_config
    &&& (match (config.backup_dir, builder.backing.backup_dir) {
        (Some(a), Some(b)) => a@ == b@,
        (None, None) => true,
        _ => false,
    })
    &&& config.upcaster_registry.same_steps(builder.upcaster_registry)
    &&& config.read_only == builder.backing.read_only
    &&& config.backend == BackendKind::Sqlite
}

impl MemoryEngineBuilder<File> {
    /// Sets whether writes are refused.
    pub fn read_only(self, read_only: bool) -> (r: MemoryEngineBuilder<File>)
        ensures
            r == (MemoryEngineBuilder { backing: (File { read_only, ..self.backing }), ..self }),
    {
        MemoryEngineBuilder { backing: File { read_only, ..self.backing }, ..self }
    }

    /// Sets where a copy of the database goes before it is migrated.
    pub fn backup_dir(self, dir: String) -> (r: MemoryEngineBuilder<File>)
        ensures
            r == (MemoryEngineBuilder {
                backing: (File { backup_dir: Some(dir), ..self.backing }),
                ..self
            }),
    {
        MemoryEngineBuilder { backing: File { backup_dir: Some(dir), ..self.backing }, ..self }
    }

    /// Sets the number of read connections.
    pub fn read_pool_size(self, size: usize) -> (r: MemoryEngineBuilder<File>)
        ensures
            r == (MemoryEngineBuilder {
                backing: (File { read_pool_size: size, ..self.backing }),
                ..self
            }),
    {
        MemoryEngineBuilder { backing: File { read_pool_size: size, ..self.backing }, ..self }
    }

    /// The configuration that the builder describes. The reranker is no part of
    /// it.
    pub fn into_config(self) -> (r: EngineConfig)
        ensures
            is_config_of(r, self),
    {
        self.to_config()
    }

    /// The configuration that the builder describes.
    pub fn to_config(&self) -> (r: EngineConfig)
        ensures
            is_config_of(r, *self),
    {
        EngineConfig {
            path: self.backing.path.clone(),
            embed_dim: self.embed_dim,
            read_pool_size: self.backing.read_pool_size,
            search_config: self.search_config,
            backup_dir: match &self.backing.backup_dir {
                Some(dir) => Some(dir.clone()),
                None => None,
            },
            upcaster_registry: self.upcaster_registry.copied(),
            read_only: self.backing.read_only,
            backend: BackendKind::Sqlite,
        }
    }
}

/// What is set on a builder reaches the engine: the dimension, the reranker and the
/// registry. An engine in memory starts empty and accepts writes.
pub proof fn settings_reach_the_engine_in_memory(
    builder: MemoryEngineBuilder<InMemory>,
    r: Result<MemoryEngine, MemoryError>,
)
    requires
        call_ensures(MemoryEngineBuilder::<InMemory>::build, (builder,), r),
    ensures
        r matches Ok(e) && {
            &&& e.embed_dim == builder.embed_dim
            &&& e.reranker == builder.reranker
            &&& e.upcaster_registry == builder.upcaster_registry
            &&& e.graph.edges().len() == 0 && e.graph.nodes().len() == 0
            &&& e.scope_tree.nodes().len() == 0
            &&& !e.is_file_backed && !e.read_only && e.db_path is None
            &&& !e.closed && e.reopen_required == 0
        },
{
}

/// An engine on a file has the settings of its builder and the state of its store, as
/// long as the dimensions agree.
pub proof fn settings_reach_the_engine_on_a_file(
    builder: MemoryEngineBuilder<File>,
    store: OpenedStore,
    graph: MemoryGraph,
    scope_tree: ScopeTree,
    r: Result<MemoryEngine, MemoryError>,
)
    requires
        call_ensures(
            MemoryEngineBuilder::<File>::build,
            (builder, store, graph, scope_tree),
            r,
        ),
    ensures
        r is Ok <==> store.identity is None || store.identity->0.dim == builder.embed_dim,
        r matches Ok(e) ==> {
            &&& e.embed_dim == builder.embed_dim
            &&& e.reranker == builder.reranker
            &&& e.upcaster_registry == builder.upcaster_registry
            &&& e.graph == graph
            &&& e.scope_tree == scope_tree
            &&& e.is_file_backed == store.is_file_backed
            &&& e.read_only == store.read_only
            &&& e.db_path == store.db_path
        },
{
}

/// Naming a file keeps what was set before, and the configuration and the settings of
/// the store say the same as the builder.
pub proof fn settings_survive_naming_a_file(
    builder: MemoryEngineBuilder<InMemory>,
    path: String,
    on_file: MemoryEngineBuilder<File>,
    config: EngineConfig,
    settings: StoreSettings,
)
    requires
        call_ensures(MemoryEngineBuilder::<InMemory>::path, (builder, path), on_file),
        call_ensures(MemoryEngineBuilder::<File>::into_config, (on_file,), config),
        call_ensures(MemoryEngineBuilder::<File>::store_settings, (&on_file,), settings),
    ensures
        on_file.reranker == builder.reranker,
        config.path@ == path@,
        config.embed_dim == builder.embed_dim,
        config.search_config == builder.search_config,
        config.read_pool_size == 4,
        !config.read_only,
        config.backup_dir is None,
        config.upcaster_registry.steps@.len() == builder.upcaster_registry.steps@.len(),
        settings.embed_dim == builder.embed_dim,
        settings.search_config == builder.search_config,
        settings.upcaster_registry.steps@.len() == builder.upcaster_registry.steps@.len(),
{
}

/// Each setting of a builder for a file is what was set, and setting one leaves the
/// others alone.
pub proof fn builder_settings_are_kept(
    builder: MemoryEngineBuilder<File>,
    read_only: bool,
    dir: String,
    size: usize,
    search: SearchConfig,
    reranker: String,
    registry: UpcasterRegistry,
    a: MemoryEngineBuilder<File>,
    b: MemoryEngineBuilder<File>,
    c: MemoryEngineBuilder<File>,
    d: MemoryEngineBuilder<File>,
    e: MemoryEngineBuilder<File>,
    f: MemoryEngineBuilder<File>,
    config: EngineConfig,
)
    requires
        call_ensures(MemoryEngineBuilder::<File>::read_only, (builder, read_only), a),
        call_ensures(MemoryEngineBuilder::<File>::backup_dir, (builder, dir), b),
        call_ensures(MemoryEngineBuilder::<File>::read_pool_size, (builder, size), c),
        call_ensures(MemoryEngineBuilder::<File>::search_config, (builder, search), d),
        call_ensures(MemoryEngineBuilder::<File>::reranker, (builder, reranker), e),
        call_ensures(MemoryEngineBuilder::<File>::upcaster_registry, (builder, registry), f),
        call_ensures(MemoryEngineBuilder::<File>::to_config, (&builder,), config),
    ensures
        a == (MemoryEngineBuilder { backing: (File { read_only, ..builder.backing }), ..builder }),
        b == (MemoryEngineBuilder {
            backing: (File { backup_dir: Some(dir), ..builder.backing }),
            ..builder
        }),
        c == (MemoryEngineBuilder {
            backing: (File { read_pool_size: size, ..builder.backing }),
            ..builder
        }),
        d == (MemoryEngineBuilder { search_config: Some(search), ..builder }),
        e == (MemoryEngineBuilder { reranker: Some(reranker), ..builder }),
        f == (MemoryEngineBuilder { upcaster_registry: registry, ..builder }),
        config.path@ == builder.backing.path@,
        config.embed_dim == builder.embed_dim,
        config.read_pool_size == builder.backing.read_pool_size,
        config.read_only == builder.backing.read_only,
        config.search_config == builder.search_config,
        config.backup_dir is Some <==> builder.backing.backup_dir is Some,
        config.backup_dir is Some ==> config.backup_dir->0@ == builder.backing.backup_dir->0@,
{
}

/// A new builder has the dimension it was asked for and nothing else set.
pub proof fn new_builder_has_nothing_set(embed_dim: usize, r: MemoryEngineBuilder<InMemory>)
    requires
        call_ensures(MemoryEngine::builder, (embed_dim,), r),
    ensures
        r.embed_dim == embed_dim,
        r.search_config is None,
        r.reranker is None,
        r.upcaster_registry.steps@.len() == 0,
{
}

} // verus!
