//! How an engine is opened.

use crate::engine::state::MemoryEngine;
use crate::error::MemoryError;
use vstd::prelude::*;

verus! {

/// What stores the data.
#[derive(Debug, Clone, Copy, PartialEq, Eq, Structural, Default)]
#[non_exhaustive]
pub enum BackendKind {
    /// SQLite, in this process.
    #[default]
    Sqlite,
}

/// The number of facts above which vector search switches to an approximate
/// index, where nothing else is set.
pub const DEFAULT_ANN_THRESHOLD: usize = 50_000;

/// How vector search is done.
#[derive(Debug, Clone, Copy, PartialEq, Eq, Structural)]
pub struct SearchConfig {
    pub ann_threshold: usize,
}

impl Default for SearchConfig {
    fn default() -> (r: SearchConfig)
        ensures
            r.ann_threshold == 50_000,
    {
        SearchConfig { ann_threshold: DEFAULT_ANN_THRESHOLD }
    }
}

/// One step that lifts the payload of an event type from a revision to the next.
#[derive(Debug, Clone, PartialEq, Eq)]
pub struct Upcaster {
    pub event_type: String,
    pub from_revision: u32,
}

/// The steps that lift old event payloads to the current revision. The functions
/// that carry them out are the host's.
#[derive(Debug, Clone, PartialEq, Eq)]
pub struct UpcasterRegistry {
    pub steps: Vec<Upcaster>,
}

impl UpcasterRegistry {
    /// A registry without steps: every event type is at its first revision.
    pub fn new() -> (r: UpcasterRegistry)
        ensures
            r.steps@ == Seq::<Upcaster>::empty(),
    {
        UpcasterRegistry { steps: Vec::new() }
    }

    /// The two registries hold the same steps in the same order.
    pub open spec fn same_steps(self, other: UpcasterRegistry) -> bool {
        &&& self.steps@.len() == other.steps@.len()
        &&& forall|i: int|
            0 <= i < self.steps@.len() ==> (#[trigger] self.steps@[i]).event_type@
                == other.steps@[i].event_type@ && self.steps@[i].from_revision
                == other.steps@[i].from_revision
    }

    /// A copy of the registry.
    pub fn copied(&self) -> (r: UpcasterRegistry)
        ensures
            r.same_steps(*self),
    {
        let mut steps: Vec<Upcaster> = Vec::new();
        let mut i: usize = 0;
        while i < self.steps.len()
            invariant
                i <= self.steps@.len(),
                steps@.len() == i,
                forall|j: int|
                    0 <= j < i ==> (#[trigger] steps@[j]).event_type@
                        == self.steps@[j].event_type@ && steps@[j].from_revision
                        == self.steps@[j].from_revision,
            decreases self.steps@.len() - i,
        {
            steps.push(
                Upcaster {
                    event_type: self.steps[i].event_type.clone(),
                    from_revision: self.steps[i].from_revision,
                },
            );
            i = i + 1;
        }
        UpcasterRegistry { steps }
    }
}

/// The number of read connections, where nothing else is set.
pub const DEFAULT_READ_POOL_SIZE: usize = 4;

/// The most read connections that an engine may have.
pub const MAX_READ_POOL_SIZE: usize = 256;

/// How to open an engine on a file.
#[derive(Debug, Clone, PartialEq, Eq)]
#[non_exhaustive]
pub struct EngineConfig {
    pub path: String,
    pub embed_dim: usize,
    /// The number of read connections.
    pub read_pool_size: usize,
    pub search_config: Option<SearchConfig>,
    /// Where a copy of the database goes before it is migrated.
    pub backup_dir: Option<String>,
    pub upcaster_registry: UpcasterRegistry,
    /// Nothing is initialized or migrated, and writes are refused.
    pub read_only: bool,
    pub backend: BackendKind,
}

impl EngineConfig {
    /// The standard configuration for a file.
    pub fn new(path: String, embed_dim: usize) -> (r: EngineConfig)
        ensures
            r.path == path,
            r.embed_dim == embed_dim,
            r.read_pool_size == 4,
            r.search_config is None,
            r.backup_dir is None,
            r.upcaster_registry.steps@.len() == 0,
            !r.read_only,
            r.backend == BackendKind::Sqlite,
    {
        EngineConfig {
            path,
            embed_dim,
            read_pool_size: DEFAULT_READ_POOL_SIZE,
            search_config: None,
            backup_dir: None,
            upcaster_registry: UpcasterRegistry::new(),
            read_only: false,
            backend: BackendKind::Sqlite,
        }
    }

    /// Sets the backend.
    pub fn with_backend(self, backend: BackendKind) -> (r: EngineConfig)
        ensures
            r == (EngineConfig { backend, ..self }),
    {
        EngineConfig { backend, ..self }
    }

    /// Sets the number of read connections.
    pub fn with_read_pool_size(self, size: usize) -> (r: EngineConfig)
        ensures
            r == (EngineConfig { read_pool_size: size, ..self }),
    {
        EngineConfig { read_pool_size: size, ..self }
    }

    /// Sets how vector search is done.
    pub fn with_search_config(self, config: SearchConfig) -> (r: EngineConfig)
        ensures
            r == (EngineConfig { search_config: Some(config), ..self }),
    {
        EngineConfig { search_config: Some(config), ..self }
    }

    /// Sets where a copy of the database goes before it is migrated.
    pub fn with_backup_dir(self, dir: String) -> (r: EngineConfig)
        ensures
            r == (EngineConfig { backup_dir: Some(dir), ..self }),
    {
        EngineConfig { backup_dir: Some(dir), ..self }
    }

    /// Sets the upcaster registry.
    pub fn with_upcaster_registry(self, registry: UpcasterRegistry) -> (r: EngineConfig)
        ensures
            r == (EngineConfig { upcaster_registry: registry, ..self }),
    {
        EngineConfig { upcaster_registry: registry, ..self }
    }

    /// Sets whether writes are refused.
    pub fn with_read_only(self, read_only: bool) -> (r: EngineConfig)
        ensures
            r == (EngineConfig { read_only, ..self }),
    {
        EngineConfig { read_only, ..self }
    }
}

/// How the connections to a database file are opened.
#[derive(Debug, Clone, PartialEq, Eq)]
pub enum PoolRequest {
    /// Nothing is initialized or migrated.
    ReadOnly { path: String, embed_dim: usize, read_pool_size: usize },
    /// The database is initialized or migrated, after a copy went to the backup
    /// directory if there is one.
    ReadWrite {
        path: String,
        embed_dim: usize,
        read_pool_size: usize,
        backup_dir: Option<String>,
    },
}

/// The two optional texts are the same.
pub open spec fn same_optional_text(a: Option<String>, b: Option<String>) -> bool {
    match (a, b) {
        (Some(x), Some(y)) => x@ == y@,
        (None, None) => true,
        _ => false,
    }
}

/// The connections are those that the configuration asks for.
pub open spec fn serves(request: PoolRequest, config: EngineConfig) -> bool {
    match request {
        PoolRequest::ReadOnly { path, embed_dim, read_pool_size } => {
            &&& config.read_only
            &&& path@ == config.path@
            &&& embed_dim == config.embed_dim
            &&& read_pool_size == config.read_pool_size
        },
        PoolRequest::ReadWrite { path, embed_dim, read_pool_size, backup_dir } => {
            &&& !config.read_only
            &&& path@ == config.path@
            &&& embed_dim == config.embed_dim
            &&& read_pool_size == config.read_pool_size
            &&& same_optional_text(backup_dir, config.backup_dir)
        },
    }
}

impl MemoryEngine {
    /// How to open the database file of a configuration. There must be at least
    /// one read connection and at most 256.
    pub fn open_from_config(config: &EngineConfig) -> (r: Result<PoolRequest, MemoryError>)
        ensures
            r is Ok <==> 1 <= config.read_pool_size <= 256,
            match r {
                Ok(request) => serves(request, *config),
                Err(e) => e == (MemoryError::Pool { read_pool_size: config.read_pool_size }),
            },
    {
        let read_pool_size: usize = config.read_pool_size;
        if read_pool_size == 0 || read_pool_size > MAX_READ_POOL_SIZE {
            return Err(MemoryError::Pool { read_pool_size });
        }
        let path = config.path.clone();
        let embed_dim: usize = config.embed_dim;
        if config.read_only {
            return Ok(PoolRequest::ReadOnly { path, embed_dim, read_pool_size });
        }
        let backup_dir = match &config.backup_dir {
            Some(dir) => Some(dir.clone()),
            None => None,
        };
        Ok(PoolRequest::ReadWrite { path, embed_dim, read_pool_size, backup_dir })
    }
}

/// A configuration is kept as it was put together: a new one has four read
/// connections, accepts writes and has nothing else set; each setting is what was
/// set, and setting one leaves the others alone.
pub proof fn configuration_is_kept(
    path: String,
    embed_dim: usize,
    fresh: EngineConfig,
    config: EngineConfig,
    backend: BackendKind,
    size: usize,
    search: SearchConfig,
    dir: String,
    registry: UpcasterRegistry,
    read_only: bool,
    a: EngineConfig,
    b: EngineConfig,
    c: EngineConfig,
    d: EngineConfig,
    e: EngineConfig,
    f: EngineConfig,
)
    requires
        call_ensures(EngineConfig::new, (path, embed_dim), fresh),
        call_ensures(EngineConfig::with_backend, (config, backend), a),
        call_ensures(EngineConfig::with_read_pool_size, (config, size), b),
        call_ensures(EngineConfig::with_search_config, (config, search), c),
        call_ensures(EngineConfig::with_backup_dir, (config, dir), d),
        call_ensures(EngineConfig::with_upcaster_registry, (config, registry), e),
        call_ensures(EngineConfig::with_read_only, (config, read_only), f),
    ensures
        fresh.path == path && fresh.embed_dim == embed_dim && fresh.read_pool_size == 4
            && fresh.search_config is None && fresh.backup_dir is None && !fresh.read_only
            && fresh.upcaster_registry.steps@.len() == 0,
        a == (EngineConfig { backend, ..config }),
        b == (EngineConfig { read_pool_size: size, ..config }),
        c == (EngineConfig { search_config: Some(search), ..config }),
        d == (EngineConfig { backup_dir: Some(dir), ..config }),
        e == (EngineConfig { upcaster_registry: registry, ..config }),
        f == (EngineConfig { read_only, ..config }),
{
}

/// A database is opened as its configuration says: with its path, dimension and
/// number of connections, and for writing unless it is read-only. A backup directory
/// matters only where something is written. One connection is the least, and 256 are
/// the most.
pub proof fn database_is_opened_as_configured(
    config: &EngineConfig,
    r: Result<PoolRequest, MemoryError>,
)
    requires
        call_ensures(MemoryEngine::open_from_config, (config,), r),
    ensures
        r is Ok <==> config.read_pool_size >= 1 && config.read_pool_size <= 256,
        r is Ok && config.read_only ==> (r->Ok_0 matches PoolRequest::ReadOnly {
            path,
            embed_dim,
            read_pool_size,
        } && path@ == config.path@ && embed_dim == config.embed_dim && read_pool_size
            == config.read_pool_size),
        r is Ok && !config.read_only ==> (r->Ok_0 matches PoolRequest::ReadWrite {
            path,
            embed_dim,
            read_pool_size,
            backup_dir,
        } && path@ == config.path@ && embed_dim == config.embed_dim && read_pool_size
            == config.read_pool_size && (backup_dir is Some <==> config.backup_dir is Some) && (
        backup_dir is Some ==> backup_dir->0@ == config.backup_dir->0@)),
        r matches Err(e) ==> e == (MemoryError::Pool { read_pool_size: config.read_pool_size }),
{
}

/// A copy of a registry has the same steps in the same order.
pub proof fn copied_registry_has_the_steps(
    registry: &UpcasterRegistry,
    r: UpcasterRegistry,
    i: int,
)
    requires
        call_ensures(UpcasterRegistry::copied, (registry,), r),
    ensures
        r.steps@.len() == registry.steps@.len(),
        0 <= i < registry.steps@.len() ==> r.steps@[i].event_type@ == registry.steps@[i].event_type@
            && r.steps@[i].from_revision == registry.steps@[i].from_revision,
{
}

} // verus!
