//! Archiving: what must hold before it starts, and where the files go.

use crate::engine::state::MemoryEngine;
use crate::error::{ArchiveError, MemoryError};
use crate::graph::GraphEdge;
use crate::paths::{join, parent_of};
use vstd::prelude::*;

verus! {

/// The directory of the archive files, beside the database.
pub const ARCHIVE_SUBDIR: &'static str = "archives";

impl MemoryEngine {
    /// Takes facts that were archived out of the graph, together with their
    /// edges.
    pub fn prune_archived(&mut self, archived: &Vec<i64>)
        requires
            old(self).well_formed(),
        ensures
            final(self).well_formed(),
            final(self).graph.edges() == crate::graph::edges_sparing(old(self).graph.edges(), archived@),
            forall|id: i64| #[trigger]
                final(self).graph.nodes().contains(id) <==> old(self).graph.nodes().contains(id)
                    && !archived@.contains(id),
            *final(self) == (MemoryEngine { graph: final(self).graph, ..*old(self) }),
    {
        let ghost before = *self;
        let ghost edges = self.graph.edges();
        let ghost nodes = self.graph.nodes();
        let mut i: usize = 0;
        proof {
            reveal(Seq::filter);
            crate::graph::lemma_spare_none(edges);
            assert(archived@.take(0) =~= Seq::<i64>::empty());
        }
        while i < archived.len()
            invariant
                i <= archived@.len(),
                self.well_formed(),
                *self == (MemoryEngine { graph: self.graph, ..before }),
                edges == before.graph.edges(),
                nodes == before.graph.nodes(),
                self.graph.edges() == crate::graph::edges_sparing(edges, archived@.take(i as int)),
                forall|id: i64| #[trigger]
                    self.graph.nodes().contains(id) <==> nodes.contains(id) && !archived@.take(
                        i as int,
                    ).contains(id),
            decreases archived@.len() - i,
        {
            let ghost seen = archived@.take(i as int);
            let ghost now = archived@.take(i + 1);
            let id: i64 = archived[i];
            proof {
                assert(now =~= seen.push(id));
                crate::graph::lemma_spare_one_more(edges, seen, id);
                assert forall|x: i64| #[trigger] now.contains(x) <==> seen.contains(x) || x
                    == id by {
                    if seen.contains(x) {
                        let k = choose|k: int| 0 <= k < seen.len() && seen[k] == x;
                        assert(now[k] == x);
                    }
                    if x == id {
                        assert(now[i as int] == x);
                    }
                    if now.contains(x) && x != id {
                        let k = choose|k: int| 0 <= k < now.len() && now[k] == x;
                        assert(seen[k] == x);
                    }
                }
            }
            self.graph.remove_node(id);
            i = i + 1;
        }
        assert(archived@.take(i as int) =~= archived@);
    }

    /// Checks that archiving can start: the engine must not wait to be reopened,
    /// must accept writes, and must be on a file.
    pub fn check_archive(&self) -> (r: Result<(), MemoryError>)
        ensures
            r is Ok <==> !self.fenced() && !self.read_only && self.is_file_backed,
            r matches Err(e) ==> if self.fenced() {
                e == (MemoryError::EmbeddingReopenRequired { new_dim: self.reopen_required })
            } else if self.read_only {
                e == MemoryError::ReadOnly
            } else {
                e matches MemoryError::Archive(ArchiveError::NotFileBacked(text)) && text@
                    == "archival requires a file-backed engine"@
            },
    {
        self.ensure_open()?;
        self.ensure_writable()?;
        if !self.is_file_backed {
            return Err(
                MemoryError::Archive(
                    ArchiveError::NotFileBacked(
                        "archival requires a file-backed engine".to_owned(),
                    ),
                ),
            );
        }
        Ok(())
    }

    /// The directory of the archive files, beside the database file. There is none
    /// for an engine in memory, or for a file that lies in no directory.
    ///
    /// Of a file in a directory that means the same on every platform, the archives
    /// are in that directory. Of another file, where the platform sees its
    /// directory.
    pub fn archive_dir(&self) -> (r: Result<String, MemoryError>)
        ensures
            match self.db_path {
                None => says_in_memory(r),
                Some(path) => match r {
                    Ok(dir) => exists|n: int| #[trigger] is_beside_beginning(dir@, path@, n),
                    Err(_) => says_no_parent(r, path@),
                },
            },
            self.db_path matches Some(path) ==> forall|dir: Seq<char>, name: Seq<char>| #[trigger]
                crate::paths::lies_in(path@, dir, name) ==> r is Ok && r->Ok_0@
                    == crate::paths::joined(dir, "archives"@),
    {
        let parent = match &self.db_path {
            Some(path) => parent_of(path.as_str()),
            None => None,
        };
        proof {
            if self.db_path is Some && parent is Some {
                let path = self.db_path->0@;
                let dir = parent->0@;
                assert(is_beside_beginning(
                    crate::paths::joined(dir, "archives"@),
                    path,
                    dir.len() as int,
                ));
            }
        }
        self.archive_dir_in(parent)
    }

    /// The directory of the archive files, when `parent` is the directory of the
    /// database file, where that lies in one.
    pub fn archive_dir_in(&self, parent: Option<String>) -> (r: Result<String, MemoryError>)
        ensures
            match (self.db_path, parent) {
                (None, _) => says_in_memory(r),
                (Some(path), None) => says_no_parent(r, path@),
                (Some(_), Some(dir)) => r matches Ok(place) && place@ == crate::paths::joined(
                    dir@,
                    "archives"@,
                ),
            },
    {
        match &self.db_path {
            None => Err(
                MemoryError::Archive(
                    ArchiveError::NotFileBacked(
                        "cannot resolve archive dir for in-memory database".to_owned(),
                    ),
                ),
            ),
            Some(path) => match parent {
                Some(dir) => Ok(join(dir.as_str(), ARCHIVE_SUBDIR)),
                None => {
                    let mut text = "database path has no parent: ".to_owned();
                    text.append(path.as_str());
                    Err(MemoryError::Archive(ArchiveError::Io(text)))
                },
            },
        }
    }
}

/// The refusal of an engine without a file.
pub open spec fn says_in_memory(r: Result<String, MemoryError>) -> bool {
    r matches Err(MemoryError::Archive(ArchiveError::NotFileBacked(text))) && text@
        == "cannot resolve archive dir for in-memory database"@
}

/// The refusal for a file that lies in no directory.
pub open spec fn says_no_parent(r: Result<String, MemoryError>, path: Seq<char>) -> bool {
    r matches Err(MemoryError::Archive(ArchiveError::Io(text))) && text@
        == "database path has no parent: "@ + path
}

/// The archives are in the directory that the first `n` characters of the path of
/// the database name.
pub open spec fn is_beside_beginning(dir: Seq<char>, path: Seq<char>, n: int) -> bool {
    0 <= n < path.len() && dir == crate::paths::joined(path.take(n), "archives"@)
}

/// Archiving takes nothing of the facts that stay: an edge is left just when
/// neither of its ends was archived.
pub proof fn archiving_keeps_the_rest(edges: Seq<GraphEdge>, archived: Seq<i64>, e: GraphEdge)
    ensures
        crate::graph::edges_sparing(edges, archived).contains(e) <==> edges.contains(e) && !archived.contains(
            e.source,
        ) && !archived.contains(e.target),
{
    let keep = |x: GraphEdge| crate::graph::spares(x, archived);
    if crate::graph::edges_sparing(edges, archived).contains(e) {
        edges.lemma_filter_contains_rev(keep, e);
        let k = choose|k: int|
            0 <= k < crate::graph::edges_sparing(edges, archived).len() && crate::graph::edges_sparing(edges, archived)[k] == e;
        broadcast use vstd::seq_lib::group_filter_ensures;
        assert(keep(crate::graph::edges_sparing(edges, archived)[k]));
    }
    if edges.contains(e) && crate::graph::spares(e, archived) {
        broadcast use vstd::seq_lib::group_filter_ensures;
        let k = choose|k: int| 0 <= k < edges.len() && edges[k] == e;
        assert(keep(edges[k]));
        assert(edges.filter(keep).contains(edges[k]));
    }
}

/// Archiving takes the archived facts out of the graph with all their edges, and
/// leaves the others as they are.
pub proof fn archived_facts_leave_the_graph(
    engine: &mut MemoryEngine,
    archived: &Vec<i64>,
    id: i64,
)
    requires
        call_ensures(MemoryEngine::prune_archived, (engine, archived), ()),
    ensures
        final(engine).graph.edges() == old(engine).graph.edges().filter(
            |e: GraphEdge| !archived@.contains(e.source) && !archived@.contains(e.target),
        ),
        archived@.contains(id) ==> !final(engine).graph.nodes().contains(id),
        !archived@.contains(id) ==> (final(engine).graph.nodes().contains(id) <==> old(
            engine).graph.nodes().contains(id)),
        *final(engine) == (MemoryEngine { graph: final(engine).graph, ..*old(engine) }),
{
    assert((|e: GraphEdge| !archived@.contains(e.source) && !archived@.contains(e.target)) =~= (|
        e: GraphEdge,
    | crate::graph::spares(e, archived@)));
}

/// Archiving needs a file, besides an engine that accepts writes and need not be
/// reopened.
pub proof fn archiving_needs_a_file(engine: &MemoryEngine, r: Result<(), MemoryError>)
    requires
        call_ensures(MemoryEngine::check_archive, (engine,), r),
    ensures
        r is Ok <==> engine.reopen_required == 0 && !engine.read_only && engine.is_file_backed,
        engine.reopen_required == 0 && !engine.read_only && !engine.is_file_backed ==> (
        r matches Err(MemoryError::Archive(ArchiveError::NotFileBacked(_)))),
{
}

/// The archives lie in a directory of that name beside the database file; without a
/// file there is none.
pub proof fn archives_lie_beside_the_file(
    engine: &MemoryEngine,
    r: Result<String, MemoryError>,
    dir: Seq<char>,
    name: Seq<char>,
)
    requires
        call_ensures(MemoryEngine::archive_dir, (engine,), r),
    ensures
        engine.db_path is None ==> (r matches Err(MemoryError::Archive(
            ArchiveError::NotFileBacked(_),
        ))),
        engine.db_path is Some && dir.len() > 0 && dir.last() != '/' && crate::paths::portable_dir(
            dir,
        ) && crate::paths::plain_piece(name) && engine.db_path->0@ == dir.push('/') + name ==> (
        r matches Ok(place) && place@ == dir.push('/') + "archives"@),
        engine.db_path is Some && crate::paths::plain_piece(name) && engine.db_path->0@ == name
            ==> (r matches Ok(place) && place@ == "archives"@),
{
    if engine.db_path is Some {
        let path = engine.db_path->0@;
        if dir.len() > 0 && dir.last() != '/' && crate::paths::portable_dir(dir)
            && crate::paths::plain_piece(name) && path == dir.push('/') + name {
            assert(crate::paths::lies_in(path, dir, name));
        }
        if crate::paths::plain_piece(name) && path == name {
            assert(Seq::<char>::empty() + name =~= name);
            assert(crate::paths::lies_in(path, Seq::empty(), name));
            assert(Seq::<char>::empty() + "archives"@ =~= "archives"@);
        }
    }
}

/// In a known directory the archives have a place of their own, which is joined to the
/// directory by a slash where it needs one.
pub proof fn archives_have_a_place_in_the_directory(
    engine: &MemoryEngine,
    parent: Option<String>,
    r: Result<String, MemoryError>,
)
    requires
        call_ensures(MemoryEngine::archive_dir_in, (engine, parent), r),
    ensures
        r is Ok <==> engine.db_path is Some && parent is Some,
        r is Ok && parent->0@.len() > 0 && parent->0@.last() != '/' ==> r->Ok_0@
            == parent->0@.push('/') + "archives"@,
        r is Ok && parent->0@.len() > 0 && parent->0@.last() == '/' ==> r->Ok_0@ == parent->0@
            + "archives"@,
        r is Ok && parent->0@.len() == 0 ==> r->Ok_0@ == "archives"@,
        engine.db_path is None ==> (r matches Err(MemoryError::Archive(
            ArchiveError::NotFileBacked(_),
        ))),
        engine.db_path is Some && parent is None ==> (r matches Err(MemoryError::Archive(
            ArchiveError::Io(_),
        ))),
{
    if parent is Some && parent->0@.len() == 0 {
        assert(parent->0@ + "archives"@ =~= "archives"@);
    }
}

} // verus!
