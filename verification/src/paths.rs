//! Paths, held as texts.

use vstd::prelude::*;

verus! {

/// A place in a directory: the directory, a slash unless there is one or the
/// directory has no name, and the name of the place.
pub open spec fn joined(dir: Seq<char>, name: Seq<char>) -> Seq<char> {
    if dir.len() == 0 || dir.last() == '/' {
        dir + name
    } else {
        dir.push('/') + name
    }
}

/// The place with a name in a directory.
pub fn join(dir: &str, name: &str) -> (r: String)
    ensures
        r@ == joined(dir@, name@),
{
    let chars = crate::text::chars_of(dir);
    let mut path = dir.to_owned();
    if chars.len() > 0 && chars[chars.len() - 1] != '/' {
        path.append("/");
        proof {
            reveal_strlit("/");
            assert("/"@ =~= seq!['/']);
            assert(path@ =~= dir@.push('/'));
        }
    }
    path.append(name);
    path
}

/// The text begins a path and leaves out some of it.
pub open spec fn begins(dir: Seq<char>, path: Seq<char>) -> bool {
    dir.len() < path.len() && dir == path.take(dir.len() as int)
}

/// The directory, if there is one, begins the path.
pub open spec fn is_parent_in(dir: Option<String>, path: Seq<char>) -> bool {
    dir matches Some(d) ==> begins(d@, path)
}

/// The piece of a path means the same on every platform: it is a name, or `..`,
/// and holds neither a separator nor a colon.
pub open spec fn plain_piece(piece: Seq<char>) -> bool {
    &&& piece.len() > 0
    &&& piece != "."@
    &&& !piece.contains('/')
    &&& !piece.contains('\\')
    &&& !piece.contains(':')
}

/// The directory means the same on every platform: it is the one without a name,
/// the root, or a row of plain pieces, from the root or not.
pub open spec fn portable_dir(dir: Seq<char>) -> bool {
    let pieces = crate::text::split_at_slashes(dir);
    dir.len() == 0 || dir == "/"@ || forall|i: int|
        0 <= i < pieces.len() ==> plain_piece(#[trigger] pieces[i]) || (i == 0 && pieces.len() > 1
            && pieces[0].len() == 0)
}

/// The path is that of a place with a plain name in a portable directory.
pub open spec fn lies_in(path: Seq<char>, dir: Seq<char>, name: Seq<char>) -> bool {
    portable_dir(dir) && plain_piece(name) && path == joined(dir, name)
}

/// The directory of a path that lies in a portable directory is that directory.
pub open spec fn is_parent_where_portable(r: Option<String>, path: Seq<char>) -> bool {
    forall|dir: Seq<char>, name: Seq<char>| #[trigger]
        lies_in(path, dir, name) ==> r is Some && r->0@ == dir
}

/// `std::path::Path::parent`: the path without its final component, if it has
/// one. The result is a beginning of the path. Of a path whose pieces are
/// separated by slashes and mean the same on every platform, it is all but the
/// last piece. What the components of other paths are differs from platform to
/// platform, and no more is said of them.
#[verifier::external_body]
pub(crate) fn parent_of(path: &str) -> (r: Option<String>)
    ensures
        is_parent_in(r, path@),
        is_parent_where_portable(r, path@),
{
    match std::path::Path::new(path).parent() {
        Some(dir) => Some(dir.to_string_lossy().into_owned()),
        None => None,
    }
}

/// A name is put into a directory behind one slash, and alone where the directory has
/// no name.
pub proof fn name_is_joined_by_one_slash(dir: &str, name: &str, r: String)
    requires
        call_ensures(join, (dir, name), r),
    ensures
        dir@.len() == 0 ==> r@ == name@,
        dir@.len() > 0 && dir@.last() == '/' ==> r@ == dir@ + name@,
        dir@.len() > 0 && dir@.last() != '/' ==> r@ == dir@.push('/') + name@,
{
    if dir@.len() == 0 {
        assert(dir@ + name@ =~= name@);
    }
}

} // verus!
