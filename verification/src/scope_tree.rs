//! The in-memory scope tree, a mirror of the store's scopes.

use crate::text::{same_text, split_slashes, trim};
use crate::types::facts::ROOT_SCOPE_ID;
use crate::types::scope::{validate_segment, ScopeNode};
use vstd::prelude::*;

verus! {

/// Where the scope with this id stands in the list.
pub open spec fn position(nodes: Seq<ScopeNode>, id: i64) -> Option<int>
    decreases nodes.len(),
{
    if nodes.len() == 0 {
        None
    } else {
        match position(nodes.drop_last(), id) {
            Some(i) => Some(i),
            None => if nodes.last().id == id {
                Some(nodes.len() - 1)
            } else {
                None
            },
        }
    }
}

/// The parent of a scope; `None` for one that has none or is unknown.
pub open spec fn parent_of(nodes: Seq<ScopeNode>, id: i64) -> Option<i64> {
    match position(nodes, id) {
        Some(i) => nodes[i].parent_id,
        None => None,
    }
}

/// A scope, its parent, its parent's parent and so on: up to the root, to a
/// scope without a known parent, or to `fuel` scopes.
pub open spec fn chain(nodes: Seq<ScopeNode>, id: i64, fuel: nat) -> Seq<i64>
    decreases fuel,
{
    if fuel == 0 {
        Seq::empty()
    } else if id == ROOT_SCOPE_ID {
        seq![id]
    } else {
        match parent_of(nodes, id) {
            Some(parent) => seq![id] + chain(nodes, parent, (fuel - 1) as nat),
            None => seq![id],
        }
    }
}

/// A scope and everything above it. A tree has no longer chain than it has
/// scopes.
pub open spec fn chain_up(nodes: Seq<ScopeNode>, id: i64) -> Seq<i64> {
    chain(nodes, id, nodes.len() + 1)
}

/// The scope is the child of `parent` with this label.
pub open spec fn is_child(node: ScopeNode, parent: i64, label: Seq<char>) -> bool {
    node.parent_id == Some(parent) && node.label@ == label
}

/// The child of a scope with this label; the first if the list has several.
pub open spec fn child_of(nodes: Seq<ScopeNode>, parent: i64, label: Seq<char>) -> Option<i64>
    decreases nodes.len(),
{
    if nodes.len() == 0 {
        None
    } else {
        match child_of(nodes.drop_last(), parent, label) {
            Some(id) => Some(id),
            None => if is_child(nodes.last(), parent, label) {
                Some(nodes.last().id)
            } else {
                None
            },
        }
    }
}

/// Where the labels lead, one after the other, from a scope down.
pub open spec fn walk(nodes: Seq<ScopeNode>, from: i64, labels: Seq<Seq<char>>) -> Option<i64>
    decreases labels.len(),
{
    if labels.len() == 0 {
        Some(from)
    } else {
        match walk(nodes, from, labels.drop_last()) {
            Some(at) => child_of(nodes, at, labels.last()),
            None => None,
        }
    }
}

/// A tree of scopes, under a root.
#[derive(Debug)]
pub struct ScopeTree {
    list: Vec<ScopeNode>,
}

impl ScopeTree {
    /// The scopes, oldest first.
    pub closed spec fn nodes(self) -> Seq<ScopeNode> {
        self.list@
    }

    /// No two scopes have the same id.
    pub open spec fn well_formed(self) -> bool {
        forall|i: int, j: int|
            0 <= i < j < self.nodes().len() ==> (#[trigger] self.nodes()[i]).id != (
            #[trigger] self.nodes()[j]).id
    }

    /// The id of the root.
    pub fn root_id() -> (r: i64)
        ensures
            r == 1,
    {
        ROOT_SCOPE_ID
    }

    /// The tree that consists of nothing but its root, which is in no list.
    pub fn new() -> (r: ScopeTree)
        ensures
            r.well_formed(),
            r.nodes() == Seq::<ScopeNode>::empty(),
    {
        ScopeTree { list: Vec::new() }
    }

    /// Where the scope with this id stands in the list.
    fn find(&self, id: i64) -> (r: Option<usize>)
        ensures
            match r {
                Some(i) => i < self.nodes().len() && position(self.nodes(), id) == Some(i as int)
                    && self.nodes()[i as int].id == id,
                None => position(self.nodes(), id) is None,
            },
    {
        let mut i: usize = 0;
        while i < self.list.len()
            invariant
                i <= self.list@.len(),
                position(self.list@.take(i as int), id) is None,
            decreases self.list@.len() - i,
        {
            assert(self.list@.take(i + 1).drop_last() =~= self.list@.take(i as int));
            assert(self.list@.take(i + 1).last() == self.list@[i as int]);
            if self.list[i].id == id {
                proof {
                    lemma_position_is_stable(self.list@, i + 1, id);
                }
                return Some(i);
            }
            i = i + 1;
        }
        assert(self.list@.take(i as int) =~= self.list@);
        None
    }

    /// Adds a scope, unless one with its id is there already.
    pub fn insert(&mut self, node: ScopeNode)
        requires
            old(self).well_formed(),
        ensures
            final(self).well_formed(),
            final(self).nodes() == with_node(old(self).nodes(), node),
    {
        match self.find(node.id) {
            Some(_) => {},
            None => {
                let ghost before = self.nodes();
                proof {
                    lemma_position_finds(before, node.id);
                }
                self.list.push(node);
                assert(self.nodes() =~= before.push(node));
            },
        }
    }

    /// The scope and everything above it, up to the root.
    pub fn ancestors(&self, id: i64) -> (r: Vec<i64>)
        ensures
            r@ == chain_up(self.nodes(), id),
    {
        let mut out: Vec<i64> = Vec::new();
        let mut at: i64 = id;
        let mut fuel: usize = 0;
        let total: usize = self.list.len();
        let ghost whole = chain_up(self.nodes(), id);
        assert(out@ + chain(self.nodes(), at, (total + 1 - fuel) as nat) =~= whole);
        while fuel <= total
            invariant
                total == self.nodes().len(),
                fuel <= total + 1,
                fuel as int == out@.len(),
                out@ + chain(self.nodes(), at, (total + 1 - fuel) as nat) == whole,
                whole == chain_up(self.nodes(), id),
            decreases total + 1 - fuel,
        {
            let ghost rest = chain(self.nodes(), at, (total + 1 - fuel) as nat);
            let ghost before = out@;
            out.push(at);
            if at == ROOT_SCOPE_ID {
                assert(rest =~= seq![at]);
                assert(out@ =~= before + rest);
                return out;
            }
            match self.find(at) {
                Some(i) => match self.list[i].parent_id {
                    Some(parent) => {
                        assert(rest =~= seq![at] + chain(
                            self.nodes(),
                            parent,
                            (total - fuel) as nat,
                        ));
                        if fuel == total {
                            assert(out@ =~= before + rest);
                            return out;
                        }
                        at = parent;
                        fuel = fuel + 1;
                        assert(out@ + chain(self.nodes(), at, (total + 1 - fuel) as nat)
                            =~= before + rest);
                    },
                    None => {
                        assert(rest =~= seq![at]);
                        assert(out@ =~= before + rest);
                        return out;
                    },
                },
                None => {
                    assert(rest =~= seq![at]);
                    assert(out@ =~= before + rest);
                    return out;
                },
            }
        }
        out
    }
}

/// The labels of a path: its pieces between slashes, each without the white
/// space around it.
pub open spec fn labels_of(path: Seq<char>) -> Seq<Seq<char>> {
    crate::text::split_at_slashes(path).map_values(|s: Seq<char>| crate::text::trimmed(s))
}

/// Every label is usable.
pub open spec fn all_valid(labels: Seq<Seq<char>>) -> bool {
    forall|i: int|
        0 <= i < labels.len() ==> crate::types::scope::valid_segment(#[trigger] labels[i])
}

/// The scope that a path names.
pub open spec fn resolved(nodes: Seq<ScopeNode>, path: Seq<char>) -> Option<i64> {
    if all_valid(labels_of(path)) {
        walk(nodes, ROOT_SCOPE_ID, labels_of(path))
    } else {
        None
    }
}

/// The scopes at or below `top`: `top` itself, then the others in the order of
/// the list.
pub open spec fn below(nodes: Seq<ScopeNode>, top: i64) -> Seq<i64> {
    seq![top] + nodes.filter(
        |n: ScopeNode| n.id != top && chain_up(nodes, n.id).contains(top),
    ).map_values(|n: ScopeNode| n.id)
}

impl ScopeTree {
    /// The child of a scope with this label.
    fn child(&self, parent: i64, label: &str) -> (r: Option<i64>)
        ensures
            r == child_of(self.nodes(), parent, label@),
    {
        let mut i: usize = 0;
        while i < self.list.len()
            invariant
                i <= self.list@.len(),
                child_of(self.list@.take(i as int), parent, label@) is None,
            decreases self.list@.len() - i,
        {
            assert(self.list@.take(i + 1).drop_last() =~= self.list@.take(i as int));
            assert(self.list@.take(i + 1).last() == self.list@[i as int]);
            let under = match self.list[i].parent_id {
                Some(p) => p == parent,
                None => false,
            };
            if under && same_text(self.list[i].label.as_str(), label) {
                proof {
                    lemma_child_is_stable(self.list@, i + 1, parent, label@);
                }
                return Some(self.list[i].id);
            }
            i = i + 1;
        }
        assert(self.list@.take(i as int) =~= self.list@);
        None
    }

    /// The scope that a path names, if there is one. A path with an unusable
    /// label names none.
    pub fn resolve_path(&self, path: &str) -> (r: Option<i64>)
        ensures
            r == resolved(self.nodes(), path@),
    {
        let pieces = split_slashes(path);
        let ghost labels = labels_of(path@);
        let ghost view = |s: &str| s@;
        let mut at: Option<i64> = Some(ROOT_SCOPE_ID);
        let mut i: usize = 0;
        while i < pieces.len()
            invariant
                i <= pieces@.len(),
                labels == labels_of(path@),
                view == (|s: &str| s@),
                pieces@.map_values(view) == crate::text::split_at_slashes(path@),
                at == walk(self.nodes(), ROOT_SCOPE_ID, labels.take(i as int)),
                forall|j: int|
                    0 <= j < i ==> crate::types::scope::valid_segment(#[trigger] labels[j]),
            decreases pieces@.len() - i,
        {
            let label = trim(pieces[i]);
            assert(pieces@.map_values(view)[i as int] == pieces@[i as int]@);
            assert(label@ == labels[i as int]);
            match validate_segment(label) {
                Err(_) => {
                    return None;
                },
                Ok(()) => {},
            }
            assert(labels.take(i + 1).drop_last() =~= labels.take(i as int));
            at = match at {
                Some(scope) => self.child(scope, label),
                None => None,
            };
            i = i + 1;
        }
        assert(pieces@.map_values(view).len() == labels.len());
        assert(labels.take(i as int) =~= labels);
        at
    }

    /// The scopes at or below `top`. An unknown scope has nothing below it.
    pub fn subtree(&self, top: i64) -> (r: Vec<i64>)
        ensures
            r@ == below(self.nodes(), top),
    {
        let ghost nodes = self.nodes();
        let ghost keep = |n: ScopeNode| n.id != top && chain_up(nodes, n.id).contains(top);
        let ghost name = |n: ScopeNode| n.id;
        let mut out: Vec<i64> = Vec::new();
        out.push(top);
        let mut i: usize = 0;
        proof {
            reveal(Seq::filter);
            assert(out@ =~= seq![top] + nodes.take(0).filter(keep).map_values(name));
        }
        while i < self.list.len()
            invariant
                i <= self.list@.len(),
                nodes == self.list@,
                keep == (|n: ScopeNode| n.id != top && chain_up(nodes, n.id).contains(top)),
                name == (|n: ScopeNode| n.id),
                out@ == seq![top] + nodes.take(i as int).filter(keep).map_values(name),
            decreases self.list@.len() - i,
        {
            let ghost kept = nodes.take(i as int).filter(keep);
            proof {
                reveal(Seq::filter);
                assert(nodes.take(i + 1).drop_last() =~= nodes.take(i as int));
                assert(nodes.take(i + 1).last() == nodes[i as int]);
            }
            let id: i64 = self.list[i].id;
            if id != top {
                let up = self.ancestors(id);
                if holds(&up, top) {
                    let ghost before = out@;
                    out.push(id);
                    assert(kept.push(nodes[i as int]).map_values(name) =~= kept.map_values(
                        name,
                    ).push(id));
                    assert(out@ =~= seq![top] + kept.push(nodes[i as int]).map_values(name));
                }
            }
            i = i + 1;
        }
        assert(nodes.take(i as int) =~= nodes);
        out
    }
}

/// The label of a scope; that of an unknown scope is empty.
pub open spec fn label_of(nodes: Seq<ScopeNode>, id: i64) -> Seq<char> {
    match position(nodes, id) {
        Some(i) => nodes[i].label@,
        None => Seq::empty(),
    }
}

/// The labels of a chain of scopes that ends at the root, from the root down. The
/// root has none.
pub open spec fn chain_labels(nodes: Seq<ScopeNode>, chain: Seq<i64>) -> Seq<Seq<char>> {
    Seq::new(
        (chain.len() - 1) as nat,
        |k: int| label_of(nodes, chain[chain.len() - 2 - k]),
    )
}

/// The labels with slashes between them.
pub open spec fn slashed(labels: Seq<Seq<char>>) -> Seq<char>
    decreases labels.len(),
{
    if labels.len() == 0 {
        Seq::empty()
    } else if labels.len() == 1 {
        labels[0]
    } else {
        slashed(labels.drop_last()).push('/') + labels.last()
    }
}

/// The chain of scopes ends at the root.
pub open spec fn reaches_root(chain: Seq<i64>) -> bool {
    chain.len() > 0 && chain.last() == ROOT_SCOPE_ID
}

/// The path of a scope: the labels from the root down to it, with slashes between
/// them. A scope that is not below the root has none.
pub open spec fn path_of(nodes: Seq<ScopeNode>, id: i64) -> Option<Seq<char>> {
    let chain = chain_up(nodes, id);
    if reaches_root(chain) {
        Some(slashed(chain_labels(nodes, chain)))
    } else {
        None
    }
}

impl ScopeTree {
    /// The path of a scope, if it is below the root. That of the root is empty.
    pub fn path_for_id(&self, id: i64) -> (r: Option<String>)
        ensures
            match r {
                Some(path) => path_of(self.nodes(), id) == Some(path@),
                None => path_of(self.nodes(), id) is None,
            },
    {
        let chain = self.ancestors(id);
        let total: usize = chain.len();
        if total == 0 || chain[total - 1] != ROOT_SCOPE_ID {
            return None;
        }
        let ghost labels = chain_labels(self.nodes(), chain@);
        let mut path = String::new();
        let mut k: usize = 0;
        assert(labels.take(0) =~= Seq::<Seq<char>>::empty());
        while k < total - 1
            invariant
                0 < total == chain@.len(),
                k <= total - 1,
                labels == chain_labels(self.nodes(), chain@),
                labels.len() == total - 1,
                path@ == slashed(labels.take(k as int)),
            decreases total - 1 - k,
        {
            let ghost before = path@;
            proof {
                assert(labels.take(k + 1).drop_last() =~= labels.take(k as int));
                assert(labels.take(k + 1).last() == labels[k as int]);
                reveal_strlit("/");
                assert("/"@ =~= seq!['/']);
            }
            if k > 0 {
                path.append("/");
                assert(path@ =~= before.push('/'));
            } else {
                assert(before =~= Seq::<char>::empty());
            }
            match self.find(chain[total - 2 - k]) {
                Some(i) => {
                    path.append(self.list[i].label.as_str());
                },
                None => {},
            }
            assert(path@ =~= slashed(labels.take(k + 1)));
            k = k + 1;
        }
        assert(labels.take(k as int) =~= labels);
        Some(path)
    }
}

/// Whether the list holds the id.
fn holds(list: &Vec<i64>, id: i64) -> (r: bool)
    ensures
        r == list@.contains(id),
{
    let mut i: usize = 0;
    while i < list.len()
        invariant
            i <= list@.len(),
            forall|j: int| 0 <= j < i ==> list@[j] != id,
        decreases list@.len() - i,
    {
        if list[i] == id {
            return true;
        }
        i = i + 1;
    }
    false
}

proof fn lemma_child_is_stable(nodes: Seq<ScopeNode>, n: int, parent: i64, label: Seq<char>)
    requires
        0 <= n <= nodes.len(),
        child_of(nodes.take(n), parent, label) is Some,
    ensures
        child_of(nodes, parent, label) == child_of(nodes.take(n), parent, label),
    decreases nodes.len() - n,
{
    if n < nodes.len() {
        assert(nodes.take(n + 1).drop_last() =~= nodes.take(n));
        lemma_child_is_stable(nodes, n + 1, parent, label);
    } else {
        assert(nodes.take(n) =~= nodes);
    }
}

/// The list with one more scope, unless its id is there already.
pub open spec fn with_node(nodes: Seq<ScopeNode>, node: ScopeNode) -> Seq<ScopeNode> {
    if position(nodes, node.id) is Some {
        nodes
    } else {
        nodes.push(node)
    }
}

/// The list with more scopes, one after the other.
pub open spec fn with_nodes(nodes: Seq<ScopeNode>, more: Seq<ScopeNode>) -> Seq<ScopeNode>
    decreases more.len(),
{
    if more.len() == 0 {
        nodes
    } else {
        with_node(with_nodes(nodes, more.drop_last()), more.last())
    }
}

impl ScopeTree {
    /// Adds scopes in order, leaving out those whose id is there already.
    pub fn insert_all(&mut self, more: Vec<ScopeNode>)
        requires
            old(self).well_formed(),
        ensures
            final(self).well_formed(),
            final(self).nodes() == with_nodes(old(self).nodes(), more@),
    {
        let ghost start = self.nodes();
        let ghost all = more@;
        assert(all.take(0) =~= Seq::<ScopeNode>::empty());
        for node in it: more
            invariant
                it.seq() == all,
                self.well_formed(),
                self.nodes() == with_nodes(start, all.take(it.index() as int)),
        {
            assert(all.take(it.index() + 1).drop_last() =~= all.take(it.index() as int));
            self.insert(node);
        }
        assert(all.take(all.len() as int) =~= all);
    }

    /// The scopes, oldest first.
    pub fn to_snapshot(&self) -> (r: Vec<ScopeNode>)
        ensures
            r@ == self.nodes(),
    {
        let mut nodes: Vec<ScopeNode> = Vec::new();
        let mut i: usize = 0;
        while i < self.list.len()
            invariant
                i <= self.list@.len(),
                nodes@ == self.list@.take(i as int),
            decreases self.list@.len() - i,
        {
            nodes.push(self.list[i].copied());
            assert(nodes@ =~= self.list@.take(i + 1));
            i = i + 1;
        }
        assert(self.list@.take(i as int) =~= self.list@);
        nodes
    }
}

/// Scopes with different ids make a list of just these scopes.
pub(crate) proof fn lemma_with_nodes_of_distinct(nodes: Seq<ScopeNode>)
    requires
        forall|i: int, j: int|
            0 <= i < j < nodes.len() ==> (#[trigger] nodes[i]).id != (#[trigger] nodes[j]).id,
    ensures
        with_nodes(Seq::empty(), nodes) == nodes,
    decreases nodes.len(),
{
    if nodes.len() > 0 {
        let front = nodes.drop_last();
        lemma_with_nodes_of_distinct(front);
        lemma_position_finds(front, nodes.last().id);
        assert(front.push(nodes.last()) =~= nodes);
    }
}

/// A walk from a scope up to the root, one scope from the store at a time.
///
/// The walk says which scope it needs next and is handed that scope; when it
/// needs no more, the scopes that it met go into the tree.
#[derive(Debug)]
pub struct ScopeChainWalk {
    leaf: i64,
    asked: Vec<i64>,
    met: Vec<ScopeNode>,
}

impl ScopeChainWalk {
    /// Where the walk started.
    pub closed spec fn start_scope(self) -> i64 {
        self.leaf
    }

    /// The scopes that the walk asked for, in order.
    pub closed spec fn requests(self) -> Seq<i64> {
        self.asked@
    }

    /// The scopes that the walk was handed, in order.
    pub closed spec fn nodes(self) -> Seq<ScopeNode> {
        self.met@
    }

    /// The scope to go on with: the start, then the parent of the last scope.
    pub open spec fn next(self) -> Option<i64> {
        if self.nodes().len() == 0 {
            Some(self.start_scope())
        } else {
            self.nodes().last().parent_id
        }
    }

    /// The walk asked for its start and for the parent of each scope it was
    /// handed, for no scope twice, and never for the root; at most the last
    /// request is still open.
    pub open spec fn well_formed(self) -> bool {
        &&& self.nodes().len() <= self.requests().len() <= self.nodes().len() + 1
        &&& self.requests().no_duplicates()
        &&& !self.requests().contains(ROOT_SCOPE_ID)
        &&& self.requests().len() > 0 ==> self.requests()[0] == self.start_scope()
        &&& forall|k: int|
            0 < k < self.requests().len() ==> Some(#[trigger] self.requests()[k])
                == self.nodes()[k - 1].parent_id
    }

    /// The walk waits for the scope that it asked for last.
    pub open spec fn waiting(self) -> bool {
        self.requests().len() == self.nodes().len() + 1
    }

    /// Starts a walk at a scope.
    pub fn start(leaf: i64) -> (r: ScopeChainWalk)
        ensures
            r.well_formed(),
            !r.waiting(),
            r.start_scope() == leaf,
            r.nodes() == Seq::<ScopeNode>::empty(),
    {
        ScopeChainWalk { leaf, asked: Vec::new(), met: Vec::new() }
    }

    /// The scope that the walk needs next; none at the root, at a scope without
    /// a parent, or back at a scope that it asked for before.
    pub fn request(&mut self) -> (r: Option<i64>)
        requires
            old(self).well_formed(),
            !old(self).waiting(),
        ensures
            final(self).well_formed(),
            final(self).start_scope() == old(self).start_scope(),
            final(self).nodes() == old(self).nodes(),
            final(self).waiting() == (r is Some),
            match r {
                Some(id) => old(self).next() == Some(id) && id != ROOT_SCOPE_ID
                    && !old(self).requests().contains(id) && final(self).requests() == old(
                    self,
                ).requests().push(id),
                None => final(self).requests() == old(self).requests() && (old(self).next() matches
                    Some(id) ==> id == ROOT_SCOPE_ID || old(self).requests().contains(id)),
            },
    {
        let current = if self.met.len() == 0 {
            Some(self.leaf)
        } else {
            self.met[self.met.len() - 1].parent_id
        };
        match current {
            None => None,
            Some(id) => {
                if id == ROOT_SCOPE_ID || holds(&self.asked, id) {
                    None
                } else {
                    let ghost before = self.requests();
                    self.asked.push(id);
                    assert(self.requests() =~= before.push(id));
                    assert(!self.requests().contains(ROOT_SCOPE_ID)) by {
                        lemma_push_has(before, id, ROOT_SCOPE_ID);
                    }
                    Some(id)
                }
            },
        }
    }

    /// Takes the scope that the walk asked for.
    pub fn supply(&mut self, node: ScopeNode)
        requires
            old(self).well_formed(),
            old(self).waiting(),
        ensures
            final(self).well_formed(),
            !final(self).waiting(),
            final(self).start_scope() == old(self).start_scope(),
            final(self).nodes() == old(self).nodes().push(node),
            final(self).requests() == old(self).requests(),
    {
        let ghost before = self.met@;
        self.met.push(node);
        assert(self.nodes() =~= before.push(node));
    }

    /// Puts the scopes that the walk met into the tree.
    pub fn finish(self, tree: &mut ScopeTree)
        requires
            old(tree).well_formed(),
        ensures
            final(tree).well_formed(),
            final(tree).nodes() == with_nodes(old(tree).nodes(), self.nodes()),
    {
        tree.insert_all(self.met);
    }
}

proof fn lemma_push_has(s: Seq<i64>, x: i64, id: i64)
    ensures
        s.push(x).contains(id) <==> s.contains(id) || id == x,
{
    if s.contains(id) {
        let k = choose|k: int| 0 <= k < s.len() && s[k] == id;
        assert(s.push(x)[k] == id);
    }
    if id == x {
        assert(s.push(x)[s.len() as int] == id);
    }
    if s.push(x).contains(id) && id != x {
        let k = choose|k: int| 0 <= k < s.push(x).len() && s.push(x)[k] == id;
        assert(s[k] == id);
    }
}

/// The two are the same scope, under the same parent and label.
pub open spec fn same_scope(a: ScopeNode, b: ScopeNode) -> bool {
    a.id == b.id && a.parent_id == b.parent_id && a.label@ == b.label@
}

/// Every scope of the list stands in the store as it does in the list.
pub open spec fn mirrors(nodes: Seq<ScopeNode>, store: Map<i64, ScopeNode>) -> bool {
    forall|i: int|
        0 <= i < nodes.len() ==> store.contains_key((#[trigger] nodes[i]).id) && same_scope(
            store[nodes[i].id],
            nodes[i],
        )
}

/// No two scopes of the store have the same parent and the same label, and each
/// is filed under its id.
pub open spec fn siblings_differ(store: Map<i64, ScopeNode>) -> bool {
    &&& forall|id: i64| #[trigger] store.contains_key(id) ==> store[id].id == id
    &&& forall|a: i64, b: i64| #[trigger]
        store.contains_key(a) && #[trigger] store.contains_key(b) && store[a].parent_id
            == store[b].parent_id && store[a].parent_id is Some && store[a].label@
            == store[b].label@ ==> a == b
}

/// Adding scopes of the store to a list that mirrors it keeps it a mirror, keeps
/// what is there, and leaves each added scope in the list.
pub proof fn cached_scopes_mirror_the_store(
    nodes: Seq<ScopeNode>,
    more: Seq<ScopeNode>,
    store: Map<i64, ScopeNode>,
)
    requires
        mirrors(nodes, store),
        mirrors(more, store),
    ensures
        mirrors(with_nodes(nodes, more), store),
        forall|id: i64| #[trigger]
            position(with_nodes(nodes, more), id) is Some <==> position(nodes, id) is Some
                || exists|k: int| 0 <= k < more.len() && (#[trigger] more[k]).id == id,
    decreases more.len(),
{
    if more.len() > 0 {
        let front = more.drop_last();
        let last = more.last();
        assert(mirrors(front, store)) by {
            assert forall|i: int| 0 <= i < front.len() implies store.contains_key(
                (#[trigger] front[i]).id,
            ) && same_scope(store[front[i].id], front[i]) by {
                assert(front[i] == more[i]);
            }
        }
        cached_scopes_mirror_the_store(nodes, front, store);
        let earlier = with_nodes(nodes, front);
        let all = with_nodes(nodes, more);
        assert(last == more[more.len() - 1]);
        assert(mirrors(all, store)) by {
            assert forall|i: int| 0 <= i < all.len() implies store.contains_key(
                (#[trigger] all[i]).id,
            ) && same_scope(store[all[i].id], all[i]) by {
                if i < earlier.len() {
                    assert(all[i] == earlier[i]);
                }
            }
        }
        assert forall|id: i64| #[trigger] position(all, id) is Some <==> position(nodes, id) is Some
            || exists|k: int| 0 <= k < more.len() && (#[trigger] more[k]).id == id by {
            if all != earlier {
                assert(all.drop_last() =~= earlier);
            }
            assert(position(all, id) is Some <==> position(earlier, id) is Some || last.id == id);
            if exists|k: int| 0 <= k < front.len() && (#[trigger] front[k]).id == id {
                let k = choose|k: int| 0 <= k < front.len() && (#[trigger] front[k]).id == id;
                assert(more[k].id == id);
            }
            if exists|k: int| 0 <= k < more.len() && (#[trigger] more[k]).id == id {
                let k = choose|k: int| 0 <= k < more.len() && (#[trigger] more[k]).id == id;
                if k < front.len() {
                    assert(front[k].id == id);
                }
            }
        }
    }
}

/// The scopes form a chain from the first up to a child of the root.
pub open spec fn is_chain_to_root(chain: Seq<ScopeNode>) -> bool {
    &&& chain.len() > 0
    &&& chain.last().parent_id == Some(ROOT_SCOPE_ID)
    &&& forall|k: int|
        0 <= k < chain.len() - 1 ==> (#[trigger] chain[k]).parent_id == Some(chain[k + 1].id)
}

/// The labels of a chain, from the root down.
pub open spec fn labels_down(chain: Seq<ScopeNode>) -> Seq<Seq<char>> {
    Seq::new(chain.len(), |i: int| chain[chain.len() - 1 - i].label@)
}

/// Once a whole chain of scopes is in the tree, the labels from the root down
/// lead to its first scope: every path that the store knows can be resolved
/// without the store.
pub proof fn cached_chain_can_be_resolved(
    nodes: Seq<ScopeNode>,
    chain: Seq<ScopeNode>,
    store: Map<i64, ScopeNode>,
)
    requires
        mirrors(nodes, store),
        mirrors(chain, store),
        siblings_differ(store),
        is_chain_to_root(chain),
    ensures
        walk(with_nodes(nodes, chain), ROOT_SCOPE_ID, labels_down(chain)) == Some(chain[0].id),
{
    cached_scopes_mirror_the_store(nodes, chain, store);
    lemma_walk_down(with_nodes(nodes, chain), chain, store, chain.len() as int);
    assert(labels_down(chain).take(chain.len() as int) =~= labels_down(chain));
}

/// The ids of scopes.
pub open spec fn ids_of(nodes: Seq<ScopeNode>) -> Seq<i64> {
    nodes.map_values(|n: ScopeNode| n.id)
}

/// Once a whole chain of scopes is in the tree, everything above its first scope
/// is exactly the rest of the chain and the root.
pub proof fn cached_chain_gives_the_ancestors(
    nodes: Seq<ScopeNode>,
    chain: Seq<ScopeNode>,
    store: Map<i64, ScopeNode>,
)
    requires
        mirrors(nodes, store),
        mirrors(chain, store),
        is_chain_to_root(chain),
        ids_of(chain).no_duplicates(),
        !ids_of(chain).contains(ROOT_SCOPE_ID),
    ensures
        chain_up(with_nodes(nodes, chain), chain[0].id) == ids_of(chain).push(ROOT_SCOPE_ID),
{
    let all = with_nodes(nodes, chain);
    cached_scopes_mirror_the_store(nodes, chain, store);
    assert(chain.len() <= all.len()) by {
        let small = ids_of(chain).to_set();
        let large = ids_of(all).to_set();
        ids_of(chain).unique_seq_to_set();
        vstd::seq_lib::seq_to_set_is_finite(ids_of(all));
        ids_of(all).lemma_cardinality_of_set();
        assert(small.subset_of(large)) by {
            assert forall|id: i64| small.contains(id) implies large.contains(id) by {
                let k = choose|k: int| 0 <= k < ids_of(chain).len() && ids_of(chain)[k] == id;
                assert(chain[k].id == id);
                lemma_position_finds(all, id);
                assert(position(all, id) is Some);
                assert(ids_of(all)[position(all, id)->0] == id);
            }
        }
        vstd::set_lib::lemma_len_subset(small, large);
    }
    lemma_chain_follows(all, chain, store, 0, (all.len() + 1) as nat);
    assert(ids_of(chain).skip(0) =~= ids_of(chain));
}

proof fn lemma_chain_follows(
    nodes: Seq<ScopeNode>,
    chain: Seq<ScopeNode>,
    store: Map<i64, ScopeNode>,
    k: int,
    fuel: nat,
)
    requires
        mirrors(nodes, store),
        mirrors(chain, store),
        is_chain_to_root(chain),
        !ids_of(chain).contains(ROOT_SCOPE_ID),
        forall|j: int| 0 <= j < chain.len() ==> position(nodes, (#[trigger] chain[j]).id) is Some,
        0 <= k < chain.len(),
        fuel >= chain.len() - k + 1,
    ensures
        self::chain(nodes, chain[k].id, fuel) == ids_of(chain).skip(k).push(ROOT_SCOPE_ID),
    decreases chain.len() - k,
{
    let id = chain[k].id;
    assert(ids_of(chain)[k] == id);
    assert(id != ROOT_SCOPE_ID);
    lemma_position_finds(nodes, id);
    let i = position(nodes, id)->0;
    assert(same_scope(store[nodes[i].id], nodes[i]));
    assert(same_scope(store[id], chain[k]));
    assert(parent_of(nodes, id) == chain[k].parent_id);
    let rest = ids_of(chain).skip(k);
    if k + 1 < chain.len() {
        lemma_chain_follows(nodes, chain, store, k + 1, (fuel - 1) as nat);
        assert(rest =~= seq![id] + ids_of(chain).skip(k + 1));
        assert(self::chain(nodes, id, fuel) =~= rest.push(ROOT_SCOPE_ID));
    } else {
        assert(chain.last() == chain[k]);
        assert(rest =~= seq![id]);
        assert(self::chain(nodes, ROOT_SCOPE_ID, (fuel - 1) as nat) =~= seq![ROOT_SCOPE_ID]);
        assert(self::chain(nodes, id, fuel) =~= rest.push(ROOT_SCOPE_ID));
    }
}

proof fn lemma_walk_down(
    nodes: Seq<ScopeNode>,
    chain: Seq<ScopeNode>,
    store: Map<i64, ScopeNode>,
    n: int,
)
    requires
        mirrors(nodes, store),
        mirrors(chain, store),
        siblings_differ(store),
        is_chain_to_root(chain),
        forall|k: int| 0 <= k < chain.len() ==> position(nodes, (#[trigger] chain[k]).id) is Some,
        0 <= n <= chain.len(),
    ensures
        walk(nodes, ROOT_SCOPE_ID, labels_down(chain).take(n)) == Some(
            if n == 0 {
                ROOT_SCOPE_ID
            } else {
                chain[chain.len() - n].id
            },
        ),
    decreases n,
{
    let labels = labels_down(chain).take(n);
    if n > 0 {
        lemma_walk_down(nodes, chain, store, n - 1);
        assert(labels.drop_last() =~= labels_down(chain).take(n - 1));
        let node = chain[chain.len() - n];
        assert(labels.last() == node.label@);
        let parent = if n == 1 {
            ROOT_SCOPE_ID
        } else {
            chain[chain.len() - n + 1].id
        };
        assert(node.parent_id == Some(parent)) by {
            if n > 1 {
                assert(chain[chain.len() - n].parent_id == Some(chain[chain.len() - n + 1].id));
            }
        }
        lemma_position_finds(nodes, node.id);
        let i = position(nodes, node.id)->0;
        assert(nodes[i].id == node.id);
        assert(same_scope(store[nodes[i].id], nodes[i]));
        assert(same_scope(store[node.id], node));
        lemma_child_found(nodes, store, i);
    }
}

proof fn lemma_child_found(nodes: Seq<ScopeNode>, store: Map<i64, ScopeNode>, i: int)
    requires
        mirrors(nodes, store),
        siblings_differ(store),
        0 <= i < nodes.len(),
        nodes[i].parent_id is Some,
    ensures
        child_of(nodes, nodes[i].parent_id->0, nodes[i].label@) == Some(nodes[i].id),
    decreases nodes.len(),
{
    let parent = nodes[i].parent_id->0;
    let label = nodes[i].label@;
    let front = nodes.drop_last();
    assert(mirrors(front, store)) by {
        assert forall|k: int| 0 <= k < front.len() implies store.contains_key(
            (#[trigger] front[k]).id,
        ) && same_scope(store[front[k].id], front[k]) by {
            assert(front[k] == nodes[k]);
        }
    }
    if i < front.len() {
        assert(front[i] == nodes[i]);
        lemma_child_found(front, store, i);
    } else {
        lemma_child_shape(front, parent, label);
        if child_of(front, parent, label) is Some {
            let j = choose|j: int|
                0 <= j < front.len() && is_child(#[trigger] front[j], parent, label)
                    && child_of(front, parent, label) == Some(front[j].id);
            assert(front[j] == nodes[j]);
            assert(store.contains_key(nodes[j].id) && store.contains_key(nodes[i].id));
            assert(same_scope(store[nodes[j].id], nodes[j]));
            assert(same_scope(store[nodes[i].id], nodes[i]));
        }
    }
}

proof fn lemma_child_shape(nodes: Seq<ScopeNode>, parent: i64, label: Seq<char>)
    ensures
        child_of(nodes, parent, label) matches Some(id) ==> exists|j: int|
            0 <= j < nodes.len() && is_child(#[trigger] nodes[j], parent, label) && nodes[j].id
                == id,
    decreases nodes.len(),
{
    if nodes.len() > 0 {
        let front = nodes.drop_last();
        lemma_child_shape(front, parent, label);
        if child_of(front, parent, label) is Some {
            let j = choose|j: int|
                0 <= j < front.len() && is_child(#[trigger] front[j], parent, label)
                    && front[j].id == child_of(front, parent, label)->0;
            assert(nodes[j] == front[j]);
        } else {
            assert(nodes[nodes.len() - 1] == nodes.last());
        }
    }
}

proof fn lemma_position_finds(nodes: Seq<ScopeNode>, id: i64)
    ensures
        match position(nodes, id) {
            Some(i) => 0 <= i < nodes.len() && nodes[i].id == id && forall|j: int|
                0 <= j < i ==> (#[trigger] nodes[j]).id != id,
            None => forall|j: int| 0 <= j < nodes.len() ==> (#[trigger] nodes[j]).id != id,
        },
    decreases nodes.len(),
{
    if nodes.len() > 0 {
        let front = nodes.drop_last();
        lemma_position_finds(front, id);
        match position(front, id) {
            Some(i) => {
                assert forall|j: int| 0 <= j < i implies (#[trigger] nodes[j]).id != id by {
                    assert(front[j] == nodes[j]);
                }
            },
            None => {
                assert forall|j: int| 0 <= j < nodes.len() - 1 implies (#[trigger] nodes[j]).id
                    != id by {
                    assert(front[j] == nodes[j]);
                }
            },
        }
    }
}

proof fn lemma_position_is_stable(nodes: Seq<ScopeNode>, n: int, id: i64)
    requires
        0 <= n <= nodes.len(),
        position(nodes.take(n), id) is Some,
    ensures
        position(nodes, id) == position(nodes.take(n), id),
    decreases nodes.len() - n,
{
    if n < nodes.len() {
        assert(nodes.take(n + 1).drop_last() =~= nodes.take(n));
        lemma_position_is_stable(nodes, n + 1, id);
    } else {
        assert(nodes.take(n) =~= nodes);
    }
}

/// The labels can stand in a path: each is usable as it stands, without spaces
/// around it.
pub open spec fn path_labels(labels: Seq<Seq<char>>) -> bool {
    forall|i: int|
        0 <= i < labels.len() ==> crate::types::scope::valid_segment(#[trigger] labels[i])
            && crate::text::trimmed(labels[i]) == labels[i]
}

proof fn lemma_split_slashed(labels: Seq<Seq<char>>)
    requires
        labels.len() > 0,
        path_labels(labels),
    ensures
        crate::text::split_at_slashes(slashed(labels)) == labels,
    decreases labels.len(),
{
    let last = labels.last();
    assert(last == labels[labels.len() - 1]);
    if labels.len() == 1 {
        crate::text::lemma_split_longer(Seq::empty(), last);
        assert(Seq::<char>::empty() + last =~= last);
        assert(crate::text::split_at_slashes(last) =~= labels);
    } else {
        let front = labels.drop_last();
        assert(path_labels(front)) by {
            assert forall|i: int| 0 <= i < front.len() implies crate::types::scope::valid_segment(
                #[trigger] front[i],
            ) && crate::text::trimmed(front[i]) == front[i] by {
                assert(front[i] == labels[i]);
            }
        }
        lemma_split_slashed(front);
        let text = slashed(front).push('/');
        assert(text.drop_last() =~= slashed(front));
        assert(crate::text::split_at_slashes(text) =~= front.push(Seq::empty()));
        crate::text::lemma_split_longer(text, last);
        assert(Seq::<char>::empty() + last =~= last);
        assert(front.push(Seq::<char>::empty()).drop_last() =~= front);
        assert(front.push(last) =~= labels);
    }
}

proof fn lemma_chain_links(nodes: Seq<ScopeNode>, id: i64, fuel: nat)
    requires
        fuel > 0,
    ensures
        chain(nodes, id, fuel).len() > 0,
        chain(nodes, id, fuel)[0] == id,
        forall|k: int|
            0 <= k < chain(nodes, id, fuel).len() - 1 ==> parent_of(
                nodes,
                #[trigger] chain(nodes, id, fuel)[k],
            ) == Some(chain(nodes, id, fuel)[k + 1]),
    decreases fuel,
{
    let c = chain(nodes, id, fuel);
    if fuel > 1 && id != ROOT_SCOPE_ID && parent_of(nodes, id) is Some {
        let parent = parent_of(nodes, id)->0;
        let rest = chain(nodes, parent, (fuel - 1) as nat);
        lemma_chain_links(nodes, parent, (fuel - 1) as nat);
        assert(c =~= seq![id] + rest);
        assert forall|k: int| 0 <= k < c.len() - 1 implies parent_of(nodes, #[trigger] c[k])
            == Some(c[k + 1]) by {
            if k > 0 {
                assert(c[k] == rest[k - 1]);
                assert(c[k + 1] == rest[k]);
            }
        }
    } else {
        reveal_with_fuel(chain, 2);
        assert(c.len() == 1);
    }
}

/// The path of a scope leads back to it: resolving what the tree gives as the path
/// of a scope below the root finds the scope, as long as the labels can stand in a
/// path and no two scopes with the same parent have the same label.
pub proof fn path_of_a_scope_leads_to_it(
    nodes: Seq<ScopeNode>,
    store: Map<i64, ScopeNode>,
    id: i64,
)
    requires
        mirrors(nodes, store),
        siblings_differ(store),
        path_of(nodes, id) is Some,
        id != ROOT_SCOPE_ID,
        path_labels(chain_labels(nodes, chain_up(nodes, id))),
    ensures
        resolved(nodes, path_of(nodes, id)->0) == Some(id),
{
    let c = chain_up(nodes, id);
    let n = c.len() as int;
    lemma_chain_links(nodes, id, (nodes.len() + 1) as nat);
    let labels = chain_labels(nodes, c);
    let found = Seq::new((n - 1) as nat, |k: int| nodes[position(nodes, c[k])->0]);
    assert(n > 1) by {
        if n == 1 {
            assert(c.last() == c[0]);
        }
    }
    assert forall|k: int| 0 <= k < found.len() implies {
        &&& position(nodes, c[k]) is Some
        &&& 0 <= position(nodes, c[k])->0 < nodes.len()
        &&& (#[trigger] found[k]).id == c[k]
        &&& found[k].parent_id == Some(c[k + 1])
        &&& found[k].label@ == label_of(nodes, c[k])
    } by {
        lemma_position_finds(nodes, c[k]);
        assert(parent_of(nodes, c[k]) == Some(c[k + 1]));
    }
    assert(is_chain_to_root(found)) by {
        assert(found.last() == found[n - 2]);
        assert(c.last() == c[n - 1]);
        assert forall|k: int| 0 <= k < found.len() - 1 implies (#[trigger] found[k]).parent_id
            == Some(found[k + 1].id) by {}
    }
    assert(mirrors(found, store)) by {
        assert forall|k: int| 0 <= k < found.len() implies store.contains_key(
            (#[trigger] found[k]).id,
        ) && same_scope(store[found[k].id], found[k]) by {
            assert(found[k] == nodes[position(nodes, c[k])->0]);
        }
    }
    assert forall|k: int| 0 <= k < found.len() implies position(nodes, (#[trigger] found[k]).id)
        is Some by {}
    lemma_walk_down(nodes, found, store, n - 1);
    assert(labels_down(found).take(n - 1) =~= labels) by {
        assert forall|k: int| 0 <= k < n - 1 implies labels_down(found)[k] == #[trigger] labels[k] by {
            assert(found[n - 2 - k].label@ == label_of(nodes, c[n - 2 - k]));
        }
    }
    lemma_split_slashed(labels);
    assert(labels_of(slashed(labels)) =~= labels);
}

/// A scope that is put into a tree is there, at the end, unless one with its id was
/// there before: then nothing changes.
pub proof fn scope_is_added_once(tree: &mut ScopeTree, node: ScopeNode)
    requires
        call_ensures(ScopeTree::insert, (tree, node), ()),
    ensures
        (forall|i: int| 0 <= i < old(tree).nodes().len() ==> (#[trigger] old(tree).nodes()[i]).id
            != node.id) ==> final(tree).nodes() == old(tree).nodes().push(node),
        (exists|i: int|
            0 <= i < old(tree).nodes().len() && (#[trigger] old(tree).nodes()[i]).id == node.id)
            ==> final(tree).nodes() == old(tree).nodes(),
{
    lemma_position_finds(old(tree).nodes(), node.id);
}

/// Several scopes are put into a tree one after the other: the last one into the
/// tree that the others left.
pub proof fn scopes_are_added_in_order(
    a: &mut ScopeTree,
    b: &mut ScopeTree,
    more: Vec<ScopeNode>,
    all: Vec<ScopeNode>,
    last: ScopeNode,
)
    requires
        old(a).nodes() == old(b).nodes(),
        all@ == more@.push(last),
        call_ensures(ScopeTree::insert_all, (a, more), ()),
        call_ensures(ScopeTree::insert_all, (b, all), ()),
    ensures
        more@.len() == 0 ==> final(a).nodes() == old(a).nodes(),
        (forall|i: int| 0 <= i < final(a).nodes().len() ==> (#[trigger] final(a).nodes()[i]).id
            != last.id) ==> final(b).nodes() == final(a).nodes().push(last),
        (exists|i: int|
            0 <= i < final(a).nodes().len() && (#[trigger] final(a).nodes()[i]).id == last.id)
            ==> final(b).nodes() == final(a).nodes(),
{
    assert(all@.drop_last() =~= more@);
    lemma_position_finds(final(a).nodes(), last.id);
}

proof fn lemma_child_is_first(nodes: Seq<ScopeNode>, parent: i64, label: Seq<char>)
    ensures
        match child_of(nodes, parent, label) {
            Some(id) => exists|j: int|
                0 <= j < nodes.len() && nodes[j].id == id && is_child(
                    #[trigger] nodes[j],
                    parent,
                    label,
                ) && forall|i: int| 0 <= i < j ==> !is_child(#[trigger] nodes[i], parent, label),
            None => forall|i: int|
                0 <= i < nodes.len() ==> !is_child(#[trigger] nodes[i], parent, label),
        },
    decreases nodes.len(),
{
    if nodes.len() > 0 {
        let front = nodes.drop_last();
        let n = nodes.len() - 1;
        lemma_child_is_first(front, parent, label);
        assert(nodes.last() == nodes[n]);
        if child_of(front, parent, label) is Some {
            let j = choose|j: int|
                0 <= j < front.len() && front[j].id == child_of(front, parent, label)->0
                    && is_child(#[trigger] front[j], parent, label) && forall|i: int|
                    0 <= i < j ==> !is_child(#[trigger] front[i], parent, label);
            assert(nodes[j] == front[j]);
            assert forall|i: int| 0 <= i < j implies !is_child(
                #[trigger] nodes[i],
                parent,
                label,
            ) by {
                assert(nodes[i] == front[i]);
            }
        } else {
            assert forall|i: int| 0 <= i < n implies !is_child(#[trigger] nodes[i], parent, label) by {
                assert(nodes[i] == front[i]);
            }
        }
    }
}

/// A path is followed label by label: behind a path that names a scope, one more
/// label names the first scope of the list with that parent and that label, white
/// space around it aside. Behind a path that names none it names none, and so does
/// a label that is not usable.
pub proof fn path_is_followed_label_by_label(
    tree: &ScopeTree,
    path: &str,
    longer: &str,
    label: Seq<char>,
    at: Option<i64>,
    r: Option<i64>,
)
    requires
        call_ensures(ScopeTree::resolve_path, (tree, path), at),
        call_ensures(ScopeTree::resolve_path, (tree, longer), r),
        longer@ == path@.push('/') + label,
        !label.contains('/'),
    ensures
        at is None ==> r is None,
        !crate::types::scope::valid_segment(crate::text::trimmed(label)) ==> r is None,
        r matches Some(id) ==> exists|j: int|
            0 <= j < tree.nodes().len() && (#[trigger] tree.nodes()[j]).id == id
                && tree.nodes()[j].parent_id == at && tree.nodes()[j].label@
                == crate::text::trimmed(label) && forall|i: int|
                0 <= i < j ==> !((#[trigger] tree.nodes()[i]).parent_id == at
                    && tree.nodes()[i].label@ == crate::text::trimmed(label)),
        at is Some && crate::types::scope::valid_segment(crate::text::trimmed(label)) && r is None
            ==> forall|i: int|
            0 <= i < tree.nodes().len() ==> !((#[trigger] tree.nodes()[i]).parent_id == at
                && tree.nodes()[i].label@ == crate::text::trimmed(label)),
{
    let nodes = tree.nodes();
    let labels = labels_of(path@);
    let more = labels_of(longer@);
    let last = crate::text::trimmed(label);
    lemma_one_more_label(path@, label);
    assert(more == labels.push(last));
    assert(more.drop_last() =~= labels);
    if all_valid(more) {
        assert forall|i: int| 0 <= i < labels.len() implies crate::types::scope::valid_segment(
            #[trigger] labels[i],
        ) by {
            assert(more[i] == labels[i]);
        }
        assert(more[labels.len() as int] == last);
    } else if all_valid(labels) && crate::types::scope::valid_segment(last) {
        assert forall|i: int| 0 <= i < more.len() implies crate::types::scope::valid_segment(
            #[trigger] more[i],
        ) by {
            if i < labels.len() {
                assert(more[i] == labels[i]);
            }
        }
    }
    if at is Some {
        lemma_child_is_first(nodes, at->0, last);
        if r is Some {
            let j = choose|j: int|
                0 <= j < nodes.len() && nodes[j].id == r->0 && is_child(
                    #[trigger] nodes[j],
                    at->0,
                    last,
                ) && forall|i: int| 0 <= i < j ==> !is_child(#[trigger] nodes[i], at->0, last);
            assert(nodes[j].id == r->0);
            assert forall|i: int| 0 <= i < j implies !((#[trigger] nodes[i]).parent_id == at
                && nodes[i].label@ == last) by {
                assert(!is_child(nodes[i], at->0, last));
            }
        } else if crate::types::scope::valid_segment(last) {
            assert forall|i: int| 0 <= i < nodes.len() implies !((#[trigger] nodes[i]).parent_id
                == at && nodes[i].label@ == last) by {
                assert(!is_child(nodes[i], at->0, last));
            }
        }
    }
}

proof fn lemma_one_more_label(path: Seq<char>, label: Seq<char>)
    requires
        !label.contains('/'),
    ensures
        labels_of(path.push('/') + label) == labels_of(path).push(crate::text::trimmed(label)),
{
    let text = path.push('/');
    let pieces = crate::text::split_at_slashes(path);
    assert(text.drop_last() =~= path);
    assert(crate::text::split_at_slashes(text) == pieces.push(Seq::empty()));
    crate::text::lemma_split_longer(text, label);
    assert(Seq::<char>::empty() + label =~= label);
    assert(pieces.push(Seq::<char>::empty()).drop_last() =~= pieces);
    assert(labels_of(text + label) =~= labels_of(path).push(crate::text::trimmed(label)));
}

/// A path of one label names the first scope under the root with that label, and
/// none when the label is not usable.
pub proof fn single_label_names_a_scope_under_the_root(
    tree: &ScopeTree,
    path: &str,
    r: Option<i64>,
)
    requires
        call_ensures(ScopeTree::resolve_path, (tree, path), r),
        !path@.contains('/'),
    ensures
        !crate::types::scope::valid_segment(crate::text::trimmed(path@)) ==> r is None,
        r matches Some(id) ==> exists|j: int|
            0 <= j < tree.nodes().len() && (#[trigger] tree.nodes()[j]).id == id
                && tree.nodes()[j].parent_id == Some(1i64) && tree.nodes()[j].label@
                == crate::text::trimmed(path@),
        crate::types::scope::valid_segment(crate::text::trimmed(path@)) && r is None ==> forall|
            i: int,
        |
            0 <= i < tree.nodes().len() ==> !((#[trigger] tree.nodes()[i]).parent_id == Some(1i64)
                && tree.nodes()[i].label@ == crate::text::trimmed(path@)),
{
    let nodes = tree.nodes();
    let last = crate::text::trimmed(path@);
    let labels = labels_of(path@);
    crate::text::lemma_split_longer(Seq::empty(), path@);
    assert(Seq::<char>::empty() + path@ =~= path@);
    assert(crate::text::split_at_slashes(path@) =~= seq![path@]);
    assert(labels =~= seq![last]);
    assert(labels[0] == last);
    assert(labels.drop_last() =~= Seq::<Seq<char>>::empty());
    reveal_with_fuel(walk, 2);
    lemma_child_is_first(nodes, 1, last);
    if crate::types::scope::valid_segment(last) {
        assert(all_valid(labels));
        assert(r == child_of(nodes, 1, last));
        if r is Some {
            let j = choose|j: int|
                0 <= j < nodes.len() && nodes[j].id == r->0 && is_child(
                    #[trigger] nodes[j],
                    1,
                    last,
                ) && forall|i: int| 0 <= i < j ==> !is_child(#[trigger] nodes[i], 1, last);
            assert(nodes[j].id == r->0);
        } else {
            assert forall|i: int| 0 <= i < nodes.len() implies !((#[trigger] nodes[i]).parent_id
                == Some(1i64) && nodes[i].label@ == last) by {
                assert(!is_child(nodes[i], 1, last));
            }
        }
    }
}

/// The ancestors of a scope start with the scope; each is followed by its parent, as
/// the list has it; and they end at the root, or at a scope whose parent the list
/// does not have. Only a ring of scopes is cut off. The root has no other ancestor.
pub proof fn ancestors_go_from_parent_to_parent(tree: &ScopeTree, id: i64, r: Vec<i64>, k: int)
    requires
        call_ensures(ScopeTree::ancestors, (tree, id), r),
    ensures
        r@.len() > 0,
        r@[0] == id,
        0 <= k < r@.len() - 1 ==> exists|i: int|
            0 <= i < tree.nodes().len() && (#[trigger] tree.nodes()[i]).id == r@[k]
                && tree.nodes()[i].parent_id == Some(r@[k + 1]),
        id == 1 ==> r@ == seq![1i64],
        r@.last() == 1 || r@.len() == tree.nodes().len() + 1 || (forall|i: int|
            0 <= i < tree.nodes().len() && (#[trigger] tree.nodes()[i]).id == r@.last() ==> exists|
                j: int,
            |
                0 <= j <= i && (#[trigger] tree.nodes()[j]).id == r@.last()
                    && tree.nodes()[j].parent_id is None),
{
    let nodes = tree.nodes();
    let fuel = (nodes.len() + 1) as nat;
    lemma_chain_links(nodes, id, fuel);
    lemma_chain_end(nodes, id, fuel);
    if 0 <= k < r@.len() - 1 {
        lemma_position_finds(nodes, r@[k]);
        assert(parent_of(nodes, r@[k]) == Some(r@[k + 1]));
        let i = position(nodes, r@[k])->0;
        assert(nodes[i].id == r@[k]);
    }
    if parent_of(nodes, r@.last()) is None {
        lemma_position_finds(nodes, r@.last());
        if position(nodes, r@.last()) is Some {
            let p = position(nodes, r@.last())->0;
            assert forall|i: int|
                0 <= i < nodes.len() && (#[trigger] nodes[i]).id == r@.last() implies exists|
                j: int,
            |
                0 <= j <= i && (#[trigger] nodes[j]).id == r@.last() && nodes[j].parent_id is None by {
                assert(nodes[p].id == r@.last() && nodes[p].parent_id is None && p <= i);
            }
        }
    }
}

proof fn lemma_chain_end(nodes: Seq<ScopeNode>, id: i64, fuel: nat)
    requires
        fuel > 0,
    ensures
        chain(nodes, id, fuel).len() > 0,
        chain(nodes, id, fuel).len() <= fuel,
        chain(nodes, id, fuel).last() == ROOT_SCOPE_ID || chain(nodes, id, fuel).len() == fuel
            || parent_of(nodes, chain(nodes, id, fuel).last()) is None,
    decreases fuel,
{
    reveal_with_fuel(chain, 2);
    if fuel > 1 && id != ROOT_SCOPE_ID && parent_of(nodes, id) is Some {
        let parent = parent_of(nodes, id)->0;
        let rest = chain(nodes, parent, (fuel - 1) as nat);
        lemma_chain_end(nodes, parent, (fuel - 1) as nat);
        assert(chain(nodes, id, fuel) =~= seq![id] + rest);
        assert((seq![id] + rest).last() == rest.last());
    }
}

/// A scope lies below another just when the other is among its ancestors: the
/// subtree starts with its top and holds just the scopes of the list that have the
/// top above them.
pub proof fn subtree_is_what_lies_below(
    tree: &ScopeTree,
    top: i64,
    r: Vec<i64>,
    id: i64,
    up: Vec<i64>,
)
    requires
        call_ensures(ScopeTree::subtree, (tree, top), r),
        call_ensures(ScopeTree::ancestors, (tree, id), up),
    ensures
        r@.len() > 0,
        r@[0] == top,
        r@.contains(id) <==> id == top || (up@.contains(top) && exists|i: int|
            0 <= i < tree.nodes().len() && (#[trigger] tree.nodes()[i]).id == id),
{
    broadcast use vstd::seq_lib::group_filter_ensures;

    let nodes = tree.nodes();
    let keep = |n: ScopeNode| n.id != top && chain_up(nodes, n.id).contains(top);
    let left = nodes.filter(keep);
    let rest = left.map_values(|n: ScopeNode| n.id);
    assert(r@ == seq![top] + rest);
    if r@.contains(id) && id != top {
        let k = choose|k: int| 0 <= k < r@.len() && r@[k] == id;
        assert(rest[k - 1] == id);
        assert(keep(left[k - 1]));
        assert(left.contains(left[k - 1]));
        nodes.lemma_filter_contains_rev(keep, left[k - 1]);
        let i = choose|i: int| 0 <= i < nodes.len() && nodes[i] == left[k - 1];
        assert(nodes[i].id == id);
    }
    if id == top {
        assert(r@[0] == id);
    }
    if id != top && up@.contains(top) && exists|i: int|
        0 <= i < nodes.len() && (#[trigger] nodes[i]).id == id {
        let i = choose|i: int| 0 <= i < nodes.len() && (#[trigger] nodes[i]).id == id;
        assert(keep(nodes[i]));
        nodes.lemma_filter_contains(keep, i);
        let k = choose|k: int| 0 <= k < left.len() && left[k] == nodes[i];
        assert(rest[k] == id);
        assert(r@[k + 1] == id);
    }
}

/// The path of a scope is that of its parent with its own label behind it; under the
/// root it is the label alone. The path of the root is empty, and an unknown scope
/// has none.
pub proof fn path_of_a_scope_extends_its_parents(
    tree: &ScopeTree,
    id: i64,
    i: int,
    path: Option<String>,
    above: Option<String>,
)
    requires
        0 <= i < tree.nodes().len(),
        tree.nodes()[i].id == id,
        forall|j: int| 0 <= j < i ==> (#[trigger] tree.nodes()[j]).id != id,
        id != 1,
        tree.nodes()[i].parent_id is Some,
        call_ensures(ScopeTree::path_for_id, (tree, id), path),
        call_ensures(
            ScopeTree::path_for_id,
            (tree, tree.nodes()[i].parent_id->0),
            above,
        ),
    ensures
        path is Some ==> above is Some,
        path is Some && tree.nodes()[i].parent_id == Some(1i64) ==> path->0@
            == tree.nodes()[i].label@ && above->0@.len() == 0,
        path is Some && tree.nodes()[i].parent_id != Some(1i64) ==> path->0@ == above->0@.push('/')
            + tree.nodes()[i].label@,
{
    let nodes = tree.nodes();
    let parent = nodes[i].parent_id->0;
    let label = nodes[i].label@;
    let c = chain_up(nodes, id);
    let n = nodes.len();
    lemma_position_finds(nodes, id);
    let p = position(nodes, id)->0;
    assert(position(nodes, id) is Some) by {
        if position(nodes, id) is None {
            assert(nodes[i].id != id);
        }
    }
    assert(p == i) by {
        if p < i {
            assert(nodes[p].id != id);
        } else if i < p {
            assert(nodes[i].id != id);
        }
    }
    assert(parent_of(nodes, id) == Some(parent));
    if path is Some {
        let d = chain(nodes, parent, n);
        assert(c == seq![id] + d);
        assert(d.len() > 0) by {
            if d.len() == 0 {
                assert(c.last() == id);
            }
        }
        assert(d.last() == c.last());
        lemma_more_fuel(nodes, parent, n);
        assert(chain_up(nodes, parent) == d);
        let up = chain_labels(nodes, d);
        assert(chain_labels(nodes, c) =~= up.push(label)) by {
            assert forall|k: int| 0 <= k < d.len() implies chain_labels(nodes, c)[k]
                == #[trigger] up.push(label)[k] by {
                if k < d.len() - 1 {
                    assert(c[c.len() - 2 - k] == d[d.len() - 2 - k]);
                } else {
                    assert(c[0] == id);
                }
            }
        }
        assert(up.push(label).drop_last() =~= up);
        if parent == ROOT_SCOPE_ID {
            assert(d =~= seq![parent]);
            assert(up.len() == 0);
        } else {
            assert(d.len() > 1) by {
                if d.len() == 1 {
                    lemma_chain_links(nodes, parent, n);
                    assert(d.last() == d[0]);
                }
            }
        }
    }
}

proof fn lemma_more_fuel(nodes: Seq<ScopeNode>, id: i64, fuel: nat)
    requires
        chain(nodes, id, fuel).len() > 0,
        chain(nodes, id, fuel).last() == ROOT_SCOPE_ID,
    ensures
        chain(nodes, id, fuel + 1) == chain(nodes, id, fuel),
    decreases fuel,
{
    reveal_with_fuel(chain, 2);
    if id != ROOT_SCOPE_ID && parent_of(nodes, id) is Some {
        let parent = parent_of(nodes, id)->0;
        let rest = chain(nodes, parent, (fuel - 1) as nat);
        assert(chain(nodes, id, fuel) == seq![id] + rest);
        if rest.len() == 0 {
            assert((seq![id] + rest).last() == id);
        } else {
            assert((seq![id] + rest).last() == rest.last());
            lemma_more_fuel(nodes, parent, (fuel - 1) as nat);
        }
    }
}

/// The path of the root is empty. A scope that the list does not have has no path.
pub proof fn only_known_scopes_have_paths(tree: &ScopeTree, id: i64, r: Option<String>)
    requires
        call_ensures(ScopeTree::path_for_id, (tree, id), r),
    ensures
        id == 1 ==> (r matches Some(path) && path@.len() == 0),
        id != 1 && (forall|i: int|
            0 <= i < tree.nodes().len() ==> (#[trigger] tree.nodes()[i]).id != id) ==> r is None,
{
    let nodes = tree.nodes();
    lemma_position_finds(nodes, id);
    let c = chain_up(nodes, id);
    if id == 1 {
        assert(c =~= seq![id]);
        assert(chain_labels(nodes, c).len() == 0);
    } else if forall|i: int| 0 <= i < nodes.len() ==> (#[trigger] nodes[i]).id != id {
        assert(position(nodes, id) is None) by {
            if position(nodes, id) is Some {
                assert(nodes[position(nodes, id)->0].id != id);
            }
        }
        assert(c =~= seq![id]);
    }
}

/// What the tree gives as the path of a scope, the tree resolves to that scope.
pub proof fn given_path_resolves_to_its_scope(
    tree: &ScopeTree,
    store: Map<i64, ScopeNode>,
    id: i64,
    path: String,
    text: &str,
    r: Option<i64>,
)
    requires
        mirrors(tree.nodes(), store),
        siblings_differ(store),
        id != 1,
        call_ensures(ScopeTree::path_for_id, (tree, id), Some(path)),
        path_labels(chain_labels(tree.nodes(), chain_up(tree.nodes(), id))),
        text@ == path@,
        call_ensures(ScopeTree::resolve_path, (tree, text), r),
    ensures
        r == Some(id),
{
    path_of_a_scope_leads_to_it(tree.nodes(), store, id);
}

/// A walk asks for its start, then for the parent of each scope that it was handed,
/// one at a time. It asks for no scope twice and never for the root; there, at a
/// scope without a parent, or back where it has been, it ends.
pub proof fn walk_asks_for_the_next_scope_up(walk: &mut ScopeChainWalk, r: Option<i64>)
    requires
        call_ensures(ScopeChainWalk::request, (walk,), r),
    ensures
        old(walk).nodes().len() == 0 && old(walk).requests().len() == 0 && old(walk).start_scope()
            != 1 ==> r == Some(old(walk).start_scope()),
        old(walk).nodes().len() > 0 && old(walk).nodes().last().parent_id is None ==> r is None,
        old(walk).nodes().len() > 0 && (old(walk).nodes().last().parent_id matches Some(p) && p != 1
            && !old(walk).requests().contains(p)) ==> r == old(walk).nodes().last().parent_id,
        r matches Some(id) ==> id != 1 && !old(walk).requests().contains(id) && final(
            walk).requests() == old(walk).requests().push(id),
        r is None ==> final(walk).requests() == old(walk).requests(),
        final(walk).nodes() == old(walk).nodes(),
        final(walk).start_scope() == old(walk).start_scope(),
{
    if old(walk).requests().len() == 0 {
        assert(!old(walk).requests().contains(old(walk).start_scope()));
    }
}

/// The scopes that a walk was handed go into the tree, in order; none is lost.
pub proof fn walked_scopes_go_into_the_tree(
    walk: ScopeChainWalk,
    tree: &mut ScopeTree,
    i: int,
    j: int,
)
    requires
        call_ensures(ScopeChainWalk::finish, (walk, tree), ()),
    ensures
        0 <= i < old(tree).nodes().len() ==> i < final(tree).nodes().len() && final(tree).nodes()[i] == old(tree).nodes()[i],
        0 <= j < walk.nodes().len() ==> exists|k: int|
            0 <= k < final(tree).nodes().len() && (#[trigger] final(tree).nodes()[k]).id
                == walk.nodes()[j].id,
{
    lemma_with_nodes_keeps(old(tree).nodes(), walk.nodes());
}

proof fn lemma_with_nodes_keeps(nodes: Seq<ScopeNode>, more: Seq<ScopeNode>)
    ensures
        with_nodes(nodes, more).len() >= nodes.len(),
        forall|i: int|
            0 <= i < nodes.len() ==> #[trigger] with_nodes(nodes, more)[i] == nodes[i],
        forall|j: int|
            0 <= j < more.len() ==> exists|k: int|
                0 <= k < with_nodes(nodes, more).len() && (#[trigger] with_nodes(nodes, more)[k]).id
                    == (#[trigger] more[j]).id,
    decreases more.len(),
{
    if more.len() > 0 {
        let front = more.drop_last();
        let some = with_nodes(nodes, front);
        let all = with_nodes(nodes, more);
        lemma_with_nodes_keeps(nodes, front);
        lemma_position_finds(some, more.last().id);
        assert forall|i: int| 0 <= i < nodes.len() implies #[trigger] all[i] == nodes[i] by {
            assert(some[i] == nodes[i]);
        }
        assert forall|j: int| 0 <= j < more.len() implies exists|k: int|
            0 <= k < all.len() && (#[trigger] all[k]).id == (#[trigger] more[j]).id by {
            if j < front.len() {
                assert(front[j] == more[j]);
                let k = choose|k: int| 0 <= k < some.len() && (#[trigger] some[k]).id == front[j].id;
                assert(all[k].id == more[j].id);
            } else if position(some, more.last().id) is Some {
                let k = position(some, more.last().id)->0;
                assert(all[k].id == more[j].id);
            } else {
                assert(all[some.len() as int].id == more[j].id);
            }
        }
    }
}

/// The scopes of a tree are handed out as they are, oldest first.
pub proof fn snapshot_holds_every_scope(tree: &ScopeTree, r: Vec<ScopeNode>, root: i64)
    requires
        call_ensures(ScopeTree::to_snapshot, (tree,), r),
        call_ensures(ScopeTree::root_id, (), root),
    ensures
        r@ == tree.nodes(),
        root == 1,
{
}

/// A walk starts with nothing asked and nothing handed to it, and keeps every scope
/// that it is handed, in order.
pub proof fn walk_keeps_what_it_is_handed(
    leaf: i64,
    start: ScopeChainWalk,
    walk: &mut ScopeChainWalk,
    node: ScopeNode,
)
    requires
        call_ensures(ScopeChainWalk::start, (leaf,), start),
        call_ensures(ScopeChainWalk::supply, (walk, node), ()),
    ensures
        start.start_scope() == leaf,
        start.nodes().len() == 0,
        final(walk).nodes() == old(walk).nodes().push(node),
        final(walk).requests() == old(walk).requests(),
        final(walk).start_scope() == old(walk).start_scope(),
{
}

} // verus!
