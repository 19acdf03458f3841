//! The monitor's watch-descriptor graph: one node per watched directory,
//! keyed by the kernel's watch identifier, mirroring the directory tree of a
//! workspace. Lookup by identifier and lookup by absolute path are two views
//! of one arena, so they can never fall out of lockstep; every non-root node
//! hangs in its parent's child list.

use vstd::prelude::*;
use crate::model::{WorkspaceInformation, str_eq, view_opt_string};

verus! {

/// Error of a watch-graph operation.
#[derive(Debug)]
pub struct Error {
    pub msg: String,
}

impl Error {
    pub fn new(msg: String) -> (r: Error)
        ensures
            r.msg == msg,
    {
        Error { msg }
    }
}

/// One watched directory: the kernel identifier, the workspace root, the
/// path relative to that root (none for the root itself), the absolute path,
/// and the identifiers of the directly contained watched directories.
pub struct WatchMetadata {
    pub wd: u64,
    pub ws_root_path: String,
    pub relative_path: Option<String>,
    pub path: String,
    pub child_watches: Vec<u64>,
}

/// Mathematical view of a [`WatchMetadata`].
#[verifier::ext_equal]
pub struct WatchNodeV {
    pub wd: u64,
    pub rel: Option<Seq<char>>,
    pub path: Seq<char>,
    pub children: Seq<u64>,
}

impl View for WatchMetadata {
    type V = WatchNodeV;

    open spec fn view(&self) -> WatchNodeV {
        WatchNodeV {
            wd: self.wd,
            rel: view_opt_string(self.relative_path),
            path: self.path@,
            children: self.child_watches@,
        }
    }
}

/// The watch graph of one running monitor.
pub struct MonitorState {
    pub workspace_info: WorkspaceInformation,
    pub nodes: Vec<WatchMetadata>,
}

pub open spec fn node_views(v: Seq<WatchMetadata>) -> Seq<WatchNodeV> {
    v.map_values(|m: WatchMetadata| m@)
}

/// `root` joined with a relative path.
pub open spec fn spec_join(root: Seq<char>, rel: Seq<char>) -> Seq<char> {
    root + seq!['/'] + rel
}

/// The absolute path a node must carry.
pub open spec fn node_path_ok(root: Seq<char>, n: WatchNodeV) -> bool {
    match n.rel {
        Option::None => n.path == root,
        Option::Some(r) => r.len() > 0 && r[r.len() - 1] != '/' && n.path == spec_join(root, r),
    }
}

/// `q` names a directory entry directly inside `t`.
pub open spec fn is_direct_child(t: Seq<char>, q: Seq<char>) -> bool {
    &&& q.len() > t.len() + 1
    &&& q.subrange(0, t.len() as int) == t
    &&& q[t.len() as int] == '/'
    &&& forall|k: int| t.len() + 1 <= k < q.len() ==> q[k] != '/'
}

/// `q` lies in the subtree rooted at `p`: it is `p` itself or below it.
pub open spec fn in_subtree(q: Seq<char>, p: Seq<char>) -> bool {
    ||| q == p
    ||| (q.len() > p.len() && q.subrange(0, p.len() as int) == p && q[p.len() as int] == '/')
}

/// The core invariants of the graph, with respect to the workspace root:
/// identifiers pairwise distinct, paths pairwise distinct, and every path
/// derived from the root and the relative path (the root's relative path is
/// none). Distinctness makes the identifier mapping and the path mapping two
/// lockstep views of one arena.
pub open spec fn graph_wf(root: Seq<char>, s: Seq<WatchNodeV>) -> bool {
    &&& forall|i: int, j: int| 0 <= i < j < s.len() ==> s[i].wd != s[j].wd
    &&& forall|i: int, j: int| 0 <= i < j < s.len() ==> s[i].path != s[j].path
    &&& forall|i: int| 0 <= i < s.len() ==> node_path_ok(root, #[trigger] s[i])
}

/// The child-list invariants: every child entry is the identifier of a node
/// directly below its parent, child lists are free of repetition, and every
/// non-root node is recorded in some parent's child list.
pub open spec fn children_linked(root: Seq<char>, s: Seq<WatchNodeV>) -> bool {
    &&& forall|i: int, k: int|
        0 <= i < s.len() && 0 <= k < s[i].children.len() ==> exists|j: int|
            0 <= j < s.len() && s[j].wd == #[trigger] s[i].children[k] && is_direct_child(
                s[i].path,
                s[j].path,
            )
    &&& forall|i: int, k: int, l: int|
        0 <= i < s.len() && 0 <= k < l < s[i].children.len()
            ==> #[trigger] s[i].children[k] != #[trigger] s[i].children[l]
    &&& forall|j: int|
        0 <= j < s.len() && (#[trigger] s[j].path) != root ==> exists|i: int, k: int|
            0 <= i < s.len() && 0 <= k < s[i].children.len() && s[i].children[k] == s[j].wd
}

/// Index of the first node carrying watch identifier `wd`.
pub open spec fn idx_by_wd_from(s: Seq<WatchNodeV>, wd: u64, i: int) -> int
    decreases s.len() - i when 0 <= i <= s.len()
{
    if i >= s.len() {
        s.len() as int
    } else if s[i].wd == wd {
        i
    } else {
        idx_by_wd_from(s, wd, i + 1)
    }
}

pub open spec fn idx_by_wd(s: Seq<WatchNodeV>, wd: u64) -> int {
    idx_by_wd_from(s, wd, 0)
}

/// Index of the first node at absolute path `p`.
pub open spec fn idx_by_path_from(s: Seq<WatchNodeV>, p: Seq<char>, i: int) -> int
    decreases s.len() - i when 0 <= i <= s.len()
{
    if i >= s.len() {
        s.len() as int
    } else if s[i].path == p {
        i
    } else {
        idx_by_path_from(s, p, i + 1)
    }
}

pub open spec fn idx_by_path(s: Seq<WatchNodeV>, p: Seq<char>) -> int {
    idx_by_path_from(s, p, 0)
}

pub open spec fn has_wd(s: Seq<WatchNodeV>, wd: u64) -> bool {
    exists|i: int| 0 <= i < s.len() && s[i].wd == wd
}

pub open spec fn has_path(s: Seq<WatchNodeV>, p: Seq<char>) -> bool {
    exists|i: int| 0 <= i < s.len() && s[i].path == p
}

pub proof fn lemma_idx_by_wd_from(s: Seq<WatchNodeV>, wd: u64, i: int)
    requires
        0 <= i <= s.len(),
    ensures
        i <= idx_by_wd_from(s, wd, i) <= s.len(),
        idx_by_wd_from(s, wd, i) < s.len() ==> s[idx_by_wd_from(s, wd, i)].wd == wd,
        forall|k: int| i <= k < idx_by_wd_from(s, wd, i) ==> s[k].wd != wd,
    decreases s.len() - i,
{
    if i < s.len() && s[i].wd != wd {
        lemma_idx_by_wd_from(s, wd, i + 1);
    }
}

pub proof fn lemma_idx_by_wd(s: Seq<WatchNodeV>, wd: u64)
    ensures
        0 <= idx_by_wd(s, wd) <= s.len(),
        idx_by_wd(s, wd) < s.len() ==> s[idx_by_wd(s, wd)].wd == wd,
        forall|k: int| 0 <= k < idx_by_wd(s, wd) ==> s[k].wd != wd,
        (idx_by_wd(s, wd) < s.len()) == has_wd(s, wd),
{
    lemma_idx_by_wd_from(s, wd, 0);
    if idx_by_wd(s, wd) < s.len() {
        assert(has_wd(s, wd));
    }
}

pub proof fn lemma_idx_by_path_from(s: Seq<WatchNodeV>, p: Seq<char>, i: int)
    requires
        0 <= i <= s.len(),
    ensures
        i <= idx_by_path_from(s, p, i) <= s.len(),
        idx_by_path_from(s, p, i) < s.len() ==> s[idx_by_path_from(s, p, i)].path == p,
        forall|k: int| i <= k < idx_by_path_from(s, p, i) ==> s[k].path != p,
    decreases s.len() - i,
{
    if i < s.len() && s[i].path != p {
        lemma_idx_by_path_from(s, p, i + 1);
    }
}

pub proof fn lemma_idx_by_path(s: Seq<WatchNodeV>, p: Seq<char>)
    ensures
        0 <= idx_by_path(s, p) <= s.len(),
        idx_by_path(s, p) < s.len() ==> s[idx_by_path(s, p)].path == p,
        forall|k: int| 0 <= k < idx_by_path(s, p) ==> s[k].path != p,
        (idx_by_path(s, p) < s.len()) == has_path(s, p),
{
    lemma_idx_by_path_from(s, p, 0);
    if idx_by_path(s, p) < s.len() {
        assert(has_path(s, p));
    }
}

/// The two auxiliary mappings are in lockstep: looking a node's identifier up
/// and looking its path up reach the same node, in both directions.
pub proof fn lemma_mappings_lockstep(root: Seq<char>, s: Seq<WatchNodeV>)
    requires
        graph_wf(root, s),
    ensures
        forall|i: int|
            0 <= i < s.len() ==> idx_by_wd(s, #[trigger] s[i].wd) == i && idx_by_path(
                s,
                s[i].path,
            ) == i,
{
    assert forall|i: int| 0 <= i < s.len() implies idx_by_wd(s, #[trigger] s[i].wd) == i
        && idx_by_path(s, s[i].path) == i by {
        lemma_idx_by_wd(s, s[i].wd);
        let a = idx_by_wd(s, s[i].wd);
        assert(a < s.len());
        if a != i {
            assert(s[a].wd == s[i].wd);
            assert(false);
        }
        lemma_idx_by_path(s, s[i].path);
        let b = idx_by_path(s, s[i].path);
        assert(b < s.len());
        if b != i {
            assert(s[b].path == s[i].path);
            assert(false);
        }
    }
}

impl View for MonitorState {
    type V = Seq<WatchNodeV>;

    open spec fn view(&self) -> Seq<WatchNodeV> {
        node_views(self.nodes@)
    }
}

impl MonitorState {
    /// The workspace root all nodes hang under.
    pub open spec fn root(&self) -> Seq<char> {
        self.workspace_info.local_path@
    }

    pub open spec fn wf(&self) -> bool {
        graph_wf(self.root(), self@)
    }

    /// The child-list invariants of this graph.
    pub open spec fn linked(&self) -> bool {
        children_linked(self.root(), self@)
    }

    /// An empty graph for a workspace.
    pub fn default(ws_info: WorkspaceInformation) -> (r: MonitorState)
        ensures
            r@ == Seq::<WatchNodeV>::empty(),
            r.workspace_info == ws_info,
            r.root() == ws_info.local_path@,
            r.wf(),
    {
        let r = MonitorState { workspace_info: ws_info, nodes: Vec::new() };
        proof {
            assert(r@ =~= Seq::<WatchNodeV>::empty());
        }
        r
    }

    /// Forgets every watch, keeping the workspace description.
    pub fn reset_state(&mut self)
        ensures
            final(self)@ == Seq::<WatchNodeV>::empty(),
            final(self).workspace_info == old(self).workspace_info,
            final(self).root() == old(self).root(),
            final(self).wf(),
    {
        self.nodes = Vec::new();
        proof {
            assert(self@ =~= Seq::<WatchNodeV>::empty());
        }
    }

    /// How many directories are watched.
    pub fn node_count(&self) -> (r: usize)
        ensures
            r as int == self@.len(),
    {
        self.nodes.len()
    }

    fn index_by_wd(&self, wd: u64) -> (r: Option<usize>)
        ensures
            match r {
                Option::Some(i) => i as int == idx_by_wd(self@, wd) && i < self@.len(),
                Option::None => !has_wd(self@, wd),
            },
    {
        let ghost s = self@;
        let n = self.nodes.len();
        let mut i: usize = 0;
        while i < n
            invariant
                i <= n,
                n == self.nodes.len(),
                s == self@,
                idx_by_wd(s, wd) == idx_by_wd_from(s, wd, i as int),
            decreases n - i,
        {
            proof {
                assert(s[i as int] == self.nodes@[i as int]@);
            }
            if self.nodes[i].wd == wd {
                assert(idx_by_wd_from(s, wd, i as int) == i as int);
                return Option::Some(i);
            }
            assert(idx_by_wd_from(s, wd, i as int) == idx_by_wd_from(s, wd, i as int + 1));
            i = i + 1;
        }
        proof {
            lemma_idx_by_wd(s, wd);
        }
        Option::None
    }

    fn index_by_path(&self, p: &String) -> (r: Option<usize>)
        ensures
            match r {
                Option::Some(i) => i as int == idx_by_path(self@, p@) && i < self@.len(),
                Option::None => !has_path(self@, p@),
            },
    {
        let ghost s = self@;
        let n = self.nodes.len();
        let mut i: usize = 0;
        while i < n
            invariant
                i <= n,
                n == self.nodes.len(),
                s == self@,
                idx_by_path(s, p@) == idx_by_path_from(s, p@, i as int),
            decreases n - i,
        {
            proof {
                assert(s[i as int] == self.nodes@[i as int]@);
            }
            if str_eq(&self.nodes[i].path, p) {
                assert(idx_by_path_from(s, p@, i as int) == i as int);
                return Option::Some(i);
            }
            assert(idx_by_path_from(s, p@, i as int) == idx_by_path_from(s, p@, i as int + 1));
            i = i + 1;
        }
        proof {
            lemma_idx_by_path(s, p@);
        }
        Option::None
    }

    /// Whether the graph knows watch identifier `wd`.
    pub fn contains_wd(&self, wd: u64) -> (r: bool)
        ensures
            r == has_wd(self@, wd),
    {
        match self.index_by_wd(wd) {
            Option::Some(_) => {
                proof {
                    lemma_idx_by_wd(self@, wd);
                }
                true
            },
            Option::None => false,
        }
    }

    /// The watch identifier recorded for an absolute path.
    pub fn get_wd(&self, path: &String) -> (r: Option<u64>)
        ensures
            match r {
                Option::Some(wd) => idx_by_path(self@, path@) < self@.len() && wd
                    == self@[idx_by_path(self@, path@)].wd,
                Option::None => !has_path(self@, path@),
            },
    {
        match self.index_by_path(path) {
            Option::Some(i) => {
                proof {
                    assert(self@[i as int] == self.nodes@[i as int]@);
                }
                Option::Some(self.nodes[i].wd)
            },
            Option::None => Option::None,
        }
    }

    /// A copy of the node recorded for `wd`.
    pub fn get_metadata(&self, wd: u64) -> (r: Option<WatchMetadata>)
        ensures
            match r {
                Option::Some(md) => idx_by_wd(self@, wd) < self@.len() && md@ == self@[idx_by_wd(
                    self@,
                    wd,
                )],
                Option::None => !has_wd(self@, wd),
            },
    {
        match self.index_by_wd(wd) {
            Option::Some(i) => {
                proof {
                    assert(self@[i as int] == self.nodes@[i as int]@);
                }
                Option::Some(clone_metadata(&self.nodes[i]))
            },
            Option::None => Option::None,
        }
    }

    /// A copy of the node recorded for an absolute path.
    pub fn get_metadata_from_path(&self, path: &String) -> (r: Option<WatchMetadata>)
        ensures
            match r {
                Option::Some(md) => idx_by_path(self@, path@) < self@.len() && md@
                    == self@[idx_by_path(self@, path@)],
                Option::None => !has_path(self@, path@),
            },
    {
        match self.index_by_path(path) {
            Option::Some(i) => {
                proof {
                    assert(self@[i as int] == self.nodes@[i as int]@);
                }
                Option::Some(clone_metadata(&self.nodes[i]))
            },
            Option::None => Option::None,
        }
    }
}

/// Clones a node; the copy views equal to the original.
pub fn clone_metadata(md: &WatchMetadata) -> (r: WatchMetadata)
    ensures
        r@ == md@,
{
    let mut children: Vec<u64> = Vec::new();
    let n = md.child_watches.len();
    let mut i: usize = 0;
    while i < n
        invariant
            i <= n,
            n == md.child_watches.len(),
            children@ == md.child_watches@.take(i as int),
        decreases n - i,
    {
        children.push(md.child_watches[i]);
        proof {
            assert(children@ =~= md.child_watches@.take(i as int + 1));
        }
        i = i + 1;
    }
    proof {
        assert(md.child_watches@.take(n as int) =~= md.child_watches@);
    }
    let r = WatchMetadata {
        wd: md.wd,
        ws_root_path: md.ws_root_path.clone(),
        relative_path: crate::model::clone_opt_string(&md.relative_path),
        path: md.path.clone(),
        child_watches: children,
    };
    proof {
        assert(r@ =~= md@);
    }
    r
}

// --- path facts ---

/// Index of the last slash in `p`, or `-1` when there is none.
pub open spec fn last_slash(p: Seq<char>) -> int
    decreases p.len(),
{
    if p.len() == 0 {
        -1
    } else if p[p.len() - 1] == '/' {
        p.len() - 1
    } else {
        last_slash(p.drop_last())
    }
}

/// The path of the directory containing `p`.
pub open spec fn parent_of(p: Seq<char>) -> Seq<char> {
    p.subrange(0, last_slash(p))
}

pub proof fn lemma_last_slash(p: Seq<char>)
    ensures
        -1 <= last_slash(p) < p.len(),
        last_slash(p) >= 0 ==> p[last_slash(p)] == '/',
        forall|k: int| last_slash(p) < k < p.len() ==> p[k] != '/',
    decreases p.len(),
{
    if p.len() > 0 && p[p.len() - 1] != '/' {
        lemma_last_slash(p.drop_last());
        assert forall|k: int| last_slash(p) < k < p.len() implies p[k] != '/' by {
            if k < p.len() - 1 {
                assert(p.drop_last()[k] == p[k]);
            }
        }
        if last_slash(p) >= 0 {
            assert(p.drop_last()[last_slash(p)] == p[last_slash(p)]);
        }
    }
}

/// A directory below a directory of the subtree lies in the subtree.
pub proof fn lemma_child_in_subtree(p: Seq<char>, t: Seq<char>, q: Seq<char>)
    requires
        in_subtree(t, p),
        is_direct_child(t, q),
    ensures
        in_subtree(q, p),
{
    assert forall|k: int| 0 <= k < t.len() implies q[k] == t[k] by {
        assert(q.subrange(0, t.len() as int)[k] == t[k]);
    }
    if t == p {
        assert(q.subrange(0, p.len() as int) =~= p);
    } else {
        assert forall|k: int| 0 <= k < p.len() implies t[k] == p[k] by {
            assert(t.subrange(0, p.len() as int)[k] == p[k]);
        }
        assert(q.subrange(0, p.len() as int) =~= p);
        assert(q[p.len() as int] == t[p.len() as int]);
    }
}

/// The parent of a strict descendant of `p` still lies in the subtree of `p`.
pub proof fn lemma_parent_in_subtree(p: Seq<char>, t: Seq<char>, q: Seq<char>)
    requires
        in_subtree(q, p),
        q != p,
        is_direct_child(t, q),
    ensures
        in_subtree(t, p),
{
    assert forall|k: int| 0 <= k < t.len() implies q[k] == t[k] by {
        assert(q.subrange(0, t.len() as int)[k] == t[k]);
    }
    assert forall|k: int| 0 <= k < p.len() implies q[k] == p[k] by {
        assert(q.subrange(0, p.len() as int)[k] == p[k]);
    }
    if t.len() == p.len() {
        assert(t =~= p);
    } else if t.len() > p.len() {
        assert(t.subrange(0, p.len() as int) =~= p);
        assert(t[p.len() as int] == q[p.len() as int]);
        assert(q[p.len() as int] == '/');
    } else {
        // The slash at `q[p.len()]` would sit inside the entry name.
        assert(q[p.len() as int] == '/');
        assert(t.len() + 1 <= p.len() < q.len());
        assert(false);
    }
}

// --- the graph mutations ---

/// A node with one more recorded child.
pub open spec fn with_child(n: WatchNodeV, wd: u64) -> WatchNodeV {
    WatchNodeV { wd: n.wd, rel: n.rel, path: n.path, children: n.children.push(wd) }
}

/// The root node of a fresh graph.
pub open spec fn root_node(root: Seq<char>, wd: u64) -> WatchNodeV {
    WatchNodeV { wd, rel: Option::None, path: root, children: Seq::empty() }
}

/// A node for the directory `rel` below the root.
pub open spec fn child_node(root: Seq<char>, rel: Seq<char>, wd: u64) -> WatchNodeV {
    WatchNodeV { wd, rel: Option::Some(rel), path: spec_join(root, rel), children: Seq::empty() }
}

/// A child list with every reference to `wd` dropped.
pub open spec fn strip_list(cs: Seq<u64>, wd: u64) -> Seq<u64> {
    cs.filter(|c: u64| c != wd)
}

/// A node with every reference to `wd` dropped from its child list.
pub open spec fn strip_child(n: WatchNodeV, wd: u64) -> WatchNodeV {
    WatchNodeV { wd: n.wd, rel: n.rel, path: n.path, children: strip_list(n.children, wd) }
}

/// The nodes that survive unregistering the subtree at `p`.
pub open spec fn kept_nodes(s: Seq<WatchNodeV>, p: Seq<char>) -> Seq<WatchNodeV> {
    s.filter(|n: WatchNodeV| !in_subtree(n.path, p))
}

/// The nodes that the unregistering removes.
pub open spec fn gone_nodes(s: Seq<WatchNodeV>, p: Seq<char>) -> Seq<WatchNodeV> {
    s.filter(|n: WatchNodeV| in_subtree(n.path, p))
}

proof fn lemma_strip_list_push(cs: Seq<u64>, x: u64, wd: u64)
    ensures
        strip_list(cs.push(x), wd) == (if x != wd {
            strip_list(cs, wd).push(x)
        } else {
            strip_list(cs, wd)
        }),
{
    reveal(Seq::filter);
    assert(cs.push(x).drop_last() =~= cs);
    if x != wd {
        assert(strip_list(cs.push(x), wd) =~= strip_list(cs, wd).push(x));
    } else {
        assert(strip_list(cs.push(x), wd) =~= strip_list(cs, wd));
    }
}

/// What dropping `wd` from a child list leaves: everything else, exactly.
proof fn lemma_strip_list_facts(cs: Seq<u64>, wd: u64)
    ensures
        strip_list(cs, wd).len() <= cs.len(),
        forall|i: int|
            0 <= i < strip_list(cs, wd).len() ==> #[trigger] strip_list(cs, wd)[i] != wd
                && (exists|j: int| 0 <= j < cs.len() && cs[j] == strip_list(cs, wd)[i]),
        forall|k: int|
            0 <= k < cs.len() && (#[trigger] cs[k]) != wd ==> exists|i: int|
                0 <= i < strip_list(cs, wd).len() && strip_list(cs, wd)[i] == cs[k],
        (forall|k: int, l: int| 0 <= k < l < cs.len() ==> cs[k] != cs[l]) ==> (forall|k: int, l: int|
            0 <= k < l < strip_list(cs, wd).len() ==> strip_list(cs, wd)[k] != strip_list(
                cs,
                wd,
            )[l]),
    decreases cs.len(),
{
    if cs.len() == 0 {
        reveal(Seq::filter);
    } else {
        let dl = cs.drop_last();
        let x = cs.last();
        lemma_strip_list_facts(dl, wd);
        assert(cs =~= dl.push(x));
        lemma_strip_list_push(dl, x, wd);
        let t0 = strip_list(dl, wd);
        let t1 = strip_list(cs, wd);
        assert forall|i: int|
            0 <= i < t1.len() implies #[trigger] t1[i] != wd && (exists|j: int|
            0 <= j < cs.len() && cs[j] == t1[i]) by {
            if i < t0.len() {
                assert(t1[i] == t0[i]);
                let j = choose|j: int| 0 <= j < dl.len() && dl[j] == t0[i];
                assert(cs[j] == t1[i]);
            } else {
                assert(t1[i] == x);
                assert(cs[cs.len() - 1] == t1[i]);
            }
        }
        assert forall|k: int|
            0 <= k < cs.len() && (#[trigger] cs[k]) != wd implies exists|i: int|
            0 <= i < t1.len() && t1[i] == cs[k] by {
            if k < dl.len() {
                let i = choose|i: int| 0 <= i < t0.len() && t0[i] == dl[k];
                assert(t1[i] == cs[k]);
            } else {
                assert(cs[k] == x);
                assert(t1[t1.len() - 1] == cs[k]);
            }
        }
        if forall|k: int, l: int| 0 <= k < l < cs.len() ==> cs[k] != cs[l] {
            assert(forall|k: int, l: int| 0 <= k < l < dl.len() ==> dl[k] != dl[l]);
            assert forall|k: int, l: int|
                0 <= k < l < t1.len() implies t1[k] != t1[l] by {
                if l < t0.len() {
                    assert(t1[k] == t0[k] && t1[l] == t0[l]);
                } else if x != wd && l == t1.len() - 1 {
                    assert(t1[k] == t0[k]);
                    let j = choose|j: int| 0 <= j < dl.len() && dl[j] == t0[k];
                    assert(cs[j] != cs[cs.len() - 1]);
                }
            }
        }
    }
}

proof fn lemma_kept_push(s: Seq<WatchNodeV>, x: WatchNodeV, p: Seq<char>)
    ensures
        kept_nodes(s.push(x), p) == (if !in_subtree(x.path, p) {
            kept_nodes(s, p).push(x)
        } else {
            kept_nodes(s, p)
        }),
        gone_nodes(s.push(x), p) == (if in_subtree(x.path, p) {
            gone_nodes(s, p).push(x)
        } else {
            gone_nodes(s, p)
        }),
{
    reveal(Seq::filter);
    assert(s.push(x).drop_last() =~= s);
    if !in_subtree(x.path, p) {
        assert(kept_nodes(s.push(x), p) =~= kept_nodes(s, p).push(x));
        assert(gone_nodes(s.push(x), p) =~= gone_nodes(s, p));
    } else {
        assert(kept_nodes(s.push(x), p) =~= kept_nodes(s, p));
        assert(gone_nodes(s.push(x), p) =~= gone_nodes(s, p).push(x));
    }
}

/// Every kept node lies outside the subtree and comes from `s`.
#[verifier::rlimit(100)]
proof fn lemma_kept_elem(s: Seq<WatchNodeV>, p: Seq<char>)
    ensures
        kept_nodes(s, p).len() <= s.len(),
        forall|i: int|
            0 <= i < kept_nodes(s, p).len() ==> !in_subtree(
                (#[trigger] kept_nodes(s, p)[i]).path,
                p,
            ) && (exists|j: int| 0 <= j < s.len() && s[j] == kept_nodes(s, p)[i]),
    decreases s.len(),
{
    if s.len() == 0 {
        reveal(Seq::filter);
    } else {
        let dl = s.drop_last();
        let x = s.last();
        lemma_kept_elem(dl, p);
        assert(s =~= dl.push(x));
        lemma_kept_push(dl, x, p);
        let t0 = kept_nodes(dl, p);
        let t1 = kept_nodes(s, p);
        assert forall|i: int|
            0 <= i < t1.len() implies !in_subtree((#[trigger] t1[i]).path, p) && (exists|j: int|
            0 <= j < s.len() && s[j] == t1[i]) by {
            if i < t0.len() {
                assert(t1[i] == t0[i]);
                let j = choose|j: int| 0 <= j < dl.len() && dl[j] == t0[i];
                assert(s[j] == t1[i]);
            } else {
                assert(t1[i] == x);
                assert(s[s.len() - 1] == t1[i]);
            }
        }
    }
}

/// Every node of `s` outside the subtree is kept.
#[verifier::rlimit(100)]
proof fn lemma_kept_complete(s: Seq<WatchNodeV>, p: Seq<char>)
    ensures
        forall|j: int|
            0 <= j < s.len() && !in_subtree((#[trigger] s[j]).path, p) ==> exists|i: int|
                0 <= i < kept_nodes(s, p).len() && kept_nodes(s, p)[i] == s[j],
    decreases s.len(),
{
    if s.len() > 0 {
        let dl = s.drop_last();
        let x = s.last();
        lemma_kept_complete(dl, p);
        assert(s =~= dl.push(x));
        lemma_kept_push(dl, x, p);
        let t0 = kept_nodes(dl, p);
        let t1 = kept_nodes(s, p);
        assert forall|j: int|
            0 <= j < s.len() && !in_subtree((#[trigger] s[j]).path, p) implies exists|i: int|
            0 <= i < t1.len() && t1[i] == s[j] by {
            if j < dl.len() {
                assert(s[j] == dl[j]);
                let i = choose|i: int| 0 <= i < t0.len() && t0[i] == dl[j];
                assert(t1[i] == s[j]);
            } else {
                assert(s[j] == x);
                assert(t1[t1.len() - 1] == s[j]);
            }
        }
    }
}

/// Keeping nodes preserves pairwise distinct identifiers and paths.
#[verifier::rlimit(100)]
proof fn lemma_kept_distinct(s: Seq<WatchNodeV>, p: Seq<char>)
    requires
        forall|k: int, l: int| 0 <= k < l < s.len() ==> s[k].wd != s[l].wd,
        forall|k: int, l: int| 0 <= k < l < s.len() ==> s[k].path != s[l].path,
    ensures
        forall|k: int, l: int|
            0 <= k < l < kept_nodes(s, p).len() ==> (#[trigger] kept_nodes(s, p)[k]).wd != (
            #[trigger] kept_nodes(s, p)[l]).wd,
        forall|k: int, l: int|
            0 <= k < l < kept_nodes(s, p).len() ==> (#[trigger] kept_nodes(s, p)[k]).path != (
            #[trigger] kept_nodes(s, p)[l]).path,
    decreases s.len(),
{
    if s.len() > 0 {
        let dl = s.drop_last();
        let x = s.last();
        assert(forall|k: int, l: int| 0 <= k < l < dl.len() ==> dl[k].wd != dl[l].wd);
        assert(forall|k: int, l: int| 0 <= k < l < dl.len() ==> dl[k].path != dl[l].path);
        lemma_kept_distinct(dl, p);
        lemma_kept_elem(dl, p);
        assert(s =~= dl.push(x));
        lemma_kept_push(dl, x, p);
        let t0 = kept_nodes(dl, p);
        let t1 = kept_nodes(s, p);
        assert forall|k: int, l: int|
            0 <= k < l < t1.len() implies (#[trigger] t1[k]).wd != (#[trigger] t1[l]).wd && (
        #[trigger] t1[k]).path != (#[trigger] t1[l]).path by {
            if l < t0.len() {
                assert(t1[k] == t0[k] && t1[l] == t0[l]);
            } else if !in_subtree(x.path, p) && l == t1.len() - 1 {
                assert(t1[k] == t0[k]);
                let j = choose|j: int| 0 <= j < dl.len() && dl[j] == t0[k];
                assert(s[j].wd != s[s.len() - 1].wd);
                assert(s[j].path != s[s.len() - 1].path);
            }
        }
    }
}

/// The facts above, bundled.
proof fn lemma_kept_facts(s: Seq<WatchNodeV>, p: Seq<char>)
    ensures
        kept_nodes(s, p).len() <= s.len(),
        forall|i: int|
            0 <= i < kept_nodes(s, p).len() ==> !in_subtree(
                (#[trigger] kept_nodes(s, p)[i]).path,
                p,
            ) && (exists|j: int| 0 <= j < s.len() && s[j] == kept_nodes(s, p)[i]),
        forall|j: int|
            0 <= j < s.len() && !in_subtree((#[trigger] s[j]).path, p) ==> exists|i: int|
                0 <= i < kept_nodes(s, p).len() && kept_nodes(s, p)[i] == s[j],
{
    lemma_kept_elem(s, p);
    lemma_kept_complete(s, p);
}

pub open spec fn spec_remove_subtree(s: Seq<WatchNodeV>, p: Seq<char>, wd: u64) -> Seq<WatchNodeV> {
    kept_nodes(s, p).map_values(|n: WatchNodeV| strip_child(n, wd))
}

/// The identifiers of the nodes that the unregistering removes, in order.
pub open spec fn removed_wds(s: Seq<WatchNodeV>, p: Seq<char>) -> Seq<u64> {
    gone_nodes(s, p).map_values(|n: WatchNodeV| n.wd)
}

/// One step of the removal: how both results grow when one node is appended.
proof fn lemma_remove_subtree_push(s: Seq<WatchNodeV>, x: WatchNodeV, p: Seq<char>, wd: u64)
    ensures
        !in_subtree(x.path, p) ==> spec_remove_subtree(s.push(x), p, wd) == spec_remove_subtree(
            s,
            p,
            wd,
        ).push(strip_child(x, wd)) && removed_wds(s.push(x), p) == removed_wds(s, p),
        in_subtree(x.path, p) ==> spec_remove_subtree(s.push(x), p, wd) == spec_remove_subtree(
            s,
            p,
            wd,
        ) && removed_wds(s.push(x), p) == removed_wds(s, p).push(x.wd),
{
    lemma_kept_push(s, x, p);
    if !in_subtree(x.path, p) {
        assert(spec_remove_subtree(s.push(x), p, wd) =~= spec_remove_subtree(s, p, wd).push(
            strip_child(x, wd),
        ));
        assert(removed_wds(s.push(x), p) =~= removed_wds(s, p));
    } else {
        assert(spec_remove_subtree(s.push(x), p, wd) =~= spec_remove_subtree(s, p, wd));
        assert(removed_wds(s.push(x), p) =~= removed_wds(s, p).push(x.wd));
    }
}

impl MonitorState {
    /// Registers a watch for the workspace root itself.
    pub fn add_root_watch(&mut self, wd: u64) -> (r: Result<(), Error>)
        ensures
            final(self).workspace_info == old(self).workspace_info,
            final(self).root() == old(self).root(),
            match r {
                Result::Ok(_) => {
                    &&& !has_wd(old(self)@, wd)
                    &&& !has_path(old(self)@, old(self).root())
                    &&& final(self)@ == old(self)@.push(root_node(old(self).root(), wd))
                    &&& old(self).wf() ==> final(self).wf()
                    &&& (old(self).wf() && old(self).linked()) ==> final(self).linked()
                },
                Result::Err(_) => {
                    &&& final(self)@ == old(self)@
                    &&& (has_wd(old(self)@, wd) || has_path(old(self)@, old(self).root()))
                },
            },
    {
        let ghost s = self@;
        if self.contains_wd(wd) {
            return Result::Err(Error::new(already_watched_message(wd)));
        }
        let root_path = self.workspace_info.local_path.clone();
        match self.index_by_path(&root_path) {
            Option::Some(_) => {
                proof {
                    lemma_idx_by_path(s, self.root());
                }
                return Result::Err(Error::new(crate::registry::msg2(
                    "A watch for '",
                    &root_path,
                    "' is already registered",
                )));
            },
            Option::None => {},
        }
        let node = WatchMetadata {
            wd,
            ws_root_path: self.workspace_info.local_path.clone(),
            relative_path: Option::None,
            path: root_path,
            child_watches: Vec::new(),
        };
        self.nodes.push(node);
        proof {
            assert(self@ =~= s.push(root_node(old(self).root(), wd)));
            if graph_wf(old(self).root(), s) {
                lemma_add_root_wf(old(self).root(), s, wd);
            }
        }
        Result::Ok(())
    }

    /// Registers a watch for the directory `rel` below the root and records
    /// it in its parent's child list. The parent must already be watched.
    pub fn add_watch(&mut self, relative_path: &String, wd: u64) -> (r: Result<(), Error>)
        ensures
            final(self).workspace_info == old(self).workspace_info,
            final(self).root() == old(self).root(),
            match r {
                Result::Ok(_) => {
                    &&& relative_path@.len() > 0
                    &&& relative_path@[relative_path@.len() - 1] != '/'
                    &&& !has_wd(old(self)@, wd)
                    &&& !has_path(old(self)@, spec_join(old(self).root(), relative_path@))
                    &&& has_path(
                        old(self)@,
                        parent_of(spec_join(old(self).root(), relative_path@)),
                    )
                    &&& final(self)@ == {
                        let full = spec_join(old(self).root(), relative_path@);
                        let pi = idx_by_path(old(self)@, parent_of(full));
                        old(self)@.update(pi, with_child(old(self)@[pi], wd)).push(
                            child_node(old(self).root(), relative_path@, wd),
                        )
                    }
                    &&& final(self)@.len() == old(self)@.len() + 1
                    &&& old(self).wf() ==> final(self).wf()
                    &&& (old(self).wf() && old(self).linked()) ==> final(self).linked()
                },
                Result::Err(_) => {
                    &&& final(self)@ == old(self)@
                    &&& !(relative_path@.len() > 0 && relative_path@[relative_path@.len() - 1]
                        != '/' && !has_wd(old(self)@, wd) && !has_path(
                        old(self)@,
                        spec_join(old(self).root(), relative_path@),
                    ) && has_path(old(self)@, parent_of(spec_join(old(self).root(), relative_path@))))
                },
            },
    {
        let ghost s = self@;
        let ghost root = self.root();
        let rel_len = relative_path.as_str().unicode_len();
        if rel_len == 0 {
            return Result::Err(Error::new("Relative watch path is empty".to_owned()));
        }
        if relative_path.as_str().get_char(rel_len - 1) == '/' {
            return Result::Err(Error::new(
                "Relative watch path must not end with a separator".to_owned(),
            ));
        }
        if self.contains_wd(wd) {
            return Result::Err(Error::new(already_watched_message(wd)));
        }
        let full = join_path(&self.workspace_info.local_path, relative_path);
        let ghost fullv = spec_join(root, relative_path@);
        match self.index_by_path(&full) {
            Option::Some(_) => {
                proof {
                    lemma_idx_by_path(s, fullv);
                }
                return Result::Err(Error::new(crate::registry::msg2(
                    "A watch for '",
                    &full,
                    "' is already registered",
                )));
            },
            Option::None => {},
        }
        // The parent directory: the full path up to its last separator.
        let li = match last_slash_exec(&full) {
            Option::Some(li) => li,
            Option::None => {
                proof {
                    lemma_last_slash(fullv);
                    assert(fullv[root.len() as int] == '/');
                }
                vstd::pervasive::unreached()
            },
        };
        proof {
            lemma_last_slash(fullv);
            assert(fullv[root.len() as int] == '/');
            assert(li as int >= root.len());
            assert(fullv[fullv.len() - 1] == relative_path@[relative_path@.len() - 1]);
            assert((li as int) < fullv.len() - 1);
        }
        let parent_path = substring_string(&full, 0, li);
        let pi = match self.index_by_path(&parent_path) {
            Option::Some(pi) => pi,
            Option::None => {
                proof {
                    assert(parent_path@ == parent_of(fullv));
                }
                return Result::Err(Error::new(crate::registry::msg2(
                    "No metadata stored for '",
                    &parent_path,
                    "'",
                )));
            },
        };
        proof {
            assert(parent_path@ == parent_of(fullv));
            lemma_idx_by_path(s, parent_of(fullv));
            assert(has_path(s, parent_of(fullv)));
            assert(pi as int == idx_by_path(s, parent_of(fullv)));
        }
        let mut parent = self.nodes.remove(pi);
        parent.child_watches.push(wd);
        self.nodes.insert(pi, parent);
        let node = WatchMetadata {
            wd,
            ws_root_path: self.workspace_info.local_path.clone(),
            relative_path: Option::Some(relative_path.clone()),
            path: full,
            child_watches: Vec::new(),
        };
        self.nodes.push(node);
        proof {
            let pii = idx_by_path(s, parent_of(fullv));
            assert(parent_path@ == parent_of(fullv));
            assert(self@ =~= s.update(pii, with_child(s[pii], wd)).push(
                child_node(root, relative_path@, wd),
            ));
            if graph_wf(root, s) {
                lemma_add_child_wf(root, s, relative_path@, wd);
            }
        }
        Result::Ok(())
    }

    /// Unregisters the subtree rooted at the node with identifier `wd`:
    /// removes the node, every node below it, and every reference to it in a
    /// child list. Returns the identifiers of all removed nodes so that their
    /// kernel watches can be dropped too.
    pub fn remove_watches_recursively(&mut self, wd: u64) -> (r: Result<Vec<u64>, Error>)
        ensures
            final(self).workspace_info == old(self).workspace_info,
            final(self).root() == old(self).root(),
            match r {
                Result::Ok(removed) => {
                    &&& has_wd(old(self)@, wd)
                    &&& {
                        let p = old(self)@[idx_by_wd(old(self)@, wd)].path;
                        &&& final(self)@ == spec_remove_subtree(old(self)@, p, wd)
                        &&& removed@ == removed_wds(old(self)@, p)
                        &&& forall|k: int|
                            0 <= k < final(self)@.len() ==> !in_subtree(
                                (#[trigger] final(self)@[k]).path,
                                p,
                            )
                        &&& old(self).wf() ==> final(self).wf()
                    }
                },
                Result::Err(_) => {
                    &&& final(self)@ == old(self)@
                    &&& !has_wd(old(self)@, wd)
                },
            },
    {
        let ghost s = self@;
        let ghost root = self.root();
        let ri = match self.index_by_wd(wd) {
            Option::Some(i) => i,
            Option::None => {
                let mut m = "No metadata stored for wd '".to_owned();
                crate::json::append_dec(&mut m, wd);
                m.append("'");
                return Result::Err(Error::new(m));
            },
        };
        proof {
            lemma_idx_by_wd(s, wd);
        }
        let p = self.nodes[ri].path.clone();
        let ghost pv = s[ri as int].path;
        let n = self.nodes.len();
        let mut kept: Vec<WatchMetadata> = Vec::new();
        let mut removed: Vec<u64> = Vec::new();
        let mut i: usize = 0;
        proof {
            assert(s.take(0) =~= Seq::<WatchNodeV>::empty());
            assert(spec_remove_subtree(s.take(0), pv, wd) =~= Seq::<WatchNodeV>::empty());
            assert(removed_wds(s.take(0), pv) =~= Seq::<u64>::empty());
            assert(node_views(kept@) =~= Seq::<WatchNodeV>::empty());
        }
        while i < n
            invariant
                i <= n,
                n == self.nodes.len(),
                s == self@,
                pv == p@,
                node_views(kept@) == spec_remove_subtree(s.take(i as int), pv, wd),
                removed@ == removed_wds(s.take(i as int), pv),
            decreases n - i,
        {
            proof {
                assert(s.take(i as int + 1).drop_last() =~= s.take(i as int));
                assert(s.take(i as int + 1) =~= s.take(i as int).push(s[i as int]));
                assert(s[i as int] == self.nodes@[i as int]@);
                lemma_remove_subtree_push(s.take(i as int), s[i as int], pv, wd);
            }
            if in_subtree_exec(&self.nodes[i].path, &p) {
                removed.push(self.nodes[i].wd);
            } else {
                let stripped = strip_child_exec(&self.nodes[i], wd);
                kept.push(stripped);
                proof {
                    assert(node_views(kept@) =~= spec_remove_subtree(s.take(i as int), pv, wd).push(
                        strip_child(s[i as int], wd),
                    ));
                }
            }
            i = i + 1;
        }
        proof {
            assert(s.take(n as int) =~= s);
        }
        self.nodes = kept;
        proof {
            assert(self@ == spec_remove_subtree(s, pv, wd));
            assert(removed@ == removed_wds(s, pv));
            lemma_remove_subtree_in_subtree(s, pv, wd);
            if graph_wf(root, s) {
                lemma_remove_subtree_wf(root, s, ri as int, wd);
            }
        }
        Result::Ok(removed)
    }
}

fn already_watched_message(wd: u64) -> (r: String)
    ensures
        true,
{
    let mut m = "A watch with id '".to_owned();
    crate::json::append_dec(&mut m, wd);
    m.append("' is already registered");
    m
}

/// `base` + `/` + `rel`.
pub fn join_path(base: &String, rel: &String) -> (r: String)
    ensures
        r@ == spec_join(base@, rel@),
{
    let mut out = base.clone();
    out.append("/");
    proof {
        reveal_strlit("/");
        assert("/"@ =~= seq!['/']);
    }
    out.append(rel.as_str());
    proof {
        assert(out@ =~= spec_join(base@, rel@));
    }
    out
}

/// The owned substring `s[from..to]`.
fn substring_string(s: &String, from: usize, to: usize) -> (r: String)
    requires
        from <= to <= s@.len(),
    ensures
        r@ == s@.subrange(from as int, to as int),
{
    s.as_str().substring_char(from, to).to_owned()
}

/// Index of the last separator in `s`, if any.
fn last_slash_exec(s: &String) -> (r: Option<usize>)
    ensures
        match r {
            Option::Some(i) => i as int == last_slash(s@) && i < s@.len(),
            Option::None => last_slash(s@) == -1,
        },
{
    let n = s.as_str().unicode_len();
    let mut i: usize = 0;
    let mut found = false;
    let mut li: usize = 0;
    proof {
        assert(s@.take(0) =~= Seq::<char>::empty());
    }
    while i < n
        invariant
            i <= n,
            n == s@.len(),
            found ==> li < i && li as int == last_slash(s@.take(i as int)),
            !found ==> last_slash(s@.take(i as int)) == -1,
        decreases n - i,
    {
        proof {
            assert(s@.take(i as int + 1).drop_last() =~= s@.take(i as int));
            assert(s@.take(i as int + 1).last() == s@[i as int]);
        }
        if s.as_str().get_char(i) == '/' {
            found = true;
            li = i;
        }
        i = i + 1;
    }
    proof {
        assert(s@.take(n as int) =~= s@);
    }
    if found {
        Option::Some(li)
    } else {
        Option::None
    }
}

/// Whether `q` lies in the subtree rooted at `p`.
fn in_subtree_exec(q: &String, p: &String) -> (r: bool)
    ensures
        r == in_subtree(q@, p@),
{
    if str_eq(q, p) {
        return true;
    }
    let nq = q.as_str().unicode_len();
    let np = p.as_str().unicode_len();
    if nq <= np {
        return false;
    }
    if q.as_str().get_char(np) != '/' {
        return false;
    }
    let mut k: usize = 0;
    while k < np
        invariant
            k <= np,
            np == p@.len(),
            np < nq,
            nq == q@.len(),
            forall|m: int| 0 <= m < k as int ==> q@[m] == p@[m],
        decreases np - k,
    {
        if q.as_str().get_char(k) != p.as_str().get_char(k) {
            proof {
                assert(!in_subtree(q@, p@)) by {
                    if q@.subrange(0, p@.len() as int) == p@ {
                        assert(q@.subrange(0, p@.len() as int)[k as int] == p@[k as int]);
                    }
                }
            }
            return false;
        }
        k = k + 1;
    }
    proof {
        assert(q@.subrange(0, p@.len() as int) =~= p@);
    }
    true
}

/// A copy of the node without `wd` in its child list.
fn strip_child_exec(md: &WatchMetadata, wd: u64) -> (r: WatchMetadata)
    ensures
        r@ == strip_child(md@, wd),
{
    let ghost cs = md.child_watches@;
    let n = md.child_watches.len();
    let mut children: Vec<u64> = Vec::new();
    let mut i: usize = 0;
    proof {
        reveal(Seq::filter);
        assert(cs.take(0) =~= Seq::<u64>::empty());
        assert(strip_list(cs.take(0), wd) =~= Seq::<u64>::empty());
    }
    while i < n
        invariant
            i <= n,
            n == md.child_watches.len(),
            cs == md.child_watches@,
            children@ == strip_list(cs.take(i as int), wd),
        decreases n - i,
    {
        proof {
            assert(cs.take(i as int + 1) =~= cs.take(i as int).push(cs[i as int]));
            lemma_strip_list_push(cs.take(i as int), cs[i as int], wd);
        }
        if md.child_watches[i] != wd {
            children.push(md.child_watches[i]);
        }
        i = i + 1;
    }
    proof {
        assert(cs.take(n as int) =~= cs);
    }
    let r = WatchMetadata {
        wd: md.wd,
        ws_root_path: md.ws_root_path.clone(),
        relative_path: crate::model::clone_opt_string(&md.relative_path),
        path: md.path.clone(),
        child_watches: children,
    };
    proof {
        assert(r@ =~= strip_child(md@, wd));
    }
    r
}

// --- preservation of the invariants ---

#[verifier::rlimit(60)]
proof fn lemma_add_root_wf(root: Seq<char>, s: Seq<WatchNodeV>, wd: u64)
    requires
        graph_wf(root, s),
        !has_wd(s, wd),
        !has_path(s, root),
    ensures
        graph_wf(root, s.push(root_node(root, wd))),
        children_linked(root, s) ==> children_linked(root, s.push(root_node(root, wd))),
{
    let t = s.push(root_node(root, wd));
    assert forall|i: int, j: int| 0 <= i < j < t.len() implies t[i].wd != t[j].wd by {
        if j < s.len() {
            assert(t[i].wd == s[i].wd && t[j].wd == s[j].wd);
        } else {
            assert(t[i].wd == s[i].wd);
            if t[i].wd == wd {
                assert(has_wd(s, wd));
            }
        }
    }
    assert forall|i: int, j: int| 0 <= i < j < t.len() implies t[i].path != t[j].path by {
        if j < s.len() {
            assert(t[i].path == s[i].path && t[j].path == s[j].path);
        } else {
            assert(t[i].path == s[i].path);
            if t[i].path == root {
                assert(has_path(s, root));
            }
        }
    }
    assert forall|i: int| 0 <= i < t.len() implies node_path_ok(root, #[trigger] t[i]) by {
        if i < s.len() {
            assert(t[i] == s[i]);
            assert(node_path_ok(root, s[i]));
        }
    }
    if children_linked(root, s) {
        assert forall|i: int, k: int|
            0 <= i < t.len() && 0 <= k < t[i].children.len() implies exists|j: int|
            0 <= j < t.len() && t[j].wd == #[trigger] t[i].children[k] && is_direct_child(
                t[i].path,
                t[j].path,
            ) by {
            assert(i < s.len());
            assert(t[i] == s[i]);
            let j = choose|j: int|
                0 <= j < s.len() && s[j].wd == s[i].children[k] && is_direct_child(
                    s[i].path,
                    s[j].path,
                );
            assert(t[j] == s[j]);
        }
        assert forall|i: int, k: int, l: int|
            0 <= i < t.len() && 0 <= k < l < t[i].children.len() implies #[trigger] t[i].children[k]
            != #[trigger] t[i].children[l] by {
            if i < s.len() {
                assert(t[i] == s[i]);
            }
        }
        assert forall|j: int|
            0 <= j < t.len() && (#[trigger] t[j].path) != root implies exists|i: int, k: int|
            0 <= i < t.len() && 0 <= k < t[i].children.len() && t[i].children[k] == t[j].wd by {
            assert(j < s.len());
            assert(t[j] == s[j]);
            let (i, k) = choose|i: int, k: int|
                0 <= i < s.len() && 0 <= k < s[i].children.len() && s[i].children[k] == s[j].wd;
            assert(t[i] == s[i]);
            assert(0 <= i < t.len() && 0 <= k < t[i].children.len() && t[i].children[k] == t[j].wd);
        }
    }
}

#[verifier::rlimit(100)]
proof fn lemma_add_child_wf(root: Seq<char>, s: Seq<WatchNodeV>, rel: Seq<char>, wd: u64)
    requires
        graph_wf(root, s),
        rel.len() > 0,
        rel[rel.len() - 1] != '/',
        !has_wd(s, wd),
        !has_path(s, spec_join(root, rel)),
        has_path(s, parent_of(spec_join(root, rel))),
    ensures
        ({
            let full = spec_join(root, rel);
            let pi = idx_by_path(s, parent_of(full));
            let t = s.update(pi, with_child(s[pi], wd)).push(child_node(root, rel, wd));
            &&& graph_wf(root, t)
            &&& children_linked(root, s) ==> children_linked(root, t)
        }),
{
    let full = spec_join(root, rel);
    let pp = parent_of(full);
    lemma_idx_by_path(s, pp);
    let pi = idx_by_path(s, pp);
    let t = s.update(pi, with_child(s[pi], wd)).push(child_node(root, rel, wd));
    lemma_last_slash(full);
    assert(full[root.len() as int] == '/');
    assert(full[full.len() - 1] == rel[rel.len() - 1]);
    let li = last_slash(full);
    assert(li >= root.len());
    assert(li < full.len() - 1);
    assert(is_direct_child(pp, full)) by {
        assert(full[li] == '/');
        assert(pp =~= full.subrange(0, li));
        assert(full.subrange(0, pp.len() as int) =~= pp);
    }
    let ni = s.len() as int;
    assert(t[ni] == child_node(root, rel, wd));
    assert forall|i: int, j: int| 0 <= i < j < t.len() implies t[i].wd != t[j].wd by {
        if j < s.len() {
            assert(t[i].wd == s[i].wd && t[j].wd == s[j].wd);
        } else {
            assert(t[i].wd == s[i].wd);
            if t[i].wd == wd {
                assert(has_wd(s, wd));
            }
        }
    }
    assert forall|i: int, j: int| 0 <= i < j < t.len() implies t[i].path != t[j].path by {
        if j < s.len() {
            assert(t[i].path == s[i].path && t[j].path == s[j].path);
        } else {
            assert(t[i].path == s[i].path);
            if t[i].path == full {
                assert(has_path(s, full));
            }
        }
    }
    assert forall|i: int| 0 <= i < t.len() implies node_path_ok(root, #[trigger] t[i]) by {
        if i < s.len() {
            assert(t[i].path == s[i].path && t[i].rel == s[i].rel);
            assert(node_path_ok(root, s[i]));
        }
    }
    if children_linked(root, s) {
        assert forall|i: int, k: int|
            0 <= i < t.len() && 0 <= k < t[i].children.len() implies exists|j: int|
            0 <= j < t.len() && t[j].wd == #[trigger] t[i].children[k] && is_direct_child(
                t[i].path,
                t[j].path,
            ) by {
            if i == pi && k == t[pi].children.len() - 1 {
                assert(t[i].children[k] == wd);
                assert(t[ni].wd == wd && is_direct_child(t[pi].path, t[ni].path));
            } else if i < s.len() {
                assert(t[i].children[k] == s[i].children[k]);
                let j = choose|j: int|
                    0 <= j < s.len() && s[j].wd == s[i].children[k] && is_direct_child(
                        s[i].path,
                        s[j].path,
                    );
                assert(t[j].wd == s[j].wd && t[j].path == s[j].path);
                assert(t[i].path == s[i].path);
            }
        }
        assert forall|i: int, k: int, l: int|
            0 <= i < t.len() && 0 <= k < l < t[i].children.len() implies #[trigger] t[i].children[k]
            != #[trigger] t[i].children[l] by {
            if i == pi && l == t[pi].children.len() - 1 {
                assert(t[i].children[k] == s[pi].children[k]);
                let j = choose|j: int|
                    0 <= j < s.len() && s[j].wd == s[pi].children[k] && is_direct_child(
                        s[pi].path,
                        s[j].path,
                    );
                if s[pi].children[k] == wd {
                    assert(has_wd(s, wd));
                }
            } else if i < s.len() {
                assert(t[i].children[k] == s[i].children[k] && t[i].children[l]
                    == s[i].children[l]);
            }
        }
        assert forall|j: int|
            0 <= j < t.len() && (#[trigger] t[j].path) != root implies exists|i: int, k: int|
            0 <= i < t.len() && 0 <= k < t[i].children.len() && t[i].children[k] == t[j].wd by {
            if j == ni {
                let k = t[pi].children.len() - 1;
                assert(0 <= pi < t.len() && 0 <= k < t[pi].children.len() && t[pi].children[k]
                    == t[ni].wd);
            } else {
                assert(t[j].path == s[j].path && t[j].wd == s[j].wd);
                let (i, k) = choose|i: int, k: int|
                    0 <= i < s.len() && 0 <= k < s[i].children.len() && s[i].children[k] == s[j].wd;
                if i == pi {
                    assert(t[pi].children[k] == s[pi].children[k]);
                }
                assert(0 <= i < t.len() && 0 <= k < t[i].children.len() && t[i].children[k]
                    == t[j].wd);
            }
        }
    }
}

/// After the removal, no path of the removed subtree remains.
proof fn lemma_remove_subtree_in_subtree(s: Seq<WatchNodeV>, p: Seq<char>, wd: u64)
    ensures
        forall|k: int|
            0 <= k < spec_remove_subtree(s, p, wd).len() ==> !in_subtree(
                (#[trigger] spec_remove_subtree(s, p, wd)[k]).path,
                p,
            ),
{
    let f = kept_nodes(s, p);
    let t = spec_remove_subtree(s, p, wd);
    lemma_kept_elem(s, p);
    assert forall|k: int| 0 <= k < t.len() implies !in_subtree((#[trigger] t[k]).path, p) by {
        assert(t[k] == strip_child(f[k], wd));
    }
}

/// Unregistering a subtree preserves the core graph invariants.
#[verifier::rlimit(100)]
proof fn lemma_remove_subtree_wf(root: Seq<char>, s: Seq<WatchNodeV>, ri: int, wd: u64)
    requires
        graph_wf(root, s),
        0 <= ri < s.len(),
        s[ri].wd == wd,
    ensures
        graph_wf(root, spec_remove_subtree(s, s[ri].path, wd)),
{
    let p = s[ri].path;
    let f = kept_nodes(s, p);
    let t = spec_remove_subtree(s, p, wd);
    lemma_kept_elem(s, p);
    lemma_kept_distinct(s, p);
    assert forall|i: int, j: int| 0 <= i < j < t.len() implies t[i].wd != t[j].wd by {
        assert(t[i].wd == f[i].wd && t[j].wd == f[j].wd);
    }
    assert forall|i: int, j: int| 0 <= i < j < t.len() implies t[i].path != t[j].path by {
        assert(t[i].path == f[i].path && t[j].path == f[j].path);
    }
    assert forall|i: int| 0 <= i < t.len() implies node_path_ok(root, #[trigger] t[i]) by {
        let j = choose|j: int| 0 <= j < s.len() && s[j] == f[i];
        assert(node_path_ok(root, s[j]));
        assert(t[i].path == s[j].path && t[i].rel == s[j].rel);
    }
}

// --- the event step ---

/// One kernel event, reduced to plain values: the watch it concerns, the
/// entry name it carries (none for events about the watched directory
/// itself), and the mask bits the engine reads.
pub struct FsEvent {
    pub wd: u64,
    pub name: Option<String>,
    pub is_dir: bool,
    pub create: bool,
    pub moved_to: bool,
    pub delete: bool,
    pub moved_from: bool,
    pub delete_self: bool,
    pub move_self: bool,
    pub ignored: bool,
}

/// Whether and what to sync after an event.
pub enum SyncPlan {
    NoSync,
    Sync { relative_path: Option<String> },
}

/// What the caller must do after one event: register watches for a new
/// subtree, and sync a directory.
pub struct EventOutcome {
    pub add_subtree: Option<Option<String>>,
    pub sync: SyncPlan,
}

/// The path of the affected entry relative to the workspace root.
pub open spec fn rel_resource_of(node_rel: Option<Seq<char>>, name: Option<Seq<char>>) -> Option<Seq<char>> {
    match (node_rel, name) {
        (Option::None, Option::None) => Option::None,
        (Option::Some(r), Option::None) => Option::Some(r),
        (Option::None, Option::Some(nm)) => Option::Some(nm),
        (Option::Some(r), Option::Some(nm)) => Option::Some(r + seq!['/'] + nm),
    }
}

/// The absolute path of the affected entry.
pub open spec fn resource_path_of(node_path: Seq<char>, name: Option<Seq<char>>) -> Seq<char> {
    match name {
        Option::None => node_path,
        Option::Some(nm) => node_path + seq!['/'] + nm,
    }
}

impl MonitorState {
    /// Applies one kernel event to the graph and decides what the caller must
    /// do: drop stale events, unregister implicitly removed watches, register
    /// watches for created or moved-in directories, unregister moved-out or
    /// deleted subtrees, suppress file-creation noise, and name the directory
    /// to sync.
    pub fn handle_event(&mut self, ev: &FsEvent) -> (r: Result<EventOutcome, Error>)
        ensures
            final(self).workspace_info == old(self).workspace_info,
            final(self).root() == old(self).root(),
            old(self).wf() ==> final(self).wf(),
            !has_wd(old(self)@, ev.wd) ==> (r matches Result::Ok(out) && final(self)@
                == old(self)@ && out.add_subtree is None && out.sync is NoSync),
            has_wd(old(self)@, ev.wd) ==> ({
                let node = old(self)@[idx_by_wd(old(self)@, ev.wd)];
                let s1 = if ev.ignored {
                    spec_remove_subtree(old(self)@, node.path, ev.wd)
                } else {
                    old(self)@
                };
                let relres = rel_resource_of(node.rel, view_opt_string(ev.name));
                let respath = resource_path_of(node.path, view_opt_string(ev.name));
                if (ev.delete_self || ev.move_self) && node.rel is Some {
                    r matches Result::Ok(out) && final(self)@ == s1 && out.add_subtree is None
                        && out.sync is NoSync
                } else if (ev.create || ev.moved_to) && !ev.is_dir {
                    r matches Result::Ok(out) && final(self)@ == s1 && out.add_subtree is None
                        && out.sync is NoSync
                } else if ev.is_dir && (ev.delete || ev.moved_from) {
                    if has_path(s1, respath) {
                        old(self).wf() ==> (r matches Result::Ok(out) && final(self)@
                            == spec_remove_subtree(s1, respath, s1[idx_by_path(s1, respath)].wd)
                            && (out.sync matches SyncPlan::Sync { relative_path } && view_opt_string(
                            relative_path,
                        ) == node.rel) && ((ev.create || ev.moved_to) && ev.is_dir
                            ==> (out.add_subtree matches Option::Some(rr) && view_opt_string(rr)
                            == relres)) && (!((ev.create || ev.moved_to) && ev.is_dir)
                            ==> out.add_subtree is None))
                    } else {
                        r is Err && final(self)@ == s1
                    }
                } else {
                    r matches Result::Ok(out) && final(self)@ == s1 && (out.sync
                        matches SyncPlan::Sync { relative_path } && view_opt_string(relative_path)
                        == node.rel) && ((ev.create || ev.moved_to) && ev.is_dir
                        ==> (out.add_subtree matches Option::Some(rr) && view_opt_string(rr)
                        == relres)) && (!((ev.create || ev.moved_to) && ev.is_dir)
                        ==> out.add_subtree is None)
                }
            }),
    {
        let ghost s0 = self@;
        let md = match self.get_metadata(ev.wd) {
            Option::Some(md) => md,
            Option::None => {
                // A stale event for a watch that was already removed.
                return Result::Ok(EventOutcome {
                    add_subtree: Option::None,
                    sync: SyncPlan::NoSync,
                });
            },
        };
        proof {
            lemma_idx_by_wd(s0, ev.wd);
        }
        if ev.ignored {
            // The kernel dropped the watch itself: forget the subtree.
            match self.remove_watches_recursively(ev.wd) {
                Result::Ok(_) => {},
                Result::Err(_) => {},
            };
        }
        let ghost s1 = self@;
        let rel_resource: Option<String> = match (&md.relative_path, &ev.name) {
            (Option::None, Option::None) => Option::None,
            (Option::Some(rp), Option::None) => Option::Some(rp.clone()),
            (Option::None, Option::Some(nm)) => Option::Some(nm.clone()),
            (Option::Some(rp), Option::Some(nm)) => Option::Some(join_path(rp, nm)),
        };
        if (ev.delete_self || ev.move_self) && md.relative_path.is_some() {
            // Only the workspace root matters here; a subdirectory is handled
            // through its parent's event.
            return Result::Ok(EventOutcome { add_subtree: Option::None, sync: SyncPlan::NoSync });
        }
        if (ev.create || ev.moved_to) && !ev.is_dir {
            // The later close-after-write drives the sync for new files.
            return Result::Ok(EventOutcome { add_subtree: Option::None, sync: SyncPlan::NoSync });
        }
        let add_subtree: Option<Option<String>> = if (ev.create || ev.moved_to) && ev.is_dir {
            Option::Some(rel_resource)
        } else {
            Option::None
        };
        if ev.is_dir && (ev.delete || ev.moved_from) {
            let resource_path: String = match &ev.name {
                Option::None => md.path.clone(),
                Option::Some(nm) => join_path(&md.path, nm),
            };
            let dir_wd = match self.get_wd(&resource_path) {
                Option::Some(w) => w,
                Option::None => {
                    return Result::Err(Error::new(crate::registry::msg2(
                        "No metadata stored for '",
                        &resource_path,
                        "'",
                    )));
                },
            };
            proof {
                lemma_idx_by_path(s1, resource_path@);
                if graph_wf(old(self).root(), s1) {
                    lemma_mappings_lockstep(old(self).root(), s1);
                }
            }
            match self.remove_watches_recursively(dir_wd) {
                Result::Ok(_) => {},
                Result::Err(_) => {},
            };
            proof {
                lemma_idx_by_wd(s1, dir_wd);
            }
        }
        Result::Ok(EventOutcome {
            add_subtree,
            sync: SyncPlan::Sync { relative_path: crate::model::clone_opt_string(&md.relative_path) },
        })
    }
}

} // verus!
