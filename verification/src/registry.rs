//! The workspace registry: the authoritative in-memory list of managed
//! workspaces. Mutations are validated against the uniqueness invariants
//! (distinct workspace names, distinct local paths, distinct remote names per
//! workspace) and leave the list unchanged when they fail.

use vstd::prelude::*;
use crate::model::{RemoteWorkspace, WorkspaceInformation, RemoteV, WorkspaceV, contains_name, contains_local_path, has_remote_named, workspace_wf, str_eq};

verus! {

/// Error of a registry operation: `Io` when persisting the registry file
/// failed, `Message` when the operation itself was rejected.
#[derive(Debug)]
pub enum WsConfigError {
    Io(String),
    Message(String),
}

/// The registry. The daemon holds exactly one of these; the on-disk file is
/// rewritten from it after every successful mutation.
pub struct WorkspaceConfiguration {
    entries: Vec<WorkspaceInformation>,
}

/// The views of a sequence of workspaces.
pub open spec fn ws_views(v: Seq<WorkspaceInformation>) -> Seq<WorkspaceV> {
    v.map_values(|w: WorkspaceInformation| w@)
}

/// Uniqueness invariants of the registry: workspace names pairwise distinct,
/// local paths pairwise distinct, and remote names distinct per workspace.
pub open spec fn registry_wf(s: Seq<WorkspaceV>) -> bool {
    &&& forall|i: int, j: int| 0 <= i < j < s.len() ==> s[i].name != s[j].name
    &&& forall|i: int, j: int| 0 <= i < j < s.len() ==> s[i].local_path != s[j].local_path
    &&& forall|i: int| 0 <= i < s.len() ==> workspace_wf(#[trigger] s[i])
}

/// Index of the first workspace named `name`, or `s.len()` when there is none.
pub open spec fn find_idx_from(s: Seq<WorkspaceV>, name: Seq<char>, i: int) -> int
    decreases s.len() - i when 0 <= i <= s.len()
{
    if i >= s.len() {
        s.len() as int
    } else if s[i].name == name {
        i
    } else {
        find_idx_from(s, name, i + 1)
    }
}

pub open spec fn find_idx(s: Seq<WorkspaceV>, name: Seq<char>) -> int {
    find_idx_from(s, name, 0)
}

/// What `findByName` returns: the first workspace carrying `name`.
pub open spec fn spec_find(s: Seq<WorkspaceV>, name: Seq<char>) -> Option<WorkspaceV> {
    if find_idx(s, name) < s.len() {
        Option::Some(s[find_idx(s, name)])
    } else {
        Option::None
    }
}

/// Result of a successful `addWorkspace`.
pub open spec fn spec_add(s: Seq<WorkspaceV>, w: WorkspaceV) -> Seq<WorkspaceV> {
    s.push(w)
}

/// Result of a successful `removeWorkspace`.
pub open spec fn spec_remove(s: Seq<WorkspaceV>, name: Seq<char>) -> Seq<WorkspaceV> {
    s.filter(|w: WorkspaceV| w.name != name)
}

/// `w` with one more remote workspace appended.
pub open spec fn with_remote(w: WorkspaceV, r: RemoteV) -> WorkspaceV {
    WorkspaceV { name: w.name, local_path: w.local_path, remotes: w.remotes.push(r) }
}

/// `w` with every remote workspace named `rname` removed.
pub open spec fn without_remote(w: WorkspaceV, rname: Seq<char>) -> WorkspaceV {
    WorkspaceV {
        name: w.name,
        local_path: w.local_path,
        remotes: w.remotes.filter(|r: RemoteV| r.name != rname),
    }
}

/// Result of a successful `attachRemote`.
pub open spec fn spec_attach(s: Seq<WorkspaceV>, name: Seq<char>, r: RemoteV) -> Seq<WorkspaceV> {
    s.update(find_idx(s, name), with_remote(s[find_idx(s, name)], r))
}

/// Result of a successful `detachRemote`.
pub open spec fn spec_detach(s: Seq<WorkspaceV>, name: Seq<char>, rname: Seq<char>) -> Seq<WorkspaceV> {
    s.update(find_idx(s, name), without_remote(s[find_idx(s, name)], rname))
}

/// Index of the first workspace whose name is `name` or whose local path is
/// `path`, or `s.len()` when there is none.
pub open spec fn conflict_idx_from(s: Seq<WorkspaceV>, name: Seq<char>, path: Seq<char>, i: int) -> int
    decreases s.len() - i when 0 <= i <= s.len()
{
    if i >= s.len() {
        s.len() as int
    } else if s[i].name == name || s[i].local_path == path {
        i
    } else {
        conflict_idx_from(s, name, path, i + 1)
    }
}

pub open spec fn conflict_idx(s: Seq<WorkspaceV>, name: Seq<char>, path: Seq<char>) -> int {
    conflict_idx_from(s, name, path, 0)
}

pub proof fn lemma_find_idx_from(s: Seq<WorkspaceV>, name: Seq<char>, i: int)
    requires
        0 <= i <= s.len(),
    ensures
        i <= find_idx_from(s, name, i) <= s.len(),
        find_idx_from(s, name, i) < s.len() ==> s[find_idx_from(s, name, i)].name == name,
        forall|k: int| i <= k < find_idx_from(s, name, i) ==> s[k].name != name,
    decreases s.len() - i,
{
    if i < s.len() && s[i].name != name {
        lemma_find_idx_from(s, name, i + 1);
    }
}

pub proof fn lemma_find_idx(s: Seq<WorkspaceV>, name: Seq<char>)
    ensures
        0 <= find_idx(s, name) <= s.len(),
        find_idx(s, name) < s.len() ==> s[find_idx(s, name)].name == name,
        forall|k: int| 0 <= k < find_idx(s, name) ==> s[k].name != name,
        (find_idx(s, name) < s.len()) == contains_name(s, name),
{
    lemma_find_idx_from(s, name, 0);
    if find_idx(s, name) < s.len() {
        assert(contains_name(s, name));
    }
}

/// `find_idx` is a function of the sequence value.
pub proof fn lemma_find_idx_eq(a: Seq<WorkspaceV>, b: Seq<WorkspaceV>, name: Seq<char>)
    requires
        a == b,
    ensures
        find_idx(a, name) == find_idx(b, name),
{
}

proof fn lemma_find_idx_from_names_eq(a: Seq<WorkspaceV>, b: Seq<WorkspaceV>, name: Seq<char>, i: int)
    requires
        a.len() == b.len(),
        forall|k: int| 0 <= k < a.len() ==> a[k].name == b[k].name,
        0 <= i <= a.len(),
    ensures
        find_idx_from(a, name, i) == find_idx_from(b, name, i),
    decreases a.len() - i,
{
    if i < a.len() && a[i].name != name {
        lemma_find_idx_from_names_eq(a, b, name, i + 1);
    }
}

/// `find_idx` reads only the names, so two lists with the same names in the
/// same order agree on it.
pub proof fn lemma_find_idx_names_eq(a: Seq<WorkspaceV>, b: Seq<WorkspaceV>, name: Seq<char>)
    requires
        a.len() == b.len(),
        forall|k: int| 0 <= k < a.len() ==> a[k].name == b[k].name,
    ensures
        find_idx(a, name) == find_idx(b, name),
{
    lemma_find_idx_from_names_eq(a, b, name, 0);
}

pub proof fn lemma_conflict_idx_from(s: Seq<WorkspaceV>, name: Seq<char>, path: Seq<char>, i: int)
    requires
        0 <= i <= s.len(),
    ensures
        i <= conflict_idx_from(s, name, path, i) <= s.len(),
        conflict_idx_from(s, name, path, i) < s.len() ==> (
            s[conflict_idx_from(s, name, path, i)].name == name
            || s[conflict_idx_from(s, name, path, i)].local_path == path
        ),
        forall|k: int|
            i <= k < conflict_idx_from(s, name, path, i)
                ==> s[k].name != name && s[k].local_path != path,
    decreases s.len() - i,
{
    if i < s.len() && !(s[i].name == name || s[i].local_path == path) {
        lemma_conflict_idx_from(s, name, path, i + 1);
    }
}

/// Every element of a filtered sequence is an element of the original.
pub proof fn lemma_filter_elem_of<A>(s: Seq<A>, pred: spec_fn(A) -> bool)
    ensures
        forall|i: int|
            0 <= i < s.filter(pred).len()
                ==> exists|j: int| 0 <= j < s.len() && s[j] == #[trigger] s.filter(pred)[i],
    decreases s.len(),
{
    reveal(Seq::filter);
    if s.len() > 0 {
        let ds = s.drop_last();
        lemma_filter_elem_of(ds, pred);
        assert forall|i: int| 0 <= i < s.filter(pred).len() implies exists|j: int|
            0 <= j < s.len() && s[j] == #[trigger] s.filter(pred)[i] by {
            if pred(s.last()) && i == s.filter(pred).len() - 1 {
                assert(s[s.len() - 1] == s.filter(pred)[i]);
            } else {
                assert(s.filter(pred)[i] == ds.filter(pred)[i]);
                let j = choose|j: int| 0 <= j < ds.len() && ds[j] == ds.filter(pred)[i];
                assert(s[j] == s.filter(pred)[i]);
            }
        }
    }
}

/// Filtering preserves pairwise distinctness of any projection of the elements.
pub proof fn lemma_filter_distinct<A, B>(s: Seq<A>, pred: spec_fn(A) -> bool, proj: spec_fn(A) -> B)
    requires
        forall|i: int, j: int| 0 <= i < j < s.len() ==> proj(s[i]) != proj(s[j]),
    ensures
        forall|i: int, j: int|
            0 <= i < j < s.filter(pred).len()
                ==> proj(#[trigger] s.filter(pred)[i]) != proj(#[trigger] s.filter(pred)[j]),
    decreases s.len(),
{
    reveal(Seq::filter);
    if s.len() > 0 {
        let ds = s.drop_last();
        lemma_filter_distinct(ds, pred, proj);
        lemma_filter_elem_of(ds, pred);
        assert forall|i: int, j: int|
            0 <= i < j < s.filter(pred).len() implies proj(#[trigger] s.filter(pred)[i]) != proj(
            #[trigger] s.filter(pred)[j]) by {
            if pred(s.last()) && j == s.filter(pred).len() - 1 {
                assert(s.filter(pred)[i] == ds.filter(pred)[i]);
                let k = choose|k: int| 0 <= k < ds.len() && ds[k] == ds.filter(pred)[i];
                assert(proj(s[k]) != proj(s[s.len() - 1]));
            } else {
                assert(s.filter(pred)[i] == ds.filter(pred)[i]);
                assert(s.filter(pred)[j] == ds.filter(pred)[j]);
            }
        }
    }
}

/// Filtering with a predicate that holds of every element changes nothing.
pub proof fn lemma_filter_all_true<A>(s: Seq<A>, pred: spec_fn(A) -> bool)
    requires
        forall|i: int| 0 <= i < s.len() ==> pred(#[trigger] s[i]),
    ensures
        s.filter(pred) == s,
    decreases s.len(),
{
    reveal(Seq::filter);
    if s.len() > 0 {
        lemma_filter_all_true(s.drop_last(), pred);
        assert(s.filter(pred) =~= s);
    }
}

impl View for WorkspaceConfiguration {
    type V = Seq<WorkspaceV>;

    closed spec fn view(&self) -> Seq<WorkspaceV> {
        ws_views(self.entries@)
    }
}

impl WorkspaceConfiguration {
    pub open spec fn wf(&self) -> bool {
        registry_wf(self@)
    }

    /// Builds the registry around an already-loaded list of workspaces.
    pub fn from_entries(entries: Vec<WorkspaceInformation>) -> (r: WorkspaceConfiguration)
        ensures
            r@ == ws_views(entries@),
    {
        WorkspaceConfiguration { entries }
    }

    /// Runtime check of the uniqueness invariants, for use on freshly loaded
    /// registry files.
    pub fn check_wf(&self) -> (b: bool)
        ensures
            b == self.wf(),
    {
        let n = self.entries.len();
        let mut i: usize = 0;
        while i < n
            invariant
                i <= n,
                n == self.entries.len(),
                forall|a: int, b: int| 0 <= a < b < i as int ==> self@[a].name != self@[b].name,
                forall|a: int, b: int|
                    0 <= a < b < i as int ==> self@[a].local_path != self@[b].local_path,
                forall|a: int| 0 <= a < i as int ==> workspace_wf(#[trigger] self@[a]),
            decreases n - i,
        {
            let mut j: usize = 0;
            while j < i
                invariant
                    j <= i < n,
                    n == self.entries.len(),
                    forall|b: int| 0 <= b < j as int ==> self@[b].name != self@[i as int].name,
                    forall|b: int|
                        0 <= b < j as int ==> self@[b].local_path != self@[i as int].local_path,
                decreases i - j,
            {
                proof {
                    assert(self@[j as int] == self.entries@[j as int]@);
                    assert(self@[i as int] == self.entries@[i as int]@);
                }
                if str_eq(&self.entries[j].name, &self.entries[i].name) {
                    return false;
                }
                if str_eq(&self.entries[j].local_path, &self.entries[i].local_path) {
                    return false;
                }
                j = j + 1;
            }
            let rn = self.entries[i].remote_workspaces.len();
            let mut a: usize = 0;
            while a < rn
                invariant
                    a <= rn,
                    i < n,
                    n == self.entries.len(),
                    rn == self.entries@[i as int].remote_workspaces.len(),
                    forall|x: int, y: int|
                        0 <= x < y < a as int
                            ==> self@[i as int].remotes[x].name != self@[i as int].remotes[y].name,
                decreases rn - a,
            {
                let mut b: usize = 0;
                while b < a
                    invariant
                        b <= a < rn,
                        i < n,
                        n == self.entries.len(),
                        rn == self.entries@[i as int].remote_workspaces.len(),
                        forall|x: int|
                            0 <= x < b as int
                                ==> self@[i as int].remotes[x].name
                                    != self@[i as int].remotes[a as int].name,
                    decreases a - b,
                {
                    proof {
                        assert(self@[i as int] == self.entries@[i as int]@);
                        assert(self@[i as int].remotes[b as int]
                            == self.entries@[i as int].remote_workspaces@[b as int]@);
                        assert(self@[i as int].remotes[a as int]
                            == self.entries@[i as int].remote_workspaces@[a as int]@);
                    }
                    if str_eq(
                        &self.entries[i].remote_workspaces[b].name,
                        &self.entries[i].remote_workspaces[a].name,
                    ) {
                        assert(!workspace_wf(self@[i as int]));
                        return false;
                    }
                    b = b + 1;
                }
                a = a + 1;
            }
            assert(workspace_wf(self@[i as int]));
            i = i + 1;
        }
        true
    }

    /// Snapshot copy of all workspaces.
    pub fn all(&self) -> (r: Vec<WorkspaceInformation>)
        ensures
            ws_views(r@) == self@,
    {
        let n = self.entries.len();
        let mut out: Vec<WorkspaceInformation> = Vec::new();
        let mut i: usize = 0;
        while i < n
            invariant
                i <= n,
                n == self.entries.len(),
                out@.len() == i as int,
                forall|k: int| 0 <= k < i as int ==> out@[k]@ == self.entries@[k]@,
            decreases n - i,
        {
            out.push(self.entries[i].clone_ws());
            i = i + 1;
        }
        proof {
            assert(ws_views(out@) =~= self@);
        }
        out
    }

    fn find_index_by_name(&self, workspace_id: &String) -> (r: Option<usize>)
        ensures
            match r {
                Option::Some(i) => i as int == find_idx(self@, workspace_id@) && i < self@.len(),
                Option::None => find_idx(self@, workspace_id@) == self@.len()
                    && !contains_name(self@, workspace_id@),
            },
    {
        let ghost s = self@;
        let ghost name = workspace_id@;
        let n = self.entries.len();
        let mut i: usize = 0;
        while i < n
            invariant
                i <= n,
                n == self.entries.len(),
                s == self@,
                name == workspace_id@,
                find_idx(s, name) == find_idx_from(s, name, i as int),
            decreases n - i,
        {
            if str_eq(&self.entries[i].name, workspace_id) {
                assert(find_idx_from(s, name, i as int) == i as int);
                return Option::Some(i);
            }
            assert(find_idx_from(s, name, i as int) == find_idx_from(s, name, i as int + 1));
            i = i + 1;
        }
        proof {
            lemma_find_idx(s, name);
        }
        Option::None
    }

    /// Returns a copy of the workspace named `workspace_id`, if one exists.
    pub fn find_by_name(&self, workspace_id: &String) -> (r: Option<WorkspaceInformation>)
        ensures
            match r {
                Option::Some(w) => spec_find(self@, workspace_id@) == Option::Some(w@),
                Option::None => spec_find(self@, workspace_id@) is None
                    && !contains_name(self@, workspace_id@),
            },
    {
        proof {
            lemma_find_idx(self@, workspace_id@);
        }
        match self.find_index_by_name(workspace_id) {
            Option::Some(i) => Option::Some(self.entries[i].clone_ws()),
            Option::None => Option::None,
        }
    }

    /// Adds a workspace. Fails with `Conflict` semantics when a workspace with
    /// the same name or the same local path already exists; on success the
    /// workspace is appended and the uniqueness invariants are preserved.
    pub fn add_workspace(&mut self, workspace: WorkspaceInformation) -> (r: Result<(), WsConfigError>)
        ensures
            match r {
                Result::Ok(_) => {
                    &&& !contains_name(old(self)@, workspace@.name)
                    &&& !contains_local_path(old(self)@, workspace@.local_path)
                    &&& final(self)@ == spec_add(old(self)@, workspace@)
                    &&& (old(self).wf() && workspace_wf(workspace@)) ==> final(self).wf()
                },
                Result::Err(e) => {
                    &&& final(self)@ == old(self)@
                    &&& (contains_name(old(self)@, workspace@.name)
                        || contains_local_path(old(self)@, workspace@.local_path))
                    &&& (e matches WsConfigError::Message(m)
                        && m@ == msg_add_conflict(
                            old(self)@[conflict_idx(old(self)@, workspace@.name, workspace@.local_path)].name,
                        ))
                },
            },
    {
        let ghost s = self@;
        let ghost name = workspace@.name;
        let ghost path = workspace@.local_path;
        let n = self.entries.len();
        let mut i: usize = 0;
        while i < n
            invariant
                i <= n,
                n == self.entries.len(),
                s == self@,
                name == workspace@.name,
                path == workspace@.local_path,
                conflict_idx(s, name, path) == conflict_idx_from(s, name, path, i as int),
            decreases n - i,
        {
            let conflict = str_eq(&self.entries[i].name, &workspace.name)
                || str_eq(&self.entries[i].local_path, &workspace.local_path);
            if conflict {
                assert(conflict_idx_from(s, name, path, i as int) == i as int);
                assert(contains_name(s, name) || contains_local_path(s, path));
                let m = msg2(
                    "Local workspace with this name or at this local path already exists: '",
                    &self.entries[i].name,
                    "'",
                );
                return Result::Err(WsConfigError::Message(m));
            }
            assert(conflict_idx_from(s, name, path, i as int)
                == conflict_idx_from(s, name, path, i as int + 1));
            i = i + 1;
        }
        proof {
            lemma_conflict_idx_from(s, name, path, 0);
            assert(!contains_name(s, name));
            assert(!contains_local_path(s, path));
        }
        self.entries.push(workspace);
        proof {
            assert(self@ =~= spec_add(s, workspace@));
        }
        Result::Ok(())
    }

    /// Removes the workspace named `workspace_id`. Fails with `NotFound`
    /// semantics when there is none; on success every workspace with that name
    /// is gone and all others are kept in order.
    pub fn remove_workspace(&mut self, workspace_id: String) -> (r: Result<(), WsConfigError>)
        ensures
            match r {
                Result::Ok(_) => {
                    &&& contains_name(old(self)@, workspace_id@)
                    &&& final(self)@ == spec_remove(old(self)@, workspace_id@)
                    &&& old(self).wf() ==> final(self).wf()
                    &&& !contains_name(final(self)@, workspace_id@)
                },
                Result::Err(e) => {
                    &&& final(self)@ == old(self)@
                    &&& !contains_name(old(self)@, workspace_id@)
                    &&& (e matches WsConfigError::Message(m)
                        && m@ == msg_remove_not_found(workspace_id@))
                },
            },
    {
        let ghost s = self@;
        let ghost name = workspace_id@;
        let ghost pred = |w: WorkspaceV| w.name != name;
        let n = self.entries.len();
        let mut out: Vec<WorkspaceInformation> = Vec::new();
        let mut removed = false;
        let mut i: usize = 0;
        while i < n
            invariant
                i <= n,
                n == self.entries.len(),
                s == self@,
                name == workspace_id@,
                pred == (|w: WorkspaceV| w.name != name),
                ws_views(out@) == s.take(i as int).filter(pred),
                removed == exists|k: int| 0 <= k < i as int && s[k].name == name,
            decreases n - i,
        {
            proof {
                assert(s.take(i as int + 1).drop_last() =~= s.take(i as int));
                reveal(Seq::filter);
            }
            if str_eq(&self.entries[i].name, &workspace_id) {
                removed = true;
                assert(s[i as int].name == name);
            } else {
                out.push(self.entries[i].clone_ws());
            }
            proof {
                assert(s.take(i as int + 1).last() == s[i as int]);
                assert(ws_views(out@) =~= s.take(i as int + 1).filter(pred));
            }
            i = i + 1;
        }
        proof {
            assert(s.take(n as int) =~= s);
        }
        if !removed {
            let m = msg2("No workspace named '", &workspace_id, "' found");
            return Result::Err(WsConfigError::Message(m));
        }
        self.entries = out;
        proof {
            assert(self@ == spec_remove(s, name));
            if registry_wf(s) {
                lemma_filter_distinct(s, pred, |w: WorkspaceV| w.name);
                lemma_filter_distinct(s, pred, |w: WorkspaceV| w.local_path);
                lemma_filter_elem_of(s, pred);
                assert forall|k: int| 0 <= k < self@.len() implies workspace_wf(#[trigger] self@[k]) by {
                    let j = choose|j: int| 0 <= j < s.len() && s[j] == s.filter(pred)[k];
                    assert(workspace_wf(s[j]));
                }
            }
            assert forall|k: int| 0 <= k < self@.len() implies self@[k].name != name by {
                Seq::lemma_filter_pred(s, pred, k);
            }
        }
        Result::Ok(())
    }

    /// Appends a remote workspace to the workspace named `workspace_id`.
    /// Fails when the workspace does not exist or already has a remote
    /// workspace of that name; on success only that workspace changes.
    pub fn attach_remote_workspace(
        &mut self,
        workspace_id: String,
        remote_workspace: RemoteWorkspace,
    ) -> (r: Result<(), WsConfigError>)
        ensures
            match r {
                Result::Ok(_) => {
                    &&& contains_name(old(self)@, workspace_id@)
                    &&& !has_remote_named(
                        old(self)@[find_idx(old(self)@, workspace_id@)],
                        remote_workspace@.name,
                    )
                    &&& final(self)@ == spec_attach(old(self)@, workspace_id@, remote_workspace@)
                    &&& old(self).wf() ==> final(self).wf()
                },
                Result::Err(e) => {
                    &&& final(self)@ == old(self)@
                    &&& match e {
                        WsConfigError::Message(m) => {
                            if !contains_name(old(self)@, workspace_id@) {
                                m@ == msg_no_local_workspace(workspace_id@)
                            } else {
                                has_remote_named(
                                    old(self)@[find_idx(old(self)@, workspace_id@)],
                                    remote_workspace@.name,
                                ) && m@ == msg_attach_conflict(remote_workspace@.name, workspace_id@)
                            }
                        },
                        WsConfigError::Io(_) => false,
                    }
                },
            },
    {
        let ghost s = self@;
        let idx = match self.find_index_by_name(&workspace_id) {
            Option::Some(i) => i,
            Option::None => {
                let m = msg2("No local workspace named '", &workspace_id, "' exists");
                return Result::Err(WsConfigError::Message(m));
            },
        };
        let ghost wv = s[idx as int];
        proof {
            lemma_find_idx(s, workspace_id@);
            assert(contains_name(s, workspace_id@));
        }

        // Reject a duplicate remote name within this workspace.
        let rn = self.entries[idx].remote_workspaces.len();
        let mut a: usize = 0;
        while a < rn
            invariant
                a <= rn,
                idx < self.entries@.len(),
                s == self@,
                wv == s[idx as int],
                idx as int == find_idx(s, workspace_id@),
                wv.name == workspace_id@,
                rn == self.entries@[idx as int].remote_workspaces.len(),
                forall|k: int| 0 <= k < a as int ==> wv.remotes[k].name != remote_workspace@.name,
            decreases rn - a,
        {
            proof {
                assert(wv == self.entries@[idx as int]@);
                assert(wv.remotes[a as int]
                    == self.entries@[idx as int].remote_workspaces@[a as int]@);
            }
            if str_eq(&self.entries[idx].remote_workspaces[a].name, &remote_workspace.name) {
                let m = msg4(
                    "A remote workspace named '",
                    &remote_workspace.name,
                    "' is already attached to the local workspace '",
                    &workspace_id,
                    "'",
                );
                proof {
                    assert(s == old(self)@);
                    assert(old(self)@ =~= s);
                    assert(old(self)@[idx as int] == wv);
                    assert(old(self)@[idx as int].name == workspace_id@);
                    assert(contains_name(old(self)@, workspace_id@));
                    lemma_find_idx_eq(s, old(self)@, workspace_id@);
                    assert(find_idx(old(self)@, workspace_id@) == idx as int);
                    assert(wv.remotes[a as int].name == remote_workspace@.name);
                    assert(has_remote_named(
                        old(self)@[find_idx(old(self)@, workspace_id@)],
                        remote_workspace@.name,
                    ));
                }
                return Result::Err(WsConfigError::Message(m));
            }
            a = a + 1;
        }
        assert(!has_remote_named(wv, remote_workspace@.name));

        let mut entry = self.entries.remove(idx);
        entry.remote_workspaces.push(remote_workspace);
        self.entries.insert(idx, entry);
        proof {
            assert(self@[idx as int].remotes =~= with_remote(wv, remote_workspace@).remotes);
            assert(self@[idx as int] =~~= with_remote(wv, remote_workspace@));
            assert(self@ =~~= spec_attach(s, workspace_id@, remote_workspace@));
            if registry_wf(s) {
                lemma_find_idx(s, workspace_id@);
                assert forall|k: int| 0 <= k < self@.len() implies workspace_wf(#[trigger] self@[k]) by {
                    if k != idx as int {
                        assert(self@[k] == s[k]);
                    }
                }
                assert(registry_wf(self@));
            }
        }
        Result::Ok(())
    }

    /// Removes the remote workspace named `remote_workspace_id` from the
    /// workspace named `workspace_id`. Fails when either does not exist.
    pub fn detach_remote_workspace(
        &mut self,
        workspace_id: String,
        remote_workspace_id: String,
    ) -> (r: Result<(), WsConfigError>)
        ensures
            match r {
                Result::Ok(_) => {
                    &&& contains_name(old(self)@, workspace_id@)
                    &&& has_remote_named(
                        old(self)@[find_idx(old(self)@, workspace_id@)],
                        remote_workspace_id@,
                    )
                    &&& final(self)@ == spec_detach(old(self)@, workspace_id@, remote_workspace_id@)
                    &&& old(self).wf() ==> final(self).wf()
                    &&& !has_remote_named(
                        final(self)@[find_idx(old(self)@, workspace_id@)],
                        remote_workspace_id@,
                    )
                },
                Result::Err(e) => {
                    &&& final(self)@ == old(self)@
                    &&& match e {
                        WsConfigError::Message(m) => {
                            if !contains_name(old(self)@, workspace_id@) {
                                m@ == msg_no_local_workspace(workspace_id@)
                            } else {
                                !has_remote_named(
                                    old(self)@[find_idx(old(self)@, workspace_id@)],
                                    remote_workspace_id@,
                                ) && m@ == msg_detach_not_found(remote_workspace_id@, workspace_id@)
                            }
                        },
                        WsConfigError::Io(_) => false,
                    }
                },
            },
    {
        let ghost s = self@;
        let ghost rname = remote_workspace_id@;
        let ghost rpred = |r: RemoteV| r.name != rname;
        let idx = match self.find_index_by_name(&workspace_id) {
            Option::Some(i) => i,
            Option::None => {
                let m = msg2("No local workspace named '", &workspace_id, "' exists");
                return Result::Err(WsConfigError::Message(m));
            },
        };
        let ghost wv = s[idx as int];
        proof {
            lemma_find_idx(s, workspace_id@);
            assert(contains_name(s, workspace_id@));
        }

        let mut entry = self.entries.remove(idx);
        let ghost rs = wv.remotes;
        let rn = entry.remote_workspaces.len();
        let mut kept: Vec<RemoteWorkspace> = Vec::new();
        let mut removed = false;
        let mut a: usize = 0;
        while a < rn
            invariant
                a <= rn,
                rn == entry.remote_workspaces.len(),
                entry@.remotes == rs,
                rname == remote_workspace_id@,
                rpred == (|r: RemoteV| r.name != rname),
                kept@.map_values(|r: RemoteWorkspace| r@) == rs.take(a as int).filter(rpred),
                removed == exists|k: int| 0 <= k < a as int && rs[k].name == rname,
            decreases rn - a,
        {
            proof {
                assert(rs.take(a as int + 1).drop_last() =~= rs.take(a as int));
                assert(rs.take(a as int + 1).last() == rs[a as int]);
                reveal(Seq::filter);
            }
            proof {
                assert(rs[a as int] == entry.remote_workspaces@[a as int]@);
            }
            if str_eq(&entry.remote_workspaces[a].name, &remote_workspace_id) {
                removed = true;
                assert(rs[a as int].name == rname);
            } else {
                kept.push(entry.remote_workspaces[a].clone_rw());
            }
            proof {
                assert(kept@.map_values(|r: RemoteWorkspace| r@)
                    =~= rs.take(a as int + 1).filter(rpred));
            }
            a = a + 1;
        }
        proof {
            assert(rs.take(rn as int) =~= rs);
        }
        if !removed {
            self.entries.insert(idx, entry);
            let m = msg4(
                "No remote workspace named '",
                &remote_workspace_id,
                "' is attached to the local workspace '",
                &workspace_id,
                "'",
            );
            proof {
                assert(self@ =~= s);
                assert(!has_remote_named(wv, rname));
            }
            return Result::Err(WsConfigError::Message(m));
        }
        entry.remote_workspaces = kept;
        self.entries.insert(idx, entry);
        proof {
            assert(has_remote_named(wv, rname));
            assert(self@[idx as int].remotes =~= without_remote(wv, rname).remotes);
            assert(self@[idx as int] =~~= without_remote(wv, rname));
            assert(self@ =~~= spec_detach(s, workspace_id@, rname));
            assert forall|k: int| 0 <= k < self@[idx as int].remotes.len()
                implies self@[idx as int].remotes[k].name != rname by {
                Seq::lemma_filter_pred(rs, rpred, k);
            }
            if registry_wf(s) {
                lemma_filter_distinct(rs, rpred, |r: RemoteV| r.name);
                assert(workspace_wf(self@[idx as int]));
                assert forall|k: int| 0 <= k < self@.len() implies workspace_wf(#[trigger] self@[k]) by {
                    if k != idx as int {
                        assert(self@[k] == s[k]);
                    }
                }
                assert(registry_wf(self@));
            }
        }
        Result::Ok(())
    }
}

/// The registry file content for the current state: the canonical document
/// of all workspaces. Rewriting the file with exactly this text after every
/// successful mutation keeps the file equal to the in-memory state.
impl WorkspaceConfiguration {
    pub fn to_json(&self) -> (r: String)
        ensures
            r@ == crate::codec::jser_registry(self@),
    {
        let r = crate::codec::registry_to_json(&self.entries);
        proof {
            assert(crate::codec::wsi_views(self.entries@) =~= self@);
        }
        r
    }
}

/// Text of the `addWorkspace` conflict error, naming the conflicting entry.
pub open spec fn msg_add_conflict(existing_name: Seq<char>) -> Seq<char> {
    "Local workspace with this name or at this local path already exists: '"@ + existing_name + "'"@
}

/// Text of the `removeWorkspace` not-found error.
pub open spec fn msg_remove_not_found(name: Seq<char>) -> Seq<char> {
    "No workspace named '"@ + name + "' found"@
}

/// Text of the attach/detach error for a missing workspace.
pub open spec fn msg_no_local_workspace(name: Seq<char>) -> Seq<char> {
    "No local workspace named '"@ + name + "' exists"@
}

/// Text of the attach error for a duplicate remote name.
pub open spec fn msg_attach_conflict(rname: Seq<char>, wsname: Seq<char>) -> Seq<char> {
    "A remote workspace named '"@ + rname + "' is already attached to the local workspace '"@
        + wsname + "'"@
}

/// Text of the detach error for a missing remote name.
pub open spec fn msg_detach_not_found(rname: Seq<char>, wsname: Seq<char>) -> Seq<char> {
    "No remote workspace named '"@ + rname + "' is attached to the local workspace '"@ + wsname
        + "'"@
}

/// `a`, then `mid`, then `b`.
pub fn msg2(a: &str, mid: &String, b: &str) -> (r: String)
    ensures
        r@ == a@ + mid@ + b@,
{
    let mut m = a.to_owned();
    m.append(mid.as_str());
    m.append(b);
    m
}

/// `a`, then `m1`, then `b`, then `m2`, then `c`.
pub fn msg4(a: &str, m1: &String, b: &str, m2: &String, c: &str) -> (r: String)
    ensures
        r@ == a@ + m1@ + b@ + m2@ + c@,
{
    let mut m = a.to_owned();
    m.append(m1.as_str());
    m.append(b);
    m.append(m2.as_str());
    m.append(c);
    m
}

// --- Laws relating the registry operations ---

/// After a successful add of `w`, `findByName(w.name)` returns `w`.
pub proof fn lemma_find_after_add(s: Seq<WorkspaceV>, w: WorkspaceV)
    requires
        !contains_name(s, w.name),
    ensures
        spec_find(spec_add(s, w), w.name) == Option::Some(w),
{
    let t = spec_add(s, w);
    lemma_find_idx(t, w.name);
    assert(t[s.len() as int].name == w.name);
    assert(contains_name(t, w.name));
    let i = find_idx(t, w.name);
    if i < s.len() {
        assert(s[i] == t[i]);
        assert(contains_name(s, w.name));
    }
    assert(i == s.len());
}

/// After a successful remove of `name`, `findByName(name)` returns none.
pub proof fn lemma_find_after_remove(s: Seq<WorkspaceV>, name: Seq<char>)
    ensures
        spec_find(spec_remove(s, name), name) is None,
        !contains_name(spec_remove(s, name), name),
{
    let t = spec_remove(s, name);
    assert forall|k: int| 0 <= k < t.len() implies t[k].name != name by {
        Seq::lemma_filter_pred(s, |w: WorkspaceV| w.name != name, k);
    }
    lemma_find_idx(t, name);
}

/// Adding a workspace under another name leaves `findByName(name)` unchanged.
pub proof fn lemma_find_frame_add(s: Seq<WorkspaceV>, w: WorkspaceV, name: Seq<char>)
    requires
        w.name != name,
    ensures
        spec_find(spec_add(s, w), name) == spec_find(s, name),
{
    let t = spec_add(s, w);
    lemma_find_idx(s, name);
    lemma_find_idx(t, name);
    let i = find_idx(s, name);
    let j = find_idx(t, name);
    if i < s.len() {
        assert(t[i].name == name);
        if j < i {
            assert(s[j] == t[j]);
        }
        assert(j >= i);
        assert(j == i);
    } else {
        if j < t.len() {
            assert(j == s.len() as int);
        }
    }
}

/// Removing another name leaves `findByName(name)` unchanged.
pub proof fn lemma_find_frame_remove(s: Seq<WorkspaceV>, rm: Seq<char>, name: Seq<char>)
    requires
        rm != name,
    ensures
        spec_find(spec_remove(s, rm), name) == spec_find(s, name),
    decreases s.len(),
{
    reveal(Seq::filter);
    let pred = |w: WorkspaceV| w.name != rm;
    if s.len() == 0 {
        assert(s.filter(pred) =~= s);
    } else {
        let ds = s.drop_last();
        lemma_find_frame_remove(ds, rm, name);
        lemma_find_first_match(ds, s.last(), name);
        lemma_find_first_match(ds.filter(pred), s.last(), name);
        if pred(s.last()) {
            assert(s =~= ds.push(s.last()));
            assert(s.filter(pred) =~= ds.filter(pred).push(s.last()));
        } else {
            assert(s =~= ds.push(s.last()));
            assert(s.filter(pred) =~= ds.filter(pred));
            assert(s.last().name == rm);
            assert(spec_find(s, name) == spec_find(ds, name));
        }
    }
}

/// `findByName` over a sequence extended by one element: the old result wins
/// when present, otherwise the new element is consulted.
pub proof fn lemma_find_first_match(s: Seq<WorkspaceV>, w: WorkspaceV, name: Seq<char>)
    ensures
        spec_find(s.push(w), name) == (if spec_find(s, name) is Some {
            spec_find(s, name)
        } else if w.name == name {
            Option::Some(w)
        } else {
            Option::<WorkspaceV>::None
        }),
{
    let t = s.push(w);
    lemma_find_idx(s, name);
    lemma_find_idx(t, name);
    let i = find_idx(s, name);
    let j = find_idx(t, name);
    if i < s.len() {
        assert(t[i].name == name);
        if j < i {
            assert(s[j] == t[j]);
        }
        assert(j == i);
    } else {
        if j < s.len() {
            assert(s[j] == t[j]);
        }
        if w.name == name {
            assert(t[s.len() as int].name == name);
            assert(j == s.len() as int);
        } else {
            if j < t.len() {
                assert(false);
            }
        }
    }
}

/// Attaching a remote workspace never changes which workspace names exist.
pub proof fn lemma_contains_frame_attach(
    s: Seq<WorkspaceV>,
    wsname: Seq<char>,
    r: RemoteV,
    name: Seq<char>,
)
    requires
        contains_name(s, wsname),
    ensures
        contains_name(spec_attach(s, wsname, r), name) == contains_name(s, name),
{
    lemma_find_idx(s, wsname);
    let t = spec_attach(s, wsname, r);
    let i = find_idx(s, wsname);
    assert(t[i].name == s[i].name);
    assert forall|k: int| 0 <= k < s.len() implies t[k].name == s[k].name by {}
    if contains_name(s, name) {
        let k = choose|k: int| 0 <= k < s.len() && s[k].name == name;
        assert(t[k].name == name);
    }
    if contains_name(t, name) {
        let k = choose|k: int| 0 <= k < t.len() && t[k].name == name;
        assert(s[k].name == name);
    }
}

/// Detaching a remote workspace never changes which workspace names exist.
pub proof fn lemma_contains_frame_detach(
    s: Seq<WorkspaceV>,
    wsname: Seq<char>,
    rname: Seq<char>,
    name: Seq<char>,
)
    requires
        contains_name(s, wsname),
    ensures
        contains_name(spec_detach(s, wsname, rname), name) == contains_name(s, name),
{
    lemma_find_idx(s, wsname);
    let t = spec_detach(s, wsname, rname);
    let i = find_idx(s, wsname);
    assert(t[i].name == s[i].name);
    if contains_name(s, name) {
        let k = choose|k: int| 0 <= k < s.len() && s[k].name == name;
        assert(t[k].name == name);
    }
    if contains_name(t, name) {
        let k = choose|k: int| 0 <= k < t.len() && t[k].name == name;
        assert(s[k].name == name);
    }
}

/// Adding a workspace whose name is new and then removing that name restores
/// the registry exactly; with the canonical serializer this makes the
/// registry file content identical to the pre-state.
pub proof fn lemma_add_then_remove(s: Seq<WorkspaceV>, w: WorkspaceV)
    requires
        !contains_name(s, w.name),
    ensures
        spec_remove(spec_add(s, w), w.name) == s,
{
    let pred = |x: WorkspaceV| x.name != w.name;
    Seq::lemma_filter_push(s, w, pred);
    assert forall|i: int| 0 <= i < s.len() implies pred(#[trigger] s[i]) by {
        if s[i].name == w.name {
            assert(contains_name(s, w.name));
        }
    }
    lemma_filter_all_true(s, pred);
}

} // verus!
