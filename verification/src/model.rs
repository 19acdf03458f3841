//! Core data model: workspaces, attached remote workspaces and the connection
//! description used to reach a remote system, together with their mathematical
//! views and well-formedness predicates.

use vstd::prelude::*;

verus! {

/// How a remote system is reached. Exactly three shapes exist: explicit SSH
/// parameters, an alias resolved by the host's SSH configuration, or a
/// connection to an rsync daemon.
#[derive(Clone)]
pub enum ConnectionInfo {
    Ssh { host: String, port: Option<u16>, username: Option<String>, identity_file: Option<String> },
    HostAlias { host_alias: String },
    RsyncDaemon { host: String, port: Option<u16>, username: Option<String> },
}

/// A sync target attached to a workspace, identified by a name that is unique
/// within its parent workspace.
#[derive(Clone)]
pub struct RemoteWorkspace {
    pub name: String,
    pub remote_path: String,
    pub connection_info: ConnectionInfo,
}

/// A managed local directory tree, identified by a name that is unique within
/// the registry; its local path is unique as well.
#[derive(Clone)]
pub struct WorkspaceInformation {
    pub name: String,
    pub local_path: String,
    pub remote_workspaces: Vec<RemoteWorkspace>,
}

/// Mathematical view of a [`ConnectionInfo`].
#[verifier::ext_equal]
pub enum ConnV {
    Ssh { host: Seq<char>, port: Option<u16>, username: Option<Seq<char>>, identity_file: Option<Seq<char>> },
    HostAlias { host_alias: Seq<char> },
    RsyncDaemon { host: Seq<char>, port: Option<u16>, username: Option<Seq<char>> },
}

/// Mathematical view of a [`RemoteWorkspace`].
#[verifier::ext_equal]
pub struct RemoteV {
    pub name: Seq<char>,
    pub remote_path: Seq<char>,
    pub conn: ConnV,
}

/// Mathematical view of a [`WorkspaceInformation`].
#[verifier::ext_equal]
pub struct WorkspaceV {
    pub name: Seq<char>,
    pub local_path: Seq<char>,
    pub remotes: Seq<RemoteV>,
}

pub open spec fn view_opt_string(o: Option<String>) -> Option<Seq<char>> {
    match o {
        Option::Some(s) => Option::Some(s@),
        Option::None => Option::None,
    }
}

impl View for ConnectionInfo {
    type V = ConnV;

    open spec fn view(&self) -> ConnV {
        match self {
            ConnectionInfo::Ssh { host, port, username, identity_file } => ConnV::Ssh {
                host: host@,
                port: *port,
                username: view_opt_string(*username),
                identity_file: view_opt_string(*identity_file),
            },
            ConnectionInfo::HostAlias { host_alias } => ConnV::HostAlias { host_alias: host_alias@ },
            ConnectionInfo::RsyncDaemon { host, port, username } => ConnV::RsyncDaemon {
                host: host@,
                port: *port,
                username: view_opt_string(*username),
            },
        }
    }
}

impl View for RemoteWorkspace {
    type V = RemoteV;

    open spec fn view(&self) -> RemoteV {
        RemoteV { name: self.name@, remote_path: self.remote_path@, conn: self.connection_info@ }
    }
}

impl View for WorkspaceInformation {
    type V = WorkspaceV;

    open spec fn view(&self) -> WorkspaceV {
        WorkspaceV {
            name: self.name@,
            local_path: self.local_path@,
            remotes: self.remote_workspaces@.map_values(|r: RemoteWorkspace| r@),
        }
    }
}

/// The names of the remote workspaces attached to a workspace, in order.
pub open spec fn remote_names(w: WorkspaceV) -> Seq<Seq<char>> {
    w.remotes.map_values(|r: RemoteV| r.name)
}

/// A workspace is well formed when the names of its attached remote workspaces
/// are pairwise distinct.
pub open spec fn workspace_wf(w: WorkspaceV) -> bool {
    forall|i: int, j: int|
        0 <= i < j < w.remotes.len() ==> w.remotes[i].name != w.remotes[j].name
}

/// Whether some workspace in `s` carries the name `name`.
pub open spec fn contains_name(s: Seq<WorkspaceV>, name: Seq<char>) -> bool {
    exists|i: int| 0 <= i < s.len() && s[i].name == name
}

/// Whether some workspace in `s` is rooted at the local path `path`.
pub open spec fn contains_local_path(s: Seq<WorkspaceV>, path: Seq<char>) -> bool {
    exists|i: int| 0 <= i < s.len() && s[i].local_path == path
}

/// Whether a workspace has a remote workspace named `name` attached.
pub open spec fn has_remote_named(w: WorkspaceV, name: Seq<char>) -> bool {
    exists|i: int| 0 <= i < w.remotes.len() && w.remotes[i].name == name
}

impl RemoteWorkspace {
    /// Clones every field; the copy views equal to the original.
    pub fn clone_rw(&self) -> (r: RemoteWorkspace)
        ensures
            r@ == self@,
    {
        RemoteWorkspace {
            name: self.name.clone(),
            remote_path: self.remote_path.clone(),
            connection_info: self.connection_info.clone_conn(),
        }
    }
}

impl ConnectionInfo {
    /// Clones every field; the copy views equal to the original.
    pub fn clone_conn(&self) -> (r: ConnectionInfo)
        ensures
            r@ == self@,
    {
        match self {
            ConnectionInfo::Ssh { host, port, username, identity_file } => ConnectionInfo::Ssh {
                host: host.clone(),
                port: clone_opt_u16(port),
                username: clone_opt_string(username),
                identity_file: clone_opt_string(identity_file),
            },
            ConnectionInfo::HostAlias { host_alias } => ConnectionInfo::HostAlias {
                host_alias: host_alias.clone(),
            },
            ConnectionInfo::RsyncDaemon { host, port, username } => ConnectionInfo::RsyncDaemon {
                host: host.clone(),
                port: clone_opt_u16(port),
                username: clone_opt_string(username),
            },
        }
    }
}

/// String equality, exact over the views.
pub fn str_eq(a: &String, b: &String) -> (r: bool)
    ensures
        r == (a@ == b@),
{
    *a == *b
}

pub fn clone_opt_string(o: &Option<String>) -> (r: Option<String>)
    ensures
        view_opt_string(r) == view_opt_string(*o),
        r is Some <==> *o is Some,
{
    match o {
        Option::Some(s) => Option::Some(s.clone()),
        Option::None => Option::None,
    }
}

pub fn clone_opt_u16(o: &Option<u16>) -> (r: Option<u16>)
    ensures
        r == *o,
{
    match o {
        Option::Some(p) => Option::Some(*p),
        Option::None => Option::None,
    }
}

impl WorkspaceInformation {
    /// Clones every field; the copy views equal to the original.
    pub fn clone_ws(&self) -> (r: WorkspaceInformation)
        ensures
            r@ == self@,
    {
        let mut remotes: Vec<RemoteWorkspace> = Vec::new();
        let n = self.remote_workspaces.len();
        let mut i: usize = 0;
        while i < n
            invariant
                i <= n,
                n == self.remote_workspaces.len(),
                remotes@.len() == i as int,
                forall|k: int| 0 <= k < i as int ==> remotes@[k]@ == self.remote_workspaces@[k]@,
            decreases n - i,
        {
            remotes.push(self.remote_workspaces[i].clone_rw());
            i = i + 1;
        }
        let r = WorkspaceInformation {
            name: self.name.clone(),
            local_path: self.local_path.clone(),
            remote_workspaces: remotes,
        };
        proof {
            assert(r@.remotes =~= self@.remotes);
            assert(r@ =~= self@);
        }
        r
    }
}

} // verus!
