//! The command envelopes of the control socket: the command tag a client
//! sends first, and the per-command data document that may follow. The daemon
//! parses these with the canonical parsers; the client builds them with the
//! canonical serializers.

use vstd::prelude::*;
use crate::model::{ConnectionInfo, ConnV, view_opt_string};
use crate::json::{jser_string, jp_string, jp_lit, matches_at};
use crate::codec::{jser_conn, jp_conn};

verus! {

/// Every command the daemon understands.
pub enum Command {
    WorkspaceInfo,
    ListWorkspaces,
    ListWorkspaceInfo,
    AddWorkspace,
    RemoveWorkspace,
    AttachRemoteWorkspace,
    DetachRemoteWorkspace,
}

/// The tag under which a command travels.
pub open spec fn tag_of(c: Command) -> Seq<char> {
    match c {
        Command::WorkspaceInfo => "workspace_info"@,
        Command::ListWorkspaces => "list_workspaces"@,
        Command::ListWorkspaceInfo => "list_workspace_info"@,
        Command::AddWorkspace => "add_workspace"@,
        Command::RemoveWorkspace => "remove_workspace"@,
        Command::AttachRemoteWorkspace => "attach_remote_workspace"@,
        Command::DetachRemoteWorkspace => "detach_remote_workspace"@,
    }
}

/// The command a tag names, if any.
pub open spec fn command_of_tag(s: Seq<char>) -> Option<Command> {
    if s == "workspace_info"@ {
        Option::Some(Command::WorkspaceInfo)
    } else if s == "list_workspaces"@ {
        Option::Some(Command::ListWorkspaces)
    } else if s == "list_workspace_info"@ {
        Option::Some(Command::ListWorkspaceInfo)
    } else if s == "add_workspace"@ {
        Option::Some(Command::AddWorkspace)
    } else if s == "remove_workspace"@ {
        Option::Some(Command::RemoveWorkspace)
    } else if s == "attach_remote_workspace"@ {
        Option::Some(Command::AttachRemoteWorkspace)
    } else if s == "detach_remote_workspace"@ {
        Option::Some(Command::DetachRemoteWorkspace)
    } else {
        Option::None
    }
}

impl Command {
    /// The tag this command travels under.
    pub fn as_tag(&self) -> (r: String)
        ensures
            r@ == tag_of(*self),
    {
        match self {
            Command::WorkspaceInfo => "workspace_info".to_owned(),
            Command::ListWorkspaces => "list_workspaces".to_owned(),
            Command::ListWorkspaceInfo => "list_workspace_info".to_owned(),
            Command::AddWorkspace => "add_workspace".to_owned(),
            Command::RemoveWorkspace => "remove_workspace".to_owned(),
            Command::AttachRemoteWorkspace => "attach_remote_workspace".to_owned(),
            Command::DetachRemoteWorkspace => "detach_remote_workspace".to_owned(),
        }
    }

    /// Reads a tag back into a command; unknown tags are rejected.
    pub fn from_tag(s: &str) -> (r: Option<Command>)
        ensures
            r == command_of_tag(s@),
    {
        if crate::json::str_eqs(s, "workspace_info") {
            Option::Some(Command::WorkspaceInfo)
        } else if crate::json::str_eqs(s, "list_workspaces") {
            Option::Some(Command::ListWorkspaces)
        } else if crate::json::str_eqs(s, "list_workspace_info") {
            Option::Some(Command::ListWorkspaceInfo)
        } else if crate::json::str_eqs(s, "add_workspace") {
            Option::Some(Command::AddWorkspace)
        } else if crate::json::str_eqs(s, "remove_workspace") {
            Option::Some(Command::RemoveWorkspace)
        } else if crate::json::str_eqs(s, "attach_remote_workspace") {
            Option::Some(Command::AttachRemoteWorkspace)
        } else if crate::json::str_eqs(s, "detach_remote_workspace") {
            Option::Some(Command::DetachRemoteWorkspace)
        } else {
            Option::None
        }
    }

    /// Whether a data document follows the command envelope.
    pub fn has_body(&self) -> (r: bool)
        ensures
            r == !(self is ListWorkspaces || self is ListWorkspaceInfo),
    {
        match self {
            Command::ListWorkspaces => false,
            Command::ListWorkspaceInfo => false,
            _ => true,
        }
    }
}

/// The first envelope of every exchange.
pub struct CommandRequest {
    pub command: String,
}

/// Body of `workspace_info`.
pub struct WorkspaceInfoRequest {
    pub name: String,
}

/// Body of `add_workspace`.
pub struct AddWorkspaceRequest {
    pub name: String,
    pub path: String,
}

/// Body of `remove_workspace`.
pub struct RemoveWorkspaceRequest {
    pub name: String,
}

/// Body of `attach_remote_workspace`.
pub struct AttachRemoteWorkspaceRequest {
    pub local_workspace_name: String,
    pub remote_workspace_name: String,
    pub remote_workspace_path: String,
    pub connection_info: ConnectionInfo,
}

/// Body of `detach_remote_workspace`.
pub struct DetachRemoteWorkspaceRequest {
    pub local_workspace_name: String,
    pub remote_workspace_name: String,
}

// --- canonical documents ---

pub open spec fn jser_command_request(tag: Seq<char>) -> Seq<char> {
    "{\"command\":"@ + jser_string(tag) + "}"@
}

pub open spec fn jser_name_obj(name: Seq<char>) -> Seq<char> {
    "{\"name\":"@ + jser_string(name) + "}"@
}

pub open spec fn jser_add_req(name: Seq<char>, path: Seq<char>) -> Seq<char> {
    "{\"name\":"@ + jser_string(name) + ",\"path\":"@ + jser_string(path) + "}"@
}

pub open spec fn jser_attach_req(local: Seq<char>, remote: Seq<char>, rpath: Seq<char>, conn: ConnV) -> Seq<char> {
    "{\"local_workspace_name\":"@ + jser_string(local) + ",\"remote_workspace_name\":"@
        + jser_string(remote) + ",\"remote_workspace_path\":"@ + jser_string(rpath)
        + ",\"connection_info\":"@ + jser_conn(conn) + "}"@
}

pub open spec fn jser_detach_req(local: Seq<char>, remote: Seq<char>) -> Seq<char> {
    "{\"local_workspace_name\":"@ + jser_string(local) + ",\"remote_workspace_name\":"@
        + jser_string(remote) + "}"@
}

// --- spec parsers (whole documents) ---

pub open spec fn jp_command_request_doc(s: Seq<char>) -> Option<Seq<char>> {
    match jp_lit(s, 0, "{\"command\":"@) {
        Option::Some(j0) => match jp_string(s, j0) {
            Option::Some((tag, j1)) => match jp_lit(s, j1, "}"@) {
                Option::Some(j2) => if j2 == s.len() {
                    Option::Some(tag)
                } else {
                    Option::None
                },
                Option::None => Option::None,
            },
            Option::None => Option::None,
        },
        Option::None => Option::None,
    }
}

pub open spec fn jp_name_obj_doc(s: Seq<char>) -> Option<Seq<char>> {
    match jp_lit(s, 0, "{\"name\":"@) {
        Option::Some(j0) => match jp_string(s, j0) {
            Option::Some((name, j1)) => match jp_lit(s, j1, "}"@) {
                Option::Some(j2) => if j2 == s.len() {
                    Option::Some(name)
                } else {
                    Option::None
                },
                Option::None => Option::None,
            },
            Option::None => Option::None,
        },
        Option::None => Option::None,
    }
}

pub open spec fn jp_add_req_doc(s: Seq<char>) -> Option<(Seq<char>, Seq<char>)> {
    match jp_lit(s, 0, "{\"name\":"@) {
        Option::Some(j0) => match jp_string(s, j0) {
            Option::Some((name, j1)) => match jp_lit(s, j1, ",\"path\":"@) {
                Option::Some(j2) => match jp_string(s, j2) {
                    Option::Some((path, j3)) => match jp_lit(s, j3, "}"@) {
                        Option::Some(j4) => if j4 == s.len() {
                            Option::Some((name, path))
                        } else {
                            Option::None
                        },
                        Option::None => Option::None,
                    },
                    Option::None => Option::None,
                },
                Option::None => Option::None,
            },
            Option::None => Option::None,
        },
        Option::None => Option::None,
    }
}

pub open spec fn jp_attach_req_doc(s: Seq<char>) -> Option<(Seq<char>, Seq<char>, Seq<char>, ConnV)> {
    match jp_lit(s, 0, "{\"local_workspace_name\":"@) {
        Option::Some(j0) => match jp_string(s, j0) {
            Option::Some((local, j1)) => match jp_lit(s, j1, ",\"remote_workspace_name\":"@) {
                Option::Some(j2) => match jp_string(s, j2) {
                    Option::Some((remote, j3)) => match jp_lit(s, j3, ",\"remote_workspace_path\":"@) {
                        Option::Some(j4) => match jp_string(s, j4) {
                            Option::Some((rpath, j5)) => match jp_lit(s, j5, ",\"connection_info\":"@) {
                                Option::Some(j6) => match jp_conn(s, j6) {
                                    Option::Some((conn, j7)) => match jp_lit(s, j7, "}"@) {
                                        Option::Some(j8) => if j8 == s.len() {
                                            Option::Some((local, remote, rpath, conn))
                                        } else {
                                            Option::None
                                        },
                                        Option::None => Option::None,
                                    },
                                    Option::None => Option::None,
                                },
                                Option::None => Option::None,
                            },
                            Option::None => Option::None,
                        },
                        Option::None => Option::None,
                    },
                    Option::None => Option::None,
                },
                Option::None => Option::None,
            },
            Option::None => Option::None,
        },
        Option::None => Option::None,
    }
}

pub open spec fn jp_detach_req_doc(s: Seq<char>) -> Option<(Seq<char>, Seq<char>)> {
    match jp_lit(s, 0, "{\"local_workspace_name\":"@) {
        Option::Some(j0) => match jp_string(s, j0) {
            Option::Some((local, j1)) => match jp_lit(s, j1, ",\"remote_workspace_name\":"@) {
                Option::Some(j2) => match jp_string(s, j2) {
                    Option::Some((remote, j3)) => match jp_lit(s, j3, "}"@) {
                        Option::Some(j4) => if j4 == s.len() {
                            Option::Some((local, remote))
                        } else {
                            Option::None
                        },
                        Option::None => Option::None,
                    },
                    Option::None => Option::None,
                },
                Option::None => Option::None,
            },
            Option::None => Option::None,
        },
        Option::None => Option::None,
    }
}

// --- executable serializers ---

/// The command envelope a client sends first.
pub fn command_request_to_json(c: &Command) -> (r: String)
    ensures
        r@ == jser_command_request(tag_of(*c)),
{
    let tag = c.as_tag();
    let mut out = String::new();
    out.append("{\"command\":");
    crate::json::append_json_string(&mut out, &tag);
    out.append("}");
    proof {
        assert(out@ =~= jser_command_request(tag_of(*c)));
    }
    out
}

/// The `workspace_info` and `remove_workspace` bodies: one name.
pub fn name_obj_to_json(name: &String) -> (r: String)
    ensures
        r@ == jser_name_obj(name@),
{
    let mut out = String::new();
    out.append("{\"name\":");
    crate::json::append_json_string(&mut out, name);
    out.append("}");
    proof {
        assert(out@ =~= jser_name_obj(name@));
    }
    out
}

/// The `add_workspace` body.
pub fn add_req_to_json(req: &AddWorkspaceRequest) -> (r: String)
    ensures
        r@ == jser_add_req(req.name@, req.path@),
{
    let mut out = String::new();
    out.append("{\"name\":");
    crate::json::append_json_string(&mut out, &req.name);
    out.append(",\"path\":");
    crate::json::append_json_string(&mut out, &req.path);
    out.append("}");
    proof {
        assert(out@ =~= jser_add_req(req.name@, req.path@));
    }
    out
}

/// The `attach_remote_workspace` body.
pub fn attach_req_to_json(req: &AttachRemoteWorkspaceRequest) -> (r: String)
    ensures
        r@ == jser_attach_req(
            req.local_workspace_name@,
            req.remote_workspace_name@,
            req.remote_workspace_path@,
            req.connection_info@,
        ),
{
    let mut out = String::new();
    out.append("{\"local_workspace_name\":");
    crate::json::append_json_string(&mut out, &req.local_workspace_name);
    out.append(",\"remote_workspace_name\":");
    crate::json::append_json_string(&mut out, &req.remote_workspace_name);
    out.append(",\"remote_workspace_path\":");
    crate::json::append_json_string(&mut out, &req.remote_workspace_path);
    out.append(",\"connection_info\":");
    crate::codec::append_conn(&mut out, &req.connection_info);
    out.append("}");
    proof {
        assert(out@ =~= jser_attach_req(
            req.local_workspace_name@,
            req.remote_workspace_name@,
            req.remote_workspace_path@,
            req.connection_info@,
        ));
    }
    out
}

/// The `detach_remote_workspace` body.
pub fn detach_req_to_json(req: &DetachRemoteWorkspaceRequest) -> (r: String)
    ensures
        r@ == jser_detach_req(req.local_workspace_name@, req.remote_workspace_name@),
{
    let mut out = String::new();
    out.append("{\"local_workspace_name\":");
    crate::json::append_json_string(&mut out, &req.local_workspace_name);
    out.append(",\"remote_workspace_name\":");
    crate::json::append_json_string(&mut out, &req.remote_workspace_name);
    out.append("}");
    proof {
        assert(out@ =~= jser_detach_req(
            req.local_workspace_name@,
            req.remote_workspace_name@,
        ));
    }
    out
}

// --- executable parsers ---

/// Reads the command envelope.
pub fn parse_command_request_json(s: &str) -> (r: Option<CommandRequest>)
    ensures
        match r {
            Option::Some(c) => jp_command_request_doc(s@) == Option::Some(c.command@),
            Option::None => jp_command_request_doc(s@) is None,
        },
{
    let n = s.unicode_len();
    let j0 = match crate::json::eat_lit(s, n, 0, "{\"command\":") {
        Option::Some(j) => j,
        Option::None => { return Option::None; },
    };
    let (command, j1) = match crate::json::p_string(s, n, j0) {
        Option::Some(v) => v,
        Option::None => { return Option::None; },
    };
    let j2 = match crate::json::eat_lit(s, n, j1, "}") {
        Option::Some(j) => j,
        Option::None => { return Option::None; },
    };
    if j2 == n {
        Option::Some(CommandRequest { command })
    } else {
        Option::None
    }
}

/// Reads a one-name body (`workspace_info`, `remove_workspace`).
pub fn parse_name_obj_json(s: &str) -> (r: Option<String>)
    ensures
        match r {
            Option::Some(v) => jp_name_obj_doc(s@) == Option::Some(v@),
            Option::None => jp_name_obj_doc(s@) is None,
        },
{
    let n = s.unicode_len();
    let j0 = match crate::json::eat_lit(s, n, 0, "{\"name\":") {
        Option::Some(j) => j,
        Option::None => { return Option::None; },
    };
    let (name, j1) = match crate::json::p_string(s, n, j0) {
        Option::Some(v) => v,
        Option::None => { return Option::None; },
    };
    let j2 = match crate::json::eat_lit(s, n, j1, "}") {
        Option::Some(j) => j,
        Option::None => { return Option::None; },
    };
    if j2 == n {
        Option::Some(name)
    } else {
        Option::None
    }
}

/// Reads the `add_workspace` body.
pub fn parse_add_req_json(s: &str) -> (r: Option<AddWorkspaceRequest>)
    ensures
        match r {
            Option::Some(v) => jp_add_req_doc(s@) == Option::Some((v.name@, v.path@)),
            Option::None => jp_add_req_doc(s@) is None,
        },
{
    let n = s.unicode_len();
    let j0 = match crate::json::eat_lit(s, n, 0, "{\"name\":") {
        Option::Some(j) => j,
        Option::None => { return Option::None; },
    };
    let (name, j1) = match crate::json::p_string(s, n, j0) {
        Option::Some(v) => v,
        Option::None => { return Option::None; },
    };
    let j2 = match crate::json::eat_lit(s, n, j1, ",\"path\":") {
        Option::Some(j) => j,
        Option::None => { return Option::None; },
    };
    let (path, j3) = match crate::json::p_string(s, n, j2) {
        Option::Some(v) => v,
        Option::None => { return Option::None; },
    };
    let j4 = match crate::json::eat_lit(s, n, j3, "}") {
        Option::Some(j) => j,
        Option::None => { return Option::None; },
    };
    if j4 == n {
        Option::Some(AddWorkspaceRequest { name, path })
    } else {
        Option::None
    }
}

/// Reads the `attach_remote_workspace` body.
pub fn parse_attach_req_json(s: &str) -> (r: Option<AttachRemoteWorkspaceRequest>)
    ensures
        match r {
            Option::Some(v) => jp_attach_req_doc(s@) == Option::Some(
                (
                    v.local_workspace_name@,
                    v.remote_workspace_name@,
                    v.remote_workspace_path@,
                    v.connection_info@,
                ),
            ),
            Option::None => jp_attach_req_doc(s@) is None,
        },
{
    let n = s.unicode_len();
    let j0 = match crate::json::eat_lit(s, n, 0, "{\"local_workspace_name\":") {
        Option::Some(j) => j,
        Option::None => { return Option::None; },
    };
    let (local_workspace_name, j1) = match crate::json::p_string(s, n, j0) {
        Option::Some(v) => v,
        Option::None => { return Option::None; },
    };
    let j2 = match crate::json::eat_lit(s, n, j1, ",\"remote_workspace_name\":") {
        Option::Some(j) => j,
        Option::None => { return Option::None; },
    };
    let (remote_workspace_name, j3) = match crate::json::p_string(s, n, j2) {
        Option::Some(v) => v,
        Option::None => { return Option::None; },
    };
    let j4 = match crate::json::eat_lit(s, n, j3, ",\"remote_workspace_path\":") {
        Option::Some(j) => j,
        Option::None => { return Option::None; },
    };
    let (remote_workspace_path, j5) = match crate::json::p_string(s, n, j4) {
        Option::Some(v) => v,
        Option::None => { return Option::None; },
    };
    let j6 = match crate::json::eat_lit(s, n, j5, ",\"connection_info\":") {
        Option::Some(j) => j,
        Option::None => { return Option::None; },
    };
    let (connection_info, j7) = match crate::codec::p_conn(s, n, j6) {
        Option::Some(v) => v,
        Option::None => { return Option::None; },
    };
    let j8 = match crate::json::eat_lit(s, n, j7, "}") {
        Option::Some(j) => j,
        Option::None => { return Option::None; },
    };
    if j8 == n {
        Option::Some(AttachRemoteWorkspaceRequest {
            local_workspace_name,
            remote_workspace_name,
            remote_workspace_path,
            connection_info,
        })
    } else {
        Option::None
    }
}

/// Reads the `detach_remote_workspace` body.
pub fn parse_detach_req_json(s: &str) -> (r: Option<DetachRemoteWorkspaceRequest>)
    ensures
        match r {
            Option::Some(v) => jp_detach_req_doc(s@) == Option::Some(
                (v.local_workspace_name@, v.remote_workspace_name@),
            ),
            Option::None => jp_detach_req_doc(s@) is None,
        },
{
    let n = s.unicode_len();
    let j0 = match crate::json::eat_lit(s, n, 0, "{\"local_workspace_name\":") {
        Option::Some(j) => j,
        Option::None => { return Option::None; },
    };
    let (local_workspace_name, j1) = match crate::json::p_string(s, n, j0) {
        Option::Some(v) => v,
        Option::None => { return Option::None; },
    };
    let j2 = match crate::json::eat_lit(s, n, j1, ",\"remote_workspace_name\":") {
        Option::Some(j) => j,
        Option::None => { return Option::None; },
    };
    let (remote_workspace_name, j3) = match crate::json::p_string(s, n, j2) {
        Option::Some(v) => v,
        Option::None => { return Option::None; },
    };
    let j4 = match crate::json::eat_lit(s, n, j3, "}") {
        Option::Some(j) => j,
        Option::None => { return Option::None; },
    };
    if j4 == n {
        Option::Some(DetachRemoteWorkspaceRequest { local_workspace_name, remote_workspace_name })
    } else {
        Option::None
    }
}

// --- round trip of the command envelope ---

/// Parsing a serialized command envelope yields the tag back.
pub proof fn lemma_rt_command_request(c: Command)
    ensures
        jp_command_request_doc(jser_command_request(tag_of(c))) == Option::Some(tag_of(c)),
{
    let s = jser_command_request(tag_of(c));
    assert(s.subrange(0, s.len() as int) =~= s);
    assert(matches_at(s, 0, s));
    reveal_strlit("{\"command\":");
    reveal_strlit("}");
    reveal_strlit("workspace_info");
    reveal_strlit("list_workspaces");
    reveal_strlit("list_workspace_info");
    reveal_strlit("add_workspace");
    reveal_strlit("remove_workspace");
    reveal_strlit("attach_remote_workspace");
    reveal_strlit("detach_remote_workspace");
    let l1 = "{\"command\":"@;
    let l2 = "}"@;
    let x1 = l1 + jser_string(tag_of(c));
    crate::json::lemma_matches_split(s, 0, x1, l2);
    crate::json::lemma_matches_split(s, 0, l1, jser_string(tag_of(c)));
    assert(crate::json::str_ok(tag_of(c)));
    crate::json::lemma_rt_string(tag_of(c), s, l1.len() as int);
    crate::json::lemma_matches_index(s, l1.len() + jser_string(tag_of(c)).len() as int, l2);
}

} // verus!
