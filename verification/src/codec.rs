//! The canonical JSON documents for connections, remote workspaces, workspaces
//! and the registry file, with the proof that parsing a serialized document
//! yields the value back. The registry file written after every successful
//! mutation is exactly `jser_registry` of the in-memory list, so reloading the
//! file restores the in-memory state.

use vstd::prelude::*;
use crate::model::{
    ConnV, RemoteV, WorkspaceV, ConnectionInfo, RemoteWorkspace, WorkspaceInformation,
    view_opt_string,
};
use crate::json::{
    jser_string, jser_opt_string, jser_opt_u16, jp_string, jp_opt_string, jp_opt_u16, jp_lit,
    str_ok, opt_str_ok, matches_at,
};

verus! {

// --- canonical text of each value ---

pub open spec fn jser_conn(c: ConnV) -> Seq<char> {
    match c {
        ConnV::Ssh { host, port, username, identity_file } => "{\"Ssh\":{\"host\":"@
            + jser_string(host) + ",\"port\":"@ + jser_opt_u16(port) + ",\"username\":"@
            + jser_opt_string(username) + ",\"identity_file\":"@ + jser_opt_string(identity_file)
            + "}}"@,
        ConnV::HostAlias { host_alias } => "{\"HostAlias\":{\"host_alias\":"@
            + jser_string(host_alias) + "}}"@,
        ConnV::RsyncDaemon { host, port, username } => "{\"RsyncDaemon\":{\"host\":"@
            + jser_string(host) + ",\"port\":"@ + jser_opt_u16(port) + ",\"username\":"@
            + jser_opt_string(username) + "}}"@,
    }
}

pub open spec fn jser_remote(r: RemoteV) -> Seq<char> {
    "{\"name\":"@ + jser_string(r.name) + ",\"remote_path\":"@ + jser_string(r.remote_path)
        + ",\"connection_info\":"@ + jser_conn(r.conn) + "}"@
}

pub open spec fn jser_remote_tail(rs: Seq<RemoteV>) -> Seq<char>
    decreases rs.len(),
{
    if rs.len() == 0 {
        seq![']']
    } else {
        seq![','] + jser_remote(rs[0]) + jser_remote_tail(rs.drop_first())
    }
}

/// A JSON array of remote workspaces.
pub open spec fn jser_remote_arr(rs: Seq<RemoteV>) -> Seq<char> {
    if rs.len() == 0 {
        "[]"@
    } else {
        seq!['['] + jser_remote(rs[0]) + jser_remote_tail(rs.drop_first())
    }
}

pub open spec fn jser_workspace(w: WorkspaceV) -> Seq<char> {
    "{\"name\":"@ + jser_string(w.name) + ",\"local_path\":"@ + jser_string(w.local_path)
        + ",\"remote_workspaces\":"@ + jser_remote_arr(w.remotes) + "}"@
}

pub open spec fn jser_workspace_tail(ws: Seq<WorkspaceV>) -> Seq<char>
    decreases ws.len(),
{
    if ws.len() == 0 {
        seq![']']
    } else {
        seq![','] + jser_workspace(ws[0]) + jser_workspace_tail(ws.drop_first())
    }
}

/// The registry file: a JSON array of workspaces.
pub open spec fn jser_registry(ws: Seq<WorkspaceV>) -> Seq<char> {
    if ws.len() == 0 {
        "[]"@
    } else {
        seq!['['] + jser_workspace(ws[0]) + jser_workspace_tail(ws.drop_first())
    }
}

// --- which values serialize to well-formed JSON ---

pub open spec fn conn_ok(c: ConnV) -> bool {
    match c {
        ConnV::Ssh { host, port, username, identity_file } => str_ok(host) && opt_str_ok(username)
            && opt_str_ok(identity_file),
        ConnV::HostAlias { host_alias } => str_ok(host_alias),
        ConnV::RsyncDaemon { host, port, username } => str_ok(host) && opt_str_ok(username),
    }
}

pub open spec fn remote_ok(r: RemoteV) -> bool {
    str_ok(r.name) && str_ok(r.remote_path) && conn_ok(r.conn)
}

pub open spec fn workspace_ok(w: WorkspaceV) -> bool {
    str_ok(w.name) && str_ok(w.local_path) && (forall|i: int|
        0 <= i < w.remotes.len() ==> remote_ok(#[trigger] w.remotes[i]))
}

pub open spec fn registry_ok(ws: Seq<WorkspaceV>) -> bool {
    forall|i: int| 0 <= i < ws.len() ==> workspace_ok(#[trigger] ws[i])
}

// --- spec-level parsers ---

pub open spec fn jp_conn(s: Seq<char>, i: int) -> Option<(ConnV, int)> {
    if jp_lit(s, i, "{\"Ssh\":{\"host\":"@) is Some {
        let j0 = jp_lit(s, i, "{\"Ssh\":{\"host\":"@)->Some_0;
        match jp_string(s, j0) {
            Option::Some((host, j1)) => match jp_lit(s, j1, ",\"port\":"@) {
                Option::Some(j2) => match jp_opt_u16(s, j2) {
                    Option::Some((port, j3)) => match jp_lit(s, j3, ",\"username\":"@) {
                        Option::Some(j4) => match jp_opt_string(s, j4) {
                            Option::Some((username, j5)) => match jp_lit(
                                s,
                                j5,
                                ",\"identity_file\":"@,
                            ) {
                                Option::Some(j6) => match jp_opt_string(s, j6) {
                                    Option::Some((identity_file, j7)) => match jp_lit(s, j7, "}}"@) {
                                        Option::Some(j8) => Option::Some(
                                            (
                                                ConnV::Ssh { host, port, username, identity_file },
                                                j8,
                                            ),
                                        ),
                                        Option::None => Option::None,
                                    },
                                    Option::None => Option::None,
                                },
                                Option::None => Option::None,
                            },
                            Option::None => Option::None,
                        },
                        Option::None => Option::None,
                    },
                    Option::None => Option::None,
                },
                Option::None => Option::None,
            },
            Option::None => Option::None,
        }
    } else if jp_lit(s, i, "{\"HostAlias\":{\"host_alias\":"@) is Some {
        let j0 = jp_lit(s, i, "{\"HostAlias\":{\"host_alias\":"@)->Some_0;
        match jp_string(s, j0) {
            Option::Some((host_alias, j1)) => match jp_lit(s, j1, "}}"@) {
                Option::Some(j2) => Option::Some((ConnV::HostAlias { host_alias }, j2)),
                Option::None => Option::None,
            },
            Option::None => Option::None,
        }
    } else if jp_lit(s, i, "{\"RsyncDaemon\":{\"host\":"@) is Some {
        let j0 = jp_lit(s, i, "{\"RsyncDaemon\":{\"host\":"@)->Some_0;
        match jp_string(s, j0) {
            Option::Some((host, j1)) => match jp_lit(s, j1, ",\"port\":"@) {
                Option::Some(j2) => match jp_opt_u16(s, j2) {
                    Option::Some((port, j3)) => match jp_lit(s, j3, ",\"username\":"@) {
                        Option::Some(j4) => match jp_opt_string(s, j4) {
                            Option::Some((username, j5)) => match jp_lit(s, j5, "}}"@) {
                                Option::Some(j6) => Option::Some(
                                    (ConnV::RsyncDaemon { host, port, username }, j6),
                                ),
                                Option::None => Option::None,
                            },
                            Option::None => Option::None,
                        },
                        Option::None => Option::None,
                    },
                    Option::None => Option::None,
                },
                Option::None => Option::None,
            },
            Option::None => Option::None,
        }
    } else {
        Option::None
    }
}

pub open spec fn jp_remote(s: Seq<char>, i: int) -> Option<(RemoteV, int)> {
    match jp_lit(s, i, "{\"name\":"@) {
        Option::Some(j0) => match jp_string(s, j0) {
            Option::Some((name, j1)) => match jp_lit(s, j1, ",\"remote_path\":"@) {
                Option::Some(j2) => match jp_string(s, j2) {
                    Option::Some((remote_path, j3)) => match jp_lit(
                        s,
                        j3,
                        ",\"connection_info\":"@,
                    ) {
                        Option::Some(j4) => match jp_conn(s, j4) {
                            Option::Some((conn, j5)) => match jp_lit(s, j5, "}"@) {
                                Option::Some(j6) => Option::Some(
                                    (RemoteV { name, remote_path, conn }, j6),
                                ),
                                Option::None => Option::None,
                            },
                            Option::None => Option::None,
                        },
                        Option::None => Option::None,
                    },
                    Option::None => Option::None,
                },
                Option::None => Option::None,
            },
            Option::None => Option::None,
        },
        Option::None => Option::None,
    }
}

/// The elements after the first one, each preceded by a comma, up to the
/// closing bracket.
pub open spec fn jp_remote_tail(s: Seq<char>, i: int) -> Option<(Seq<RemoteV>, int)>
    decreases s.len() - i when 0 <= i <= s.len()
{
    if i < s.len() && s[i] == ']' {
        Option::Some((Seq::empty(), i + 1))
    } else if i < s.len() && s[i] == ',' {
        match jp_remote(s, i + 1) {
            Option::Some((r, j)) => if i + 1 < j <= s.len() {
                match jp_remote_tail(s, j) {
                    Option::Some((rs, k)) => Option::Some((seq![r] + rs, k)),
                    Option::None => Option::None,
                }
            } else {
                Option::None
            },
            Option::None => Option::None,
        }
    } else {
        Option::None
    }
}

/// A JSON array of remote workspaces.
pub open spec fn jp_remote_arr(s: Seq<char>, i: int) -> Option<(Seq<RemoteV>, int)> {
    if 0 <= i && i < s.len() && s[i] == '[' {
        if i + 1 < s.len() && s[i + 1] == ']' {
            Option::Some((Seq::empty(), i + 2))
        } else {
            match jp_remote(s, i + 1) {
                Option::Some((r, j)) => if i + 1 < j <= s.len() {
                    match jp_remote_tail(s, j) {
                        Option::Some((rs, k)) => Option::Some((seq![r] + rs, k)),
                        Option::None => Option::None,
                    }
                } else {
                    Option::None
                },
                Option::None => Option::None,
            }
        }
    } else {
        Option::None
    }
}

pub open spec fn jp_workspace(s: Seq<char>, i: int) -> Option<(WorkspaceV, int)> {
    match jp_lit(s, i, "{\"name\":"@) {
        Option::Some(j0) => match jp_string(s, j0) {
            Option::Some((name, j1)) => match jp_lit(s, j1, ",\"local_path\":"@) {
                Option::Some(j2) => match jp_string(s, j2) {
                    Option::Some((local_path, j3)) => match jp_lit(
                        s,
                        j3,
                        ",\"remote_workspaces\":"@,
                    ) {
                        Option::Some(j4) => match jp_remote_arr(s, j4) {
                            Option::Some((remotes, j5)) => match jp_lit(s, j5, "}"@) {
                                Option::Some(j6) => Option::Some(
                                    (WorkspaceV { name, local_path, remotes }, j6),
                                ),
                                Option::None => Option::None,
                            },
                            Option::None => Option::None,
                        },
                        Option::None => Option::None,
                    },
                    Option::None => Option::None,
                },
                Option::None => Option::None,
            },
            Option::None => Option::None,
        },
        Option::None => Option::None,
    }
}

pub open spec fn jp_workspace_tail(s: Seq<char>, i: int) -> Option<(Seq<WorkspaceV>, int)>
    decreases s.len() - i when 0 <= i <= s.len()
{
    if i < s.len() && s[i] == ']' {
        Option::Some((Seq::empty(), i + 1))
    } else if i < s.len() && s[i] == ',' {
        match jp_workspace(s, i + 1) {
            Option::Some((w, j)) => if i + 1 < j <= s.len() {
                match jp_workspace_tail(s, j) {
                    Option::Some((ws, k)) => Option::Some((seq![w] + ws, k)),
                    Option::None => Option::None,
                }
            } else {
                Option::None
            },
            Option::None => Option::None,
        }
    } else {
        Option::None
    }
}

/// A JSON array of workspaces.
pub open spec fn jp_registry(s: Seq<char>, i: int) -> Option<(Seq<WorkspaceV>, int)> {
    if 0 <= i && i < s.len() && s[i] == '[' {
        if i + 1 < s.len() && s[i + 1] == ']' {
            Option::Some((Seq::empty(), i + 2))
        } else {
            match jp_workspace(s, i + 1) {
                Option::Some((w, j)) => if i + 1 < j <= s.len() {
                    match jp_workspace_tail(s, j) {
                        Option::Some((ws, k)) => Option::Some((seq![w] + ws, k)),
                        Option::None => Option::None,
                    }
                } else {
                    Option::None
                },
                Option::None => Option::None,
            }
        }
    } else {
        Option::None
    }
}

/// A whole registry document: one array and nothing after it.
pub open spec fn jp_registry_doc(s: Seq<char>) -> Option<Seq<WorkspaceV>> {
    match jp_registry(s, 0) {
        Option::Some((ws, j)) => if j == s.len() {
            Option::Some(ws)
        } else {
            Option::None
        },
        Option::None => Option::None,
    }
}

/// A whole workspace document: one object and nothing after it.
pub open spec fn jp_workspace_doc(s: Seq<char>) -> Option<WorkspaceV> {
    match jp_workspace(s, 0) {
        Option::Some((w, j)) => if j == s.len() {
            Option::Some(w)
        } else {
            Option::None
        },
        Option::None => Option::None,
    }
}

// --- round trips ---

/// Parsing a serialized connection yields it back.
#[verifier::rlimit(60)]
pub proof fn lemma_rt_conn(v: ConnV, s: Seq<char>, i: int)
    requires
        conn_ok(v),
        matches_at(s, i, jser_conn(v)),
    ensures
        jp_conn(s, i) == Option::Some((v, i + jser_conn(v).len())),
{
    reveal_strlit("{\"Ssh\":{\"host\":");
    reveal_strlit("{\"HostAlias\":{\"host_alias\":");
    reveal_strlit("{\"RsyncDaemon\":{\"host\":");
    reveal_strlit(",\"port\":");
    reveal_strlit(",\"username\":");
    reveal_strlit(",\"identity_file\":");
    reveal_strlit("}}");
    let l_ssh = "{\"Ssh\":{\"host\":"@;
    let l_ha = "{\"HostAlias\":{\"host_alias\":"@;
    let l_rd = "{\"RsyncDaemon\":{\"host\":"@;
    let l_port = ",\"port\":"@;
    let l_user = ",\"username\":"@;
    let l_idf = ",\"identity_file\":"@;
    let l_end = "}}"@;
    match v {
        ConnV::Ssh { host, port, username, identity_file } => {
            let x7 = l_ssh + jser_string(host) + l_port + jser_opt_u16(port) + l_user
                + jser_opt_string(username) + l_idf + jser_opt_string(identity_file);
            crate::json::lemma_matches_split(s, i, x7, l_end);
            let x6 = l_ssh + jser_string(host) + l_port + jser_opt_u16(port) + l_user
                + jser_opt_string(username) + l_idf;
            crate::json::lemma_matches_split(s, i, x6, jser_opt_string(identity_file));
            let x5 = l_ssh + jser_string(host) + l_port + jser_opt_u16(port) + l_user
                + jser_opt_string(username);
            crate::json::lemma_matches_split(s, i, x5, l_idf);
            let x4 = l_ssh + jser_string(host) + l_port + jser_opt_u16(port) + l_user;
            crate::json::lemma_matches_split(s, i, x4, jser_opt_string(username));
            let x3 = l_ssh + jser_string(host) + l_port + jser_opt_u16(port);
            crate::json::lemma_matches_split(s, i, x3, l_user);
            let x2 = l_ssh + jser_string(host) + l_port;
            crate::json::lemma_matches_split(s, i, x2, jser_opt_u16(port));
            let x1 = l_ssh + jser_string(host);
            crate::json::lemma_matches_split(s, i, x1, l_port);
            crate::json::lemma_matches_split(s, i, l_ssh, jser_string(host));
            let j0 = i + l_ssh.len() as int;
            crate::json::lemma_rt_string(host, s, j0);
            let j1 = j0 + jser_string(host).len() as int;
            let j2 = j1 + l_port.len() as int;
            crate::json::lemma_matches_index(s, j1, l_port);
            let j3 = j2 + jser_opt_u16(port).len() as int;
            crate::json::lemma_matches_index(s, j3, l_user);
            assert(s[j3 + 0] == l_user[0]);
            assert(l_user[0] == ',');
            assert(!crate::json::is_digit(s[j3]));
            crate::json::lemma_rt_opt_u16(port, s, j2);
            let j4 = j3 + l_user.len() as int;
            crate::json::lemma_rt_opt_string(username, s, j4);
            let j5 = j4 + jser_opt_string(username).len() as int;
            crate::json::lemma_matches_index(s, j5, l_idf);
            let j6 = j5 + l_idf.len() as int;
            crate::json::lemma_rt_opt_string(identity_file, s, j6);
            let j7 = j6 + jser_opt_string(identity_file).len() as int;
            crate::json::lemma_matches_index(s, j7, l_end);
            assert(jp_lit(s, i, l_ssh) is Some);
            assert(jp_conn(s, i) == Option::Some((v, j7 + 2)));
        },
        ConnV::HostAlias { host_alias } => {
            let x1 = l_ha + jser_string(host_alias);
            crate::json::lemma_matches_split(s, i, x1, l_end);
            crate::json::lemma_matches_split(s, i, l_ha, jser_string(host_alias));
            crate::json::lemma_matches_index(s, i, l_ha);
            assert(jp_lit(s, i, l_ssh) is None) by {
                if matches_at(s, i, l_ssh) {
                    crate::json::lemma_matches_index(s, i, l_ssh);
                    assert(s[i + 2] == l_ssh[2]);
                    assert(l_ssh[2] == 'S');
                    assert(s[i + 2] == l_ha[2]);
                    assert(l_ha[2] == 'H');
                }
            }
            let j0 = i + l_ha.len() as int;
            crate::json::lemma_rt_string(host_alias, s, j0);
            let j1 = j0 + jser_string(host_alias).len() as int;
            crate::json::lemma_matches_index(s, j1, l_end);
        },
        ConnV::RsyncDaemon { host, port, username } => {
            let x5 = l_rd + jser_string(host) + l_port + jser_opt_u16(port) + l_user
                + jser_opt_string(username);
            crate::json::lemma_matches_split(s, i, x5, l_end);
            let x4 = l_rd + jser_string(host) + l_port + jser_opt_u16(port) + l_user;
            crate::json::lemma_matches_split(s, i, x4, jser_opt_string(username));
            let x3 = l_rd + jser_string(host) + l_port + jser_opt_u16(port);
            crate::json::lemma_matches_split(s, i, x3, l_user);
            let x2 = l_rd + jser_string(host) + l_port;
            crate::json::lemma_matches_split(s, i, x2, jser_opt_u16(port));
            let x1 = l_rd + jser_string(host);
            crate::json::lemma_matches_split(s, i, x1, l_port);
            crate::json::lemma_matches_split(s, i, l_rd, jser_string(host));
            crate::json::lemma_matches_index(s, i, l_rd);
            assert(jp_lit(s, i, l_ssh) is None) by {
                if matches_at(s, i, l_ssh) {
                    crate::json::lemma_matches_index(s, i, l_ssh);
                    assert(s[i + 2] == l_ssh[2]);
                    assert(l_ssh[2] == 'S');
                    assert(s[i + 2] == l_rd[2]);
                    assert(l_rd[2] == 'R');
                }
            }
            assert(jp_lit(s, i, l_ha) is None) by {
                if matches_at(s, i, l_ha) {
                    crate::json::lemma_matches_index(s, i, l_ha);
                    assert(s[i + 2] == l_ha[2]);
                    assert(l_ha[2] == 'H');
                    assert(s[i + 2] == l_rd[2]);
                    assert(l_rd[2] == 'R');
                }
            }
            let j0 = i + l_rd.len() as int;
            crate::json::lemma_rt_string(host, s, j0);
            let j1 = j0 + jser_string(host).len() as int;
            crate::json::lemma_matches_index(s, j1, l_port);
            let j2 = j1 + l_port.len() as int;
            let j3 = j2 + jser_opt_u16(port).len() as int;
            crate::json::lemma_matches_index(s, j3, l_user);
            assert(s[j3 + 0] == l_user[0]);
            assert(l_user[0] == ',');
            assert(!crate::json::is_digit(s[j3]));
            crate::json::lemma_rt_opt_u16(port, s, j2);
            let j4 = j3 + l_user.len() as int;
            crate::json::lemma_rt_opt_string(username, s, j4);
            let j5 = j4 + jser_opt_string(username).len() as int;
            crate::json::lemma_matches_index(s, j5, l_end);
        },
    }
}

/// Parsing a serialized remote workspace yields it back.
#[verifier::rlimit(100)]
pub proof fn lemma_rt_remote(v: RemoteV, s: Seq<char>, i: int)
    requires
        remote_ok(v),
        matches_at(s, i, jser_remote(v)),
    ensures
        jp_remote(s, i) == Option::Some((v, i + jser_remote(v).len())),
        jser_remote(v).len() > 0,
{
    reveal_strlit("{\"name\":");
    reveal_strlit(",\"remote_path\":");
    reveal_strlit(",\"connection_info\":");
    reveal_strlit("}");
    let l1 = "{\"name\":"@;
    let l2 = ",\"remote_path\":"@;
    let l3 = ",\"connection_info\":"@;
    let l4 = "}"@;
    let x5 = l1 + jser_string(v.name) + l2 + jser_string(v.remote_path) + l3 + jser_conn(v.conn);
    crate::json::lemma_matches_split(s, i, x5, l4);
    let x4 = l1 + jser_string(v.name) + l2 + jser_string(v.remote_path) + l3;
    crate::json::lemma_matches_split(s, i, x4, jser_conn(v.conn));
    let x3 = l1 + jser_string(v.name) + l2 + jser_string(v.remote_path);
    crate::json::lemma_matches_split(s, i, x3, l3);
    let x2 = l1 + jser_string(v.name) + l2;
    crate::json::lemma_matches_split(s, i, x2, jser_string(v.remote_path));
    let x1 = l1 + jser_string(v.name);
    crate::json::lemma_matches_split(s, i, x1, l2);
    crate::json::lemma_matches_split(s, i, l1, jser_string(v.name));
    let j0 = i + l1.len() as int;
    crate::json::lemma_rt_string(v.name, s, j0);
    let j1 = j0 + jser_string(v.name).len() as int;
    crate::json::lemma_matches_index(s, j1, l2);
    let j2 = j1 + l2.len() as int;
    crate::json::lemma_rt_string(v.remote_path, s, j2);
    let j3 = j2 + jser_string(v.remote_path).len() as int;
    crate::json::lemma_matches_index(s, j3, l3);
    let j4 = j3 + l3.len() as int;
    lemma_rt_conn(v.conn, s, j4);
    let j5 = j4 + jser_conn(v.conn).len() as int;
    crate::json::lemma_matches_index(s, j5, l4);
    assert(jp_remote(s, i) == Option::Some((RemoteV { name: v.name, remote_path: v.remote_path, conn: v.conn }, j5 + 1)));
    assert(RemoteV { name: v.name, remote_path: v.remote_path, conn: v.conn } == v);
}

/// Parsing the serialized tail of a remote-workspace array yields it back.
#[verifier::rlimit(60)]
pub proof fn lemma_rt_remote_tail(rs: Seq<RemoteV>, s: Seq<char>, i: int)
    requires
        forall|k: int| 0 <= k < rs.len() ==> remote_ok(#[trigger] rs[k]),
        matches_at(s, i, jser_remote_tail(rs)),
    ensures
        jp_remote_tail(s, i) == Option::Some((rs, i + jser_remote_tail(rs).len())),
    decreases rs.len(),
{
    crate::json::lemma_matches_index(s, i, jser_remote_tail(rs));
    if rs.len() == 0 {
        assert(jser_remote_tail(rs) =~= seq![']']);
        assert(s[i + 0] == jser_remote_tail(rs)[0]);
        assert(s[i + 0] == ']');
        assert(jp_remote_tail(s, i) == Option::Some((Seq::<RemoteV>::empty(), i + 1)));
        assert(rs =~= Seq::<RemoteV>::empty());
    } else {
        let x1 = seq![','] + jser_remote(rs[0]);
        crate::json::lemma_matches_split(s, i, x1, jser_remote_tail(rs.drop_first()));
        crate::json::lemma_matches_split(s, i, seq![','], jser_remote(rs[0]));
        assert(jser_remote_tail(rs)[0] == ',');
        assert(s[i + 0] == jser_remote_tail(rs)[0]);
        assert(s[i + 0] == ',');
        assert(s[i] != ']');
        lemma_rt_remote(rs[0], s, i + 1);
        let j = i + 1 + jser_remote(rs[0]).len() as int;
        lemma_rt_remote_tail(rs.drop_first(), s, j);
        assert(seq![rs[0]] + rs.drop_first() =~= rs);
    }
}

/// Parsing a serialized remote-workspace array yields it back.
#[verifier::rlimit(100)]
pub proof fn lemma_rt_remote_arr(rs: Seq<RemoteV>, s: Seq<char>, i: int)
    requires
        forall|k: int| 0 <= k < rs.len() ==> remote_ok(#[trigger] rs[k]),
        matches_at(s, i, jser_remote_arr(rs)),
    ensures
        jp_remote_arr(s, i) == Option::Some((rs, i + jser_remote_arr(rs).len())),
{
    reveal_strlit("[]");
    crate::json::lemma_matches_index(s, i, jser_remote_arr(rs));
    if rs.len() == 0 {
        assert(jser_remote_arr(rs) == "[]"@);
        assert(s[i + 0] == "[]"@[0]);
        assert(s[i + 1] == "[]"@[1]);
        assert(s[i + 0] == '[');
        assert(s[i + 1] == ']');
        assert(jp_remote_arr(s, i) == Option::Some((Seq::<RemoteV>::empty(), i + 2)));
        assert(rs =~= Seq::<RemoteV>::empty());
    } else {
        let x1 = seq!['['] + jser_remote(rs[0]);
        crate::json::lemma_matches_split(s, i, x1, jser_remote_tail(rs.drop_first()));
        crate::json::lemma_matches_split(s, i, seq!['['], jser_remote(rs[0]));
        assert(jser_remote_arr(rs)[0] == '[');
        assert(s[i + 0] == jser_remote_arr(rs)[0]);
        assert(s[i + 0] == '[');
        lemma_rt_remote(rs[0], s, i + 1);
        reveal_strlit("{\"name\":");
        crate::json::lemma_matches_index(s, i + 1, jser_remote(rs[0]));
        assert(jser_remote(rs[0])[0] == '{') by {
            let l1 = "{\"name\":"@;
            assert(jser_remote(rs[0])[0] == l1[0]);
        }
        assert(s[i + 1 + 0] == jser_remote(rs[0])[0]);
        assert(s[i + 1] == '{');
        assert(s[i + 1] != ']');
        let j = i + 1 + jser_remote(rs[0]).len() as int;
        lemma_rt_remote_tail(rs.drop_first(), s, j);
        assert(seq![rs[0]] + rs.drop_first() =~= rs);
    }
}

/// Parsing a serialized workspace yields it back.
#[verifier::rlimit(100)]
pub proof fn lemma_rt_workspace(v: WorkspaceV, s: Seq<char>, i: int)
    requires
        workspace_ok(v),
        matches_at(s, i, jser_workspace(v)),
    ensures
        jp_workspace(s, i) == Option::Some((v, i + jser_workspace(v).len())),
        jser_workspace(v).len() > 0,
{
    reveal_strlit("{\"name\":");
    reveal_strlit(",\"local_path\":");
    reveal_strlit(",\"remote_workspaces\":");
    reveal_strlit("}");
    let l1 = "{\"name\":"@;
    let l2 = ",\"local_path\":"@;
    let l3 = ",\"remote_workspaces\":"@;
    let l4 = "}"@;
    let x5 = l1 + jser_string(v.name) + l2 + jser_string(v.local_path) + l3
        + jser_remote_arr(v.remotes);
    crate::json::lemma_matches_split(s, i, x5, l4);
    let x4 = l1 + jser_string(v.name) + l2 + jser_string(v.local_path) + l3;
    crate::json::lemma_matches_split(s, i, x4, jser_remote_arr(v.remotes));
    let x3 = l1 + jser_string(v.name) + l2 + jser_string(v.local_path);
    crate::json::lemma_matches_split(s, i, x3, l3);
    let x2 = l1 + jser_string(v.name) + l2;
    crate::json::lemma_matches_split(s, i, x2, jser_string(v.local_path));
    let x1 = l1 + jser_string(v.name);
    crate::json::lemma_matches_split(s, i, x1, l2);
    crate::json::lemma_matches_split(s, i, l1, jser_string(v.name));
    let j0 = i + l1.len() as int;
    crate::json::lemma_rt_string(v.name, s, j0);
    let j1 = j0 + jser_string(v.name).len() as int;
    crate::json::lemma_matches_index(s, j1, l2);
    let j2 = j1 + l2.len() as int;
    crate::json::lemma_rt_string(v.local_path, s, j2);
    let j3 = j2 + jser_string(v.local_path).len() as int;
    crate::json::lemma_matches_index(s, j3, l3);
    let j4 = j3 + l3.len() as int;
    lemma_rt_remote_arr(v.remotes, s, j4);
    let j5 = j4 + jser_remote_arr(v.remotes).len() as int;
    crate::json::lemma_matches_index(s, j5, l4);
    assert(jp_workspace(s, i) == Option::Some(
        (WorkspaceV { name: v.name, local_path: v.local_path, remotes: v.remotes }, j5 + 1),
    ));
    assert(WorkspaceV { name: v.name, local_path: v.local_path, remotes: v.remotes } == v);
}

/// Parsing the serialized tail of the registry array yields it back.
#[verifier::rlimit(60)]
pub proof fn lemma_rt_workspace_tail(ws: Seq<WorkspaceV>, s: Seq<char>, i: int)
    requires
        forall|k: int| 0 <= k < ws.len() ==> workspace_ok(#[trigger] ws[k]),
        matches_at(s, i, jser_workspace_tail(ws)),
    ensures
        jp_workspace_tail(s, i) == Option::Some((ws, i + jser_workspace_tail(ws).len())),
    decreases ws.len(),
{
    crate::json::lemma_matches_index(s, i, jser_workspace_tail(ws));
    if ws.len() == 0 {
        assert(jser_workspace_tail(ws) =~= seq![']']);
        assert(s[i + 0] == jser_workspace_tail(ws)[0]);
        assert(s[i + 0] == ']');
        assert(jp_workspace_tail(s, i) == Option::Some((Seq::<WorkspaceV>::empty(), i + 1)));
        assert(ws =~= Seq::<WorkspaceV>::empty());
    } else {
        let x1 = seq![','] + jser_workspace(ws[0]);
        crate::json::lemma_matches_split(s, i, x1, jser_workspace_tail(ws.drop_first()));
        crate::json::lemma_matches_split(s, i, seq![','], jser_workspace(ws[0]));
        assert(jser_workspace_tail(ws)[0] == ',');
        assert(s[i + 0] == jser_workspace_tail(ws)[0]);
        assert(s[i + 0] == ',');
        assert(s[i] != ']');
        lemma_rt_workspace(ws[0], s, i + 1);
        let j = i + 1 + jser_workspace(ws[0]).len() as int;
        lemma_rt_workspace_tail(ws.drop_first(), s, j);
        assert(seq![ws[0]] + ws.drop_first() =~= ws);
    }
}

/// Parsing a serialized registry array yields it back.
#[verifier::rlimit(100)]
pub proof fn lemma_rt_registry(ws: Seq<WorkspaceV>, s: Seq<char>, i: int)
    requires
        registry_ok(ws),
        matches_at(s, i, jser_registry(ws)),
    ensures
        jp_registry(s, i) == Option::Some((ws, i + jser_registry(ws).len())),
{
    reveal_strlit("[]");
    crate::json::lemma_matches_index(s, i, jser_registry(ws));
    if ws.len() == 0 {
        assert(jser_registry(ws) == "[]"@);
        assert(s[i + 0] == "[]"@[0]);
        assert(s[i + 1] == "[]"@[1]);
        assert(s[i + 0] == '[');
        assert(s[i + 1] == ']');
        assert(jp_registry(s, i) == Option::Some((Seq::<WorkspaceV>::empty(), i + 2)));
        assert(ws =~= Seq::<WorkspaceV>::empty());
    } else {
        let x1 = seq!['['] + jser_workspace(ws[0]);
        crate::json::lemma_matches_split(s, i, x1, jser_workspace_tail(ws.drop_first()));
        crate::json::lemma_matches_split(s, i, seq!['['], jser_workspace(ws[0]));
        assert(jser_registry(ws)[0] == '[');
        assert(s[i + 0] == jser_registry(ws)[0]);
        assert(s[i + 0] == '[');
        lemma_rt_workspace(ws[0], s, i + 1);
        reveal_strlit("{\"name\":");
        crate::json::lemma_matches_index(s, i + 1, jser_workspace(ws[0]));
        assert(jser_workspace(ws[0])[0] == '{') by {
            let l1 = "{\"name\":"@;
            assert(jser_workspace(ws[0])[0] == l1[0]);
        }
        assert(s[i + 1 + 0] == jser_workspace(ws[0])[0]);
        assert(s[i + 1] == '{');
        assert(s[i + 1] != ']');
        let j = i + 1 + jser_workspace(ws[0]).len() as int;
        lemma_rt_workspace_tail(ws.drop_first(), s, j);
        assert(seq![ws[0]] + ws.drop_first() =~= ws);
    }
}

/// The registry round trip: reloading a freshly written registry file yields
/// exactly the workspaces that were written.
pub proof fn lemma_registry_round_trip(ws: Seq<WorkspaceV>)
    requires
        registry_ok(ws),
    ensures
        jp_registry_doc(jser_registry(ws)) == Option::Some(ws),
{
    let s = jser_registry(ws);
    assert(s.subrange(0, s.len() as int) =~= s);
    assert(matches_at(s, 0, s));
    lemma_rt_registry(ws, s, 0);
}

/// The workspace-description round trip: a monitor reading the document that
/// the daemon wrote to its standard input sees exactly that workspace.
pub proof fn lemma_workspace_round_trip(w: WorkspaceV)
    requires
        workspace_ok(w),
    ensures
        jp_workspace_doc(jser_workspace(w)) == Option::Some(w),
{
    let s = jser_workspace(w);
    assert(s.subrange(0, s.len() as int) =~= s);
    assert(matches_at(s, 0, s));
    lemma_rt_workspace(w, s, 0);
}

// --- views of executable sequences ---

pub open spec fn rw_views(v: Seq<RemoteWorkspace>) -> Seq<RemoteV> {
    v.map_values(|r: RemoteWorkspace| r@)
}

pub open spec fn wsi_views(v: Seq<WorkspaceInformation>) -> Seq<WorkspaceV> {
    v.map_values(|w: WorkspaceInformation| w@)
}

// --- executable serializers ---

/// Appends the canonical document for a connection.
pub fn append_conn(out: &mut String, c: &ConnectionInfo)
    ensures
        final(out)@ == old(out)@ + jser_conn(c@),
{
    match c {
        ConnectionInfo::Ssh { host, port, username, identity_file } => {
            out.append("{\"Ssh\":{\"host\":");
            crate::json::append_json_string(out, host);
            out.append(",\"port\":");
            crate::json::append_opt_u16(out, port);
            out.append(",\"username\":");
            crate::json::append_opt_string(out, username);
            out.append(",\"identity_file\":");
            crate::json::append_opt_string(out, identity_file);
            out.append("}}");
            proof {
                assert(out@ =~= old(out)@ + jser_conn(c@));
            }
        },
        ConnectionInfo::HostAlias { host_alias } => {
            out.append("{\"HostAlias\":{\"host_alias\":");
            crate::json::append_json_string(out, host_alias);
            out.append("}}");
            proof {
                assert(out@ =~= old(out)@ + jser_conn(c@));
            }
        },
        ConnectionInfo::RsyncDaemon { host, port, username } => {
            out.append("{\"RsyncDaemon\":{\"host\":");
            crate::json::append_json_string(out, host);
            out.append(",\"port\":");
            crate::json::append_opt_u16(out, port);
            out.append(",\"username\":");
            crate::json::append_opt_string(out, username);
            out.append("}}");
            proof {
                assert(out@ =~= old(out)@ + jser_conn(c@));
            }
        },
    }
}

/// Appends the canonical document for a remote workspace.
pub fn append_remote(out: &mut String, r: &RemoteWorkspace)
    ensures
        final(out)@ == old(out)@ + jser_remote(r@),
{
    out.append("{\"name\":");
    crate::json::append_json_string(out, &r.name);
    out.append(",\"remote_path\":");
    crate::json::append_json_string(out, &r.remote_path);
    out.append(",\"connection_info\":");
    append_conn(out, &r.connection_info);
    out.append("}");
    proof {
        assert(out@ =~= old(out)@ + jser_remote(r@));
    }
}

/// Appends the canonical array of remote workspaces.
pub fn append_remote_arr(out: &mut String, rs: &Vec<RemoteWorkspace>)
    ensures
        final(out)@ == old(out)@ + jser_remote_arr(rw_views(rs@)),
{
    let ghost base = out@;
    let ghost vs = rw_views(rs@);
    let n = rs.len();
    if n == 0 {
        out.append("[]");
        proof {
            assert(out@ =~= base + jser_remote_arr(vs));
        }
        return;
    }
    out.append("[");
    proof {
        reveal_strlit("[");
        assert("["@ =~= seq!['[']);
    }
    append_remote(out, &rs[0]);
    let mut k: usize = 1;
    proof {
        assert(vs.skip(1) =~= vs.drop_first());
        assert(base + jser_remote_arr(vs) =~= out@ + jser_remote_tail(vs.skip(1)));
    }
    while k < n
        invariant
            1 <= k <= n,
            n == rs.len(),
            vs == rw_views(rs@),
            base + jser_remote_arr(vs) == out@ + jser_remote_tail(vs.skip(k as int)),
        decreases n - k,
    {
        out.append(",");
        proof {
            reveal_strlit(",");
            assert(","@ =~= seq![',']);
        }
        append_remote(out, &rs[k]);
        proof {
            assert(vs.skip(k as int)[0] == vs[k as int]);
            assert(vs.skip(k as int).drop_first() =~= vs.skip(k as int + 1));
            assert(base + jser_remote_arr(vs) =~= out@ + jser_remote_tail(vs.skip(k as int + 1)));
        }
        k = k + 1;
    }
    out.append("]");
    proof {
        reveal_strlit("]");
        assert("]"@ =~= seq![']']);
        assert(vs.skip(n as int) =~= Seq::<RemoteV>::empty());
        assert(jser_remote_tail(vs.skip(n as int)) =~= seq![']']);
        assert(out@ =~= base + jser_remote_arr(vs));
    }
}

/// Appends the canonical document for a workspace.
pub fn append_workspace(out: &mut String, w: &WorkspaceInformation)
    ensures
        final(out)@ == old(out)@ + jser_workspace(w@),
{
    out.append("{\"name\":");
    crate::json::append_json_string(out, &w.name);
    out.append(",\"local_path\":");
    crate::json::append_json_string(out, &w.local_path);
    out.append(",\"remote_workspaces\":");
    append_remote_arr(out, &w.remote_workspaces);
    out.append("}");
    proof {
        assert(out@ =~= old(out)@ + jser_workspace(w@));
    }
}

/// The document a workspace description is sent as: to a monitor's standard
/// input, and as one element of the registry file.
pub fn workspace_to_json(w: &WorkspaceInformation) -> (r: String)
    ensures
        r@ == jser_workspace(w@),
{
    let mut out = String::new();
    append_workspace(&mut out, w);
    proof {
        assert(out@ =~= jser_workspace(w@));
    }
    out
}

/// The registry file content for a list of workspaces.
pub fn registry_to_json(ws: &Vec<WorkspaceInformation>) -> (r: String)
    ensures
        r@ == jser_registry(wsi_views(ws@)),
{
    let ghost vs = wsi_views(ws@);
    let mut out = String::new();
    let n = ws.len();
    if n == 0 {
        out.append("[]");
        proof {
            assert(out@ =~= jser_registry(vs));
        }
        return out;
    }
    out.append("[");
    proof {
        reveal_strlit("[");
        assert("["@ =~= seq!['[']);
    }
    append_workspace(&mut out, &ws[0]);
    let mut k: usize = 1;
    proof {
        assert(vs.skip(1) =~= vs.drop_first());
        assert(jser_registry(vs) =~= out@ + jser_workspace_tail(vs.skip(1)));
    }
    while k < n
        invariant
            1 <= k <= n,
            n == ws.len(),
            vs == wsi_views(ws@),
            jser_registry(vs) == out@ + jser_workspace_tail(vs.skip(k as int)),
        decreases n - k,
    {
        out.append(",");
        proof {
            reveal_strlit(",");
            assert(","@ =~= seq![',']);
        }
        append_workspace(&mut out, &ws[k]);
        proof {
            assert(vs.skip(k as int)[0] == vs[k as int]);
            assert(vs.skip(k as int).drop_first() =~= vs.skip(k as int + 1));
            assert(jser_registry(vs) =~= out@ + jser_workspace_tail(vs.skip(k as int + 1)));
        }
        k = k + 1;
    }
    out.append("]");
    proof {
        assert(vs.skip(n as int) =~= Seq::<WorkspaceV>::empty());
        assert(jser_workspace_tail(vs.skip(n as int)) =~= seq![']']);
        reveal_strlit("]");
        assert("]"@ =~= seq![']']);
        assert(out@ =~= jser_registry(vs));
    }
    out
}

// --- executable parsers ---

/// Parses a connection, exactly as [`jp_conn`] reads it.
pub fn p_conn(s: &str, n: usize, i: usize) -> (r: Option<(ConnectionInfo, usize)>)
    requires
        n == s@.len(),
        i <= n,
    ensures
        match r {
            Option::Some(v) => jp_conn(s@, i as int) == Option::Some((v.0@, v.1 as int))
                && i < v.1 <= n,
            Option::None => jp_conn(s@, i as int) is None,
        },
{
    if let Option::Some(j0) = crate::json::eat_lit(s, n, i, "{\"Ssh\":{\"host\":") {
        let (host, j1) = match crate::json::p_string(s, n, j0) {
            Option::Some(v) => v,
            Option::None => { return Option::None; },
        };
        let j2 = match crate::json::eat_lit(s, n, j1, ",\"port\":") {
            Option::Some(j) => j,
            Option::None => { return Option::None; },
        };
        let (port, j3) = match crate::json::p_opt_u16(s, n, j2) {
            Option::Some(v) => v,
            Option::None => { return Option::None; },
        };
        let j4 = match crate::json::eat_lit(s, n, j3, ",\"username\":") {
            Option::Some(j) => j,
            Option::None => { return Option::None; },
        };
        let (username, j5) = match crate::json::p_opt_string(s, n, j4) {
            Option::Some(v) => v,
            Option::None => { return Option::None; },
        };
        let j6 = match crate::json::eat_lit(s, n, j5, ",\"identity_file\":") {
            Option::Some(j) => j,
            Option::None => { return Option::None; },
        };
        let (identity_file, j7) = match crate::json::p_opt_string(s, n, j6) {
            Option::Some(v) => v,
            Option::None => { return Option::None; },
        };
        let j8 = match crate::json::eat_lit(s, n, j7, "}}") {
            Option::Some(j) => j,
            Option::None => { return Option::None; },
        };
        Option::Some((ConnectionInfo::Ssh { host, port, username, identity_file }, j8))
    } else if let Option::Some(j0) = crate::json::eat_lit(s, n, i, "{\"HostAlias\":{\"host_alias\":") {
        let (host_alias, j1) = match crate::json::p_string(s, n, j0) {
            Option::Some(v) => v,
            Option::None => { return Option::None; },
        };
        let j2 = match crate::json::eat_lit(s, n, j1, "}}") {
            Option::Some(j) => j,
            Option::None => { return Option::None; },
        };
        Option::Some((ConnectionInfo::HostAlias { host_alias }, j2))
    } else if let Option::Some(j0) = crate::json::eat_lit(s, n, i, "{\"RsyncDaemon\":{\"host\":") {
        let (host, j1) = match crate::json::p_string(s, n, j0) {
            Option::Some(v) => v,
            Option::None => { return Option::None; },
        };
        let j2 = match crate::json::eat_lit(s, n, j1, ",\"port\":") {
            Option::Some(j) => j,
            Option::None => { return Option::None; },
        };
        let (port, j3) = match crate::json::p_opt_u16(s, n, j2) {
            Option::Some(v) => v,
            Option::None => { return Option::None; },
        };
        let j4 = match crate::json::eat_lit(s, n, j3, ",\"username\":") {
            Option::Some(j) => j,
            Option::None => { return Option::None; },
        };
        let (username, j5) = match crate::json::p_opt_string(s, n, j4) {
            Option::Some(v) => v,
            Option::None => { return Option::None; },
        };
        let j6 = match crate::json::eat_lit(s, n, j5, "}}") {
            Option::Some(j) => j,
            Option::None => { return Option::None; },
        };
        Option::Some((ConnectionInfo::RsyncDaemon { host, port, username }, j6))
    } else {
        Option::None
    }
}

/// Parses a remote workspace, exactly as [`jp_remote`] reads it.
pub fn p_remote(s: &str, n: usize, i: usize) -> (r: Option<(RemoteWorkspace, usize)>)
    requires
        n == s@.len(),
        i <= n,
    ensures
        match r {
            Option::Some(v) => jp_remote(s@, i as int) == Option::Some((v.0@, v.1 as int))
                && i < v.1 <= n,
            Option::None => jp_remote(s@, i as int) is None,
        },
{
    let j0 = match crate::json::eat_lit(s, n, i, "{\"name\":") {
        Option::Some(j) => j,
        Option::None => { return Option::None; },
    };
    let (name, j1) = match crate::json::p_string(s, n, j0) {
        Option::Some(v) => v,
        Option::None => { return Option::None; },
    };
    let j2 = match crate::json::eat_lit(s, n, j1, ",\"remote_path\":") {
        Option::Some(j) => j,
        Option::None => { return Option::None; },
    };
    let (remote_path, j3) = match crate::json::p_string(s, n, j2) {
        Option::Some(v) => v,
        Option::None => { return Option::None; },
    };
    let j4 = match crate::json::eat_lit(s, n, j3, ",\"connection_info\":") {
        Option::Some(j) => j,
        Option::None => { return Option::None; },
    };
    let (connection_info, j5) = match p_conn(s, n, j4) {
        Option::Some(v) => v,
        Option::None => { return Option::None; },
    };
    let j6 = match crate::json::eat_lit(s, n, j5, "}") {
        Option::Some(j) => j,
        Option::None => { return Option::None; },
    };
    Option::Some((RemoteWorkspace { name, remote_path, connection_info }, j6))
}

/// Parses an array of remote workspaces, exactly as [`jp_remote_arr`] reads it.
pub fn p_remote_arr(s: &str, n: usize, i: usize) -> (r: Option<(Vec<RemoteWorkspace>, usize)>)
    requires
        n == s@.len(),
        i <= n,
    ensures
        match r {
            Option::Some(v) => jp_remote_arr(s@, i as int)
                == Option::Some((rw_views(v.0@), v.1 as int)) && i < v.1 <= n,
            Option::None => jp_remote_arr(s@, i as int) is None,
        },
{
    broadcast use vstd::seq_lib::group_seq_properties;

    if i >= n {
        return Option::None;
    }
    if s.get_char(i) != '[' {
        return Option::None;
    }
    if i + 1 < n && s.get_char(i + 1) == ']' {
        let out: Vec<RemoteWorkspace> = Vec::new();
        proof {
            assert(rw_views(out@) =~= Seq::<RemoteV>::empty());
        }
        return Option::Some((out, i + 2));
    }
    let (first, j) = match p_remote(s, n, i + 1) {
        Option::Some(v) => v,
        Option::None => { return Option::None; },
    };
    let mut out: Vec<RemoteWorkspace> = Vec::new();
    out.push(first);
    let mut k: usize = j;
    proof {
        let r0 = jp_remote(s@, i as int + 1)->Some_0.0;
        assert(rw_views(out@) =~= seq![r0]);
    }
    while k < n
        invariant
            i < k <= n,
            n == s@.len(),
            rw_views(out@).len() >= 1,
            jp_remote_arr(s@, i as int) == (match jp_remote_tail(s@, k as int) {
                Option::Some((rs, e)) => Option::Some((rw_views(out@) + rs, e)),
                Option::None => Option::<(Seq<RemoteV>, int)>::None,
            }),
        decreases n - k,
    {
        let c = s.get_char(k);
        if c == ']' {
            proof {
                assert(rw_views(out@) + Seq::<RemoteV>::empty() =~= rw_views(out@));
            }
            return Option::Some((out, k + 1));
        } else if c == ',' {
            let (next, j2) = match p_remote(s, n, k + 1) {
                Option::Some(v) => v,
                Option::None => { return Option::None; },
            };
            proof {
                let r2 = jp_remote(s@, k as int + 1)->Some_0.0;
                let tl = jp_remote_tail(s@, j2 as int);
                if tl is Some {
                    let rest = tl->Some_0.0;
                    assert(rw_views(out@) + (seq![r2] + rest)
                        =~= (rw_views(out@) + seq![r2]) + rest);
                }
                assert(rw_views(out@.push(next)) =~= rw_views(out@) + seq![next@]);
            }
            out.push(next);
            k = j2;
        } else {
            return Option::None;
        }
    }
    Option::None
}

/// Parses a workspace, exactly as [`jp_workspace`] reads it.
pub fn p_workspace(s: &str, n: usize, i: usize) -> (r: Option<(WorkspaceInformation, usize)>)
    requires
        n == s@.len(),
        i <= n,
    ensures
        match r {
            Option::Some(v) => jp_workspace(s@, i as int) == Option::Some((v.0@, v.1 as int))
                && i < v.1 <= n,
            Option::None => jp_workspace(s@, i as int) is None,
        },
{
    let j0 = match crate::json::eat_lit(s, n, i, "{\"name\":") {
        Option::Some(j) => j,
        Option::None => { return Option::None; },
    };
    let (name, j1) = match crate::json::p_string(s, n, j0) {
        Option::Some(v) => v,
        Option::None => { return Option::None; },
    };
    let j2 = match crate::json::eat_lit(s, n, j1, ",\"local_path\":") {
        Option::Some(j) => j,
        Option::None => { return Option::None; },
    };
    let (local_path, j3) = match crate::json::p_string(s, n, j2) {
        Option::Some(v) => v,
        Option::None => { return Option::None; },
    };
    let j4 = match crate::json::eat_lit(s, n, j3, ",\"remote_workspaces\":") {
        Option::Some(j) => j,
        Option::None => { return Option::None; },
    };
    let (remote_workspaces, j5) = match p_remote_arr(s, n, j4) {
        Option::Some(v) => v,
        Option::None => { return Option::None; },
    };
    let j6 = match crate::json::eat_lit(s, n, j5, "}") {
        Option::Some(j) => j,
        Option::None => { return Option::None; },
    };
    Option::Some((WorkspaceInformation { name, local_path, remote_workspaces }, j6))
}

/// Parses the registry array, exactly as [`jp_registry`] reads it.
pub fn p_registry(s: &str, n: usize, i: usize) -> (r: Option<(Vec<WorkspaceInformation>, usize)>)
    requires
        n == s@.len(),
        i <= n,
    ensures
        match r {
            Option::Some(v) => jp_registry(s@, i as int)
                == Option::Some((wsi_views(v.0@), v.1 as int)) && i < v.1 <= n,
            Option::None => jp_registry(s@, i as int) is None,
        },
{
    broadcast use vstd::seq_lib::group_seq_properties;

    if i >= n {
        return Option::None;
    }
    if s.get_char(i) != '[' {
        return Option::None;
    }
    if i + 1 < n && s.get_char(i + 1) == ']' {
        let out: Vec<WorkspaceInformation> = Vec::new();
        proof {
            assert(wsi_views(out@) =~= Seq::<WorkspaceV>::empty());
        }
        return Option::Some((out, i + 2));
    }
    let (first, j) = match p_workspace(s, n, i + 1) {
        Option::Some(v) => v,
        Option::None => { return Option::None; },
    };
    let mut out: Vec<WorkspaceInformation> = Vec::new();
    out.push(first);
    let mut k: usize = j;
    proof {
        let w0 = jp_workspace(s@, i as int + 1)->Some_0.0;
        assert(wsi_views(out@) =~= seq![w0]);
    }
    while k < n
        invariant
            i < k <= n,
            n == s@.len(),
            wsi_views(out@).len() >= 1,
            jp_registry(s@, i as int) == (match jp_workspace_tail(s@, k as int) {
                Option::Some((ws, e)) => Option::Some((wsi_views(out@) + ws, e)),
                Option::None => Option::<(Seq<WorkspaceV>, int)>::None,
            }),
        decreases n - k,
    {
        let c = s.get_char(k);
        if c == ']' {
            proof {
                assert(wsi_views(out@) + Seq::<WorkspaceV>::empty() =~= wsi_views(out@));
            }
            return Option::Some((out, k + 1));
        } else if c == ',' {
            let (next, j2) = match p_workspace(s, n, k + 1) {
                Option::Some(v) => v,
                Option::None => { return Option::None; },
            };
            proof {
                let w2 = jp_workspace(s@, k as int + 1)->Some_0.0;
                let tl = jp_workspace_tail(s@, j2 as int);
                if tl is Some {
                    let rest = tl->Some_0.0;
                    assert(wsi_views(out@) + (seq![w2] + rest)
                        =~= (wsi_views(out@) + seq![w2]) + rest);
                }
                assert(wsi_views(out@.push(next)) =~= wsi_views(out@) + seq![next@]);
            }
            out.push(next);
            k = j2;
        } else {
            return Option::None;
        }
    }
    Option::None
}

/// Parses one whole registry document: the array and nothing after it.
pub fn parse_registry_json(s: &str) -> (r: Option<Vec<WorkspaceInformation>>)
    ensures
        match r {
            Option::Some(v) => jp_registry_doc(s@) == Option::Some(wsi_views(v@)),
            Option::None => jp_registry_doc(s@) is None,
        },
{
    let n = s.unicode_len();
    match p_registry(s, n, 0) {
        Option::Some((ws, j)) => {
            if j == n {
                Option::Some(ws)
            } else {
                Option::None
            }
        },
        Option::None => Option::None,
    }
}

/// Parses one whole workspace document: the object and nothing after it.
pub fn parse_workspace_json(s: &str) -> (r: Option<WorkspaceInformation>)
    ensures
        match r {
            Option::Some(w) => jp_workspace_doc(s@) == Option::Some(w@),
            Option::None => jp_workspace_doc(s@) is None,
        },
{
    let n = s.unicode_len();
    match p_workspace(s, n, 0) {
        Option::Some((w, j)) => {
            if j == n {
                Option::Some(w)
            } else {
                Option::None
            }
        },
        Option::None => Option::None,
    }
}

} // verus!
