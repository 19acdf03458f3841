//! The sync driver: building the exact argument vector the external
//! remote-copy tool is invoked with for one remote workspace and one subtree,
//! and the retry decision when it fails. Spawning the tool and reading its
//! exit status happen outside.

use vstd::prelude::*;
use crate::model::{ConnectionInfo, ConnV, RemoteWorkspace, RemoteV, view_opt_string};
use crate::json::jser_dec;

verus! {

/// Error classes of a sync attempt: the remote system refused the transfer,
/// or this process itself is broken or misconfigured.
#[derive(Debug)]
pub enum SyncError {
    RemoteSystemError(String),
    LocalError(String),
}

/// A directory argument: the base path, or the base path with the relative
/// subtree below it.
pub open spec fn spec_dir_arg(base: Seq<char>, rel: Option<Seq<char>>) -> Seq<char> {
    match rel {
        Option::None => base,
        Option::Some(r) => base + seq!['/'] + r,
    }
}

/// The source argument: the local directory with a trailing separator, so the
/// tool copies directory contents rather than the directory itself.
pub open spec fn spec_source_arg(root: Seq<char>, rel: Option<Seq<char>>) -> Seq<char> {
    let d = spec_dir_arg(root, rel);
    if d.len() > 0 && d[d.len() - 1] == '/' {
        d
    } else {
        d + seq!['/']
    }
}

/// The destination argument for an SSH connection: `user@host:path` with the
/// user part only when one is given.
pub open spec fn spec_ssh_dest(host: Seq<char>, user: Option<Seq<char>>, path: Seq<char>) -> Seq<char> {
    (match user {
        Option::Some(u) => u + seq!['@'],
        Option::None => Seq::empty(),
    }) + host + seq![':'] + path
}

/// The destination argument for a host alias: `alias:path`.
pub open spec fn spec_alias_dest(alias: Seq<char>, path: Seq<char>) -> Seq<char> {
    alias + seq![':'] + path
}

/// The destination argument for an rsync daemon:
/// `rsync://[user@]host[:port]path`.
pub open spec fn spec_daemon_dest(
    host: Seq<char>,
    port: Option<u16>,
    user: Option<Seq<char>>,
    path: Seq<char>,
) -> Seq<char> {
    "rsync://"@ + (match user {
        Option::Some(u) => u + seq!['@'],
        Option::None => Seq::empty(),
    }) + host + (match port {
        Option::Some(p) => seq![':'] + jser_dec(p as nat),
        Option::None => Seq::empty(),
    }) + path
}

/// The remote-shell clause for SSH: `-e "ssh [-p port] [ -i file]"`.
pub open spec fn spec_ssh_shell_arg(port: Option<u16>, identity_file: Option<Seq<char>>) -> Seq<char> {
    "-e \"ssh "@ + (match port {
        Option::Some(p) => "-p "@ + jser_dec(p as nat),
        Option::None => Seq::empty(),
    }) + (match identity_file {
        Option::Some(f) => " -i "@ + f,
        Option::None => Seq::empty(),
    }) + seq!['"']
}

/// The destination argument for any connection.
pub open spec fn spec_target_arg(rel: Option<Seq<char>>, r: RemoteV) -> Seq<char> {
    let path = spec_dir_arg(r.remote_path, rel);
    match r.conn {
        ConnV::Ssh { host, port, username, identity_file } => spec_ssh_dest(host, username, path),
        ConnV::HostAlias { host_alias } => spec_alias_dest(host_alias, path),
        ConnV::RsyncDaemon { host, port, username } => spec_daemon_dest(host, port, username, path),
    }
}

/// The whole argument vector for one remote: the base flags, the remote-shell
/// clause for SSH, the source and the destination.
pub open spec fn spec_rsync_args(root: Seq<char>, rel: Option<Seq<char>>, r: RemoteV) -> Seq<Seq<char>> {
    let base = seq!["-azq"@, "--delete"@];
    let with_shell = match r.conn {
        ConnV::Ssh { host, port, username, identity_file } => base.push(
            spec_ssh_shell_arg(port, identity_file),
        ),
        _ => base,
    };
    with_shell.push(spec_source_arg(root, rel)).push(spec_target_arg(rel, r))
}

fn append_opt_rel(out: &mut String, rel: &Option<String>)
    ensures
        final(out)@ == spec_dir_arg(old(out)@, view_opt_string(*rel)),
{
    match rel {
        Option::Some(r) => {
            out.append("/");
            proof {
                reveal_strlit("/");
                assert("/"@ =~= seq!['/']);
            }
            out.append(r.as_str());
            proof {
                assert(out@ =~= spec_dir_arg(old(out)@, view_opt_string(*rel)));
            }
        },
        Option::None => {},
    }
}

/// The directory argument for a base path and an optional subtree.
pub fn to_dir_arg_path(base: &String, relative_path: &Option<String>) -> (r: String)
    ensures
        r@ == spec_dir_arg(base@, view_opt_string(*relative_path)),
{
    let mut out = base.clone();
    append_opt_rel(&mut out, relative_path);
    out
}

/// The source argument: local directory contents, trailing separator kept.
pub fn get_source_dir_arg(ws_root_path: &String, relative_path: &Option<String>) -> (r: String)
    ensures
        r@ == spec_source_arg(ws_root_path@, view_opt_string(*relative_path)),
{
    let mut out = to_dir_arg_path(ws_root_path, relative_path);
    let n = out.as_str().unicode_len();
    let ends_slash = n > 0 && out.as_str().get_char(n - 1) == '/';
    if !ends_slash {
        out.append("/");
        proof {
            reveal_strlit("/");
            assert("/"@ =~= seq!['/']);
        }
    }
    out
}

/// The remote-shell clause for an SSH remote.
pub fn get_remote_shell_args_ssh(port: &Option<u16>, identity_file: &Option<String>) -> (r: String)
    ensures
        r@ == spec_ssh_shell_arg(*port, view_opt_string(*identity_file)),
{
    let mut out = "-e \"ssh ".to_owned();
    match port {
        Option::Some(p) => {
            out.append("-p ");
            crate::json::append_dec(&mut out, *p as u64);
        },
        Option::None => {},
    }
    match identity_file {
        Option::Some(f) => {
            out.append(" -i ");
            out.append(f.as_str());
        },
        Option::None => {},
    }
    out.append("\"");
    proof {
        reveal_strlit("\"");
        assert("\""@ =~= seq!['"']);
        assert(out@ =~= spec_ssh_shell_arg(*port, view_opt_string(*identity_file)));
    }
    out
}

/// The destination for an SSH remote.
pub fn get_remote_dir_arg_ssh(
    host: &String,
    username: &Option<String>,
    relative_path: &Option<String>,
    remote_path: &String,
) -> (r: String)
    ensures
        r@ == spec_ssh_dest(
            host@,
            view_opt_string(*username),
            spec_dir_arg(remote_path@, view_opt_string(*relative_path)),
        ),
{
    let mut out = String::new();
    match username {
        Option::Some(u) => {
            out.append(u.as_str());
            out.append("@");
            proof {
                reveal_strlit("@");
                assert("@"@ =~= seq!['@']);
            }
        },
        Option::None => {},
    }
    out.append(host.as_str());
    out.append(":");
    proof {
        reveal_strlit(":");
        assert(":"@ =~= seq![':']);
    }
    let dir = to_dir_arg_path(remote_path, relative_path);
    out.append(dir.as_str());
    proof {
        assert(out@ =~= spec_ssh_dest(
            host@,
            view_opt_string(*username),
            spec_dir_arg(remote_path@, view_opt_string(*relative_path)),
        ));
    }
    out
}

/// The destination for a host alias.
pub fn get_remote_dir_arg_host_alias(
    host_alias: &String,
    relative_path: &Option<String>,
    remote_path: &String,
) -> (r: String)
    ensures
        r@ == spec_alias_dest(
            host_alias@,
            spec_dir_arg(remote_path@, view_opt_string(*relative_path)),
        ),
{
    let mut out = host_alias.clone();
    out.append(":");
    proof {
        reveal_strlit(":");
        assert(":"@ =~= seq![':']);
    }
    let dir = to_dir_arg_path(remote_path, relative_path);
    out.append(dir.as_str());
    proof {
        assert(out@ =~= spec_alias_dest(
            host_alias@,
            spec_dir_arg(remote_path@, view_opt_string(*relative_path)),
        ));
    }
    out
}

/// The destination for an rsync daemon.
pub fn get_remote_dir_arg_rsync_daemon(
    host: &String,
    port: &Option<u16>,
    username: &Option<String>,
    relative_path: &Option<String>,
    remote_path: &String,
) -> (r: String)
    ensures
        r@ == spec_daemon_dest(
            host@,
            *port,
            view_opt_string(*username),
            spec_dir_arg(remote_path@, view_opt_string(*relative_path)),
        ),
{
    let mut out = "rsync://".to_owned();
    match username {
        Option::Some(u) => {
            out.append(u.as_str());
            out.append("@");
            proof {
                reveal_strlit("@");
                assert("@"@ =~= seq!['@']);
            }
        },
        Option::None => {},
    }
    out.append(host.as_str());
    match port {
        Option::Some(p) => {
            out.append(":");
            proof {
                reveal_strlit(":");
                assert(":"@ =~= seq![':']);
            }
            crate::json::append_dec(&mut out, *p as u64);
        },
        Option::None => {},
    }
    let dir = to_dir_arg_path(remote_path, relative_path);
    out.append(dir.as_str());
    proof {
        assert(out@ =~= spec_daemon_dest(
            host@,
            *port,
            view_opt_string(*username),
            spec_dir_arg(remote_path@, view_opt_string(*relative_path)),
        ));
    }
    out
}

/// The destination argument for whatever connection the remote carries.
pub fn get_target_dir_arg(relative_path: &Option<String>, remote_workspace: &RemoteWorkspace) -> (r: String)
    ensures
        r@ == spec_target_arg(view_opt_string(*relative_path), remote_workspace@),
{
    match &remote_workspace.connection_info {
        ConnectionInfo::HostAlias { host_alias } => get_remote_dir_arg_host_alias(
            host_alias,
            relative_path,
            &remote_workspace.remote_path,
        ),
        ConnectionInfo::Ssh { host, port, username, identity_file } => get_remote_dir_arg_ssh(
            host,
            username,
            relative_path,
            &remote_workspace.remote_path,
        ),
        ConnectionInfo::RsyncDaemon { host, port, username } => get_remote_dir_arg_rsync_daemon(
            host,
            port,
            username,
            relative_path,
            &remote_workspace.remote_path,
        ),
    }
}

/// The whole argument vector for syncing one remote workspace.
pub fn get_rsync_arguments(
    ws_root_path: &String,
    relative_path: &Option<String>,
    remote_workspace: &RemoteWorkspace,
) -> (r: Vec<String>)
    ensures
        r@.map_values(|a: String| a@) == spec_rsync_args(
            ws_root_path@,
            view_opt_string(*relative_path),
            remote_workspace@,
        ),
{
    let mut args: Vec<String> = Vec::new();
    args.push("-azq".to_owned());
    args.push("--delete".to_owned());
    match &remote_workspace.connection_info {
        ConnectionInfo::Ssh { host, port, username, identity_file } => {
            args.push(get_remote_shell_args_ssh(port, identity_file));
        },
        _ => {},
    }
    args.push(get_source_dir_arg(ws_root_path, relative_path));
    args.push(get_target_dir_arg(relative_path, remote_workspace));
    proof {
        assert(args@.map_values(|a: String| a@) =~= spec_rsync_args(
            ws_root_path@,
            view_opt_string(*relative_path),
            remote_workspace@,
        ));
    }
    args
}

/// How one invocation of the remote-copy tool ended: cleanly, refused on the
/// remote side (a non-zero exit status), or broken on this side (the tool
/// could not even be spawned).
pub enum RsyncOutcome {
    Success,
    RemoteFailure,
    LocalFailure,
}

/// What to do after one invocation of the remote-copy tool.
pub enum RsyncFollowup {
    /// The transfer succeeded.
    Done,
    /// A partial sync failed on the remote side: retry once from the
    /// workspace root to rebuild missing structure there.
    RetryFullTree,
    /// A full-tree sync failed on the remote side: log it and move on to the
    /// next remote.
    GiveUpRemote,
    /// The failure is local, a bug or misconfiguration of the monitor itself:
    /// stop processing the remaining remotes for this event.
    AbortRemaining,
}

/// The retry policy of the sync driver: a remote-side failure of a subtree
/// sync earns one full-tree retry; a remote-side failure of a full-tree sync
/// is logged per remote and does not stop the others; a local failure aborts
/// the remaining remotes.
pub fn interpret_rsync_exit(outcome: RsyncOutcome, had_relative_path: bool) -> (r: RsyncFollowup)
    ensures
        (r is Done) == outcome is Success,
        (r is RetryFullTree) == (outcome is RemoteFailure && had_relative_path),
        (r is GiveUpRemote) == (outcome is RemoteFailure && !had_relative_path),
        (r is AbortRemaining) == outcome is LocalFailure,
{
    match outcome {
        RsyncOutcome::Success => RsyncFollowup::Done,
        RsyncOutcome::RemoteFailure => {
            if had_relative_path {
                RsyncFollowup::RetryFullTree
            } else {
                RsyncFollowup::GiveUpRemote
            }
        },
        RsyncOutcome::LocalFailure => RsyncFollowup::AbortRemaining,
    }
}

/// Strips the workspace root from an absolute path inside the workspace:
/// none for the root itself, the relative remainder for a descendant.
pub fn strip_ws_root_prefix(ws_root: &String, abs_path: &String) -> (r: Result<Option<String>, SyncError>)
    ensures
        match r {
            Result::Ok(o) => match o {
                Option::None => abs_path@ == ws_root@,
                Option::Some(rel) => abs_path@ == ws_root@ + seq!['/'] + rel@,
            },
            Result::Err(_) => abs_path@ != ws_root@ && !(exists|rel: Seq<char>|
                rel.len() > 0 && abs_path@ == ws_root@ + seq!['/'] + rel),
        },
{
    if crate::model::str_eq(abs_path, ws_root) {
        return Result::Ok(Option::None);
    }
    let nq = abs_path.as_str().unicode_len();
    let np = ws_root.as_str().unicode_len();
    if nq <= np || nq - np == 1 {
        proof {
            assert forall|rel: Seq<char>| rel.len() > 0 implies abs_path@ != ws_root@ + seq!['/']
                + rel by {
                if abs_path@ == ws_root@ + seq!['/'] + rel {
                    assert(abs_path@.len() == ws_root@.len() + 1 + rel.len());
                }
            }
        }
        return Result::Err(SyncError::LocalError(crate::registry::msg2(
            "'",
            abs_path,
            "' is not in the workspace",
        )));
    }
    if abs_path.as_str().get_char(np) != '/' {
        proof {
            assert forall|rel: Seq<char>| rel.len() > 0 implies abs_path@ != ws_root@ + seq!['/']
                + rel by {
                if abs_path@ == ws_root@ + seq!['/'] + rel {
                    assert(abs_path@[np as int] == (ws_root@ + seq!['/'] + rel)[np as int]);
                }
            }
        }
        return Result::Err(SyncError::LocalError(crate::registry::msg2(
            "'",
            abs_path,
            "' is not in the workspace",
        )));
    }
    let mut k: usize = 0;
    while k < np
        invariant
            k <= np,
            np == ws_root@.len(),
            np + 1 < nq,
            nq == abs_path@.len(),
            forall|m: int| 0 <= m < k as int ==> abs_path@[m] == ws_root@[m],
        decreases np - k,
    {
        if abs_path.as_str().get_char(k) != ws_root.as_str().get_char(k) {
            proof {
                assert forall|rel: Seq<char>| rel.len() > 0 implies abs_path@ != ws_root@
                    + seq!['/'] + rel by {
                    if abs_path@ == ws_root@ + seq!['/'] + rel {
                        assert(abs_path@[k as int] == (ws_root@ + seq!['/'] + rel)[k as int]);
                    }
                }
            }
            return Result::Err(SyncError::LocalError(crate::registry::msg2(
                "'",
                abs_path,
                "' is not in the workspace",
            )));
        }
        k = k + 1;
    }
    let rel = abs_path.as_str().substring_char(np + 1, nq).to_owned();
    proof {
        assert(abs_path@ =~= ws_root@ + seq!['/'] + rel@);
    }
    Result::Ok(Option::Some(rel))
}

} // verus!
