//! The request dispatcher: one verified step from a command envelope and its
//! data document to a response, the registry mutation it implies, and the
//! monitor action the surrounding process must perform. Socket reads and
//! writes, file writes and child processes stay outside; this module decides
//! everything.

use vstd::prelude::*;
use crate::model::{
    RemoteWorkspace, WorkspaceInformation, RemoteV, WorkspaceV, contains_name, contains_local_path,
    has_remote_named,
};
use crate::registry::{
    WorkspaceConfiguration, WsConfigError, spec_find, spec_add, spec_remove, spec_attach,
    spec_detach, find_idx, with_remote, without_remote, conflict_idx, msg_add_conflict,
    msg_remove_not_found, msg_no_local_workspace, msg_attach_conflict, msg_detach_not_found, msg2,
    lemma_find_idx,
};
use crate::interface::{
    Response, ResponsePayload, ErrorPayload, iface_info_of, iface_overview_of,
    to_workspace_info_response, to_list_workspaces_response, to_list_workspace_info_response,
};
use crate::envelope::{
    Command, CommandRequest, WorkspaceInfoRequest, AddWorkspaceRequest, RemoveWorkspaceRequest,
    AttachRemoteWorkspaceRequest, DetachRemoteWorkspaceRequest, command_of_tag,
    jp_command_request_doc, jp_name_obj_doc, jp_add_req_doc, jp_attach_req_doc, jp_detach_req_doc,
};

verus! {

/// Which mutation asked for a monitor restart, and the remote workspace it
/// named: the daemon's failure answers speak of both sides.
pub enum RestartCause {
    Attach { remote: String },
    Detach { remote: String },
}

/// What the daemon must do to the monitor pool after a mutation.
pub enum MonitorAction {
    NoAction,
    Terminate { name: String },
    Restart { workspace: WorkspaceInformation, cause: RestartCause },
}

/// Everything one request leaves behind: the response to write, whether the
/// registry file must be rewritten, and the monitor action to perform.
pub struct HandlerOutcome {
    pub response: Response,
    pub registry_dirty: bool,
    pub action: MonitorAction,
}

// --- client-facing message texts ---

pub open spec fn msg_ws_not_found(name: Seq<char>) -> Seq<char> {
    "No local workspace with the name '"@ + name + "' found."@
}

pub open spec fn msg_invalid_command(tag: Seq<char>) -> Seq<char> {
    "Received invalid command '"@ + tag + "'"@
}

pub open spec fn msg_read_command_failed() -> Seq<char> {
    "Failed to read command"@
}

pub open spec fn msg_body_failed(tag: Seq<char>) -> Seq<char> {
    "Unable to read data required to process the '"@ + tag + "' command"@
}

// --- what each handler promises ---

pub open spec fn error_response_with(resp: Response, m: Seq<char>) -> bool {
    &&& resp.status is Error
    &&& resp.result is None
    &&& resp.error matches Option::Some(ErrorPayload::Message(em)) && em@ == m
}

pub open spec fn no_effect(r: HandlerOutcome) -> bool {
    !r.registry_dirty && r.action is NoAction
}

/// The `workspace_info` answer for registry state `s`.
pub open spec fn info_response_ok(s: Seq<WorkspaceV>, name: Seq<char>, resp: Response) -> bool {
    match spec_find(s, name) {
        Option::Some(w) => {
            &&& resp.status is Success
            &&& resp.error is None
            &&& resp.result matches Option::Some(ResponsePayload::WorkspaceInfo(p)) && p.info@
                == iface_info_of(w)
        },
        Option::None => {
            &&& resp.status is NotFound
            &&& resp.result is None
            &&& resp.error matches Option::Some(ErrorPayload::Message(m)) && m@ == msg_ws_not_found(
                name,
            )
        },
    }
}

/// The `list_workspaces` answer for registry state `s`.
pub open spec fn list_response_ok(s: Seq<WorkspaceV>, resp: Response) -> bool {
    &&& resp.status is Success
    &&& resp.error is None
    &&& resp.result matches Option::Some(ResponsePayload::ListWorkspaces(l)) && {
        &&& l.nr_of_workspaces as int == s.len()
        &&& l.entries@.len() == s.len()
        &&& forall|k: int| 0 <= k < s.len() ==> l.entries@[k]@ == iface_overview_of(#[trigger] s[k])
    }
}

/// The `list_workspace_info` answer for registry state `s`.
pub open spec fn list_info_response_ok(s: Seq<WorkspaceV>, resp: Response) -> bool {
    &&& resp.status is Success
    &&& resp.error is None
    &&& resp.result matches Option::Some(ResponsePayload::ListWorkspaceInfo(l)) && {
        &&& l.nr_of_workspaces as int == s.len()
        &&& l.entries@.len() == s.len()
        &&& forall|k: int| 0 <= k < s.len() ==> l.entries@[k]@ == iface_info_of(#[trigger] s[k])
    }
}

/// The empty workspace that `add_workspace` registers.
pub open spec fn fresh_workspace(name: Seq<char>, path: Seq<char>) -> WorkspaceV {
    WorkspaceV { name, local_path: path, remotes: Seq::empty() }
}

/// What `add_workspace` does to the registry and answers.
pub open spec fn add_outcome_ok(
    olds: Seq<WorkspaceV>,
    news: Seq<WorkspaceV>,
    name: Seq<char>,
    path: Seq<char>,
    r: HandlerOutcome,
) -> bool {
    if !contains_name(olds, name) && !contains_local_path(olds, path) {
        &&& news == spec_add(olds, fresh_workspace(name, path))
        &&& r.registry_dirty
        &&& r.action is NoAction
        &&& r.response.status is Success
        &&& r.response.error is None
        &&& r.response.result matches Option::Some(ResponsePayload::AddWorkspace(m)) && m@
            == "Successfully added workspace!"@
    } else {
        &&& news == olds
        &&& no_effect(r)
        &&& error_response_with(r.response, msg_add_conflict(olds[conflict_idx(olds, name, path)].name))
    }
}

/// What `remove_workspace` does to the registry, the monitor pool and answers.
pub open spec fn remove_outcome_ok(
    olds: Seq<WorkspaceV>,
    news: Seq<WorkspaceV>,
    name: Seq<char>,
    r: HandlerOutcome,
) -> bool {
    if contains_name(olds, name) {
        &&& news == spec_remove(olds, name)
        &&& r.registry_dirty
        &&& r.action matches MonitorAction::Terminate { name: n } && n@ == name
        &&& r.response.status is Success
        &&& r.response.error is None
        &&& r.response.result matches Option::Some(ResponsePayload::RemoveWorkspace(m)) && m@
            == "Successfully removed workspace!"@
    } else {
        &&& news == olds
        &&& no_effect(r)
        &&& error_response_with(r.response, msg_remove_not_found(name))
    }
}

/// What `attach_remote_workspace` does.
pub open spec fn attach_outcome_ok(
    olds: Seq<WorkspaceV>,
    news: Seq<WorkspaceV>,
    local: Seq<char>,
    remote: RemoteV,
    r: HandlerOutcome,
) -> bool {
    if !contains_name(olds, local) {
        &&& news == olds
        &&& no_effect(r)
        &&& error_response_with(r.response, msg_no_local_workspace(local))
    } else if has_remote_named(olds[find_idx(olds, local)], remote.name) {
        &&& news == olds
        &&& no_effect(r)
        &&& error_response_with(r.response, msg_attach_conflict(remote.name, local))
    } else {
        &&& news == spec_attach(olds, local, remote)
        &&& r.registry_dirty
        &&& r.action matches MonitorAction::Restart { workspace, cause } && workspace@
            == with_remote(olds[find_idx(olds, local)], remote) && (cause
            matches RestartCause::Attach { remote: rn } && rn@ == remote.name)
        &&& r.response.status is Success
        &&& r.response.error is None
        &&& r.response.result matches Option::Some(ResponsePayload::AttachRemoteWorkspace(m)) && m@
            == "Successfully attached remote workspace!"@
    }
}

/// What `detach_remote_workspace` does.
pub open spec fn detach_outcome_ok(
    olds: Seq<WorkspaceV>,
    news: Seq<WorkspaceV>,
    local: Seq<char>,
    rname: Seq<char>,
    r: HandlerOutcome,
) -> bool {
    if !contains_name(olds, local) {
        &&& news == olds
        &&& no_effect(r)
        &&& error_response_with(r.response, msg_no_local_workspace(local))
    } else if !has_remote_named(olds[find_idx(olds, local)], rname) {
        &&& news == olds
        &&& no_effect(r)
        &&& error_response_with(r.response, msg_detach_not_found(rname, local))
    } else {
        &&& news == spec_detach(olds, local, rname)
        &&& r.registry_dirty
        &&& r.action matches MonitorAction::Restart { workspace, cause } && workspace@
            == without_remote(olds[find_idx(olds, local)], rname) && (cause
            matches RestartCause::Detach { remote: rn } && rn@ == rname)
        &&& r.response.status is Success
        &&& r.response.error is None
        &&& r.response.result matches Option::Some(ResponsePayload::DetachRemoteWorkspace(m)) && m@
            == "Successfully detached remote workspace!"@
    }
}

// --- the handlers ---

/// Answers `workspace_info`: a read-only lookup.
pub fn handle_workspace_info_cmd(reg: &WorkspaceConfiguration, data: &WorkspaceInfoRequest) -> (r: Response)
    ensures
        info_response_ok(reg@, data.name@, r),
{
    match reg.find_by_name(&data.name) {
        Option::Some(ws_info) => {
            let response_data = to_workspace_info_response(ws_info);
            Response::success(Option::Some(ResponsePayload::WorkspaceInfo(response_data)))
        },
        Option::None => {
            let m = msg2("No local workspace with the name '", &data.name, "' found.");
            Response::not_found(Option::Some(ErrorPayload::Message(m)))
        },
    }
}

/// Answers `list_workspaces`: one overview row per workspace.
pub fn handle_list_workspaces_cmd(reg: &WorkspaceConfiguration) -> (r: Response)
    ensures
        list_response_ok(reg@, r),
{
    let ws_entries = reg.all();
    let response_data = to_list_workspaces_response(ws_entries);
    Response::success(Option::Some(ResponsePayload::ListWorkspaces(response_data)))
}

/// Answers `list_workspace_info`: one full description per workspace.
pub fn handle_list_workspace_info_cmd(reg: &WorkspaceConfiguration) -> (r: Response)
    ensures
        list_info_response_ok(reg@, r),
{
    let ws_entries = reg.all();
    let response_data = to_list_workspace_info_response(ws_entries);
    Response::success(Option::Some(ResponsePayload::ListWorkspaceInfo(response_data)))
}

/// The workspace a fresh `add_workspace` request describes: no remotes yet.
pub fn to_workspace_information(data: &AddWorkspaceRequest) -> (r: WorkspaceInformation)
    ensures
        r@ == fresh_workspace(data.name@, data.path@),
{
    let r = WorkspaceInformation {
        name: data.name.clone(),
        local_path: data.path.clone(),
        remote_workspaces: Vec::new(),
    };
    proof {
        assert(r@.remotes =~= Seq::<RemoteV>::empty());
        assert(r@ =~= fresh_workspace(data.name@, data.path@));
    }
    r
}

/// The remote workspace an attach request describes.
pub fn to_remote_workspace(data: &AttachRemoteWorkspaceRequest) -> (r: RemoteWorkspace)
    ensures
        r@ == (RemoteV {
            name: data.remote_workspace_name@,
            remote_path: data.remote_workspace_path@,
            conn: data.connection_info@,
        }),
{
    RemoteWorkspace {
        name: data.remote_workspace_name.clone(),
        remote_path: data.remote_workspace_path.clone(),
        connection_info: data.connection_info.clone_conn(),
    }
}

/// Handles `add_workspace`: registers the workspace unless its name or local
/// path conflicts.
pub fn handle_add_workspace_cmd(reg: &mut WorkspaceConfiguration, data: &AddWorkspaceRequest) -> (r: HandlerOutcome)
    ensures
        add_outcome_ok(old(reg)@, final(reg)@, data.name@, data.path@, r),
        old(reg).wf() ==> final(reg).wf(),
{
    let ws = to_workspace_information(data);
    match reg.add_workspace(ws) {
        Result::Ok(_) => HandlerOutcome {
            response: Response::success(Option::Some(ResponsePayload::AddWorkspace(
                "Successfully added workspace!".to_owned(),
            ))),
            registry_dirty: true,
            action: MonitorAction::NoAction,
        },
        Result::Err(e) => {
            let m = match e {
                WsConfigError::Message(m) => m,
                WsConfigError::Io(m) => m,
            };
            HandlerOutcome {
                response: Response::error(Option::Some(ErrorPayload::Message(m))),
                registry_dirty: false,
                action: MonitorAction::NoAction,
            }
        },
    }
}

/// Handles `remove_workspace`: removes the workspace and asks for its monitor
/// to be terminated.
pub fn handle_remove_workspace_cmd(reg: &mut WorkspaceConfiguration, data: &RemoveWorkspaceRequest) -> (r: HandlerOutcome)
    ensures
        remove_outcome_ok(old(reg)@, final(reg)@, data.name@, r),
        old(reg).wf() ==> final(reg).wf(),
{
    let name_for_terminate = data.name.clone();
    match reg.remove_workspace(data.name.clone()) {
        Result::Ok(_) => HandlerOutcome {
            response: Response::success(Option::Some(ResponsePayload::RemoveWorkspace(
                "Successfully removed workspace!".to_owned(),
            ))),
            registry_dirty: true,
            action: MonitorAction::Terminate { name: name_for_terminate },
        },
        Result::Err(e) => {
            let m = match e {
                WsConfigError::Message(m) => m,
                WsConfigError::Io(m) => m,
            };
            HandlerOutcome {
                response: Response::error(Option::Some(ErrorPayload::Message(m))),
                registry_dirty: false,
                action: MonitorAction::NoAction,
            }
        },
    }
}

/// Handles `attach_remote_workspace`: appends the remote and asks for the
/// workspace's monitor to be restarted with the new description.
pub fn handle_attach_remote_workspace_cmd(
    reg: &mut WorkspaceConfiguration,
    data: &AttachRemoteWorkspaceRequest,
) -> (r: HandlerOutcome)
    ensures
        attach_outcome_ok(
            old(reg)@,
            final(reg)@,
            data.local_workspace_name@,
            RemoteV {
                name: data.remote_workspace_name@,
                remote_path: data.remote_workspace_path@,
                conn: data.connection_info@,
            },
            r,
        ),
        old(reg).wf() ==> final(reg).wf(),
{
    let ghost olds = reg@;
    let ghost rv = RemoteV {
        name: data.remote_workspace_name@,
        remote_path: data.remote_workspace_path@,
        conn: data.connection_info@,
    };
    let rw = to_remote_workspace(data);
    match reg.attach_remote_workspace(data.local_workspace_name.clone(), rw) {
        Result::Ok(_) => {
            proof {
                lemma_find_idx(olds, data.local_workspace_name@);
                let i = find_idx(olds, data.local_workspace_name@);
                assert(reg@[i] == with_remote(olds[i], rv));
                assert(reg@[i].name == data.local_workspace_name@);
                assert(contains_name(reg@, data.local_workspace_name@));
                crate::registry::lemma_find_idx_names_eq(olds, reg@, data.local_workspace_name@);
                assert(find_idx(reg@, data.local_workspace_name@) == i);
            }
            let updated_workspace = match reg.find_by_name(&data.local_workspace_name) {
                Option::Some(w) => w,
                Option::None => {
                    proof {
                        lemma_find_idx(reg@, data.local_workspace_name@);
                    }
                    vstd::pervasive::unreached()
                },
            };
            HandlerOutcome {
                response: Response::success(Option::Some(ResponsePayload::AttachRemoteWorkspace(
                    "Successfully attached remote workspace!".to_owned(),
                ))),
                registry_dirty: true,
                action: MonitorAction::Restart {
                    workspace: updated_workspace,
                    cause: RestartCause::Attach { remote: data.remote_workspace_name.clone() },
                },
            }
        },
        Result::Err(e) => {
            let m = match e {
                WsConfigError::Message(m) => m,
                WsConfigError::Io(m) => m,
            };
            HandlerOutcome {
                response: Response::error(Option::Some(ErrorPayload::Message(m))),
                registry_dirty: false,
                action: MonitorAction::NoAction,
            }
        },
    }
}

/// Handles `detach_remote_workspace`: removes the remote and asks for the
/// workspace's monitor to be restarted with the shrunken description.
pub fn handle_detach_remote_workspace_cmd(
    reg: &mut WorkspaceConfiguration,
    data: &DetachRemoteWorkspaceRequest,
) -> (r: HandlerOutcome)
    ensures
        detach_outcome_ok(
            old(reg)@,
            final(reg)@,
            data.local_workspace_name@,
            data.remote_workspace_name@,
            r,
        ),
        old(reg).wf() ==> final(reg).wf(),
{
    let ghost olds = reg@;
    match reg.detach_remote_workspace(
        data.local_workspace_name.clone(),
        data.remote_workspace_name.clone(),
    ) {
        Result::Ok(_) => {
            proof {
                lemma_find_idx(olds, data.local_workspace_name@);
                let i = find_idx(olds, data.local_workspace_name@);
                assert(reg@[i] == without_remote(olds[i], data.remote_workspace_name@));
                assert(reg@[i].name == data.local_workspace_name@);
                assert(contains_name(reg@, data.local_workspace_name@));
                crate::registry::lemma_find_idx_names_eq(olds, reg@, data.local_workspace_name@);
                assert(find_idx(reg@, data.local_workspace_name@) == i);
            }
            let updated_workspace = match reg.find_by_name(&data.local_workspace_name) {
                Option::Some(w) => w,
                Option::None => {
                    proof {
                        lemma_find_idx(reg@, data.local_workspace_name@);
                    }
                    vstd::pervasive::unreached()
                },
            };
            HandlerOutcome {
                response: Response::success(Option::Some(ResponsePayload::DetachRemoteWorkspace(
                    "Successfully detached remote workspace!".to_owned(),
                ))),
                registry_dirty: true,
                action: MonitorAction::Restart {
                    workspace: updated_workspace,
                    cause: RestartCause::Detach { remote: data.remote_workspace_name.clone() },
                },
            }
        },
        Result::Err(e) => {
            let m = match e {
                WsConfigError::Message(m) => m,
                WsConfigError::Io(m) => m,
            };
            HandlerOutcome {
                response: Response::error(Option::Some(ErrorPayload::Message(m))),
                registry_dirty: false,
                action: MonitorAction::NoAction,
            }
        },
    }
}

fn error_outcome(m: String) -> (r: HandlerOutcome)
    ensures
        error_response_with(r.response, m@),
        no_effect(r),
{
    HandlerOutcome {
        response: Response::error(Option::Some(ErrorPayload::Message(m))),
        registry_dirty: false,
        action: MonitorAction::NoAction,
    }
}

fn response_outcome(resp: Response) -> (r: HandlerOutcome)
    ensures
        r.response == resp,
        no_effect(r),
{
    HandlerOutcome { response: resp, registry_dirty: false, action: MonitorAction::NoAction }
}

/// What one whole request leaves behind, as a function of the two documents
/// the client sent. Anything that does not parse is answered with the exact
/// error message and leaves the registry untouched.
pub open spec fn request_outcome_ok(
    olds: Seq<WorkspaceV>,
    news: Seq<WorkspaceV>,
    cmd_doc: Seq<char>,
    body_doc: Option<Seq<char>>,
    r: HandlerOutcome,
) -> bool {
    match jp_command_request_doc(cmd_doc) {
        Option::None => news == olds && no_effect(r) && error_response_with(
            r.response,
            msg_read_command_failed(),
        ),
        Option::Some(tag) => match command_of_tag(tag) {
            Option::None => news == olds && no_effect(r) && error_response_with(
                r.response,
                msg_invalid_command(tag),
            ),
            Option::Some(cmd) => match cmd {
                Command::ListWorkspaces => news == olds && no_effect(r) && list_response_ok(
                    olds,
                    r.response,
                ),
                Command::ListWorkspaceInfo => news == olds && no_effect(r)
                    && list_info_response_ok(olds, r.response),
                Command::WorkspaceInfo => match body_doc {
                    Option::Some(b) => match jp_name_obj_doc(b) {
                        Option::Some(name) => news == olds && no_effect(r) && info_response_ok(
                            olds,
                            name,
                            r.response,
                        ),
                        Option::None => news == olds && no_effect(r) && error_response_with(
                            r.response,
                            msg_body_failed(tag),
                        ),
                    },
                    Option::None => news == olds && no_effect(r) && error_response_with(
                        r.response,
                        msg_body_failed(tag),
                    ),
                },
                Command::AddWorkspace => match body_doc {
                    Option::Some(b) => match jp_add_req_doc(b) {
                        Option::Some((name, path)) => add_outcome_ok(olds, news, name, path, r),
                        Option::None => news == olds && no_effect(r) && error_response_with(
                            r.response,
                            msg_body_failed(tag),
                        ),
                    },
                    Option::None => news == olds && no_effect(r) && error_response_with(
                        r.response,
                        msg_body_failed(tag),
                    ),
                },
                Command::RemoveWorkspace => match body_doc {
                    Option::Some(b) => match jp_name_obj_doc(b) {
                        Option::Some(name) => remove_outcome_ok(olds, news, name, r),
                        Option::None => news == olds && no_effect(r) && error_response_with(
                            r.response,
                            msg_body_failed(tag),
                        ),
                    },
                    Option::None => news == olds && no_effect(r) && error_response_with(
                        r.response,
                        msg_body_failed(tag),
                    ),
                },
                Command::AttachRemoteWorkspace => match body_doc {
                    Option::Some(b) => match jp_attach_req_doc(b) {
                        Option::Some((local, remote, rpath, conn)) => attach_outcome_ok(
                            olds,
                            news,
                            local,
                            RemoteV { name: remote, remote_path: rpath, conn },
                            r,
                        ),
                        Option::None => news == olds && no_effect(r) && error_response_with(
                            r.response,
                            msg_body_failed(tag),
                        ),
                    },
                    Option::None => news == olds && no_effect(r) && error_response_with(
                        r.response,
                        msg_body_failed(tag),
                    ),
                },
                Command::DetachRemoteWorkspace => match body_doc {
                    Option::Some(b) => match jp_detach_req_doc(b) {
                        Option::Some((local, remote)) => detach_outcome_ok(
                            olds,
                            news,
                            local,
                            remote,
                            r,
                        ),
                        Option::None => news == olds && no_effect(r) && error_response_with(
                            r.response,
                            msg_body_failed(tag),
                        ),
                    },
                    Option::None => news == olds && no_effect(r) && error_response_with(
                        r.response,
                        msg_body_failed(tag),
                    ),
                },
            },
        },
    }
}

/// One whole request: reads the command envelope and its data document,
/// dispatches, and leaves behind the response, the dirty flag and the monitor
/// action. The caller performs the I/O around it.
pub fn handle_request(reg: &mut WorkspaceConfiguration, cmd_doc: &str, body_doc: Option<&str>) -> (r: HandlerOutcome)
    ensures
        request_outcome_ok(
            old(reg)@,
            final(reg)@,
            cmd_doc@,
            match body_doc {
                Option::Some(b) => Option::Some(b@),
                Option::None => Option::<Seq<char>>::None,
            },
            r,
        ),
        old(reg).wf() ==> final(reg).wf(),
{
    let raw = match crate::envelope::parse_command_request_json(cmd_doc) {
        Option::Some(raw) => raw,
        Option::None => {
            return error_outcome("Failed to read command".to_owned());
        },
    };
    let command = match Command::from_tag(raw.command.as_str()) {
        Option::Some(c) => c,
        Option::None => {
            let m = msg2("Received invalid command '", &raw.command, "'");
            return error_outcome(m);
        },
    };
    match command {
        Command::ListWorkspaces => response_outcome(handle_list_workspaces_cmd(reg)),
        Command::ListWorkspaceInfo => response_outcome(handle_list_workspace_info_cmd(reg)),
        Command::WorkspaceInfo => {
            let body = match body_doc {
                Option::Some(b) => b,
                Option::None => {
                    let m = msg2(
                        "Unable to read data required to process the '",
                        &raw.command,
                        "' command",
                    );
                    return error_outcome(m);
                },
            };
            match crate::envelope::parse_name_obj_json(body) {
                Option::Some(name) => {
                    let data = WorkspaceInfoRequest { name };
                    response_outcome(handle_workspace_info_cmd(reg, &data))
                },
                Option::None => {
                    let m = msg2(
                        "Unable to read data required to process the '",
                        &raw.command,
                        "' command",
                    );
                    error_outcome(m)
                },
            }
        },
        Command::AddWorkspace => {
            let body = match body_doc {
                Option::Some(b) => b,
                Option::None => {
                    let m = msg2(
                        "Unable to read data required to process the '",
                        &raw.command,
                        "' command",
                    );
                    return error_outcome(m);
                },
            };
            match crate::envelope::parse_add_req_json(body) {
                Option::Some(data) => handle_add_workspace_cmd(reg, &data),
                Option::None => {
                    let m = msg2(
                        "Unable to read data required to process the '",
                        &raw.command,
                        "' command",
                    );
                    error_outcome(m)
                },
            }
        },
        Command::RemoveWorkspace => {
            let body = match body_doc {
                Option::Some(b) => b,
                Option::None => {
                    let m = msg2(
                        "Unable to read data required to process the '",
                        &raw.command,
                        "' command",
                    );
                    return error_outcome(m);
                },
            };
            match crate::envelope::parse_name_obj_json(body) {
                Option::Some(name) => {
                    let data = RemoveWorkspaceRequest { name };
                    handle_remove_workspace_cmd(reg, &data)
                },
                Option::None => {
                    let m = msg2(
                        "Unable to read data required to process the '",
                        &raw.command,
                        "' command",
                    );
                    error_outcome(m)
                },
            }
        },
        Command::AttachRemoteWorkspace => {
            let body = match body_doc {
                Option::Some(b) => b,
                Option::None => {
                    let m = msg2(
                        "Unable to read data required to process the '",
                        &raw.command,
                        "' command",
                    );
                    return error_outcome(m);
                },
            };
            match crate::envelope::parse_attach_req_json(body) {
                Option::Some(data) => handle_attach_remote_workspace_cmd(reg, &data),
                Option::None => {
                    let m = msg2(
                        "Unable to read data required to process the '",
                        &raw.command,
                        "' command",
                    );
                    error_outcome(m)
                },
            }
        },
        Command::DetachRemoteWorkspace => {
            let body = match body_doc {
                Option::Some(b) => b,
                Option::None => {
                    let m = msg2(
                        "Unable to read data required to process the '",
                        &raw.command,
                        "' command",
                    );
                    return error_outcome(m);
                },
            };
            match crate::envelope::parse_detach_req_json(body) {
                Option::Some(data) => handle_detach_remote_workspace_cmd(reg, &data),
                Option::None => {
                    let m = msg2(
                        "Unable to read data required to process the '",
                        &raw.command,
                        "' command",
                    );
                    error_outcome(m)
                },
            }
        },
    }
}

// --- the responses the daemon sends when work outside this module fails ---

/// The answer when rewriting the registry file after `add_workspace` fails.
pub fn add_io_failure_response() -> (r: Response)
    ensures
        error_response_with(
            r,
            "Couldn't add the workspace as an error occurred while trying to modify the workspace configuration file"@,
        ),
{
    Response::error(Option::Some(ErrorPayload::Message(
        "Couldn't add the workspace as an error occurred while trying to modify the workspace configuration file".to_owned(),
    )))
}

/// The answer when rewriting the registry file after `remove_workspace` fails.
pub fn remove_io_failure_response() -> (r: Response)
    ensures
        error_response_with(
            r,
            "Couldn't remove the workspace as an error occurred while trying to modify the workspace configuration file"@,
        ),
{
    Response::error(Option::Some(ErrorPayload::Message(
        "Couldn't remove the workspace as an error occurred while trying to modify the workspace configuration file".to_owned(),
    )))
}

/// The answer when terminating a removed workspace's monitor fails.
pub fn terminate_failure_response() -> (r: Response)
    ensures
        error_response_with(
            r,
            "Couldn't remove the workspace as an error occurred while trying to terminate its monitor process"@,
        ),
{
    Response::error(Option::Some(ErrorPayload::Message(
        "Couldn't remove the workspace as an error occurred while trying to terminate its monitor process".to_owned(),
    )))
}

/// The answer when rewriting the registry file after an attach fails.
pub fn attach_io_failure_response(remote: &String, local: &String) -> (r: Response)
    ensures
        error_response_with(
            r,
            "Failed to attach remote workspace '"@ + remote@
                + "' to '"@ + local@
                + "' because there was an error while trying to modify the workspaces configuration file"@,
        ),
{
    let m = crate::registry::msg4(
        "Failed to attach remote workspace '",
        remote,
        "' to '",
        local,
        "' because there was an error while trying to modify the workspaces configuration file",
    );
    Response::error(Option::Some(ErrorPayload::Message(m)))
}

/// The answer when rewriting the registry file after a detach fails.
pub fn detach_io_failure_response(remote: &String, local: &String) -> (r: Response)
    ensures
        error_response_with(
            r,
            "Failed to detach remote workspace '"@ + remote@
                + "' from '"@ + local@
                + "' because there was an error while trying to modify the workspaces configuration file"@,
        ),
{
    let m = crate::registry::msg4(
        "Failed to detach remote workspace '",
        remote,
        "' from '",
        local,
        "' because there was an error while trying to modify the workspaces configuration file",
    );
    Response::error(Option::Some(ErrorPayload::Message(m)))
}

/// The answer when the monitor of a freshly attached workspace cannot be
/// restarted: the registry change stands, but sync will not be reliable.
pub fn attach_restart_failure_response(local: &String) -> (r: Response)
    ensures
        error_response_with(
            r,
            "(Re)starting the monitor process for workspace '"@ + local@
                + "' failed, so changes cannot be synced to the newly attached remote workspace."@,
        ),
{
    let m = msg2(
        "(Re)starting the monitor process for workspace '",
        local,
        "' failed, so changes cannot be synced to the newly attached remote workspace.",
    );
    Response::error(Option::Some(ErrorPayload::Message(m)))
}

/// The answer when the monitor of a workspace cannot be restarted after a
/// detach: changes might still be synced to the detached remote.
pub fn detach_restart_failure_response(local: &String, remote: &String) -> (r: Response)
    ensures
        error_response_with(
            r,
            "(Re)starting the monitor process for workspace '"@ + local@
                + "' failed, so changes might still be synced to the remote workspace '"@ + remote@
                + "'."@,
        ),
{
    let m = crate::registry::msg4(
        "(Re)starting the monitor process for workspace '",
        local,
        "' failed, so changes might still be synced to the remote workspace '",
        remote,
        "'.",
    );
    Response::error(Option::Some(ErrorPayload::Message(m)))
}

} // verus!
