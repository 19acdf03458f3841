//! The daemon's wire interface: the shapes a client sends and receives. A
//! response is one JSON document; its canonical text is specified exactly, so
//! tests and callers can rely on every byte the daemon writes.

use vstd::prelude::*;
use crate::model::{ConnectionInfo, ConnV, WorkspaceInformation, WorkspaceV, RemoteV, view_opt_string};
use crate::json::{jser_string, jser_dec};
use crate::codec::jser_conn;

verus! {

/// One row of the `list_workspaces` answer.
pub struct WorkspaceOverview {
    pub name: String,
    pub path: String,
    pub nr_of_remote_workspaces: usize,
}

/// A remote workspace as shown to clients.
pub struct RemoteWorkspace {
    pub name: String,
    pub path: String,
    pub connection_info: ConnectionInfo,
}

/// Full description of one workspace as shown to clients.
pub struct WorkspaceInfo {
    pub name: String,
    pub path: String,
    pub nr_of_remote_workspaces: usize,
    pub remote_workspaces: Vec<RemoteWorkspace>,
}

/// Mathematical view of an interface [`RemoteWorkspace`].
#[verifier::ext_equal]
pub struct IRemoteV {
    pub name: Seq<char>,
    pub path: Seq<char>,
    pub conn: ConnV,
}

/// Mathematical view of a [`WorkspaceInfo`].
#[verifier::ext_equal]
pub struct IWorkspaceInfoV {
    pub name: Seq<char>,
    pub path: Seq<char>,
    pub nr: int,
    pub remotes: Seq<IRemoteV>,
}

/// Mathematical view of a [`WorkspaceOverview`].
#[verifier::ext_equal]
pub struct IOverviewV {
    pub name: Seq<char>,
    pub path: Seq<char>,
    pub nr: int,
}

impl View for RemoteWorkspace {
    type V = IRemoteV;

    open spec fn view(&self) -> IRemoteV {
        IRemoteV { name: self.name@, path: self.path@, conn: self.connection_info@ }
    }
}

impl View for WorkspaceInfo {
    type V = IWorkspaceInfoV;

    open spec fn view(&self) -> IWorkspaceInfoV {
        IWorkspaceInfoV {
            name: self.name@,
            path: self.path@,
            nr: self.nr_of_remote_workspaces as int,
            remotes: self.remote_workspaces@.map_values(|r: RemoteWorkspace| r@),
        }
    }
}

impl View for WorkspaceOverview {
    type V = IOverviewV;

    open spec fn view(&self) -> IOverviewV {
        IOverviewV { name: self.name@, path: self.path@, nr: self.nr_of_remote_workspaces as int }
    }
}

/// The interface shape of a domain remote workspace.
pub open spec fn iface_remote_of(r: RemoteV) -> IRemoteV {
    IRemoteV { name: r.name, path: r.remote_path, conn: r.conn }
}

/// The interface shape of a domain workspace.
pub open spec fn iface_info_of(w: WorkspaceV) -> IWorkspaceInfoV {
    IWorkspaceInfoV {
        name: w.name,
        path: w.local_path,
        nr: w.remotes.len() as int,
        remotes: w.remotes.map_values(|r: RemoteV| iface_remote_of(r)),
    }
}

/// The overview shape of a domain workspace.
pub open spec fn iface_overview_of(w: WorkspaceV) -> IOverviewV {
    IOverviewV { name: w.name, path: w.local_path, nr: w.remotes.len() as int }
}

/// Payload of a `workspace_info` answer.
pub struct WorkspaceInfoResponse {
    pub info: WorkspaceInfo,
}

/// Payload of a `list_workspaces` answer.
pub struct ListWorkspacesResponse {
    pub nr_of_workspaces: usize,
    pub entries: Vec<WorkspaceOverview>,
}

/// Payload of a `list_workspace_info` answer.
pub struct ListWorkspaceInfoResponse {
    pub nr_of_workspaces: usize,
    pub entries: Vec<WorkspaceInfo>,
}

pub enum ResponseStatus {
    Success,
    NotFound,
    Error,
}

/// The `result` of a successful command, tagged with the command it answers.
pub enum ResponsePayload {
    WorkspaceInfo(WorkspaceInfoResponse),
    ListWorkspaces(ListWorkspacesResponse),
    ListWorkspaceInfo(ListWorkspaceInfoResponse),
    AddWorkspace(String),
    RemoveWorkspace(String),
    AttachRemoteWorkspace(String),
    DetachRemoteWorkspace(String),
}

/// The `error` of a failed command.
pub enum ErrorPayload {
    Message(String),
}

/// The envelope the daemon writes back: a status with at most one of
/// `result` and `error` populated.
pub struct Response {
    pub status: ResponseStatus,
    pub result: Option<ResponsePayload>,
    pub error: Option<ErrorPayload>,
}

impl Response {
    pub fn success(res: Option<ResponsePayload>) -> (r: Response)
        ensures
            r.status is Success,
            r.result == res,
            r.error is None,
    {
        Response { status: ResponseStatus::Success, result: res, error: Option::None }
    }

    pub fn not_found(msg: Option<ErrorPayload>) -> (r: Response)
        ensures
            r.status is NotFound,
            r.result is None,
            r.error == msg,
    {
        Response { status: ResponseStatus::NotFound, result: Option::None, error: msg }
    }

    pub fn error(err: Option<ErrorPayload>) -> (r: Response)
        ensures
            r.status is Error,
            r.result is None,
            r.error == err,
    {
        Response { status: ResponseStatus::Error, result: Option::None, error: err }
    }
}

// --- the mappers from domain values to interface values ---

/// Builds the `workspace_info` payload for one workspace.
pub fn to_workspace_info_response(data: WorkspaceInformation) -> (r: WorkspaceInfoResponse)
    ensures
        r.info@ == iface_info_of(data@),
{
    let info = to_workspace_info(data);
    WorkspaceInfoResponse { info }
}

fn to_workspace_info(data: WorkspaceInformation) -> (r: WorkspaceInfo)
    ensures
        r@ == iface_info_of(data@),
{
    let ghost dv = data@;
    let mut remotes: Vec<RemoteWorkspace> = Vec::new();
    let n = data.remote_workspaces.len();
    let mut i: usize = 0;
    while i < n
        invariant
            i <= n,
            n == data.remote_workspaces.len(),
            dv == data@,
            remotes@.len() == i as int,
            forall|k: int|
                0 <= k < i as int ==> remotes@[k]@ == iface_remote_of(
                    #[trigger] dv.remotes[k],
                ),
        decreases n - i,
    {
        let src = &data.remote_workspaces[i];
        remotes.push(RemoteWorkspace {
            name: src.name.clone(),
            path: src.remote_path.clone(),
            connection_info: src.connection_info.clone_conn(),
        });
        i = i + 1;
    }
    let r = WorkspaceInfo {
        name: data.name.clone(),
        path: data.local_path.clone(),
        nr_of_remote_workspaces: n,
        remote_workspaces: remotes,
    };
    proof {
        assert(r@.remotes =~= iface_info_of(dv).remotes);
        assert(r@ =~= iface_info_of(dv));
    }
    r
}

/// Builds the `list_workspaces` payload: one overview row per workspace.
pub fn to_list_workspaces_response(data: Vec<WorkspaceInformation>) -> (r: ListWorkspacesResponse)
    ensures
        r.nr_of_workspaces as int == data@.len(),
        r.entries@.len() == data@.len(),
        forall|k: int|
            0 <= k < data@.len() ==> r.entries@[k]@ == iface_overview_of(#[trigger] data@[k]@),
{
    let n = data.len();
    let mut entries: Vec<WorkspaceOverview> = Vec::new();
    let mut i: usize = 0;
    while i < n
        invariant
            i <= n,
            n == data.len(),
            entries@.len() == i as int,
            forall|k: int|
                0 <= k < i as int ==> entries@[k]@ == iface_overview_of(#[trigger] data@[k]@),
        decreases n - i,
    {
        let src = &data[i];
        entries.push(WorkspaceOverview {
            name: src.name.clone(),
            path: src.local_path.clone(),
            nr_of_remote_workspaces: src.remote_workspaces.len(),
        });
        i = i + 1;
    }
    ListWorkspacesResponse { nr_of_workspaces: n, entries }
}

/// Builds the `list_workspace_info` payload: one full description per
/// workspace.
pub fn to_list_workspace_info_response(data: Vec<WorkspaceInformation>) -> (r: ListWorkspaceInfoResponse)
    ensures
        r.nr_of_workspaces as int == data@.len(),
        r.entries@.len() == data@.len(),
        forall|k: int| 0 <= k < data@.len() ==> r.entries@[k]@ == iface_info_of(#[trigger] data@[k]@),
{
    let n = data.len();
    let mut entries: Vec<WorkspaceInfo> = Vec::new();
    let mut i: usize = 0;
    while i < n
        invariant
            i <= n,
            n == data.len(),
            entries@.len() == i as int,
            forall|k: int| 0 <= k < i as int ==> entries@[k]@ == iface_info_of(#[trigger] data@[k]@),
        decreases n - i,
    {
        let src = data[i].clone_ws();
        entries.push(to_workspace_info(src));
        i = i + 1;
    }
    ListWorkspaceInfoResponse { nr_of_workspaces: n, entries }
}

// --- the canonical text of a response document ---

pub open spec fn jser_status(s: ResponseStatus) -> Seq<char> {
    match s {
        ResponseStatus::Success => "\"Success\""@,
        ResponseStatus::NotFound => "\"NotFound\""@,
        ResponseStatus::Error => "\"Error\""@,
    }
}

pub open spec fn jser_iface_remote(r: IRemoteV) -> Seq<char> {
    "{\"name\":"@ + jser_string(r.name) + ",\"path\":"@ + jser_string(r.path)
        + ",\"connection_info\":"@ + jser_conn(r.conn) + "}"@
}

pub open spec fn jser_iface_remote_items(rs: Seq<IRemoteV>) -> Seq<char>
    decreases rs.len(),
{
    if rs.len() == 0 {
        Seq::empty()
    } else if rs.len() == 1 {
        jser_iface_remote(rs[0])
    } else {
        jser_iface_remote_items(rs.drop_last()) + seq![','] + jser_iface_remote(rs.last())
    }
}

pub open spec fn jser_winfo(w: IWorkspaceInfoV) -> Seq<char> {
    "{\"name\":"@ + jser_string(w.name) + ",\"path\":"@ + jser_string(w.path)
        + ",\"nr_of_remote_workspaces\":"@ + jser_dec(w.nr as nat) + ",\"remote_workspaces\":["@
        + jser_iface_remote_items(w.remotes) + "]}"@
}

pub open spec fn jser_overview(w: IOverviewV) -> Seq<char> {
    "{\"name\":"@ + jser_string(w.name) + ",\"path\":"@ + jser_string(w.path)
        + ",\"nr_of_remote_workspaces\":"@ + jser_dec(w.nr as nat) + "}"@
}

pub open spec fn jser_overview_items(ws: Seq<IOverviewV>) -> Seq<char>
    decreases ws.len(),
{
    if ws.len() == 0 {
        Seq::empty()
    } else if ws.len() == 1 {
        jser_overview(ws[0])
    } else {
        jser_overview_items(ws.drop_last()) + seq![','] + jser_overview(ws.last())
    }
}

pub open spec fn jser_winfo_items(ws: Seq<IWorkspaceInfoV>) -> Seq<char>
    decreases ws.len(),
{
    if ws.len() == 0 {
        Seq::empty()
    } else if ws.len() == 1 {
        jser_winfo(ws[0])
    } else {
        jser_winfo_items(ws.drop_last()) + seq![','] + jser_winfo(ws.last())
    }
}

/// The `result` payload: a tagged object carrying the answer.
pub open spec fn jser_payload(p: ResponsePayload) -> Seq<char> {
    match p {
        ResponsePayload::WorkspaceInfo(w) => "{\"type\":\"WorkspaceInfo\",\"data\":"@
            + jser_winfo(w.info@) + "}"@,
        ResponsePayload::ListWorkspaces(l) => "{\"type\":\"ListWorkspaces\",\"data\":{\"nr_of_workspaces\":"@
            + jser_dec(l.nr_of_workspaces as nat) + ",\"entries\":["@
            + jser_overview_items(l.entries@.map_values(|e: WorkspaceOverview| e@)) + "]}}"@,
        ResponsePayload::ListWorkspaceInfo(l) => "{\"type\":\"ListWorkspaceInfo\",\"data\":{\"nr_of_workspaces\":"@
            + jser_dec(l.nr_of_workspaces as nat) + ",\"entries\":["@
            + jser_winfo_items(l.entries@.map_values(|e: WorkspaceInfo| e@)) + "]}}"@,
        ResponsePayload::AddWorkspace(m) => "{\"type\":\"AddWorkspace\",\"data\":"@
            + jser_string(m@) + "}"@,
        ResponsePayload::RemoveWorkspace(m) => "{\"type\":\"RemoveWorkspace\",\"data\":"@
            + jser_string(m@) + "}"@,
        ResponsePayload::AttachRemoteWorkspace(m) => "{\"type\":\"AttachRemoteWorkspace\",\"data\":"@
            + jser_string(m@) + "}"@,
        ResponsePayload::DetachRemoteWorkspace(m) => "{\"type\":\"DetachRemoteWorkspace\",\"data\":"@
            + jser_string(m@) + "}"@,
    }
}

pub open spec fn jser_opt_payload(p: Option<ResponsePayload>) -> Seq<char> {
    match p {
        Option::Some(x) => jser_payload(x),
        Option::None => "null"@,
    }
}

pub open spec fn jser_opt_error(e: Option<ErrorPayload>) -> Seq<char> {
    match e {
        Option::Some(ErrorPayload::Message(m)) => jser_string(m@),
        Option::None => "null"@,
    }
}

/// The whole response document.
pub open spec fn jser_response(r: Response) -> Seq<char> {
    "{\"status\":"@ + jser_status(r.status) + ",\"result\":"@ + jser_opt_payload(r.result)
        + ",\"error\":"@ + jser_opt_error(r.error) + "}"@
}

// --- the executable response serializer ---

fn append_iface_remote(out: &mut String, r: &RemoteWorkspace)
    ensures
        final(out)@ == old(out)@ + jser_iface_remote(r@),
{
    out.append("{\"name\":");
    crate::json::append_json_string(out, &r.name);
    out.append(",\"path\":");
    crate::json::append_json_string(out, &r.path);
    out.append(",\"connection_info\":");
    crate::codec::append_conn(out, &r.connection_info);
    out.append("}");
    proof {
        assert(out@ =~= old(out)@ + jser_iface_remote(r@));
    }
}

fn append_iface_remote_items(out: &mut String, rs: &Vec<RemoteWorkspace>)
    ensures
        final(out)@ == old(out)@ + jser_iface_remote_items(rs@.map_values(|r: RemoteWorkspace| r@)),
{
    let ghost base = out@;
    let ghost vs = rs@.map_values(|r: RemoteWorkspace| r@);
    let n = rs.len();
    let mut i: usize = 0;
    while i < n
        invariant
            i <= n,
            n == rs.len(),
            vs == rs@.map_values(|r: RemoteWorkspace| r@),
            out@ == base + jser_iface_remote_items(vs.take(i as int)),
        decreases n - i,
    {
        if i > 0 {
            out.append(",");
            proof {
                reveal_strlit(",");
                assert(","@ =~= seq![',']);
            }
        }
        append_iface_remote(out, &rs[i]);
        proof {
            assert(vs.take(i as int + 1).drop_last() =~= vs.take(i as int));
            assert(vs.take(i as int + 1).last() == vs[i as int]);
            assert(out@ =~= base + jser_iface_remote_items(vs.take(i as int + 1)));
        }
        i = i + 1;
    }
    proof {
        assert(vs.take(n as int) =~= vs);
    }
}

fn append_winfo(out: &mut String, w: &WorkspaceInfo)
    ensures
        final(out)@ == old(out)@ + jser_winfo(w@),
{
    out.append("{\"name\":");
    crate::json::append_json_string(out, &w.name);
    out.append(",\"path\":");
    crate::json::append_json_string(out, &w.path);
    out.append(",\"nr_of_remote_workspaces\":");
    crate::json::append_dec(out, w.nr_of_remote_workspaces as u64);
    out.append(",\"remote_workspaces\":[");
    append_iface_remote_items(out, &w.remote_workspaces);
    out.append("]}");
    proof {
        assert(out@ =~= old(out)@ + jser_winfo(w@));
    }
}

fn append_overview(out: &mut String, w: &WorkspaceOverview)
    ensures
        final(out)@ == old(out)@ + jser_overview(w@),
{
    out.append("{\"name\":");
    crate::json::append_json_string(out, &w.name);
    out.append(",\"path\":");
    crate::json::append_json_string(out, &w.path);
    out.append(",\"nr_of_remote_workspaces\":");
    crate::json::append_dec(out, w.nr_of_remote_workspaces as u64);
    out.append("}");
    proof {
        assert(out@ =~= old(out)@ + jser_overview(w@));
    }
}

fn append_overview_items(out: &mut String, ws: &Vec<WorkspaceOverview>)
    ensures
        final(out)@ == old(out)@ + jser_overview_items(ws@.map_values(|e: WorkspaceOverview| e@)),
{
    let ghost base = out@;
    let ghost vs = ws@.map_values(|e: WorkspaceOverview| e@);
    let n = ws.len();
    let mut i: usize = 0;
    while i < n
        invariant
            i <= n,
            n == ws.len(),
            vs == ws@.map_values(|e: WorkspaceOverview| e@),
            out@ == base + jser_overview_items(vs.take(i as int)),
        decreases n - i,
    {
        if i > 0 {
            out.append(",");
            proof {
                reveal_strlit(",");
                assert(","@ =~= seq![',']);
            }
        }
        append_overview(out, &ws[i]);
        proof {
            assert(vs.take(i as int + 1).drop_last() =~= vs.take(i as int));
            assert(vs.take(i as int + 1).last() == vs[i as int]);
            assert(out@ =~= base + jser_overview_items(vs.take(i as int + 1)));
        }
        i = i + 1;
    }
    proof {
        assert(vs.take(n as int) =~= vs);
    }
}

fn append_winfo_items(out: &mut String, ws: &Vec<WorkspaceInfo>)
    ensures
        final(out)@ == old(out)@ + jser_winfo_items(ws@.map_values(|e: WorkspaceInfo| e@)),
{
    let ghost base = out@;
    let ghost vs = ws@.map_values(|e: WorkspaceInfo| e@);
    let n = ws.len();
    let mut i: usize = 0;
    while i < n
        invariant
            i <= n,
            n == ws.len(),
            vs == ws@.map_values(|e: WorkspaceInfo| e@),
            out@ == base + jser_winfo_items(vs.take(i as int)),
        decreases n - i,
    {
        if i > 0 {
            out.append(",");
            proof {
                reveal_strlit(",");
                assert(","@ =~= seq![',']);
            }
        }
        append_winfo(out, &ws[i]);
        proof {
            assert(vs.take(i as int + 1).drop_last() =~= vs.take(i as int));
            assert(vs.take(i as int + 1).last() == vs[i as int]);
            assert(out@ =~= base + jser_winfo_items(vs.take(i as int + 1)));
        }
        i = i + 1;
    }
    proof {
        assert(vs.take(n as int) =~= vs);
    }
}

fn append_payload(out: &mut String, p: &ResponsePayload)
    ensures
        final(out)@ == old(out)@ + jser_payload(*p),
{
    match p {
        ResponsePayload::WorkspaceInfo(w) => {
            out.append("{\"type\":\"WorkspaceInfo\",\"data\":");
            append_winfo(out, &w.info);
            out.append("}");
            proof {
                assert(out@ =~= old(out)@ + jser_payload(*p));
            }
        },
        ResponsePayload::ListWorkspaces(l) => {
            out.append("{\"type\":\"ListWorkspaces\",\"data\":{\"nr_of_workspaces\":");
            crate::json::append_dec(out, l.nr_of_workspaces as u64);
            out.append(",\"entries\":[");
            append_overview_items(out, &l.entries);
            out.append("]}}");
            proof {
                assert(out@ =~= old(out)@ + jser_payload(*p));
            }
        },
        ResponsePayload::ListWorkspaceInfo(l) => {
            out.append("{\"type\":\"ListWorkspaceInfo\",\"data\":{\"nr_of_workspaces\":");
            crate::json::append_dec(out, l.nr_of_workspaces as u64);
            out.append(",\"entries\":[");
            append_winfo_items(out, &l.entries);
            out.append("]}}");
            proof {
                assert(out@ =~= old(out)@ + jser_payload(*p));
            }
        },
        ResponsePayload::AddWorkspace(m) => {
            out.append("{\"type\":\"AddWorkspace\",\"data\":");
            crate::json::append_json_string(out, m);
            out.append("}");
            proof {
                assert(out@ =~= old(out)@ + jser_payload(*p));
            }
        },
        ResponsePayload::RemoveWorkspace(m) => {
            out.append("{\"type\":\"RemoveWorkspace\",\"data\":");
            crate::json::append_json_string(out, m);
            out.append("}");
            proof {
                assert(out@ =~= old(out)@ + jser_payload(*p));
            }
        },
        ResponsePayload::AttachRemoteWorkspace(m) => {
            out.append("{\"type\":\"AttachRemoteWorkspace\",\"data\":");
            crate::json::append_json_string(out, m);
            out.append("}");
            proof {
                assert(out@ =~= old(out)@ + jser_payload(*p));
            }
        },
        ResponsePayload::DetachRemoteWorkspace(m) => {
            out.append("{\"type\":\"DetachRemoteWorkspace\",\"data\":");
            crate::json::append_json_string(out, m);
            out.append("}");
            proof {
                assert(out@ =~= old(out)@ + jser_payload(*p));
            }
        },
    }
}

/// The one JSON document the daemon writes back for a request.
pub fn response_to_json(r: &Response) -> (out: String)
    ensures
        out@ == jser_response(*r),
{
    let mut out = String::new();
    out.append("{\"status\":");
    match &r.status {
        ResponseStatus::Success => out.append("\"Success\""),
        ResponseStatus::NotFound => out.append("\"NotFound\""),
        ResponseStatus::Error => out.append("\"Error\""),
    }
    out.append(",\"result\":");
    match &r.result {
        Option::Some(p) => append_payload(&mut out, p),
        Option::None => out.append("null"),
    }
    out.append(",\"error\":");
    match &r.error {
        Option::Some(ErrorPayload::Message(m)) => crate::json::append_json_string(&mut out, m),
        Option::None => out.append("null"),
    }
    out.append("}");
    proof {
        assert(out@ =~= jser_response(*r));
    }
    out
}

} // verus!
