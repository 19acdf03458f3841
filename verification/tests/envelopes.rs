use wsync::envelope::{
    add_req_to_json, command_request_to_json, detach_req_to_json, name_obj_to_json,
    parse_add_req_json, parse_attach_req_json, parse_command_request_json, parse_detach_req_json,
    parse_name_obj_json, attach_req_to_json, AddWorkspaceRequest, AttachRemoteWorkspaceRequest,
    Command, DetachRemoteWorkspaceRequest,
};
use wsync::model::ConnectionInfo;

#[test]
fn command_envelope_round_trip() {
    let text = command_request_to_json(&Command::AddWorkspace);
    assert_eq!(text, "{\"command\":\"add_workspace\"}");
    let back = parse_command_request_json(&text).unwrap();
    assert_eq!(back.command, "add_workspace");
    assert!(matches!(Command::from_tag(&back.command), Some(Command::AddWorkspace)));
    assert!(Command::from_tag("bogus").is_none());
}

#[test]
fn every_tag_reads_back_to_its_command() {
    for c in [
        Command::WorkspaceInfo,
        Command::ListWorkspaces,
        Command::ListWorkspaceInfo,
        Command::AddWorkspace,
        Command::RemoveWorkspace,
        Command::AttachRemoteWorkspace,
        Command::DetachRemoteWorkspace,
    ] {
        let text = command_request_to_json(&c);
        let back = parse_command_request_json(&text).unwrap();
        let again = Command::from_tag(&back.command).unwrap();
        assert_eq!(command_request_to_json(&again), text);
    }
}

#[test]
fn request_bodies_round_trip() {
    let add = AddWorkspaceRequest { name: "proj".to_string(), path: "/tmp/p".to_string() };
    let t = add_req_to_json(&add);
    assert_eq!(t, "{\"name\":\"proj\",\"path\":\"/tmp/p\"}");
    let back = parse_add_req_json(&t).unwrap();
    assert_eq!(back.name, "proj");
    assert_eq!(back.path, "/tmp/p");

    let t = name_obj_to_json(&"proj".to_string());
    assert_eq!(parse_name_obj_json(&t).unwrap(), "proj");

    let at = AttachRemoteWorkspaceRequest {
        local_workspace_name: "proj".to_string(),
        remote_workspace_name: "r1".to_string(),
        remote_workspace_path: "/srv/p".to_string(),
        connection_info: ConnectionInfo::RsyncDaemon {
            host: "box".to_string(),
            port: None,
            username: None,
        },
    };
    let t = attach_req_to_json(&at);
    let back = parse_attach_req_json(&t).unwrap();
    assert_eq!(back.remote_workspace_name, "r1");
    match back.connection_info {
        ConnectionInfo::RsyncDaemon { port, username, .. } => {
            assert!(port.is_none());
            assert!(username.is_none());
        }
        _ => panic!("wrong variant"),
    }

    let dt = DetachRemoteWorkspaceRequest {
        local_workspace_name: "proj".to_string(),
        remote_workspace_name: "r1".to_string(),
    };
    let t = detach_req_to_json(&dt);
    let back = parse_detach_req_json(&t).unwrap();
    assert_eq!(back.local_workspace_name, "proj");
}
