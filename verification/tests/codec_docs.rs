use wsync::codec::{parse_registry_json, parse_workspace_json, registry_to_json, workspace_to_json};
use wsync::model::{ConnectionInfo, RemoteWorkspace, WorkspaceInformation};

fn sample_workspace() -> WorkspaceInformation {
    WorkspaceInformation {
        name: "proj".to_string(),
        local_path: "/tmp/p".to_string(),
        remote_workspaces: vec![
            RemoteWorkspace {
                name: "r1".to_string(),
                remote_path: "/srv/p".to_string(),
                connection_info: ConnectionInfo::Ssh {
                    host: "box".to_string(),
                    port: Some(2222),
                    username: Some("me".to_string()),
                    identity_file: None,
                },
            },
            RemoteWorkspace {
                name: "r2".to_string(),
                remote_path: "/srv/q".to_string(),
                connection_info: ConnectionInfo::HostAlias { host_alias: "h".to_string() },
            },
        ],
    }
}

#[test]
fn empty_registry_serializes_to_an_empty_array() {
    let text = registry_to_json(&Vec::new());
    assert_eq!(text, "[]");
    assert!(parse_registry_json(&text).unwrap().is_empty());
}

#[test]
fn registry_round_trip_restores_every_field() {
    let entries = vec![sample_workspace()];
    let text = registry_to_json(&entries);
    let back = parse_registry_json(&text).expect("canonical text must parse");
    assert_eq!(back.len(), 1);
    assert_eq!(back[0].name, "proj");
    assert_eq!(back[0].local_path, "/tmp/p");
    assert_eq!(back[0].remote_workspaces.len(), 2);
    assert_eq!(back[0].remote_workspaces[0].name, "r1");
    match &back[0].remote_workspaces[0].connection_info {
        ConnectionInfo::Ssh { host, port, username, identity_file } => {
            assert_eq!(host, "box");
            assert_eq!(*port, Some(2222));
            assert_eq!(username.as_deref(), Some("me"));
            assert!(identity_file.is_none());
        }
        _ => panic!("wrong variant"),
    }
    // reserializing gives the identical file content
    assert_eq!(registry_to_json(&back), text);
}

#[test]
fn the_registry_document_is_real_json() {
    let entries = vec![sample_workspace()];
    let text = registry_to_json(&entries);
    let v: serde_json::Value = serde_json::from_str(&text).expect("must be valid JSON");
    assert_eq!(v[0]["name"], "proj");
    assert_eq!(v[0]["local_path"], "/tmp/p");
    assert_eq!(v[0]["remote_workspaces"][0]["connection_info"]["Ssh"]["port"], 2222);
    assert_eq!(
        v[0]["remote_workspaces"][1]["connection_info"]["HostAlias"]["host_alias"],
        "h"
    );
}

#[test]
fn workspace_document_round_trip() {
    let w = sample_workspace();
    let text = workspace_to_json(&w);
    let back = parse_workspace_json(&text).unwrap();
    assert_eq!(back.name, w.name);
    assert_eq!(workspace_to_json(&back), text);
}

#[test]
fn strings_with_quotes_and_backslashes_are_escaped() {
    let w = WorkspaceInformation {
        name: "a\"b\\c".to_string(),
        local_path: "/tmp/x".to_string(),
        remote_workspaces: Vec::new(),
    };
    let text = workspace_to_json(&w);
    let v: serde_json::Value = serde_json::from_str(&text).unwrap();
    assert_eq!(v["name"], "a\"b\\c");
    let back = parse_workspace_json(&text).unwrap();
    assert_eq!(back.name, "a\"b\\c");
}

#[test]
fn port_bounds_are_respected() {
    let mut w = sample_workspace();
    w.remote_workspaces[0].connection_info = ConnectionInfo::RsyncDaemon {
        host: "h".to_string(),
        port: Some(65535),
        username: None,
    };
    let text = workspace_to_json(&w);
    let back = parse_workspace_json(&text).unwrap();
    match &back.remote_workspaces[0].connection_info {
        ConnectionInfo::RsyncDaemon { port, .. } => assert_eq!(*port, Some(65535)),
        _ => panic!("wrong variant"),
    }
}

#[test]
fn garbage_documents_are_rejected() {
    assert!(parse_registry_json("").is_none());
    assert!(parse_registry_json("[").is_none());
    assert!(parse_registry_json("{}").is_none());
    assert!(parse_registry_json("[]extra").is_none());
    assert!(parse_workspace_json("{\"name\":\"x\"}").is_none());
}
