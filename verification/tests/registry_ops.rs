use wsync::model::{ConnectionInfo, RemoteWorkspace, WorkspaceInformation};
use wsync::registry::{WorkspaceConfiguration, WsConfigError};

fn ws(name: &str, path: &str) -> WorkspaceInformation {
    WorkspaceInformation {
        name: name.to_string(),
        local_path: path.to_string(),
        remote_workspaces: Vec::new(),
    }
}

fn remote(name: &str, path: &str, alias: &str) -> RemoteWorkspace {
    RemoteWorkspace {
        name: name.to_string(),
        remote_path: path.to_string(),
        connection_info: ConnectionInfo::HostAlias { host_alias: alias.to_string() },
    }
}

#[test]
fn add_then_find_returns_the_workspace() {
    let mut reg = WorkspaceConfiguration::from_entries(Vec::new());
    assert!(reg.add_workspace(ws("proj", "/tmp/p")).is_ok());
    let found = reg.find_by_name(&"proj".to_string()).expect("added workspace must be found");
    assert_eq!(found.name, "proj");
    assert_eq!(found.local_path, "/tmp/p");
    assert_eq!(found.remote_workspaces.len(), 0);
    assert!(reg.check_wf());
}

#[test]
fn duplicate_name_is_a_conflict_naming_the_entry() {
    let mut reg = WorkspaceConfiguration::from_entries(Vec::new());
    assert!(reg.add_workspace(ws("proj", "/tmp/p")).is_ok());
    match reg.add_workspace(ws("proj", "/tmp/q")) {
        Err(WsConfigError::Message(m)) => {
            assert_eq!(
                m,
                "Local workspace with this name or at this local path already exists: 'proj'"
            );
        }
        _ => panic!("expected a conflict"),
    }
    assert!(reg.check_wf());
}

#[test]
fn duplicate_local_path_is_a_conflict() {
    let mut reg = WorkspaceConfiguration::from_entries(Vec::new());
    assert!(reg.add_workspace(ws("a", "/tmp/p")).is_ok());
    assert!(reg.add_workspace(ws("b", "/tmp/p")).is_err());
    assert!(reg.check_wf());
}

#[test]
fn remove_then_find_returns_none() {
    let mut reg = WorkspaceConfiguration::from_entries(Vec::new());
    reg.add_workspace(ws("a", "/tmp/a")).unwrap();
    reg.add_workspace(ws("b", "/tmp/b")).unwrap();
    assert!(reg.remove_workspace("a".to_string()).is_ok());
    assert!(reg.find_by_name(&"a".to_string()).is_none());
    assert!(reg.find_by_name(&"b".to_string()).is_some());
    assert!(reg.check_wf());
}

#[test]
fn remove_unknown_name_reports_not_found() {
    let mut reg = WorkspaceConfiguration::from_entries(Vec::new());
    match reg.remove_workspace("ghost".to_string()) {
        Err(WsConfigError::Message(m)) => assert_eq!(m, "No workspace named 'ghost' found"),
        _ => panic!("expected not-found"),
    }
}

#[test]
fn attach_and_detach_remote() {
    let mut reg = WorkspaceConfiguration::from_entries(Vec::new());
    reg.add_workspace(ws("proj", "/tmp/p")).unwrap();
    assert!(reg
        .attach_remote_workspace("proj".to_string(), remote("r1", "/srv/p", "h"))
        .is_ok());
    let w = reg.find_by_name(&"proj".to_string()).unwrap();
    assert_eq!(w.remote_workspaces.len(), 1);
    assert_eq!(w.remote_workspaces[0].name, "r1");
    assert!(reg.check_wf());
    // a second remote under the same name is refused
    match reg.attach_remote_workspace("proj".to_string(), remote("r1", "/srv/q", "h2")) {
        Err(WsConfigError::Message(m)) => assert_eq!(
            m,
            "A remote workspace named 'r1' is already attached to the local workspace 'proj'"
        ),
        _ => panic!("expected conflict"),
    }
    assert!(reg.detach_remote_workspace("proj".to_string(), "r1".to_string()).is_ok());
    let w = reg.find_by_name(&"proj".to_string()).unwrap();
    assert_eq!(w.remote_workspaces.len(), 0);
    assert!(reg.check_wf());
}

#[test]
fn attach_to_missing_workspace_reports_not_found() {
    let mut reg = WorkspaceConfiguration::from_entries(Vec::new());
    match reg.attach_remote_workspace("nope".to_string(), remote("r", "/srv", "h")) {
        Err(WsConfigError::Message(m)) => assert_eq!(m, "No local workspace named 'nope' exists"),
        _ => panic!("expected not-found"),
    }
}

#[test]
fn detach_missing_remote_reports_not_found() {
    let mut reg = WorkspaceConfiguration::from_entries(Vec::new());
    reg.add_workspace(ws("proj", "/tmp/p")).unwrap();
    match reg.detach_remote_workspace("proj".to_string(), "r9".to_string()) {
        Err(WsConfigError::Message(m)) => assert_eq!(
            m,
            "No remote workspace named 'r9' is attached to the local workspace 'proj'"
        ),
        _ => panic!("expected not-found"),
    }
}

#[test]
fn add_then_remove_restores_the_file_content() {
    let mut reg = WorkspaceConfiguration::from_entries(Vec::new());
    reg.add_workspace(ws("keep", "/tmp/keep")).unwrap();
    let before = reg.to_json();
    reg.add_workspace(ws("temp", "/tmp/temp")).unwrap();
    reg.remove_workspace("temp".to_string()).unwrap();
    let after = reg.to_json();
    assert_eq!(before, after);
}
