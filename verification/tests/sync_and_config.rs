use wsync::config::{build_config, get_cfg_entry_components, Config, ConfigKey};
use wsync::model::{ConnectionInfo, RemoteWorkspace};
use wsync::syncdrv::{get_rsync_arguments, interpret_rsync_exit, strip_ws_root_prefix, RsyncFollowup, RsyncOutcome};

fn remote_ssh() -> RemoteWorkspace {
    RemoteWorkspace {
        name: "r1".to_string(),
        remote_path: "/srv/p".to_string(),
        connection_info: ConnectionInfo::Ssh {
            host: "box".to_string(),
            port: Some(2222),
            username: Some("me".to_string()),
            identity_file: Some("/home/me/.ssh/id".to_string()),
        },
    }
}

#[test]
fn ssh_arguments_are_built_exactly() {
    let args = get_rsync_arguments(&"/ws".to_string(), &Some("a/b".to_string()), &remote_ssh());
    assert_eq!(
        args,
        vec![
            "-azq".to_string(),
            "--delete".to_string(),
            "-e \"ssh -p 2222 -i /home/me/.ssh/id\"".to_string(),
            "/ws/a/b/".to_string(),
            "me@box:/srv/p/a/b".to_string(),
        ]
    );
}

#[test]
fn host_alias_arguments_have_no_shell_clause() {
    let rw = RemoteWorkspace {
        name: "r2".to_string(),
        remote_path: "/srv/q".to_string(),
        connection_info: ConnectionInfo::HostAlias { host_alias: "backup".to_string() },
    };
    let args = get_rsync_arguments(&"/ws".to_string(), &None, &rw);
    assert_eq!(
        args,
        vec![
            "-azq".to_string(),
            "--delete".to_string(),
            "/ws/".to_string(),
            "backup:/srv/q".to_string(),
        ]
    );
}

#[test]
fn rsync_daemon_destination_carries_user_and_port() {
    let rw = RemoteWorkspace {
        name: "r3".to_string(),
        remote_path: "/mod/p".to_string(),
        connection_info: ConnectionInfo::RsyncDaemon {
            host: "box".to_string(),
            port: Some(873),
            username: Some("me".to_string()),
        },
    };
    let args = get_rsync_arguments(&"/ws".to_string(), &None, &rw);
    assert_eq!(args[3], "rsync://me@box:873/mod/p");
}

#[test]
fn a_failed_subtree_sync_earns_one_full_retry() {
    assert!(matches!(interpret_rsync_exit(RsyncOutcome::Success, true), RsyncFollowup::Done));
    assert!(matches!(interpret_rsync_exit(RsyncOutcome::RemoteFailure, true), RsyncFollowup::RetryFullTree));
    assert!(matches!(interpret_rsync_exit(RsyncOutcome::RemoteFailure, false), RsyncFollowup::GiveUpRemote));
    assert!(matches!(interpret_rsync_exit(RsyncOutcome::LocalFailure, true), RsyncFollowup::AbortRemaining));
    assert!(matches!(interpret_rsync_exit(RsyncOutcome::LocalFailure, false), RsyncFollowup::AbortRemaining));
}

#[test]
fn stripping_the_workspace_root() {
    let root = "/ws".to_string();
    assert_eq!(strip_ws_root_prefix(&root, &"/ws".to_string()).unwrap(), None);
    assert_eq!(
        strip_ws_root_prefix(&root, &"/ws/a/b".to_string()).unwrap(),
        Some("a/b".to_string())
    );
    assert!(strip_ws_root_prefix(&root, &"/elsewhere".to_string()).is_err());
}

#[test]
fn config_lines_are_split_at_the_first_equals_sign() {
    let (k, v) = get_cfg_entry_components("LogDirectory=/var/log=x".to_string()).unwrap();
    assert_eq!(k, "LogDirectory");
    assert_eq!(v, "/var/log=x");
    assert!(get_cfg_entry_components("NoSeparator".to_string()).is_err());
    assert!(get_cfg_entry_components("=value".to_string()).is_err());
    assert!(get_cfg_entry_components("Key=".to_string()).is_err());
}

#[test]
fn unknown_config_keys_are_a_hard_error() {
    let lines = vec!["WorkspaceConfigFilePath=/etc/ws.json".to_string()];
    let cfg = build_config(lines).unwrap();
    assert_eq!(
        cfg.get_path(ConfigKey::WorkspaceConfigFilePath).as_deref(),
        Some("/etc/ws.json")
    );
    assert!(cfg.get_string(ConfigKey::LogDirectory).is_none());
    assert!(build_config(vec!["Nonsense=1".to_string()]).is_err());
}

#[test]
fn later_config_entries_override_earlier_ones() {
    let mut cfg = Config::new();
    cfg.insert(ConfigKey::LogDirectory, "/a".to_string());
    cfg.insert(ConfigKey::LogDirectory, "/b".to_string());
    assert_eq!(cfg.get_string(ConfigKey::LogDirectory).map(|s| s.as_str()), Some("/b"));
}
