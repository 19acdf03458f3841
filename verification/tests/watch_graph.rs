use wsync::model::WorkspaceInformation;
use wsync::watch::{FsEvent, MonitorState, SyncPlan};

fn ws_info() -> WorkspaceInformation {
    WorkspaceInformation {
        name: "proj".to_string(),
        local_path: "/ws".to_string(),
        remote_workspaces: Vec::new(),
    }
}

/// Builds the synthetic tree /ws, /ws/a, /ws/b, /ws/a/c.
fn bootstrap() -> MonitorState {
    let mut st = MonitorState::default(ws_info());
    st.add_root_watch(1).unwrap();
    st.add_watch(&"a".to_string(), 2).unwrap();
    st.add_watch(&"b".to_string(), 3).unwrap();
    st.add_watch(&"a/c".to_string(), 4).unwrap();
    st
}

#[test]
fn bootstrapping_registers_one_node_per_directory() {
    let st = bootstrap();
    assert_eq!(st.node_count(), 4);
    // every non-root node hangs in its parent's child list
    let root = st.get_metadata_from_path(&"/ws".to_string()).unwrap();
    assert_eq!(root.child_watches, vec![2, 3]);
    let a = st.get_metadata_from_path(&"/ws/a".to_string()).unwrap();
    assert_eq!(a.child_watches, vec![4]);
    assert_eq!(a.relative_path.as_deref(), Some("a"));
    let c = st.get_metadata_from_path(&"/ws/a/c".to_string()).unwrap();
    assert_eq!(c.relative_path.as_deref(), Some("a/c"));
    assert!(c.child_watches.is_empty());
    // both mappings agree
    assert_eq!(st.get_wd(&"/ws/a/c".to_string()), Some(4));
    assert!(st.contains_wd(4));
}

#[test]
fn adding_under_a_missing_parent_is_refused() {
    let mut st = MonitorState::default(ws_info());
    st.add_root_watch(1).unwrap();
    assert!(st.add_watch(&"a/b".to_string(), 2).is_err());
    assert_eq!(st.node_count(), 1);
}

#[test]
fn removing_a_subtree_leaves_no_descendant_in_either_mapping() {
    let mut st = bootstrap();
    let removed = st.remove_watches_recursively(2).unwrap();
    assert_eq!(removed, vec![2, 4]);
    assert_eq!(st.node_count(), 2);
    assert!(!st.contains_wd(2));
    assert!(!st.contains_wd(4));
    assert!(st.get_wd(&"/ws/a".to_string()).is_none());
    assert!(st.get_wd(&"/ws/a/c".to_string()).is_none());
    // the parent's child list no longer mentions the removed node
    let root = st.get_metadata_from_path(&"/ws".to_string()).unwrap();
    assert_eq!(root.child_watches, vec![3]);
}

fn plain_event(wd: u64) -> FsEvent {
    FsEvent {
        wd,
        name: None,
        is_dir: false,
        create: false,
        moved_to: false,
        delete: false,
        moved_from: false,
        delete_self: false,
        move_self: false,
        ignored: false,
    }
}

#[test]
fn stale_events_are_dropped() {
    let mut st = bootstrap();
    let out = st.handle_event(&plain_event(99)).unwrap();
    assert!(out.add_subtree.is_none());
    assert!(matches!(out.sync, SyncPlan::NoSync));
    assert_eq!(st.node_count(), 4);
}

#[test]
fn a_written_file_syncs_its_directory() {
    let mut st = bootstrap();
    let mut ev = plain_event(2);
    ev.name = Some("file.txt".to_string());
    let out = st.handle_event(&ev).unwrap();
    match out.sync {
        SyncPlan::Sync { relative_path } => assert_eq!(relative_path.as_deref(), Some("a")),
        _ => panic!("expected a sync"),
    }
    assert!(out.add_subtree.is_none());
}

#[test]
fn file_creation_is_suppressed() {
    let mut st = bootstrap();
    let mut ev = plain_event(1);
    ev.name = Some("new.txt".to_string());
    ev.create = true;
    let out = st.handle_event(&ev).unwrap();
    assert!(matches!(out.sync, SyncPlan::NoSync));
    assert!(out.add_subtree.is_none());
}

#[test]
fn directory_creation_asks_for_a_new_subtree() {
    let mut st = bootstrap();
    let mut ev = plain_event(2);
    ev.name = Some("d".to_string());
    ev.create = true;
    ev.is_dir = true;
    let out = st.handle_event(&ev).unwrap();
    assert_eq!(out.add_subtree, Some(Some("a/d".to_string())));
    match out.sync {
        SyncPlan::Sync { relative_path } => assert_eq!(relative_path.as_deref(), Some("a")),
        _ => panic!("expected a sync"),
    }
}

#[test]
fn directory_deletion_unregisters_the_subtree() {
    let mut st = bootstrap();
    let mut ev = plain_event(1);
    ev.name = Some("a".to_string());
    ev.delete = true;
    ev.is_dir = true;
    let out = st.handle_event(&ev).unwrap();
    assert!(!st.contains_wd(2));
    assert!(!st.contains_wd(4));
    assert_eq!(st.node_count(), 2);
    match out.sync {
        SyncPlan::Sync { relative_path } => assert!(relative_path.is_none()),
        _ => panic!("expected a sync of the root"),
    }
}

#[test]
fn an_ignored_watch_is_forgotten() {
    let mut st = bootstrap();
    let mut ev = plain_event(4);
    ev.ignored = true;
    st.handle_event(&ev).unwrap();
    assert!(!st.contains_wd(4));
    assert_eq!(st.node_count(), 3);
}

#[test]
fn self_events_of_subdirectories_are_ignored() {
    let mut st = bootstrap();
    let mut ev = plain_event(2);
    ev.delete_self = true;
    let out = st.handle_event(&ev).unwrap();
    assert!(matches!(out.sync, SyncPlan::NoSync));
    assert_eq!(st.node_count(), 4);
}
