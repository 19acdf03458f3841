use wsync::dispatch::{handle_request, HandlerOutcome, MonitorAction, RestartCause};
use wsync::interface::{response_to_json, ResponsePayload, ResponseStatus};
use wsync::monitor_mgr::{MonitorManager, StartPlan};
use wsync::registry::WorkspaceConfiguration;
use wsync::watchdog::{RestartDecision, Watchdog};

fn fresh() -> WorkspaceConfiguration {
    WorkspaceConfiguration::from_entries(Vec::new())
}

fn run(reg: &mut WorkspaceConfiguration, cmd: &str, body: Option<&str>) -> HandlerOutcome {
    handle_request(reg, cmd, body)
}

#[test]
fn add_then_list_shows_one_entry() {
    let mut reg = fresh();
    let out = run(
        &mut reg,
        "{\"command\":\"add_workspace\"}",
        Some("{\"name\":\"proj\",\"path\":\"/tmp/p\"}"),
    );
    assert!(matches!(out.response.status, ResponseStatus::Success));
    assert!(out.registry_dirty);

    let out = run(&mut reg, "{\"command\":\"list_workspaces\"}", None);
    assert!(matches!(out.response.status, ResponseStatus::Success));
    let text = response_to_json(&out.response);
    let v: serde_json::Value = serde_json::from_str(&text).unwrap();
    assert_eq!(v["status"], "Success");
    let entries = &v["result"]["data"]["entries"];
    assert_eq!(entries.as_array().unwrap().len(), 1);
    assert_eq!(entries[0]["name"], "proj");
    assert_eq!(entries[0]["path"], "/tmp/p");
    assert_eq!(entries[0]["nr_of_remote_workspaces"], 0);
}

#[test]
fn duplicate_add_is_rejected_with_the_conflicting_name() {
    let mut reg = fresh();
    run(
        &mut reg,
        "{\"command\":\"add_workspace\"}",
        Some("{\"name\":\"proj\",\"path\":\"/tmp/p\"}"),
    );
    let out = run(
        &mut reg,
        "{\"command\":\"add_workspace\"}",
        Some("{\"name\":\"proj\",\"path\":\"/tmp/p\"}"),
    );
    assert!(matches!(out.response.status, ResponseStatus::Error));
    let text = response_to_json(&out.response);
    let v: serde_json::Value = serde_json::from_str(&text).unwrap();
    assert!(v["error"].as_str().unwrap().contains("proj"));
}

#[test]
fn unknown_command_is_answered_with_the_exact_message() {
    let mut reg = fresh();
    let out = run(&mut reg, "{\"command\":\"bogus\"}", None);
    assert!(matches!(out.response.status, ResponseStatus::Error));
    let text = response_to_json(&out.response);
    let v: serde_json::Value = serde_json::from_str(&text).unwrap();
    assert_eq!(v["error"], "Received invalid command 'bogus'");
}

#[test]
fn attach_records_a_monitor_for_the_workspace() {
    let mut reg = fresh();
    let mut mm = MonitorManager::init();
    run(
        &mut reg,
        "{\"command\":\"add_workspace\"}",
        Some("{\"name\":\"proj\",\"path\":\"/tmp/p\"}"),
    );
    let out = run(
        &mut reg,
        "{\"command\":\"attach_remote_workspace\"}",
        Some("{\"local_workspace_name\":\"proj\",\"remote_workspace_name\":\"r1\",\"remote_workspace_path\":\"/srv/p\",\"connection_info\":{\"HostAlias\":{\"host_alias\":\"h\"}}}"),
    );
    assert!(matches!(out.response.status, ResponseStatus::Success));
    match &out.response.result {
        Some(ResponsePayload::AttachRemoteWorkspace(m)) => {
            assert_eq!(m, "Successfully attached remote workspace!")
        }
        _ => panic!("wrong payload"),
    }
    // the daemon restarts the monitor with the updated description
    match out.action {
        MonitorAction::Restart { workspace, cause } => {
            assert!(matches!(cause, RestartCause::Attach { remote } if remote == "r1"));
            assert_eq!(workspace.name, "proj");
            assert_eq!(workspace.remote_workspaces.len(), 1);
            // restart: terminate a recorded child, then start again
            mm.terminate_entry(&workspace.name);
            match mm.start_plan(&workspace) {
                StartPlan::Spawn => mm.confirm_started(workspace.name.clone()),
                other => panic!("expected a spawn, got {}", plan_name(&other)),
            }
        }
        _ => panic!("expected a restart action"),
    }
    assert!(mm.contains(&"proj".to_string()));
}

fn plan_name(p: &StartPlan) -> &'static str {
    match p {
        StartPlan::NoRemotes => "NoRemotes",
        StartPlan::AlreadyRunning => "AlreadyRunning",
        StartPlan::Spawn => "Spawn",
    }
}

#[test]
fn detaching_the_last_remote_makes_the_restart_a_no_op() {
    let mut reg = fresh();
    let mut mm = MonitorManager::init();
    run(
        &mut reg,
        "{\"command\":\"add_workspace\"}",
        Some("{\"name\":\"proj\",\"path\":\"/tmp/p\"}"),
    );
    run(
        &mut reg,
        "{\"command\":\"attach_remote_workspace\"}",
        Some("{\"local_workspace_name\":\"proj\",\"remote_workspace_name\":\"r1\",\"remote_workspace_path\":\"/srv/p\",\"connection_info\":{\"HostAlias\":{\"host_alias\":\"h\"}}}"),
    );
    mm.confirm_started("proj".to_string());
    let out = run(
        &mut reg,
        "{\"command\":\"detach_remote_workspace\"}",
        Some("{\"local_workspace_name\":\"proj\",\"remote_workspace_name\":\"r1\"}"),
    );
    assert!(matches!(out.response.status, ResponseStatus::Success));
    match &out.response.result {
        Some(ResponsePayload::DetachRemoteWorkspace(m)) => {
            assert_eq!(m, "Successfully detached remote workspace!")
        }
        _ => panic!("wrong payload"),
    }
    match out.action {
        MonitorAction::Restart { workspace, cause } => {
            assert!(matches!(cause, RestartCause::Detach { remote } if remote == "r1"));
            assert_eq!(workspace.remote_workspaces.len(), 0);
            mm.terminate_entry(&workspace.name);
            // starting a workspace without remotes is a no-op success
            assert!(matches!(mm.start_plan(&workspace), StartPlan::NoRemotes));
        }
        _ => panic!("expected a restart action"),
    }
    assert!(!mm.contains(&"proj".to_string()));
}

#[test]
fn remove_workspace_terminates_its_monitor() {
    let mut reg = fresh();
    let mut mm = MonitorManager::init();
    run(
        &mut reg,
        "{\"command\":\"add_workspace\"}",
        Some("{\"name\":\"proj\",\"path\":\"/tmp/p\"}"),
    );
    mm.confirm_started("proj".to_string());
    let out = run(
        &mut reg,
        "{\"command\":\"remove_workspace\"}",
        Some("{\"name\":\"proj\"}"),
    );
    assert!(matches!(out.response.status, ResponseStatus::Success));
    match out.action {
        MonitorAction::Terminate { name } => {
            assert!(mm.terminate_entry(&name));
        }
        _ => panic!("expected a terminate action"),
    }
    assert!(!mm.contains(&"proj".to_string()));
}

#[test]
fn workspace_info_answers_not_found_for_unknown_names() {
    let mut reg = fresh();
    let out = run(
        &mut reg,
        "{\"command\":\"workspace_info\"}",
        Some("{\"name\":\"ghost\"}"),
    );
    assert!(matches!(out.response.status, ResponseStatus::NotFound));
    let text = response_to_json(&out.response);
    let v: serde_json::Value = serde_json::from_str(&text).unwrap();
    assert_eq!(v["error"], "No local workspace with the name 'ghost' found.");
}

#[test]
fn missing_body_is_answered_with_the_exact_message() {
    let mut reg = fresh();
    let out = run(&mut reg, "{\"command\":\"add_workspace\"}", None);
    let text = response_to_json(&out.response);
    let v: serde_json::Value = serde_json::from_str(&text).unwrap();
    assert_eq!(
        v["error"],
        "Unable to read data required to process the 'add_workspace' command"
    );
}

#[test]
fn watchdog_restarts_twice_then_gives_up() {
    let mut wd = Watchdog::init();
    let name = "proj".to_string();
    assert!(matches!(wd.record_exit(&name), RestartDecision::Restart));
    assert!(matches!(wd.record_exit(&name), RestartDecision::Restart));
    assert!(matches!(wd.record_exit(&name), RestartDecision::ThresholdReached));
    assert!(matches!(wd.record_exit(&name), RestartDecision::GivenUp));
    assert_eq!(wd.count_of(&name), 4);
    // another workspace's counter is independent
    assert!(matches!(wd.record_exit(&"other".to_string()), RestartDecision::Restart));
    assert_eq!(wd.count_of(&name), 4);
}
