use argv_podman_manager::docker::client::{apply_batch_status_line, status_from_ps};
use argv_podman_manager::docker::events::{
    append_event_log_entry, append_project_event, append_runtime_details, event_project,
    handle_event_line, needs_inspection, next_status, normalize_whitespace, parse_event_line, resolve_project_from_container, MAX_EVENT_LOG_SIZE,
};
use argv_podman_manager::status::{Status, StatusTable};

fn table(names: &[&str]) -> StatusTable {
    let mut t = StatusTable::new();
    for n in names {
        t.insert_if_absent(n, Status::Stopped);
    }
    t
}

#[test]
fn batch_status_parser_marks_project_running_when_any_container_is_up() {
    let mut statuses = table(&["redis", "mailpit"]);
    apply_batch_status_line(&mut statuses, "Exited (0)\tredis");
    apply_batch_status_line(&mut statuses, "Up 3 seconds\tredis");

    assert_eq!(statuses.get("redis"), Some(Status::Running));
}

#[test]
fn batch_status_parser_ignores_unknown_projects() {
    let mut statuses = table(&["redis"]);
    apply_batch_status_line(&mut statuses, "Up 3 seconds\tpostgres");

    assert_eq!(statuses.get("redis"), Some(Status::Stopped));
}

#[test]
fn append_project_event_uses_project_scope() {
    let mut logs = String::new();

    append_project_event(&mut logs, "mailpit", "start requested");

    assert_eq!(logs.as_str(), "[event] mailpit start requested\n");
}

#[test]
fn append_event_log_entry_uses_container_scope_when_available() {
    let mut logs = String::new();

    append_event_log_entry(&mut logs, "mailpit", "mailpit-1", "start");

    assert_eq!(logs, "[event] mailpit-1 start\n");
}

#[test]
fn append_event_log_entry_truncates_old_entries() {
    let mut logs = "old\n".repeat(MAX_EVENT_LOG_SIZE / 4 + 1_000);

    append_event_log_entry(&mut logs, "mailpit", "", "updated");

    assert!(logs.len() <= MAX_EVENT_LOG_SIZE);
    assert!(logs.ends_with("[event] mailpit updated\n"));
}

#[test]
fn handle_event_line_updates_matching_project_status() {
    let ev = parse_event_line("stop\tmailpit\tmailpit-1\t0");
    let mut events = String::new();
    let mut status = Status::Running;
    let mut progress = Some("queued".to_string());

    handle_event_line(&ev, "mailpit", &mut events, &mut status, &mut progress, None, None);

    assert_eq!(status, Status::Stopped);
    assert!(progress.is_none());
    assert_eq!(events.as_str(), "[event] mailpit-1 stop\n");
}

#[test]
fn docker_create_event_marks_project_starting() {
    let ev = parse_event_line("create\tweb\tweb-1\t");
    let mut events = String::new();
    let mut status = Status::Stopped;
    let mut progress = None;
    handle_event_line(&ev, "web", &mut events, &mut status, &mut progress, None, None);
    assert_eq!(status, Status::Starting);
}

#[test]
fn docker_runtime_details_fall_back_to_placeholders() {
    let mut logs = String::new();
    append_runtime_details(&mut logs, "web-1", None, Some("  "));
    assert_eq!(logs, "[event] web-1 runtime ips=[pending] ports=[none]\n");
    let mut logs = String::new();
    append_runtime_details(&mut logs, "", Some("x"), Some("y"));
    assert_eq!(logs, "");
}

#[test]
fn docker_whitespace_is_collapsed() {
    assert_eq!(normalize_whitespace("  a   b \t c "), "a, b, c");
}

#[test]
fn docker_project_resolution_needs_a_container() {
    assert_eq!(resolve_project_from_container("", Some("web".to_string())), None);
    assert_eq!(resolve_project_from_container("web-1", Some("web".to_string())), Some("web".to_string()));
}

#[test]
fn docker_ps_reports_running_when_up() {
    assert_eq!(status_from_ps("web-1\tUp 5 seconds\n"), Status::Running);
    assert_eq!(status_from_ps("web-1\tExited (1)\n"), Status::Stopped);
    assert_eq!(status_from_ps("  \n"), Status::Stopped);
}

#[test]
fn docker_unhealthy_event_is_an_error_not_healthy() {
    let ev = parse_event_line("health_status: unhealthy\tmysql\tmysql\t0");
    let mut events = String::new();
    let mut status = Status::Running;
    let mut progress = None;
    handle_event_line(&ev, "mysql", &mut events, &mut status, &mut progress, None, None);
    assert_eq!(status, Status::Error);
    assert_eq!(next_status("health_status: healthy", Status::Starting, ""), Some(Status::Running));
    assert_eq!(next_status("health_status: starting", Status::Starting, ""), None);
}

#[test]
fn docker_events_without_action_or_project_change_nothing() {
    let ev = parse_event_line("\tmysql\tmysql\t0");
    let mut events = String::new();
    let mut status = Status::Running;
    let mut progress = Some("5%".to_string());
    handle_event_line(&ev, "mysql", &mut events, &mut status, &mut progress, None, None);
    assert_eq!((events.as_str(), status, progress.as_deref()), ("", Status::Running, Some("5%")));
    let ev = parse_event_line("stop\t\tweb-1\t0");
    handle_event_line(&ev, "", &mut events, &mut status, &mut progress, None, None);
    assert_eq!((events.as_str(), status, progress.as_deref()), ("", Status::Running, Some("5%")));
}

#[test]
fn docker_events_go_to_watched_projects_only() {
    let watched = vec!["mysql".to_string(), "web".to_string()];
    let ev = parse_event_line("stop\tmysql\tmysql-1\t0");
    assert!(!needs_inspection(&ev));
    assert_eq!(event_project(&ev, None, &watched), Some("mysql".to_string()));
    let ev = parse_event_line("stop\t\tweb-1\t0");
    assert!(needs_inspection(&ev));
    assert_eq!(event_project(&ev, Some("web".to_string()), &watched), Some("web".to_string()));
    assert_eq!(event_project(&ev, Some("other".to_string()), &watched), None);
    assert_eq!(event_project(&ev, None, &watched), None);
    let ev = parse_event_line("\tmysql\tmysql-1\t0");
    assert_eq!(event_project(&ev, None, &watched), None);
}
