use argv_podman_manager::podman::client::{
    apply_batch_status_line, batch_statuses_from_output, parse_status_line, status_from_ps,
    validate_service_name,
};
use argv_podman_manager::podman::compose::{has_compose_file, ComposeOp, ComposeProject};
use argv_podman_manager::podman::daemon::{
    daemon_state_error, restart, start, stop, systemctl_result, DaemonCommand,
};
use argv_podman_manager::podman::events::{
    append_event_log_entry, append_project_event, event_in_window, format_event_template,
    can_append_snapshot, event_project, EventWindow, handle_event_line, needs_inspection, next_status,
    normalize_template_value, parse_event_line, resolve_project_from_container,
};
use argv_podman_manager::podman::inspect::{
    container_names, parse_runtime_details, project_name, runtime_details,
    ContainerRuntimeDetails,
};
use argv_podman_manager::service::LogBuffer;
use argv_podman_manager::status::{Status, StatusTable};

fn table(names: &[&str]) -> StatusTable {
    let mut t = StatusTable::new();
    for n in names {
        t.insert_if_absent(n, Status::Stopped);
    }
    t
}

#[test]
fn client_batch_status_parser_marks_project_running_when_any_container_is_up() {
    let mut statuses = table(&["redis", "mailpit"]);
    apply_batch_status_line(&mut statuses, "Exited (0)\t\tredis");
    apply_batch_status_line(&mut statuses, "Up 3 seconds\tredis\t");

    assert_eq!(statuses.get("redis"), Some(Status::Running));
}

#[test]
fn client_batch_status_parser_ignores_unknown_projects() {
    let mut statuses = table(&["redis"]);
    apply_batch_status_line(&mut statuses, "Up 3 seconds\tpostgres\t");

    assert_eq!(statuses.get("redis"), Some(Status::Stopped));
}

#[test]
fn batch_status_parser_accepts_legacy_compose_project_labels() {
    let mut statuses = table(&["redis"]);

    apply_batch_status_line(&mut statuses, "Up 3 seconds\t\tredis");

    assert_eq!(statuses.get("redis"), Some(Status::Running));
}

#[test]
fn batch_statuses_mark_everything_errored_without_output() {
    let names = vec!["redis", "bad/name"];
    let t = batch_statuses_from_output(&names, None);
    assert_eq!(t.get("redis"), Some(Status::Error));
    let t = batch_statuses_from_output(&names, Some("Up 1 second\tredis\t\n"));
    assert_eq!(t.get("redis"), Some(Status::Running));
}

#[test]
fn status_line_has_three_fields() {
    assert_eq!(parse_status_line("Up\ta\tb\tc"), ("Up", "a", "b\tc"));
    assert_eq!(parse_status_line("Up"), ("Up", "", ""));
}

#[test]
fn service_names_allow_letters_digits_dash_and_underscore() {
    assert!(validate_service_name("my-db_2"));
    assert!(!validate_service_name("../redis"));
}

#[test]
fn ps_output_is_running_only_when_a_container_is_up() {
    assert_eq!(status_from_ps("Up 2 minutes\tredis\t\n", "redis"), Status::Running);
    assert_eq!(status_from_ps("Exited (0)\tredis\t\n", "redis"), Status::Stopped);
}

#[test]
fn polling_windows_reject_history_and_do_not_repeat_boundary_events() {
    let since = 100;
    let until = 200;
    assert_eq!(event_in_window("99\tcreate", since, until), None);
    assert_eq!(event_in_window("100\tcreate", since, until), None);
    assert_eq!(event_in_window("150\tstart", since, until), Some("start"));
    assert_eq!(event_in_window("200\tstop", since, until), Some("stop"));
    assert_eq!(event_in_window("201\tstop", since, until), None);
}

fn handle(line: &str, status: Status, progress: Option<String>) -> (LogBuffer, Status, Option<String>) {
    let ev = parse_event_line(line);
    let project = ev.labelled_project();
    let mut events = LogBuffer::events();
    let mut status = status;
    let mut progress = progress;
    let details = ContainerRuntimeDetails::default();
    handle_event_line(&ev, &project, &mut events, &mut status, &mut progress, &details);
    (events, status, progress)
}

#[test]
fn create_event_preserves_a_failed_start() {
    let (_, status, _) = handle("create\tmysql\t0\tmysql\t", Status::Error, None);
    assert_eq!(status, Status::Error);
}

#[test]
fn unhealthy_event_is_an_error_not_healthy() {
    let (_, status, _) =
        handle("health_status: unhealthy\tmysql\t0\tmysql\t", Status::Running, None);
    assert_eq!(status, Status::Error);
}

#[test]
fn events_append_project_event_uses_project_scope() {
    let mut logs = LogBuffer::events();

    append_project_event(&mut logs, "mailpit", "start requested");

    assert_eq!(logs.as_str(), "[event] mailpit start requested\n");
}

#[test]
fn events_append_event_log_entry_uses_container_scope_when_available() {
    let mut logs = LogBuffer::events();

    append_event_log_entry(&mut logs, "mailpit", "mailpit-1", "start");

    assert_eq!(logs.as_str(), "[event] mailpit-1 start\n");
}

#[test]
fn events_append_event_log_entry_truncates_old_entries() {
    let mut logs = LogBuffer::events();
    logs.push_str(&"old\n".repeat(30_000));

    append_event_log_entry(&mut logs, "mailpit", "", "updated");

    assert!(logs.as_str().len() <= 100 * 1024);
    assert!(logs.as_str().ends_with("[event] mailpit updated\n"));
}

#[test]
fn events_handle_event_line_updates_matching_project_status() {
    let (events, status, progress) =
        handle("stop\tmailpit-1\t0\tmailpit\t", Status::Running, Some("queued".to_string()));

    assert_eq!(status, Status::Stopped);
    assert!(progress.is_none());
    assert_eq!(events.as_str(), "[event] mailpit-1 stop\n");
}

#[test]
fn start_event_logs_runtime_details_of_the_container() {
    let ev = parse_event_line("start\tweb-1\t\tweb\t");
    let mut events = LogBuffer::events();
    let mut status = Status::Starting;
    let mut progress = None;
    let details = parse_runtime_details("default=10.0.0.2\t80/tcp=0.0.0.0:8080");
    handle_event_line(&ev, "web", &mut events, &mut status, &mut progress, &details);
    assert_eq!(status, Status::Running);
    assert_eq!(
        events.as_str(),
        "[event] web-1 start\n[event] web-1 runtime ips=[default=10.0.0.2] ports=[80/tcp=0.0.0.0:8080]\n"
    );
}

#[test]
fn pulling_keeps_its_status_until_running_or_error() {
    assert_eq!(next_status("stop", Status::Pulling, "0"), Some(Status::Stopped));
    let (_, status, progress) = handle("stop\tx-1\t0\tx\t", Status::Pulling, Some("5%".into()));
    assert_eq!(status, Status::Pulling);
    assert!(progress.is_none());
    assert_eq!(next_status("die", Status::Running, "137"), Some(Status::Error));
    assert_eq!(next_status("die", Status::Stopping, "137"), Some(Status::Stopped));
}

#[test]
fn template_placeholder_values_read_as_empty() {
    assert_eq!(normalize_template_value("<no value>"), "");
    assert_eq!(normalize_template_value("web"), "web");
    assert!(format_event_template().starts_with("{{.TimeNano}}\t{{.Status}}"));
}

#[test]
fn runtime_parser_normalizes_ips_and_ports_from_one_inspect_result() {
    let details = parse_runtime_details(
        "default=172.18.0.2 backend=172.19.0.2 \t80/tcp=0.0.0.0:8080 443/tcp=internal ",
    );

    assert_eq!(
        (details.ips.as_str(), details.ports.as_str()),
        (
            "default=172.18.0.2, backend=172.19.0.2",
            "80/tcp=0.0.0.0:8080, 443/tcp=internal"
        )
    );
}

#[test]
fn runtime_parser_uses_fallbacks_for_missing_values() {
    let details = parse_runtime_details("unknown\tnone");

    assert_eq!(
        (details.ips.as_str(), details.ports.as_str()),
        ("pending", "none")
    );
}

#[test]
fn runtime_details_fall_back_when_inspection_failed() {
    let d = runtime_details(None);
    assert_eq!((d.ips.as_str(), d.ports.as_str()), ("pending", "none"));
}

#[test]
fn project_name_takes_the_first_set_label() {
    assert_eq!(project_name(Some("<no value>\tweb")), Some("web".to_string()));
    assert_eq!(project_name(Some("<no value>\t")), None);
    assert_eq!(resolve_project_from_container("", Some("web")), None);
    assert_eq!(resolve_project_from_container("web-1", Some("web\t")), Some("web".to_string()));
}

#[test]
fn container_names_skip_blank_lines() {
    assert_eq!(container_names("a\n\n b \n"), vec!["a".to_string(), "b".to_string()]);
}

#[test]
fn compose_file_is_first_existing_candidate() {
    let p = ComposeProject::at("/srv", "web");
    let c = p.compose_file_candidates();
    assert!(c.len() >= 2);
    let mut present = vec![false; c.len()];
    present[1] = true;
    assert_eq!(p.compose_file(&present), c[1]);
}

#[test]
fn socket_control_polls_until_expected_state() {
    let mut control = start();
    assert!(matches!(control.first_command(), DaemonCommand::RunSystemctl(a) if a == "start"));
    assert!(matches!(control.systemctl_finished(Ok(())), DaemonCommand::CheckActive));
    assert!(matches!(control.state_checked(false), DaemonCommand::Sleep(100)));
    assert!(matches!(control.slept(), DaemonCommand::CheckActive));
    assert!(matches!(control.state_checked(true), DaemonCommand::Done(Ok(()))));
}

#[test]
fn socket_control_fails_after_twenty_polls() {
    let mut control = stop();
    for _ in 0..20 {
        assert!(matches!(control.state_checked(true), DaemonCommand::Sleep(100)));
    }
    match control.slept() {
        DaemonCommand::Done(Err(m)) => {
            assert_eq!(m, "Podman service did not become stopped after stop")
        }
        _ => panic!("expected failure"),
    }
    let r = restart();
    match r.systemctl_finished(Err("boom".to_string())) {
        DaemonCommand::Done(Err(m)) => assert_eq!(m, "boom"),
        _ => panic!("expected failure"),
    }
}

#[test]
fn systemctl_failures_name_the_action() {
    assert_eq!(systemctl_result("start", false, "  \n"), Err("Failed to start Podman service".to_string()));
    assert_eq!(
        systemctl_result("stop", false, " denied \n"),
        Err("Failed to stop Podman service: denied".to_string())
    );
    assert_eq!(systemctl_result("stop", true, "x"), Ok(()));
    assert_eq!(daemon_state_error(true, "restart"), "Podman service did not become running after restart");
}

#[test]
fn command_uses_the_direct_podman_compose_provider() {
    let project = ComposeProject::new("mysql");

    assert_eq!(project.compose_command(ComposeOp::Ps).program, "podman-compose");
}

#[test]
fn live_logs_disable_python_output_buffering() {
    let project = ComposeProject::new("mysql");
    let command = project.compose_command(ComposeOp::LogsFollow);

    assert_eq!(
        command.env.iter().find(|(key, _)| *key == "PYTHONUNBUFFERED").map(|(_, value)| *value),
        Some("1")
    );
    assert_eq!(command.args, vec!["logs", "-f", "--tail=100"]);
    assert_eq!(command.dir, "containers/mysql");
}

#[test]
fn podman_events_without_action_or_project_change_nothing() {
    let ev = parse_event_line("\tweb-1\t0\tweb\t");
    let mut events = LogBuffer::events();
    let mut status = Status::Pulling;
    let mut progress = Some("5%".to_string());
    handle_event_line(&ev, "web", &mut events, &mut status, &mut progress, &ContainerRuntimeDetails::default());
    assert_eq!((events.as_str(), status, progress.as_deref()), ("", Status::Pulling, Some("5%")));
    let ev = parse_event_line("stop\tweb-1\t0\t\t");
    handle_event_line(&ev, "", &mut events, &mut status, &mut progress, &ContainerRuntimeDetails::default());
    assert_eq!((events.as_str(), status, progress.as_deref()), ("", Status::Pulling, Some("5%")));
}

#[test]
fn podman_events_go_to_watched_projects_only() {
    let watched = vec!["mysql".to_string(), "web".to_string()];
    let ev = parse_event_line("stop\tmysql-1\t0\tmysql\t");
    assert!(!needs_inspection(&ev));
    assert_eq!(event_project(&ev, None, &watched), Some("mysql".to_string()));
    let ev = parse_event_line("stop\tweb-1\t0\t<no value>\tweb");
    assert_eq!(event_project(&ev, None, &watched), Some("web".to_string()));
    let ev = parse_event_line("stop\tweb-1\t0\t\t");
    assert!(needs_inspection(&ev));
    assert_eq!(event_project(&ev, Some("<no value>\tweb"), &watched), Some("web".to_string()));
    assert_eq!(event_project(&ev, Some("other\t"), &watched), None);
    assert_eq!(event_project(&ev, None, &watched), None);
    let ev = parse_event_line("\tweb-1\t0\tweb\t");
    assert!(!needs_inspection(&ev));
    assert_eq!(event_project(&ev, None, &watched), None);
}

#[test]
fn snapshot_fits_an_empty_log_and_compose_files_are_found() {
    let logs = LogBuffer::events();
    let containers = vec![("web-1".to_string(), parse_runtime_details("a=1\t"))];
    assert!(can_append_snapshot(&logs, "web", &containers, true));
    assert!(has_compose_file(&vec![false, true, false, false]));
    assert!(!has_compose_file(&vec![false, false, false, false]));
}

#[test]
fn event_window_moves_on_only_after_a_successful_poll() {
    let mut window = EventWindow::new(100);
    window.poll_ended(200, false);
    assert_eq!(window.since, 100);
    window.poll_ended(300, true);
    assert_eq!(window.since, 300);
    assert_eq!(event_in_window("250\tstart\tweb-1", 100, 300), Some("start\tweb-1"));
}

#[test]
fn service_names_with_path_characters_are_refused() {
    assert!(!validate_service_name("a/b"));
    assert!(!validate_service_name("../x"));
    assert!(validate_service_name("web-app_2"));
}
