use argv_podman_manager::app::auto_restart::auto_restart_toast;
use argv_podman_manager::app::compose_images::{compose_images, images_cached};
use argv_podman_manager::app::daemon::{
    DownOutcome, StopAction, StopAll,
    daemon_result_toast, services_to_stop, stop_failure_message, stopped_first_toast,
};
use argv_podman_manager::app::init::{initial_toast, sort_service_names};
use argv_podman_manager::app::input::{handle_key, InputState, Key, KeyAction, Keys};
use argv_podman_manager::app::logs::{initial_up_text, live_log_action, live_log_retry};
use argv_podman_manager::app::overlays::{select_searched_service, visible_services};
use argv_podman_manager::app::pull_progress::{ratio_progress_text, scan_pull_line, size_amount, PullLine};
use argv_podman_manager::app::services::{
    mark_unavailable, flow_step, start_check, stop_check, CommandOutcome, FlowEvent, NextAction, ProgressChange,
};
use argv_podman_manager::app::state::{
    next_selection, previous_selection, refresh_due, scroll_by, should_probe_runtime,
    toast_tick, DaemonAction, Focus, LogTab,
};
use argv_podman_manager::config::{AppKeys, Keybinds, LogsKeys, ServicesKeys};
use argv_podman_manager::status::{reconcile_status, Status, ToastState};

#[test]
fn extract_returns_existing_percent_token() {
    match scan_pull_line("layer: Downloading 42%") {
        PullLine::Progress(p) => assert_eq!(p, "42%"),
        _ => panic!("expected a progress text"),
    }
}

#[test]
fn extract_converts_size_ratio_to_percent() {
    match scan_pull_line("layer: Downloading 5MB/10MB") {
        PullLine::SizeRatio { done, total, phase, fallback } => {
            assert_eq!((done.number.as_str(), done.multiplier), ("5", 1_000_000));
            assert_eq!((total.number.as_str(), total.multiplier), ("10", 1_000_000));
            assert_eq!(phase, "Downloading");
            assert_eq!(fallback, Some("Downloading".to_string()));
            let d: f64 = done.number.parse::<f64>().unwrap() * done.multiplier as f64;
            let t: f64 = total.number.parse::<f64>().unwrap() * total.multiplier as f64;
            let percent = ((d / t) * 100.0).round().clamp(0.0, 100.0) as u8;
            assert_eq!(ratio_progress_text(&phase, percent), "Downloading 50%");
        }
        _ => panic!("expected a size ratio"),
    }
}

#[test]
fn extract_reports_known_pull_phase() {
    match scan_pull_line("layer: Pulling fs layer") {
        PullLine::Progress(p) => assert_eq!(p, "Pulling fs layer"),
        _ => panic!("expected a phase"),
    }
}

#[test]
fn pull_lines_without_progress_are_quiet() {
    assert!(matches!(scan_pull_line("   "), PullLine::Quiet));
    assert!(matches!(scan_pull_line("layer: something else"), PullLine::Quiet));
    assert!(matches!(scan_pull_line("a: 1.2.3MB/4MB Waiting"), PullLine::Progress(p) if p == "Waiting"));
}

#[test]
fn size_amounts_read_units() {
    let a = size_amount("(1.5GiB").unwrap();
    assert_eq!((a.number.as_str(), a.multiplier), ("1.5", 1_073_741_824));
    assert!(size_amount("MB").is_none());
    assert!(size_amount("5xb").is_none());
}

#[test]
fn start_flow_runs_pull_then_up_then_confirms() {
    let s = flow_step(FlowEvent::StartRequested);
    assert!(s.clear_logs);
    assert_eq!(s.status, Some(Status::Pulling));
    assert_eq!(s.events, vec!["start requested".to_string(), "pulling images".to_string()]);
    assert!(matches!(s.progress, ProgressChange::Replace(ref p) if p == "queued"));
    assert_eq!(s.next, NextAction::CheckImages);
    let s = flow_step(FlowEvent::ImagesChecked(true));
    assert_eq!(s.next, NextAction::SkipPull);
    let s = flow_step(FlowEvent::PullDone(CommandOutcome::Succeeded));
    assert_eq!((s.status, s.next), (Some(Status::Starting), NextAction::RunUp));
    let s = flow_step(FlowEvent::UpDone(CommandOutcome::Succeeded));
    assert_eq!(s.next, NextAction::ConfirmRunning);
    let s = flow_step(FlowEvent::Confirmed(Status::Running));
    assert!(s.runtime_details);
    assert_eq!(s.status, Some(Status::Running));
}

#[test]
fn flow_failures_end_in_error() {
    let s = flow_step(FlowEvent::PullDone(CommandOutcome::CouldNotRun("no podman".to_string())));
    assert_eq!(s.status, Some(Status::Error));
    assert_eq!(s.log_text, vec!["Pull failed: no podman\n".to_string()]);
    assert_eq!(s.events, vec!["pull failed: no podman".to_string(), "error".to_string()]);
    let s = flow_step(FlowEvent::UpDone(CommandOutcome::Failed));
    assert_eq!(s.events, vec!["up failed: command exited with non-zero status".to_string()]);
    let s = flow_step(FlowEvent::DownDone(CommandOutcome::Failed));
    assert_eq!(s.log_text, Vec::<String>::new());
    assert_eq!(s.status, Some(Status::Error));
    let s = flow_step(FlowEvent::Confirmed(Status::Stopped));
    assert_eq!(s.events, vec!["up completed but service not running".to_string()]);
}

#[test]
fn start_and_stop_checks() {
    let t = start_check("redis", false, Status::Stopped, Status::Stopped).unwrap_err();
    assert_eq!((t.state, t.message.as_str(), t.seconds), (ToastState::Error, "Cannot start service: Podman runtime unavailable", 5));
    let t = start_check("redis", true, Status::Running, Status::Stopped).unwrap_err();
    assert_eq!(t.message, "redis already running");
    let t = start_check("redis", true, Status::Stopped, Status::Pulling).unwrap_err();
    assert_eq!(t.message, "redis is busy, wait for operation to finish");
    let t = start_check("redis", true, Status::Stopped, Status::Stopped).unwrap();
    assert_eq!((t.state, t.message.as_str()), (ToastState::Success, "Starting redis"));
    let t = stop_check("redis", true, Status::Stopped, Status::Stopped).unwrap_err();
    assert_eq!(t.message, "redis not running");
    let t = stop_check("redis", true, Status::Running, Status::Running).unwrap();
    assert_eq!(t.message, "Stopping redis");
}

fn keybinds() -> Keybinds {
    Keybinds {
        app: AppKeys {
            quit: "q".to_string(),
            search: "/".to_string(),
            daemon_menu: "d".to_string(),
            refresh: "r".to_string(),
            switch_tab_left: "[".to_string(),
            switch_tab_right: "]".to_string(),
            scroll_down: "j".to_string(),
            scroll_up: "k".to_string(),
        },
        services: ServicesKeys { toggle: "s".to_string(), auto_restart: "a".to_string() },
        logs: LogsKeys { toggle_auto_scroll: " ".to_string() },
    }
}

fn state() -> InputState {
    InputState {
        focus: Focus::Services,
        search_mode: false,
        search_query: String::new(),
        daemon_menu_mode: false,
        daemon_start_mode: false,
        daemon_action: DaemonAction::Start,
        selected: None,
        service_count: 3,
        log_scroll: 0,
        log_auto_scroll: true,
        log_tab: LogTab::Events,
    }
}

#[test]
fn keys_move_selection_and_search() {
    let keys = Keys::from_bindings(&keybinds());
    assert_eq!(keys.focus_logs, 'l');
    let mut st = state();
    assert!(matches!(handle_key(&mut st, Key::Char('j'), &keys, false), KeyAction::Nothing));
    assert_eq!(st.selected, Some(0));
    handle_key(&mut st, Key::BackTab, &keys, false);
    assert_eq!(st.selected, Some(2));
    assert!(matches!(handle_key(&mut st, Key::Char('s'), &keys, true), KeyAction::BusyNotice));
    handle_key(&mut st, Key::Char('/'), &keys, false);
    assert!(st.search_mode);
    handle_key(&mut st, Key::Char('q'), &keys, false);
    handle_key(&mut st, Key::Char('x'), &keys, false);
    handle_key(&mut st, Key::Backspace, &keys, false);
    assert_eq!(st.search_query, "q");
    match handle_key(&mut st, Key::Enter, &keys, false) {
        KeyAction::SelectSearched(q) => assert_eq!(q, "q"),
        _ => panic!("expected a search"),
    }
    assert!(!st.search_mode && st.search_query.is_empty());
    assert!(matches!(handle_key(&mut st, Key::Char('q'), &keys, false), KeyAction::Quit));
}

#[test]
fn keys_scroll_logs_and_switch_views() {
    let keys = Keys::from_bindings(&keybinds());
    let mut st = state();
    handle_key(&mut st, Key::Char('l'), &keys, false);
    assert_eq!(st.focus, Focus::Logs);
    handle_key(&mut st, Key::PageDown, &keys, false);
    assert_eq!((st.log_scroll, st.log_auto_scroll), (10, false));
    handle_key(&mut st, Key::Char('k'), &keys, false);
    assert_eq!(st.log_scroll, 9);
    handle_key(&mut st, Key::Char(']'), &keys, false);
    assert_eq!((st.log_tab, st.log_auto_scroll), (LogTab::LiveLogs, true));
    handle_key(&mut st, Key::Char(']'), &keys, false);
    assert_eq!(st.log_tab, LogTab::LiveLogs);
    handle_key(&mut st, Key::Char('['), &keys, false);
    assert_eq!(st.log_tab, LogTab::Events);
    handle_key(&mut st, Key::Char(']'), &keys, false);
    handle_key(&mut st, Key::Char('d'), &keys, false);
    handle_key(&mut st, Key::Down, &keys, false);
    assert_eq!(st.daemon_action, DaemonAction::Stop);
    handle_key(&mut st, Key::Enter, &keys, false);
    assert!(st.daemon_start_mode);
    assert!(matches!(handle_key(&mut st, Key::Enter, &keys, false), KeyAction::ExecuteDaemonAction));
}

#[test]
fn selection_wraps_both_ways() {
    assert_eq!(next_selection(Some(2), 3), Some(0));
    assert_eq!(previous_selection(Some(0), 3), Some(2));
    assert_eq!(next_selection(None, 0), None);
    assert_eq!(previous_selection(next_selection(Some(1), 3), 3), Some(1));
}

#[test]
fn timers_count_down() {
    assert_eq!(toast_tick(1, 29), (0, 0, true));
    assert_eq!(toast_tick(2, 3), (2, 4, false));
    assert_eq!(refresh_due(0, true), (true, 24));
    assert_eq!(refresh_due(3, true), (false, 2));
    assert!(should_probe_runtime(false, 0, true));
    assert!(!should_probe_runtime(false, 5, true));
    assert_eq!(scroll_by(3, -10), 0);
    assert_eq!(scroll_by(u16::MAX - 1, 10), u16::MAX);
}

#[test]
fn refresh_respects_transitions() {
    assert_eq!(reconcile_status(Status::Starting, Status::Stopped), (Status::Starting, false));
    assert_eq!(reconcile_status(Status::Starting, Status::Running), (Status::Running, true));
    assert_eq!(reconcile_status(Status::Error, Status::Stopped), (Status::Error, false));
    assert_eq!(reconcile_status(Status::Stopped, Status::Running), (Status::Running, false));
}

#[test]
fn daemon_menu_stops_running_projects_in_order() {
    let services = vec![
        ("web".to_string(), Status::Running),
        ("db".to_string(), Status::Stopped),
        ("cache".to_string(), Status::Pulling),
    ];
    assert_eq!(services_to_stop(&services), vec!["cache".to_string(), "web".to_string()]);
    assert_eq!(stop_failure_message("web", None), "Failed to stop service web");
    assert_eq!(stop_failure_message("web", Some("gone")), "Error stopping service web: gone");
    assert!(stopped_first_toast(0, DaemonAction::Stop).is_none());
    assert_eq!(stopped_first_toast(2, DaemonAction::Restart).unwrap().message, "Stopped 2 service(s) before restart");
    assert_eq!(daemon_result_toast(DaemonAction::Start, &Ok(())).message, "Podman API socket started");
    assert_eq!(daemon_result_toast(DaemonAction::Stop, &Err("x".to_string())).state, ToastState::Error);
}

#[test]
fn search_matches_names_ignoring_case() {
    let names = vec!["Redis".to_string(), "postgres".to_string(), "mysql".to_string()];
    assert_eq!(select_searched_service(&names, "SQL"), Some(2));
    assert_eq!(select_searched_service(&names, "re"), Some(0));
    assert_eq!(select_searched_service(&names, "zzz"), None);
    assert_eq!(visible_services(&names, "s", true), vec![0, 1, 2]);
    assert_eq!(visible_services(&names, "post", true), vec![1]);
    assert_eq!(visible_services(&names, "post", false), vec![0, 1, 2]);
}

#[test]
fn sorting_keeps_the_order_of_names_that_differ_only_in_case() {
    let names = vec!["b".to_string(), "B".to_string(), "a".to_string()];
    assert_eq!(sort_service_names(names), vec!["a".to_string(), "b".to_string(), "B".to_string()]);
    let names = vec!["B".to_string(), "b".to_string()];
    assert_eq!(sort_service_names(names), vec!["B".to_string(), "b".to_string()]);
}

#[test]
fn startup_lists_and_greets() {
    let names = vec!["redis".to_string(), "Mailpit".to_string(), "adminer".to_string()];
    assert_eq!(sort_service_names(names), vec!["adminer".to_string(), "Mailpit".to_string(), "redis".to_string()]);
    let t = initial_toast(Some("bad toml"), true, true, true);
    assert_eq!((t.state, t.message.as_str(), t.seconds), (ToastState::Error, "Auto-restart config error: bad toml", 5));
    let t = initial_toast(None, true, true, false);
    assert_eq!((t.state, t.seconds), (ToastState::Warning, 4));
    let t = initial_toast(None, true, true, true);
    assert_eq!(t.message, "Welcome to Docker Manager");
}

#[test]
fn auto_restart_notices() {
    assert_eq!(auto_restart_toast("redis", true, true).message, "Auto-restart enabled for redis");
    assert_eq!(auto_restart_toast("redis", true, false).message, "Enabled for redis; install the boot unit once");
    assert_eq!(auto_restart_toast("redis", false, true).state, ToastState::Info);
}

#[test]
fn live_logs_follow_running_projects_only() {
    let a = live_log_action(false, true, false, true, true);
    assert!(a.stop_follower && !a.start_follower);
    let a = live_log_action(true, true, false, true, true);
    assert!(a.stop_follower && a.start_follower);
    let a = live_log_action(true, false, true, true, true);
    assert!(!a.stop_follower && !a.start_follower);
    assert_eq!(live_log_retry(3), (false, 2));
    assert_eq!(initial_up_text("web", &vec!["app".to_string()]), "Up output:\nNetwork web_default Running\nContainer app Running\n");
}

#[test]
fn unavailable_runtime_marks_every_project_and_clears_progress() {
    let mut rows = vec![("web".to_string(), Status::Running), ("db".to_string(), Status::Pulling)];
    let clear = mark_unavailable(&mut rows);
    assert_eq!(
        rows,
        vec![("web".to_string(), Status::RuntimeUnavailable), ("db".to_string(), Status::RuntimeUnavailable)]
    );
    assert_eq!(clear, vec![true, true]);
}

#[test]
fn compose_images_are_read_in_file_order() {
    let content = "services:\n  web:\n    image: nginx:1\n  tool:\n    build: .\n  db:\n    image: postgres:16\n";
    let images = compose_images(content);
    assert_eq!(images, Some(vec!["nginx:1".to_string(), "postgres:16".to_string()]));
    assert!(images_cached(&images, &vec![true, true]));
    assert!(!images_cached(&images, &vec![true, false]));
    assert_eq!(compose_images("version: '3'\n"), None);
    assert!(!images_cached(&None, &vec![]));
    assert!(images_cached(&compose_images("services: {}\n"), &vec![]));
}

#[test]
fn readme_tab_keys_pick_the_view_whatever_was_shown() {
    let mut kb = keybinds();
    kb.app.switch_tab_left = "t".to_string();
    kb.app.switch_tab_right = "T".to_string();
    let keys = Keys::from_bindings(&kb);
    for start in [LogTab::Events, LogTab::LiveLogs] {
        let mut st = state();
        st.log_tab = start;
        assert!(matches!(handle_key(&mut st, Key::Char('t'), &keys, false), KeyAction::Nothing));
        assert_eq!(st.log_tab, LogTab::Events);
        handle_key(&mut st, Key::Char('t'), &keys, false);
        assert_eq!(st.log_tab, LogTab::Events);
        handle_key(&mut st, Key::Char('T'), &keys, false);
        assert_eq!(st.log_tab, LogTab::LiveLogs);
        handle_key(&mut st, Key::Char('T'), &keys, false);
        assert_eq!(st.log_tab, LogTab::LiveLogs);
    }
}

#[test]
fn projects_come_down_in_order_and_the_first_failure_ends_the_run() {
    let services = vec![
        ("web".to_string(), Status::Running),
        ("cache".to_string(), Status::Stopped),
        ("db".to_string(), Status::Pulling),
    ];
    let (mut run, action) = StopAll::begin(&services);
    assert!(matches!(action, StopAction::Down(ref n) if n == "db"));
    assert!(matches!(run.down_finished(DownOutcome::Stopped), StopAction::Down(ref n) if n == "web"));
    assert!(matches!(run.down_finished(DownOutcome::Stopped), StopAction::Finished(2)));

    let (mut run, _) = StopAll::begin(&services);
    assert!(matches!(
        run.down_finished(DownOutcome::Failed),
        StopAction::Done(Err(ref m)) if m == "Failed to stop service db"
    ));
    let (mut run, _) = StopAll::begin(&services);
    assert!(matches!(
        run.down_finished(DownOutcome::Error("no podman".to_string())),
        StopAction::Done(Err(ref m)) if m == "Error stopping service db: no podman"
    ));

    let idle = vec![("cache".to_string(), Status::Stopped)];
    assert!(matches!(StopAll::begin(&idle).1, StopAction::Done(Ok(0))));
}
