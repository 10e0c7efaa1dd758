use argv_podman_manager::app::state::{LogTab, LogsRenderCache, LogsRenderCacheEntry};
use argv_podman_manager::service::LogBuffer;
use argv_podman_manager::status::Status;
use argv_podman_manager::ui::controls::{command_line, key_name};
use argv_podman_manager::ui::logs::colorize::{
    classify_log_body_color, colorize_events, colorize_logs, colorize_runtime_log_line,
    compact_ip_label, compact_port_label, event_action_color, extract_bracket_body,
    log_marker_color, split_log_marker, split_service_prefix, LogColor,
};
use argv_podman_manager::ui::logs::progress::{
    event_progress_line, parse_progress_percent, progress_bar, pulling_spinner,
    transition_spinner,
};
use argv_podman_manager::ui::logs::title::logs_title;
use argv_podman_manager::ui::logs::{
    auto_scroll_position, cached_revision, refresh_cached_body, visible_rows, RowSource,
};
use argv_podman_manager::ui::services::{
    pad_right, service_item, services_title, status_indicator, status_label, truncate,
};
use argv_podman_manager::ui::status_bar::health_line;
use argv_podman_manager::ui::style::{Styled, Tone};

fn text(spans: &[Styled]) -> String {
    spans.iter().map(|s| s.text.as_str()).collect()
}

#[test]
fn command_line_keeps_key_and_label_order() {
    let line = command_line(vec![("s".to_string(), "start/stop"), ("q".to_string(), "quit")]);
    assert_eq!(text(&line), " s  start/stop   q  quit");
}

#[test]
fn space_binding_has_a_visible_label() {
    assert_eq!(key_name(" ".to_string()), "Space");
}

#[test]
fn command_line_styles_keys_reversed() {
    let line = command_line(vec![(" ".to_string(), "auto-scroll")]);
    assert_eq!(line.len(), 2);
    assert_eq!(line[0].text, " Space ");
    assert!(line[0].bold && line[0].reversed);
    assert_eq!(line[0].tone, Tone::Cyan);
}

#[test]
fn compact_port_label_removes_protocol_and_matching_host_ip() {
    assert_eq!(compact_port_label("1025/tcp", "0.0.0.0:1025"), "1025");
}

#[test]
fn compact_port_label_shows_host_mapping_when_ports_differ() {
    assert_eq!(compact_port_label("8080/tcp", "0.0.0.0:5433"), "8080->5433");
}

#[test]
fn compact_port_label_marks_internal_ports() {
    assert_eq!(compact_port_label("1110/tcp", "internal"), "1110 int");
}

#[test]
fn compact_ip_label_keeps_network_for_placeholders() {
    assert_eq!(compact_ip_label("default", "pending"), "default:pending");
    assert_eq!(compact_ip_label("default", "10.0.0.2"), "10.0.0.2");
}

#[test]
fn truncate_preserves_short_names() {
    assert_eq!(truncate("redis", 8), "redis");
}

#[test]
fn truncate_marks_clipped_names() {
    assert_eq!(truncate("postgresql", 6), "postg…");
}

#[test]
fn pad_right_fills_to_width() {
    assert_eq!(pad_right("ab".to_string(), 4), "ab  ");
    assert_eq!(pad_right("abcdef".to_string(), 4), "abcdef");
}

#[test]
fn log_lines_split_into_service_marker_and_tail() {
    assert_eq!(split_service_prefix("db | ready"), Some(("db", "ready")));
    assert_eq!(split_service_prefix(" | ready"), None);
    assert_eq!(
        split_log_marker("2024-01-01 12:00 [1] LOG:  database ready"),
        Some(("2024-01-01 12:00 [1]", "LOG:", "database ready"))
    );
    assert_eq!(log_marker_color("LOG:"), LogColor::Green);
    assert_eq!(log_marker_color("warning"), LogColor::Yellow);
    assert_eq!(classify_log_body_color("Connection TIMEOUT"), LogColor::Yellow);
    assert_eq!(classify_log_body_color("fatal: ERROR"), LogColor::Red);
    assert_eq!(classify_log_body_color("nothing here"), LogColor::Gray);
}

#[test]
fn runtime_log_line_grays_good_news_after_info_marker() {
    let line = colorize_runtime_log_line("db | 12:00 INFO server started");
    assert_eq!(text(&line), "db | 12:00 INFO server started");
    assert_eq!(line[0].tone, Tone::Cyan);
    assert_eq!(line[3].tone, Tone::Green);
    assert_eq!(line[5].tone, Tone::Gray);
}

#[test]
fn command_log_headers_and_failures_are_coloured() {
    let lines = colorize_logs("Pull output:\nstep failed\n\nall done\n");
    assert_eq!(lines.len(), 4);
    assert_eq!(lines[0][0].text, "Pull output:");
    assert_eq!(lines[1][0].tone, Tone::Red);
    assert!(lines[2].is_empty());
    assert_eq!(lines[3][0].tone, Tone::Green);
}

#[test]
fn event_lines_show_scope_action_and_runtime() {
    let lines = colorize_events(
        "[event] web start\n[event] web-1 runtime ips=[default=10.0.0.2] ports=[80/tcp=0.0.0.0:8080]\nplain\n",
    );
    assert_eq!(lines.len(), 3);
    assert_eq!(text(&lines[0]), "[event] web start");
    assert_eq!(lines[0][2].tone, Tone::Green);
    assert_eq!(text(&lines[1]), "[event] web-1 runtime ip 10.0.0.2 ports 80->8080");
    assert_eq!(lines[2][0].tone, Tone::Gray);
    assert_eq!(event_action_color("pull failed: x"), LogColor::LightRed);
    assert_eq!(event_action_color("stop"), LogColor::Red);
    assert_eq!(extract_bracket_body("ips=[a] ports=[b]", "ports="), Some("b".to_string()));
    assert_eq!(extract_bracket_body("ports=x", "ports="), None);
}

#[test]
fn progress_percent_and_bar() {
    assert_eq!(parse_progress_percent("Downloading 42%"), Some(42));
    assert_eq!(parse_progress_percent("250%"), Some(100));
    assert_eq!(parse_progress_percent("done"), None);
    assert_eq!(progress_bar(0, Some(50)), format!("{}{}", "#".repeat(12), "-".repeat(12)));
    assert_eq!(progress_bar(2, None), format!("--#####{}", "-".repeat(17)));
    assert_eq!(pulling_spinner(11), ':');
    assert_eq!(transition_spinner(5), '/');
}

#[test]
fn progress_line_only_for_transitions() {
    assert!(event_progress_line(Status::Running, None, 0).is_none());
    let line = event_progress_line(Status::Pulling, Some("Downloading 50%"), 0).unwrap();
    assert_eq!(
        text(&line),
        format!("[progress] pulling [{}{}] Downloading 50% .", "#".repeat(12), "-".repeat(12))
    );
    let line = event_progress_line(Status::Stopping, None, 1).unwrap();
    assert_eq!(line[1].text, "stopping");
    assert_eq!(line[1].tone, Tone::Red);
}

#[test]
fn service_rows_and_titles() {
    assert_eq!(status_label(&Status::RuntimeUnavailable), "NO PODMAN");
    assert_eq!(status_indicator(&Status::Starting, 2), "◠");
    let row = service_item("redis", Status::Running, 0, true, 30);
    assert_eq!(text(&row), format!("● redis{}   RUNNING ↻", " ".repeat(11)));
    let compact = service_item("postgresql", Status::Stopped, 0, false, 8);
    assert_eq!(text(&compact), "○ postg…");
    let title = services_title(1, 3, 2, 1, true);
    assert_eq!(text(&title), " SERVICES 1/3 UP  2 ↻  1/3 shown");
}

#[test]
fn activity_title_shows_view_and_position() {
    let t = logs_title(true, Some("redis"), LogTab::Events, false, 4, 20);
    assert_eq!(text(&t), " ACTIVITY redis   EVENTS   LIVE   Ⅱ PAUSED   L5/20");
    let t = logs_title(false, None, LogTab::LiveLogs, true, 0, 0);
    assert_eq!(text(&t), " ACTIVITY NO SELECTION   EVENTS   LIVE   ↓ AUTO  ");
    assert!(t[5].reversed);
}

#[test]
fn health_line_reports_each_part() {
    let l = health_line(true, false, true, 2, 5, 0);
    assert_eq!(text(&l), "● DAEMON READY  × CLI DOWN  ● COMPOSE READY  │  2/5 RUNNING  0 AUTO-START");
}

fn body_of(text: &str) -> Vec<Vec<Styled>> {
    vec![vec![Styled { text: text.to_string(), tone: Tone::Gray, bold: false, reversed: false }]]
}

fn sentinel(index: usize, revision: u64) -> LogsRenderCacheEntry {
    LogsRenderCacheEntry {
        service_index: Some(index),
        tab: LogTab::Events,
        buffer_revision: revision,
        body: vec![vec![Styled { text: "sentinel".to_string(), tone: Tone::Gray, bold: false, reversed: false }]],
        body_line_count: 1,
    }
}

#[test]
fn refresh_logs_cache_reuses_body_when_revision_is_unchanged() {
    let mut cache = LogsRenderCache::new();
    let buffer = LogBuffer::events();
    refresh_cached_body(&mut cache, 0, LogTab::Events, &buffer);
    assert!(cache.replace_body(Some(0), LogTab::Events, body_of("sentinel"), 1));

    refresh_cached_body(&mut cache, 0, LogTab::Events, &buffer);

    let e = cache.entry(Some(0), LogTab::Events).unwrap();
    assert_eq!(e.body[0][0].text, "sentinel");
    assert_eq!(e.body_line_count, 1);
}

#[test]
fn refresh_logs_cache_invalidates_body_when_buffer_revision_changes() {
    let mut cache = LogsRenderCache::new();
    let mut buffer = LogBuffer::events();
    refresh_cached_body(&mut cache, 0, LogTab::Events, &buffer);
    assert!(cache.replace_body(Some(0), LogTab::Events, body_of("stale"), 1));
    buffer.push_line("[event] redis start");

    refresh_cached_body(&mut cache, 0, LogTab::Events, &buffer);

    assert_ne!(cache.entry(Some(0), LogTab::Events).unwrap().body[0][0].text, "stale");
}

#[test]
fn refresh_logs_cache_reuses_unchanged_service_body_after_switching_back() {
    let mut cache = LogsRenderCache::new();
    let first = LogBuffer::events();
    let second = LogBuffer::events();
    refresh_cached_body(&mut cache, 0, LogTab::Events, &first);
    assert!(cache.replace_body(Some(0), LogTab::Events, body_of("sentinel"), 1));

    refresh_cached_body(&mut cache, 1, LogTab::Events, &second);
    refresh_cached_body(&mut cache, 0, LogTab::Events, &first);

    assert_eq!(cache.entry(Some(0), LogTab::Events).unwrap().body[0][0].text, "sentinel");
}

#[test]
fn render_log_lines_applies_scroll_across_progress_and_body() {
    let rows = visible_rows(1, 3, true, 2);
    assert_eq!(rows, vec![RowSource::Blank, RowSource::Body(0), RowSource::Body(1)]);
    assert_eq!(visible_rows(0, 5, false, 2), vec![RowSource::Body(0), RowSource::Body(1)]);
}

#[test]
fn cache_keeps_eight_most_recent_bodies() {
    let mut cache = LogsRenderCache::new();
    for i in 0..10 {
        cache.insert(sentinel(i, 1));
    }
    assert_eq!(cache.len(), 8);
    assert!(cache.entry(Some(0), LogTab::Events).is_none());
    assert!(cache.entry(Some(9), LogTab::Events).is_some());
    cache.insert(sentinel(9, 2));
    assert_eq!(cache.len(), 8);
    assert_eq!(cache.entry(Some(9), LogTab::Events).unwrap().buffer_revision, 2);
}

#[test]
fn auto_scroll_shows_the_last_lines() {
    assert_eq!(auto_scroll_position(10, true, 6), 8);
    assert_eq!(auto_scroll_position(2, false, 10), 0);
}

#[test]
fn replacing_a_body_keeps_the_entry_in_place() {
    let mut cache = LogsRenderCache::new();
    cache.insert(sentinel(0, 3));
    cache.insert(sentinel(1, 4));
    assert!(cache.replace_body(Some(0), LogTab::Events, body_of("new"), 5));
    let e = cache.entry(Some(0), LogTab::Events).unwrap();
    assert_eq!((e.body[0][0].text.as_str(), e.body_line_count, e.buffer_revision), ("new", 5, 3));
    assert!(!cache.replace_body(Some(2), LogTab::Events, body_of("x"), 1));
    assert_eq!(cache.len(), 2);
}

#[test]
fn cached_revision_follows_the_stored_entry() {
    let mut cache = LogsRenderCache::new();
    assert_eq!(cached_revision(&cache, Some(0), LogTab::Events), None);
    cache.insert(sentinel(0, 7));
    assert_eq!(cached_revision(&cache, Some(0), LogTab::Events), Some(7));
}
