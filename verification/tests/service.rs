use argv_podman_manager::service::LogBuffer;

#[test]
fn log_buffer_truncates_old_lines_when_limit_is_exceeded() {
    let mut buffer = LogBuffer::new(24);

    buffer.push_line("old one");
    buffer.push_line("old two");
    buffer.push_line("new three");
    buffer.push_line("new four");

    assert!(buffer.as_str().len() <= 24);
    assert!(buffer.as_str().contains("new four"));
    assert!(!buffer.as_str().contains("old one"));
}

#[test]
fn log_buffer_revision_changes_when_content_changes() {
    let mut buffer = LogBuffer::new(24);
    let initial = buffer.revision();

    buffer.push_line("new line");
    let after_push = buffer.revision();
    buffer.clear();

    assert!(after_push > initial);
    assert!(buffer.revision() > after_push);
}

#[test]
fn log_buffer_push_keeps_newest_text_within_limit() {
    let mut buffer = LogBuffer::new(20);
    buffer.push_str("old line\n");
    buffer.push_str("a\nb\nc\nd\ne\nf\n");
    assert_eq!(buffer.as_str(), "c\nd\ne\nf\n");
}

#[test]
fn log_buffer_empty_push_and_clear_keep_revision() {
    let mut buffer = LogBuffer::events();
    let r = buffer.revision();
    buffer.push_str("");
    buffer.clear();
    assert_eq!(buffer.revision(), r);
    assert!(buffer.is_empty());
}

#[test]
fn log_buffer_snapshot_if_changed_skips_known_revision() {
    let mut buffer = LogBuffer::live();
    buffer.push_line("one");
    let rev = buffer.revision();
    assert!(buffer.snapshot_if_changed(Some(rev)).is_none());
    assert_eq!(buffer.snapshot_if_changed(None), Some((rev, "one\n".to_string())));
    assert_eq!(buffer.snapshot(), "one\n");
}

#[test]
fn log_buffer_limits_of_each_kind() {
    let mut command = LogBuffer::command();
    command.push_str(&"x".repeat(600 * 1024));
    assert!(command.as_str().len() <= 512 * 1024);
}
