use log_watcher::tailer::extract_lines;
use log_watcher::tailer::split_content_lines;
use log_watcher::tailer::split_raw_lines;
use log_watcher::tailer::PollAction;
use log_watcher::tailer::TailState;

#[test]
fn test_poll_action_no_change() {
    let tail = TailState::new("test.log".to_string(), 100);
    assert_eq!(tail.poll_action(100), PollAction::NoChange);
}

#[test]
fn test_poll_action_growth() {
    let tail = TailState::new("test.log".to_string(), 100);
    assert_eq!(tail.poll_action(150), PollAction::ReadFrom { offset: 100 });
}

#[test]
fn test_poll_action_rotation() {
    // A file of size 100 fully tailed, then truncated to zero: the next
    // poll reports a rotation and reads nothing
    let tail = TailState::new("test.log".to_string(), 100);
    assert_eq!(tail.poll_action(0), PollAction::Rotation);
    assert_eq!(tail.poll_action(99), PollAction::Rotation);
}

#[test]
fn test_rotation_recovery_resets_offset() {
    let mut tail = TailState::new("test.log".to_string(), 100);
    tail.reset();
    assert_eq!(tail.last_offset, 0);
    assert_eq!(tail.path, "test.log");
    // From offset zero the whole new file counts as growth
    assert_eq!(tail.poll_action(40), PollAction::ReadFrom { offset: 0 });
}

#[test]
fn test_advance_after_read() {
    let mut tail = TailState::new("test.log".to_string(), 10);
    tail.advance_to(25);
    assert_eq!(tail.last_offset, 25);
}

#[test]
fn test_extract_lines_drops_unterminated_tail() {
    let lines = extract_lines("line 1\nline 2\npartial");
    assert_eq!(lines, vec!["line 1".to_string(), "line 2".to_string()]);
}

#[test]
fn test_extract_lines_terminated() {
    let lines = extract_lines("line 1\nline 2\n");
    assert_eq!(lines, vec!["line 1".to_string(), "line 2".to_string()]);
}

#[test]
fn test_extract_lines_trims_and_drops_empty() {
    let lines = extract_lines("  line 1  \n\n   \nline 2\r\n");
    assert_eq!(lines, vec!["line 1".to_string(), "line 2".to_string()]);
}

#[test]
fn test_split_content_lines() {
    let lines = split_content_lines("line 1\nline 2\nline 3\n");
    assert_eq!(
        lines,
        vec!["line 1".to_string(), "line 2".to_string(), "line 3".to_string()]
    );
}

#[test]
fn test_split_content_lines_with_empty_lines() {
    let lines = split_content_lines("line 1\n\n   \nline 2\n");
    assert_eq!(lines, vec!["line 1".to_string(), "line 2".to_string()]);
}

#[test]
fn test_split_content_lines_keeps_unterminated_tail() {
    let lines = split_content_lines("line 1\nline 2");
    assert_eq!(lines, vec!["line 1".to_string(), "line 2".to_string()]);
}

#[test]
fn test_split_raw_lines_keeps_blanks() {
    let lines = split_raw_lines("line 1\n\nline 2\n");
    assert_eq!(
        lines,
        vec!["line 1".to_string(), "".to_string(), "line 2".to_string()]
    );
}

#[test]
fn test_split_raw_lines_strips_crlf() {
    let lines = split_raw_lines("a\r\nb\r\n");
    assert_eq!(lines, vec!["a".to_string(), "b".to_string()]);
}

#[test]
fn test_split_raw_lines_unterminated_tail_kept() {
    let lines = split_raw_lines("a\nb");
    assert_eq!(lines, vec!["a".to_string(), "b".to_string()]);
}

#[test]
fn test_extract_lines_strips_unicode_whitespace() {
    // A no-break space counts as whitespace when lines are trimmed
    let lines = extract_lines("\u{A0}line 1\u{A0}\n");
    assert_eq!(lines, vec!["line 1".to_string()]);
}
