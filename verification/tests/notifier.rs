use log_watcher::cli::Args;
use log_watcher::config::Config;
use log_watcher::notifier::Notifier;

fn create_test_config(notify_enabled: bool, throttle: u32) -> Config {
    let args = Args {
        files: vec!["test.log".to_string()],
        patterns: "ERROR".to_string(),
        regex: false,
        case_insensitive: false,
        color_map: None,
        notify: notify_enabled,
        notify_patterns: None,
        notify_throttle: throttle,
        dry_run: false,
        quiet: false,
        no_color: false,
        exclude: None,
        prefix_file: None,
        poll_interval: 100,
        buffer_size: 8192,
    };
    Config::from_args(&args).unwrap()
}

#[test]
fn test_notification_disabled() {
    let config = create_test_config(false, 5);
    let mut notifier = Notifier::new(&config);

    // With notifications disabled nothing is ever prepared
    let result = notifier.send_notification("ERROR", "Test message", None, 2000);
    assert!(result.is_none());
    assert_eq!(notifier.get_notification_count(), 0);
}

#[test]
fn test_notification_throttling() {
    let config = create_test_config(true, 2);
    let mut notifier = Notifier::new(&config);

    // First two attempts within one window are dispatched
    let result1 = notifier.send_notification("ERROR", "Test message 1", None, 2000);
    assert!(result1.is_some());
    let result2 = notifier.send_notification("ERROR", "Test message 2", None, 2100);
    assert!(result2.is_some());

    // The third is silently suppressed
    let result3 = notifier.send_notification("ERROR", "Test message 3", None, 2200);
    assert!(result3.is_none());

    // After the window lapses the counter resets and a fourth succeeds
    let result4 = notifier.send_notification("ERROR", "Test message 4", None, 3000);
    assert!(result4.is_some());
    assert_eq!(notifier.get_notification_count(), 1);
}

#[test]
fn test_line_truncation() {
    let config = create_test_config(true, 5);
    let mut notifier = Notifier::new(&config);

    let long_line = "a".repeat(250);
    let result = notifier.send_notification("ERROR", &long_line, None, 2000);
    let notification = result.unwrap();
    let expected = format!("{}...", "a".repeat(197));
    assert_eq!(notification.body, expected);
    assert_eq!(notification.body.chars().count(), 200);
}

#[test]
fn test_get_notification_count() {
    let config = create_test_config(true, 0);
    let notifier = Notifier::new(&config);

    assert_eq!(notifier.get_notification_count(), 0);
}

#[test]
fn test_notification_with_file_info() {
    let config = create_test_config(true, 1);
    let mut notifier = Notifier::new(&config);

    let result = notifier.send_notification("ERROR", "Test error", Some("test.log"), 2000);
    let notification = result.unwrap();
    assert_eq!(notification.title, "ERROR detected in test.log");
    assert_eq!(notification.body, "Test error");

    let config = create_test_config(true, 1);
    let mut notifier = Notifier::new(&config);
    let result = notifier.send_notification("ERROR", "Test error", None, 2000);
    assert_eq!(result.unwrap().title, "ERROR detected");
}

#[test]
fn test_should_notify_for_pattern_coverage_line_39() {
    let config = create_test_config(true, 10);
    let mut notifier = Notifier::new(&config);

    // INFO is not among the notification patterns: nothing is prepared
    let result = notifier.send_notification("INFO", "Normal operation", Some("test.log"), 2000);
    assert!(result.is_none());
    assert_eq!(notifier.get_notification_count(), 0);
}

#[test]
fn test_should_notify_for_pattern_early_return_coverage_line_39() {
    let args = Args {
        files: vec!["test.log".to_string()],
        patterns: "ERROR".to_string(),
        regex: false,
        case_insensitive: false,
        color_map: None,
        notify: true,
        notify_patterns: Some("ERROR,WARN".to_string()),
        quiet: false,
        dry_run: false,
        exclude: None,
        poll_interval: 1000,
        buffer_size: 1024,
        notify_throttle: 5,
        no_color: false,
        prefix_file: None,
    };
    let config = Config::from_args(&args).unwrap();
    let mut notifier = Notifier::new(&config);

    // INFO is outside the configured notification patterns
    let result = notifier.send_notification("INFO", "Normal operation", Some("test.log"), 2000);
    assert!(result.is_none());
}

#[test]
fn test_throttle_window_reset_coverage_lines_79_80() {
    let config = create_test_config(true, 1);
    let notifier = Notifier::new(&config);

    assert_eq!(notifier.get_notification_count(), 0);
}

#[test]
fn test_throttle_window_reset_logic_coverage_lines_79_80() {
    let config = create_test_config(true, 5);
    let mut notifier = Notifier::new(&config);

    let r1 = notifier.send_notification("ERROR", "Test error 1", Some("test.log"), 1500);
    assert!(r1.is_some());
    // More than one second later: the window resets before counting
    let r2 = notifier.send_notification("ERROR", "Test error 2", Some("test.log"), 2600);
    assert!(r2.is_some());
    assert_eq!(notifier.get_notification_count(), 1);
}

#[test]
fn test_test_notification_method_coverage_lines_136_138() {
    let config = create_test_config(true, 10);
    let mut notifier = Notifier::new(&config);

    // The fixed test message uses the TEST pattern, which is not among
    // the notification patterns of this rule set
    let result = notifier.test_notification(2000);
    assert!(result.is_none());
}

#[test]
fn test_throttle_zero_suppresses_everything() {
    let config = create_test_config(true, 0);
    let mut notifier = Notifier::new(&config);
    let result = notifier.send_notification("ERROR", "Test message", None, 2000);
    assert!(result.is_none());
}
