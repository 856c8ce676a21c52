use log_watcher::cli::Args;

fn base_args() -> Args {
    Args {
        files: vec!["test.log".to_string()],
        patterns: "ERROR".to_string(),
        regex: false,
        case_insensitive: false,
        color_map: None,
        notify: false,
        notify_patterns: None,
        quiet: false,
        dry_run: false,
        exclude: None,
        prefix_file: Some(false),
        poll_interval: 1000,
        buffer_size: 8192,
        no_color: false,
        notify_throttle: 0,
    }
}

#[test]
fn test_color_mappings_invalid_format() {
    let mut args = base_args();
    args.color_map = Some("invalid_format".to_string());

    let mappings = args.color_mappings();
    assert_eq!(mappings.len(), 0); // An entry without a colon is dropped
}

#[test]
fn test_exclude_patterns() {
    let mut args = base_args();
    args.exclude = Some("DEBUG,TRACE".to_string());

    let patterns = args.exclude_patterns();
    assert_eq!(patterns.len(), 2);
    assert!(patterns.contains(&"DEBUG".to_string()));
    assert!(patterns.contains(&"TRACE".to_string()));
}

#[test]
fn test_exclude_patterns_empty() {
    let args = base_args();
    let patterns = args.exclude_patterns();
    assert!(patterns.is_empty());
}

#[test]
fn test_patterns_split_and_trimmed() {
    let mut args = base_args();
    args.patterns = " ERROR , WARN ,, ".to_string();
    assert_eq!(args.patterns(), vec!["ERROR".to_string(), "WARN".to_string()]);
}

#[test]
fn test_notify_patterns_default_to_patterns() {
    let mut args = base_args();
    args.patterns = "ERROR,WARN".to_string();
    assert_eq!(args.notify_patterns(), args.patterns());

    args.notify_patterns = Some("WARN".to_string());
    assert_eq!(args.notify_patterns(), vec!["WARN".to_string()]);
}

#[test]
fn test_color_mappings_parsed() {
    let mut args = base_args();
    args.color_map = Some("ERROR:red, WARN : yellow".to_string());
    let mappings = args.color_mappings();
    assert_eq!(
        mappings,
        vec![
            ("ERROR".to_string(), "red".to_string()),
            ("WARN".to_string(), "yellow".to_string()),
        ]
    );
}

#[test]
fn test_should_prefix_files_by_count() {
    let mut args = base_args();
    args.prefix_file = None;
    assert!(!args.should_prefix_files());

    args.files.push("second.log".to_string());
    assert!(args.should_prefix_files());

    args.prefix_file = Some(false);
    assert!(!args.should_prefix_files());
}
