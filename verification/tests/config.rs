use log_watcher::cli::Args;
use log_watcher::color::Color;
use log_watcher::config::Config;
use log_watcher::config::ConfigError;

fn base_args() -> Args {
    Args {
        files: vec!["test.log".to_string()],
        patterns: "ERROR".to_string(),
        regex: false,
        case_insensitive: false,
        color_map: None,
        notify: false,
        notify_patterns: None,
        quiet: false,
        dry_run: false,
        exclude: None,
        prefix_file: Some(false),
        poll_interval: 1000,
        buffer_size: 8192,
        no_color: false,
        notify_throttle: 0,
    }
}

#[test]
fn test_all_color_parsing() {
    assert_eq!(Config::parse_color("yellow").unwrap(), Color::Yellow);
    assert_eq!(Config::parse_color("magenta").unwrap(), Color::Magenta);
    assert_eq!(Config::parse_color("cyan").unwrap(), Color::Cyan);
    assert_eq!(Config::parse_color("white").unwrap(), Color::White);
}

#[test]
fn test_parse_color_unknown_coverage_line_100() {
    let result = Config::parse_color("unknown_color");
    assert!(result.is_err());
    assert!(result
        .unwrap_err()
        .message()
        .contains("Unknown color: unknown_color"));
}

#[test]
fn test_get_color_for_pattern() {
    let config = Config::from_args(&base_args()).unwrap();

    // Default color mappings apply
    assert_eq!(config.get_color_for_pattern("ERROR"), Some(Color::Red));
    assert_eq!(config.get_color_for_pattern("WARN"), Some(Color::Yellow));
    assert_eq!(config.get_color_for_pattern("INFO"), Some(Color::Green));
    assert_eq!(config.get_color_for_pattern("DEBUG"), Some(Color::Cyan));
    assert_eq!(config.get_color_for_pattern("UNKNOWN"), None);
}

#[test]
fn test_should_exclude_literal() {
    let mut args = base_args();
    args.exclude = Some("DEBUG,TRACE".to_string());
    let config = Config::from_args(&args).unwrap();

    assert!(config.should_exclude("DEBUG: Some debug message"));
    assert!(config.should_exclude("TRACE: Some trace message"));
    assert!(!config.should_exclude("ERROR: Some error message"));
    assert!(!config.should_exclude("INFO: Some info message"));
}

#[test]
fn test_should_exclude_case_insensitive() {
    let mut args = base_args();
    args.case_insensitive = true;
    args.exclude = Some("debug".to_string());
    let config = Config::from_args(&args).unwrap();

    assert!(config.should_exclude("DEBUG: Some debug message"));
    assert!(config.should_exclude("debug: Some debug message"));
    assert!(!config.should_exclude("ERROR: Some error message"));
}

#[test]
fn test_should_exclude_unicode_case_insensitive() {
    // Case-insensitive exclusion folds Unicode: a non-ASCII exclude
    // pattern strikes out its own lower-cased form
    let mut args = base_args();
    args.case_insensitive = true;
    args.exclude = Some("\u{C4}RGER".to_string());
    let config = Config::from_args(&args).unwrap();

    assert!(config.should_exclude("\u{E4}rger: something broke"));
    assert!(config.should_exclude("\u{C4}RGER: something broke"));
    assert!(!config.should_exclude("ERROR: Some error message"));
}

#[test]
fn test_should_exclude_regex() {
    let mut args = base_args();
    args.regex = true;
    args.exclude = Some("DEBUG|TRACE".to_string());
    let config = Config::from_args(&args).unwrap();

    assert!(config.should_exclude("DEBUG: Some debug message"));
    assert!(config.should_exclude("TRACE: Some trace message"));
    assert!(!config.should_exclude("ERROR: Some error message"));
}

#[test]
fn test_should_exclude_empty() {
    let config = Config::from_args(&base_args()).unwrap();

    assert!(!config.should_exclude("DEBUG: Some debug message"));
    assert!(!config.should_exclude("ERROR: Some error message"));
}

#[test]
fn test_invalid_regex_reports_pattern() {
    let mut args = base_args();
    args.regex = true;
    args.patterns = "[invalid".to_string();
    let result = Config::from_args(&args);
    assert!(result.is_err());
    match result.unwrap_err() {
        ConfigError::InvalidRegex { pattern } => {
            assert_eq!(pattern, "[invalid");
        }
        other => panic!("unexpected error: {:?}", other),
    }
}

#[test]
fn test_invalid_regex_message() {
    let mut args = base_args();
    args.regex = true;
    args.patterns = "ERROR,(unclosed".to_string();
    let err = Config::from_args(&args).unwrap_err();
    assert_eq!(
        err.message(),
        "Invalid or too complex regex pattern: (unclosed"
    );
}

#[test]
fn test_unknown_color_in_mapping() {
    let mut args = base_args();
    args.color_map = Some("ERROR:chartreuse".to_string());
    let result = Config::from_args(&args);
    match result.unwrap_err() {
        ConfigError::UnknownColor { name } => assert_eq!(name, "chartreuse"),
        other => panic!("unexpected error: {:?}", other),
    }
}

#[test]
fn test_color_mapping_overrides_default() {
    let mut args = base_args();
    args.color_map = Some("ERROR:blue".to_string());
    let config = Config::from_args(&args).unwrap();
    assert_eq!(config.get_color_for_pattern("ERROR"), Some(Color::Blue));
    // Later bindings of the same pattern win
    let mut args = base_args();
    args.color_map = Some("ERROR:blue,ERROR:white".to_string());
    let config = Config::from_args(&args).unwrap();
    assert_eq!(config.get_color_for_pattern("ERROR"), Some(Color::White));
}

#[test]
fn test_should_notify_for_pattern() {
    let mut args = base_args();
    args.notify = true;
    args.patterns = "ERROR,WARN".to_string();
    args.notify_patterns = Some("ERROR".to_string());
    let config = Config::from_args(&args).unwrap();
    assert!(config.should_notify_for_pattern("ERROR"));
    assert!(!config.should_notify_for_pattern("WARN"));

    // Disabled notifications never notify
    let mut args = base_args();
    args.notify = false;
    let config = Config::from_args(&args).unwrap();
    assert!(!config.should_notify_for_pattern("ERROR"));
}
