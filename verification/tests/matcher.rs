use log_watcher::cli::Args;
use log_watcher::config::Config;
use log_watcher::matcher::Matcher;

fn create_test_config(patterns: &str, regex: bool, case_insensitive: bool) -> Config {
    let args = Args {
        files: vec!["test.log".to_string()],
        patterns: patterns.to_string(),
        regex,
        case_insensitive,
        color_map: None,
        notify: true,
        notify_patterns: None,
        notify_throttle: 5,
        dry_run: false,
        quiet: false,
        no_color: false,
        exclude: None,
        prefix_file: None,
        poll_interval: 100,
        buffer_size: 8192,
    };
    Config::from_args(&args).unwrap()
}

#[test]
fn test_literal_matching() {
    let config = create_test_config("ERROR,WARN", false, false);
    let matcher = Matcher::new(config);

    let result = matcher.match_line("This is an ERROR message");
    assert!(result.matched);
    assert_eq!(result.pattern, Some("ERROR".to_string()));

    let result = matcher.match_line("This is a WARN message");
    assert!(result.matched);
    assert_eq!(result.pattern, Some("WARN".to_string()));

    let result = matcher.match_line("This is a normal message");
    assert!(!result.matched);
}

#[test]
fn matcher_test_case_insensitive_matching() {
    let config = create_test_config("ERROR", false, true);
    let matcher = Matcher::new(config);

    let result = matcher.match_line("This is an error message");
    assert!(result.matched);
    assert_eq!(result.pattern, Some("ERROR".to_string()));

    let result = matcher.match_line("This is an ERROR message");
    assert!(result.matched);
    assert_eq!(result.pattern, Some("ERROR".to_string()));
}

#[test]
fn matcher_test_regex_matching() {
    let config = create_test_config(r"user_id=\d+", true, false);
    let matcher = Matcher::new(config);

    let result = matcher.match_line("Login successful for user_id=12345");
    assert!(result.matched);

    let result = matcher.match_line("Login successful for user_id=abc");
    assert!(!result.matched);
}

#[test]
fn test_multiple_matches() {
    let config = create_test_config("ERROR,WARN", false, false);
    let matcher = Matcher::new(config);

    let matches = matcher.get_all_matches("ERROR: This is a WARN message");
    assert_eq!(matches.len(), 2);
    assert!(matches.contains(&"ERROR".to_string()));
    assert!(matches.contains(&"WARN".to_string()));
}

#[test]
fn test_has_match_coverage_line_112() {
    let config = create_test_config("ERROR", false, false);
    let matcher = Matcher::new(config);

    assert!(matcher.has_match("ERROR: Something went wrong"));
    assert!(!matcher.has_match("INFO: Normal operation"));
}

#[test]
fn test_get_all_matches_coverage_lines_122_129_139_141() {
    let config = create_test_config("ERROR,WARN", false, false);
    let matcher = Matcher::new(config);

    let matches = matcher.get_all_matches("ERROR: Something went wrong WARN: This is a warning");
    assert_eq!(matches.len(), 2);
    assert!(matches.contains(&"ERROR".to_string()));
    assert!(matches.contains(&"WARN".to_string()));

    // And with regex patterns
    let regex_config = create_test_config("ERROR,WARN", true, false);
    let regex_matcher = Matcher::new(regex_config);
    let regex_matches = regex_matcher.get_all_matches("ERROR: Something went wrong");
    assert_eq!(regex_matches.len(), 1);
    assert!(regex_matches.contains(&"ERROR".to_string()));
}

#[test]
fn test_case_insensitive_get_all_matches_coverage_line_122() {
    let config = create_test_config("ERROR,WARN", false, true);
    let matcher = Matcher::new(config);

    let matches = matcher.get_all_matches("error: Something went wrong warn: This is a warning");
    assert_eq!(matches.len(), 2);
    assert!(matches.contains(&"ERROR".to_string()));
    assert!(matches.contains(&"WARN".to_string()));
}

#[test]
fn test_regex_get_all_matches_coverage_lines_139_141() {
    let config = create_test_config("ERROR,WARN", true, false);
    let matcher = Matcher::new(config);

    let matches = matcher.get_all_matches("ERROR: Something went wrong");
    assert_eq!(matches.len(), 1);
    assert!(matches.contains(&"ERROR".to_string()));

    let no_matches = matcher.get_all_matches("INFO: Normal operation");
    assert!(no_matches.is_empty());
}

#[test]
fn test_first_declared_pattern_wins() {
    // Both patterns occur; the first declared one is reported
    let config = create_test_config("ERROR,WARN", false, false);
    let matcher = Matcher::new(config);
    let result = matcher.match_line("WARN then ERROR in one line");
    assert!(result.matched);
    assert_eq!(result.pattern, Some("ERROR".to_string()));

    // Declared the other way round, the other pattern wins
    let config = create_test_config("WARN,ERROR", false, false);
    let matcher = Matcher::new(config);
    let result = matcher.match_line("WARN then ERROR in one line");
    assert_eq!(result.pattern, Some("WARN".to_string()));
}

#[test]
fn test_classify_is_idempotent() {
    let config = create_test_config("ERROR,WARN", false, false);
    let matcher = Matcher::new(config);
    let first = matcher.match_line("This is an ERROR message");
    let second = matcher.match_line("This is an ERROR message");
    assert_eq!(first, second);
}

#[test]
fn test_regex_first_declared_pattern_wins() {
    let config = create_test_config(r"user_id=\d+,user_id=\w+", true, false);
    let matcher = Matcher::new(config);
    let result = matcher.match_line("Login successful for user_id=12345");
    assert!(result.matched);
    assert_eq!(result.pattern, Some(r"user_id=\d+".to_string()));

    // A line only the second pattern matches resolves to that pattern
    let result = matcher.match_line("Login successful for user_id=abc");
    assert!(result.matched);
    assert_eq!(result.pattern, Some(r"user_id=\w+".to_string()));
}

#[test]
fn test_unicode_case_insensitive_matching() {
    // Case folding is full Unicode: a pattern holding a capital A with
    // umlaut matches its lower-cased form
    let config = create_test_config("\u{C4}RGER", false, true);
    let matcher = Matcher::new(config);

    let result = matcher.match_line("\u{E4}rger: something broke");
    assert!(result.matched);
    assert_eq!(result.pattern, Some("\u{C4}RGER".to_string()));
}

#[test]
fn test_empty_pattern_list_never_matches() {
    let config = create_test_config(",,", false, false);
    let matcher = Matcher::new(config);
    let result = matcher.match_line("anything at all");
    assert!(!result.matched);
    assert_eq!(result.pattern, None);
    assert_eq!(result.color, None);
    assert!(!result.should_notify);
}
