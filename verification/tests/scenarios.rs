//! End-to-end scenarios: a rule set built from raw flag values, lines
//! classified against it, exclusion, throttling and rotation behavior.

use log_watcher::cli::Args;
use log_watcher::color::Color;
use log_watcher::config::Config;
use log_watcher::matcher::Matcher;
use log_watcher::tailer::PollAction;
use log_watcher::tailer::TailState;
use log_watcher::watcher::LogWatcher;

fn args_with(patterns: &str, case_insensitive: bool) -> Args {
    Args {
        files: vec!["test.log".to_string()],
        patterns: patterns.to_string(),
        regex: false,
        case_insensitive,
        color_map: None,
        notify: false,
        notify_patterns: None,
        notify_throttle: 5,
        dry_run: false,
        quiet: false,
        exclude: None,
        no_color: true,
        prefix_file: Some(false),
        poll_interval: 100,
        buffer_size: 8192,
    }
}

#[test]
fn test_case_sensitive_ruleset_end_to_end() {
    // patterns=["ERROR","WARN"], literal, case-sensitive
    let config = Config::from_args(&args_with("ERROR,WARN", false)).unwrap();
    let matcher = Matcher::new(config);

    let result = matcher.match_line("This is an ERROR message");
    assert!(result.matched);
    assert_eq!(result.pattern, Some("ERROR".to_string()));
    assert_eq!(result.color, Some(Color::Red));

    let result = matcher.match_line("this is an error message");
    assert!(!result.matched);
}

#[test]
fn test_case_insensitive_ruleset_end_to_end() {
    // The same rule set with caseInsensitive=true
    let config = Config::from_args(&args_with("ERROR,WARN", true)).unwrap();
    let matcher = Matcher::new(config);

    let result = matcher.match_line("this is an error message");
    assert!(result.matched);
    assert_eq!(result.pattern, Some("ERROR".to_string()));
}

#[test]
fn test_excluded_line_never_classified() {
    // excludePatterns=["DEBUG"]: the line is excluded whatever the
    // include patterns say, and never reaches the notify/color path
    let mut args = args_with("DEBUG,ERROR,trace", false);
    args.exclude = Some("DEBUG".to_string());
    args.notify = true;
    let mut watcher = LogWatcher::new(Config::from_args(&args).unwrap());

    let outcome = watcher.process_line(Some("test.log"), "DEBUG: trace info", 2000);
    assert!(outcome.excluded);
    assert!(outcome.result.is_none());
    assert!(outcome.output.is_none());
    assert!(outcome.notification.is_none());
    assert_eq!(watcher.stats.lines_processed, 1);
    assert_eq!(watcher.stats.matches_found, 0);
    assert_eq!(watcher.stats.notifications_sent, 0);
}

#[test]
fn test_throttle_scenario() {
    // notifyThrottle=2 and three eligible attempts in one window:
    // exactly two are dispatched; after the window lapses, a fourth
    // succeeds again
    let mut args = args_with("ERROR", false);
    args.notify = true;
    args.notify_throttle = 2;
    let mut watcher = LogWatcher::new(Config::from_args(&args).unwrap());

    let o1 = watcher.process_line(None, "ERROR one", 5000);
    let o2 = watcher.process_line(None, "ERROR two", 5100);
    let o3 = watcher.process_line(None, "ERROR three", 5900);
    assert!(o1.notification.is_some());
    assert!(o2.notification.is_some());
    assert!(o3.notification.is_none());

    let o4 = watcher.process_line(None, "ERROR four", 6000);
    assert!(o4.notification.is_some());

    // Only actual dispatches count as sent; the suppressed third does not
    assert_eq!(watcher.stats.notifications_sent, 3);
}

#[test]
fn test_rotation_scenario() {
    // A file of size S fully tailed to offset S, then truncated to 0:
    // the next poll reports a rotation instead of reading anything
    let mut tail = TailState::new("app.log".to_string(), 0);
    assert_eq!(tail.poll_action(120), PollAction::ReadFrom { offset: 0 });
    tail.advance_to(120);
    assert_eq!(tail.poll_action(120), PollAction::NoChange);
    assert_eq!(tail.poll_action(0), PollAction::Rotation);
}

#[test]
fn test_regex_ruleset_matches_first_compiled_pattern() {
    let mut args = args_with("user_id=\\d+,ERROR", false);
    args.regex = true;
    let config = Config::from_args(&args).unwrap();
    let matcher = Matcher::new(config);

    let result = matcher.match_line("Order placed by user_id=67890");
    assert!(result.matched);
    assert_eq!(result.pattern, Some("user_id=\\d+".to_string()));

    let result = matcher.match_line("no identifiers here");
    assert!(!result.matched);
}
