//! Core of a log-tailing tool: rule sets for literal and regex matching,
//! a line classifier, a per-file tail state machine with rotation
//! detection, and a rate-limited notification gate.
//!
//! File and terminal I/O, the command line, and notification dispatch
//! live outside this crate; everything here is pure logic over plain
//! values, specified and verified.

pub mod cli;
pub mod color;
pub mod config;
pub mod highlighter;
pub mod matcher;
pub mod notifier;
pub mod pattern;
pub mod tailer;
pub mod text;
pub mod utils;
pub mod watcher;

pub use cli::Args;
pub use color::Color;
pub use config::Config;
pub use config::ConfigError;
pub use matcher::MatchResult;
pub use matcher::Matcher;
pub use notifier::Notification;
pub use notifier::Notifier;
pub use notifier::ThrottleState;
pub use tailer::PollAction;
pub use tailer::TailState;
pub use utils::format_file_size;
pub use utils::get_filename;
pub use utils::is_file_rotated;
pub use utils::validate_files;
pub use watcher::LogWatcher;
pub use watcher::WatcherStats;
