[package]
name = "log_watcher"
version = "0.2.0"
edition = "2021"
publish = false

[dependencies]
regex = "*"
anyhow = "*"
clap = { version = "*", features = ["derive"] }
clap_complete = "*"
termcolor = "*"
tokio = { version = "*", features = ["macros", "rt-multi-thread", "sync", "time"] }
notify = "*"
notify-rust = "*"
tracing = "*"
tracing-subscriber = "*"
