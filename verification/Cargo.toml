[package]
name = "draugr"
version = "0.1.0"
edition = "2021"
publish = false

[dependencies]
regex = "=1.13.1"
telnet = { version = "=0.2.5", features = ["zcstream"] }
anyhow = "=1.0.104"
clap = { version = "=4.6.7", features = ["derive"] }
tokio = { version = "=1.53.2", features = ["rt-multi-thread", "macros", "sync", "time"] }
tokio-stream = "=0.1.19"
rhai = "=1.26.1"
ratatui = "=0.26.3"
crossterm = "=0.27.0"
ansi-to-tui = "=4.1.0"
