[package]
name = "solitaire_tui"
version = "0.1.0"
edition = "2021"
publish = false

[dependencies]
ratatui = "*"
crossterm = { version = "*", features = ["event-stream"] }
tokio = { version = "*", features = ["macros", "rt-multi-thread", "time"] }
futures = "*"
