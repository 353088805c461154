[package]
name = "easymoney"
version = "0.1.0"
edition = "2021"
publish = false

[dependencies]
chrono = "0.4"
crossterm = { version = "0.28", features = ["event-stream"] }
dirs-next = "2"
futures = "0.3"
ratatui = "0.29"
rusqlite = { version = "0.32", features = ["bundled", "chrono"] }
tokio = { version = "1", features = ["rt", "rt-multi-thread", "macros", "sync", "time"] }
