[package]
name = "trs"
version = "0.1.0"
edition = "2021"
publish = false

[dependencies]
xml-rs = "*"
time = { version = "*", features = ["parsing", "formatting"] }
argh = "*"
crossterm = { version = "*", features = ["event-stream"] }
ratatui = "*"
reqwest = { version = "*", default-features = false, features = ["blocking"] }
rusqlite = { version = "*", features = ["bundled"] }
tokio = { version = "*", features = ["rt-multi-thread", "macros", "sync", "time"] }
futures = "*"
open = "*"
