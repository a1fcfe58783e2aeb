[package]
name = "llamastash"
version = "0.1.0"
edition = "2021"
publish = false

[dependencies]
which = "*"
serde = { version = "1", features = ["derive"] }
serde_json = "1"
thiserror = "*"
hyper = { version = "1", features = ["server", "http1"] }
http-body-util = "0.1"
tokio = { version = "1", features = ["rt", "rt-multi-thread", "sync"] }
ignore = "*"
log = "0.4"
console = "*"
ratatui = "*"
crossterm = "*"
cliclack = "*"
