[package]
name = "chat_cli"
version = "0.1.0"
edition = "2021"
publish = false

[dependencies]
regex = "1"
glob = "0.3"
shlex = "1"
serde = { version = "1", features = ["derive"] }
serde_json = "1"
clap = { version = "4", features = ["derive"] }
crossterm = "0.28"
dialoguer = "0.11"
spinners = "4"
eyre = "0.6"
tempfile = "3"
tracing = "0.1"
futures = "0.3"
anstream = "0.6"
color-print = "0.3"
tokio = { version = "1", features = ["fs", "io-util", "macros", "process", "rt", "rt-multi-thread", "signal", "sync", "time"] }
