[package]
name = "aviabot"
version = "0.1.0"
edition = "2021"
publish = false

[dependencies]
anyhow = "1"
chrono = { version = "0.4", default-features = false, features = ["now", "std"] }
crossbeam = { version = "0.8", default-features = false, features = ["std", "crossbeam-channel", "crossbeam-queue"] }
futures = { version = "0.3", default-features = false, features = ["std"] }
lapin = { version = "3", default-features = false, features = ["default-runtime"] }
opus = "0.3"
reqwest = { version = "0.11", default-features = false }
rustc-hash = "2"
serde = { version = "1", features = ["derive"] }
serde_json = "1"
sqlx = { version = "0.8", default-features = false, features = ["postgres", "runtime-tokio"] }
thread-priority = "1"
tokio = { version = "1", features = ["macros", "rt-multi-thread", "signal", "sync", "time"] }
toml = "0.5"
tracing = "0.1"
tracing-subscriber = { version = "0.3", default-features = false, features = ["fmt", "std"] }
tsclientlib = { version = "*", default-features = false }
tsproto-packets = "*"
