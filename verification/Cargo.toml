[package]
name = "cfddns"
version = "0.1.0"
edition = "2021"
publish = false

[dependencies]
anyhow = "1"
backtraceio = "*"
clap = { version = "4", features = ["derive"] }
gethostname = "*"
reqwest = { version = "0.12", default-features = false, features = ["json", "rustls-tls"] }
serde = { version = "1", features = ["derive"] }
serde_json = "1"
tokio = { version = "1", features = ["macros", "rt-multi-thread", "time"] }
tracing = "0.1"
tracing-subscriber = "0.3"
