[package]
name = "merge_pr_in_all"
version = "0.1.0"
edition = "2021"
publish = false

[dependencies]
axum = "=0.8.9"
clap = { version = "=4.6.7", features = ["derive", "env"] }
graphql_client = "=0.16.0"
octocrab = "=0.47.1"
once_cell = "=1.21.4"
reqwest = { version = "=0.12.28", default-features = false, features = ["json", "rustls-tls"] }
serde = { version = "=1.0.229", features = ["derive"] }
tokio = { version = "=1.54.1", features = ["macros", "rt-multi-thread", "net", "time", "sync"] }
tracing = "=0.1.44"
tracing-subscriber = "=0.3.23"
