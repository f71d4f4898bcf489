[package]
name = "worldflow_core"
version = "0.1.0"
edition = "2021"
publish = false

[dependencies]
uuid = { version = "=1.29.0", features = ["v4", "v7", "serde"] }
sha2 = "=0.10.9"
serde_json = "=1.0.154"
csv = "=1.4.0"
serde = { version = "=1.0.229", features = ["derive"] }
sqlx = { version = "=0.8.6", default-features = false, features = ["sqlite", "postgres", "runtime-tokio", "macros", "migrate", "uuid", "json"] }
tokio = { version = "=1.54.1", features = ["sync", "rt-multi-thread", "fs", "macros"] }
git2 = { version = "=0.20.4", default-features = false }
sysinfo = { version = "=0.33.1", default-features = false, features = ["system"] }
thiserror = "=2.0.21"
