[package]
name = "claude_code_proxy"
version = "0.2.0"
edition = "2021"
publish = false

[dependencies]
axum = "0.7"
sha2 = "0.10"
subtle = "2"
tokio = { version = "1", features = ["sync", "rt-multi-thread", "macros", "net", "signal"] }
argon2 = "0.5"
rand_core = { version = "0.6", features = ["getrandom"] }
serde = { version = "1", features = ["derive"] }
serde_json = "1"
serde_yaml = "0.9"
sqlx = { version = "0.8", default-features = false, features = ["runtime-tokio", "sqlite"] }
tower-cookies = "0.10"
tower-http = { version = "0.5", features = ["fs"] }
clap = { version = "4", features = ["derive", "env"] }
thiserror = "1"
