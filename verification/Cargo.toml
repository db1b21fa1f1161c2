[package]
name = "mathstore"
version = "0.1.0"
edition = "2021"

[dependencies]
axum = "*"
serde = { version = "*", features = ["derive"] }
serde_json = "*"
tokio = { version = "*", features = ["macros", "rt-multi-thread", "net", "sync"] }
