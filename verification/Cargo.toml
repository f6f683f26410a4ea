[package]
name = "powerlog"
version = "0.1.0"
edition = "2021"
publish = false

[dependencies]
sun = "*"
anyhow = "*"
serde = { version = "*", features = ["derive"] }
serde_json = "*"
time = { version = "*", features = ["formatting", "serde-well-known"] }
reqwest = { version = "*", default-features = false, features = ["json"] }
tokio = { version = "*", features = ["macros", "rt-multi-thread", "net"] }
futures = "*"
sea-orm = { version = "*", default-features = false, features = ["sqlx-sqlite", "runtime-tokio", "macros", "with-time"] }
axum = "*"
axum-streams = { version = "*", features = ["json"] }
tower-http = { version = "*", features = ["cors", "compression-gzip"] }
