[package]
name = "formula"
version = "0.1.0"
edition = "2021"
publish = false

[dependencies]
ethers = { version = "2", default-features = false, features = ["ws"] }
diesel = { version = "2", features = ["postgres", "r2d2", "chrono"] }
tokio = { version = "1", features = ["full"] }
axum = "0.6"
chrono = { version = "0.4", default-features = false, features = ["clock", "std", "serde"] }
serde = { version = "1", features = ["derive"] }
tracing = "0.1"
tracing-subscriber = { version = "0.3", features = ["env-filter"] }
futures = "0.3"
error-stack = "0.3"
async-trait = "0.1"
config = { version = "0.13", default-features = false, features = ["json5"] }
