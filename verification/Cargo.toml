[package]
name = "service_bootstrap"
version = "0.1.0"
edition = "2021"
publish = false

[dependencies]
axum = "*"
diesel = { version = "*", features = ["postgres"] }
dotenvy = "*"
tokio = { version = "*", features = ["macros", "net", "rt-multi-thread"] }
tracing = "*"

[dev-dependencies]
tower = { version = "*", features = ["util"] }
