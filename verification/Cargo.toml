[package]
name = "freshed_rs"
version = "0.1.0"
edition = "2021"
publish = false

[dependencies]
syn = { version = "2", features = ["full", "visit-mut", "extra-traits"] }
proc-macro2 = "1"
quote = "1"
rstml = "0.12"
proc-macro2-diagnostics = "0.10"
actix-web = { version = "4", default-features = false, features = ["macros"] }
axum = { version = "0.7", default-features = false, features = ["tokio", "http1"] }
tokio = { version = "1", features = ["sync", "rt"] }
tokio-stream = "0.1"
tower = { version = "0.4", default-features = false }
futures-util = "0.3"
