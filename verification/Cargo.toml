[package]
name = "workspace_state"
version = "0.1.0"
edition = "2021"
publish = false

[dependencies]
tokio = { version = "1", features = ["rt", "rt-multi-thread", "sync", "time"] }
tracing = "0.1"
tracing-subscriber = "0.3"
thiserror = "1"
derive_more = "0.99"
lazy_static = "1"
mlua = { version = "0.9", features = ["module", "luajit"] }
codemp = "*"
