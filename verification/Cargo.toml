[package]
name = "metassr"
version = "0.1.0"
edition = "2021"
publish = false

[dependencies]
walkdir = "2"
anyhow = "1"
lazy_static = "1"
clap = { version = "4", features = ["derive"] }
axum = "0.7"
tokio = { version = "1", features = ["rt-multi-thread", "net", "macros"] }
tower-http = { version = "0.5", features = ["fs", "trace"] }
tower-layer = "0.3"
tower-service = "0.3"
tracing = "0.1"
tracing-subscriber = "0.3"
chrono = "0.4"
nu-ansi-term = "0.50"
metacall = "*"
swc_common = "*"
swc_ecma_parser = "*"
swc_ecma_codegen = "*"
swc_ecma_transforms_base = "*"
swc_ecma_transforms_typescript = "*"
swc_ecma_visit = "*"
