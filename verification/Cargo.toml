[package]
name = "typst-ts-compiler"
version = "0.1.0"
edition = "2021"
publish = false

[dependencies]
codespan-reporting = "=0.11.1"
comemo = "=0.4.0"
log = "=0.4.34"
serde = { version = "=1.0.229", features = ["derive"] }
tokio = { version = "=1.54.1", features = ["sync", "rt", "rt-multi-thread", "macros"] }
typst = "=0.13.1"

[dev-dependencies]
typst-assets = { version = "=0.13.1", features = ["fonts"] }
