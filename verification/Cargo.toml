[package]
name = "git-cliff-core"
version = "0.1.0"
edition = "2021"
publish = false

[dependencies]
async-stream = "0.3"
futures = "0.3"
log = "0.4"
reqwest-middleware = "0.4"
serde = { version = "1", features = ["derive"] }
serde_json = "1"
time = { version = "0.3", features = ["formatting", "parsing"] }
urlencoding = "2"
