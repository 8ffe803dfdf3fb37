[package]
name = "zerofs"
version = "0.1.0"
edition = "2021"
publish = false

[dependencies]
anyhow = "1"
bincode = "1"
futures = "0.3"
object_store = { version = "0.12", features = ["aws", "azure"] }
serde = { version = "1", features = ["derive"] }
slatedb = "0.8"
thiserror = "2"
tokio = { version = "1", features = ["rt"] }
tracing = "0.1"
url = "2"
zerofs_nfsserve = "*"
