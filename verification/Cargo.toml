[package]
name = "ate"
version = "0.1.0"
edition = "2021"
publish = false

[dependencies]
async-trait = "0.1"
flate2 = "1"
futures-util = "0.3"
glob = "0.3"
jsonschema = { version = "*", default-features = false }
libc = "0.2"
reqwest = { version = "0.12", default-features = false, features = ["rustls-tls", "charset", "http2"] }
semver = "1"
serde = { version = "1", features = ["derive"] }
serde_json = "1"
tar = "0.4"
thiserror = "2"
tokio = { version = "1", features = ["fs", "io-std", "io-util", "macros", "net", "process", "rt-multi-thread", "sync", "time"] }
tokio-util = { version = "0.7", features = ["rt"] }
tracing = "0.1"
url = "2"
