[package]
name = "vproxy"
version = "0.1.0"
edition = "2021"
publish = false

[dependencies]
base64 = "0.22"
bytes = "1"
cidr = { version = "0.3" }
clap = { version = "4", features = ["derive", "env"] }
h3 = { version = "0.0.8", features = ["i-implement-a-third-party-backend-and-opt-into-breaking-changes"] }
h3-datagram = "0.0.2"
h3-quinn = { version = "0.0.10", features = ["datagram"] }
http = "1"
percent-encoding = "2"
pingora-runtime = "*"
quinn = { version = "0.11", default-features = false, features = ["runtime-tokio", "rustls-ring"] }
rustls = { version = "0.23", default-features = false, features = ["ring", "std", "tls12"] }
rustls-pemfile = "2"
sfv = "0.14"
tokio = { version = "1", features = ["net", "sync", "rt", "rt-multi-thread", "macros", "time", "signal"] }
tracing = "0.1"
