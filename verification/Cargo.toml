[package]
name = "pact_stub_server"
version = "0.1.0"
edition = "2021"
publish = false

[dependencies]
anyhow = "1"
base64 = "0.22"
clap = { version = "4", features = ["cargo", "env"] }
futures = "0.3"
http = "1"
http-body-util = "0.1"
hyper = { version = "1", features = ["full"] }
hyper-util = { version = "0.1", features = ["server-auto", "service", "tokio", "http1", "http2"] }
itertools = "*"
maplit = "1"
mimalloc = "*"
notify = "*"
notify-debouncer-mini = "*"
pact_matching = { version = "*", default-features = false }
pact_models = { version = "*", default-features = false }
pact_verifier = { version = "*", default-features = false }
regex = "1"
reqwest = { version = "0.12", default-features = false, features = ["json", "rustls-tls"] }
serde_json = "1"
tokio = { version = "1", features = ["full"] }
tower = "*"
tower-http = { version = "*", features = ["trace"] }
tower-service = "0.3"
tracing = "0.1"
tracing-core = "0.1"
tracing-subscriber = "0.3"
