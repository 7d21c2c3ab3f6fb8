[package]
name = "acp-agent"
version = "0.1.0"
edition = "2021"
publish = false

[dependencies]
agent-client-protocol = { version = "=5.0.0", features = ["process"] }
agent-client-protocol-http = { version = "=5.0.0", features = ["server"] }
anyhow = "=1.0.104"
axum = "=0.8.9"
bzip2 = "=0.6.1"
clap = { version = "=4.6.7", features = ["derive"] }
dirs = "=7.0.0"
fd-lock = "=4.0.4"
flate2 = "=1.1.10"
futures = "=0.3.34"
hex = "=0.4.3"
reqwest = { version = "=0.13.5", features = ["json", "stream"] }
serde = { version = "=1.0.229", features = ["derive"] }
serde_json = "=1.0.154"
sha2 = "=0.11.1"
tar = "=0.4.46"
tempfile = "=3.27.0"
time = { version = "=0.3.55", features = ["formatting"] }
tokio = { version = "=1.54.1", features = ["full"] }
tower = { version = "=0.5.3", features = ["util"] }
which = "=8.0.6"
zip = "=9.2.2"
