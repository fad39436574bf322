[package]
name = "vandelay"
version = "0.1.0"
edition = "2021"
publish = false

[dependencies]
base64 = "0.22"
blake3 = { version = "1", default-features = false, features = ["pure"] }
chrono = "0.4"
chrono-tz = "0.10"
quick-xml = "0.38"
rusqlite = { version = "0.37", features = ["bundled"] }
rustls = { version = "0.23", default-features = false, features = ["aws_lc_rs", "std", "tls12"] }
serde_json = "1"
time = { version = "0.3", features = ["formatting", "parsing", "std"] }
ureq = { version = "3", features = ["platform-verifier"] }
url = "2"
