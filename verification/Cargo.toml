[package]
name = "migratory"
version = "0.1.0"
edition = "2021"
publish = false

[dependencies]
sha2 = "0.10"
sha1 = "0.10"
md-5 = "0.10"
serde_json = "1"
uuid = { version = "1", features = ["v4"] }
flate2 = "1"
tar = "0.4"
reqwest = { version = "0.12", default-features = false, features = ["blocking", "rustls-tls"] }
clap = { version = "4", features = ["derive"] }
clap_complete = "4"
tempfile = "3"
