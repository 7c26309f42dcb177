[package]
name = "helium-shell"
version = "0.1.0"
edition = "2021"
publish = false

[dependencies]
serde_json = "1"
zbus = { version = "5", default-features = false, features = ["tokio"] }
zvariant = "5"
tokio = { version = "1", features = ["rt", "net", "time", "io-util"] }
pam-client2 = { version = "0.5", default-features = false }
env_logger = { version = "0.11", default-features = false }
