[package]
name = "rungbot"
version = "0.1.0"
edition = "2021"
publish = false

[dependencies]
hmac = "0.12"
indexmap = "2"
minreq = { version = "2", features = ["https"] }
serde = { version = "1", features = ["derive"] }
serde_json = { version = "1", features = ["preserve_order"] }
sha1 = "0.10"
sha2 = "0.10"
