[package]
name = "ipa_inspect"
version = "0.1.0"
edition = "2021"
publish = false

[dependencies]
base64 = "0.22"
plist = "1"
serde = { version = "1", features = ["derive"] }
serde_json = "1"
zip = { version = "0.6", default-features = false, features = ["deflate"] }
