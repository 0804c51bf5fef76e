[package]
name = "ldclient"
version = "0.1.0"
edition = "2021"
publish = false

[dependencies]
regex = "1"
semver = "1"
serde = "1"
serde_derive = "1"
serde_json = "1"
sha1 = "0.6"
time = "0.1"
reqwest = { version = "0.11", default-features = false, features = ["blocking"] }
