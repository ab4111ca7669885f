[package]
name = "speechd_ng"
version = "0.1.0"
edition = "2021"
publish = false

[dependencies]
serde_json = "*"
rodio = "*"
cpal = "*"
hound = "*"
wait-timeout = "*"
dirs = "*"

[dependencies.reqwest]
version = "*"
default-features = false
features = ["blocking"]
