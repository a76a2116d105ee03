[package]
name = "json_matcher"
version = "0.1.0"
edition = "2021"
publish = false

[dependencies]
chrono = "=0.4.31"
chrono-tz = "=0.10.4"
serde_json = "=1.0.151"
