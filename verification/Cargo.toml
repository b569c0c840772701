[package]
name = "convlog"
version = "0.1.0"
edition = "2021"
publish = false

[dependencies]
quick-xml = "=0.37.5"
urlencoding = "=2.1.3"
serde_json = "=1.0.154"
savvy = "=0.11.0"
