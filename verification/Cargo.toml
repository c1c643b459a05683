[package]
name = "stepflow"
version = "0.1.0"
edition = "2021"
publish = false

[dependencies]
htmlescape = "0.3"
http = "0.2"
urlencoding = "1"
serde = { version = "1", features = ["derive"] }
