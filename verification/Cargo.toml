[package]
name = "melodium_libs"
version = "0.1.0"
edition = "2021"
publish = false

[dependencies]
regex = "1"
shlex = "1"
chrono = { version = "0.4", default-features = false, features = ["alloc", "std"] }
serde_json = "1"
serde = { version = "1", features = ["derive"] }
trillium = "0.2"
routefinder = "0.5"
uuid = { version = "1", features = ["v4"] }
