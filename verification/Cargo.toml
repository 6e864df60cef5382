[package]
name = "thrift_ffi"
version = "0.1.0"
edition = "2021"
publish = false

[dependencies]
uuid = { version = "0.8", features = ["v4"] }
thrift = "*"
serde_json = "*"
base64 = "*"
rand = "*"
clap = { version = "3", features = ["derive"] }
