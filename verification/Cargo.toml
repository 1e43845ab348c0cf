[package]
name = "canopen_sdo"
version = "0.2.0"
edition = "2021"
publish = false

[dependencies]
can-transport = "*"
log = "*"
thiserror = "*"
tokio = { version = "1", features = ["time", "macros", "rt"] }
