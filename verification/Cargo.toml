[package]
name = "ada_handle"
version = "0.1.0"
edition = "2021"
publish = false

[dependencies]
pallas = "*"
gasket = "*"
log = "*"
serde = { version = "*", features = ["derive"] }
