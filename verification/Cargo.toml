[package]
name = "anoma_shell"
version = "0.1.0"
edition = "2021"
publish = false

[dependencies]
log = "0.4"
prost = { version = "0.7", default-features = false, features = ["std"] }
thiserror = "1.0"
