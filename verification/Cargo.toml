[package]
name = "cfd_rs_utils"
version = "0.1.0"
edition = "2021"
publish = false

[dependencies]
nalgebra = "*"
serde = { version = "*", features = ["derive"] }
bincode = { version = "*", features = ["serde"] }
thiserror = "*"
