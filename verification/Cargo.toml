[package]
name = "ensip25"
version = "0.1.0"
edition = "2021"
publish = false

[dependencies]
alloy-primitives = "*"
thiserror = "*"
serde = { version = "*", features = ["derive"] }
alloy = { version = "*", default-features = false, features = ["providers"] }
alloy-ens = { version = "*", default-features = false, features = ["provider"] }
