[package]
name = "ssa_ir"
version = "0.1.0"
edition = "2021"
publish = false

[dependencies]
acvm = "0.46.0"
fxhash = "0.2.1"
im = { version = "15.1.0", features = ["serde"] }
serde = { version = "1.0", features = ["derive"] }
