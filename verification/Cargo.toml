[package]
name = "rnote_engine"
version = "0.1.0"
edition = "2021"
publish = false

[dependencies]
serde = { version = "1", features = ["derive"] }
chrono = "0.4"
geo = "*"
parry2d-f64 = "*"
nalgebra = "*"
anyhow = "1"
