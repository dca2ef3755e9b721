[package]
name = "quick"
version = "0.1.0"
edition = "2021"
publish = false

[dependencies]
sha2 = "0.10"
url = "2"
chrono = "0.4"
serde = { version = "1", features = ["derive"] }
serde_derive = "1"
serde_json = "1"
thiserror = "1"
log = "0.4"
once_cell = "1"
parking_lot = "0.12"
lazy_static = "1"
anyhow = "1"
directories = "5"
flexi_logger = "0.29"
