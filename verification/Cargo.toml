[package]
name = "remote_cache"
version = "0.1.0"
edition = "2021"
publish = false

[dependencies]
async-trait = "0.1"
futures = "0.3"
log = "0.4"
parking_lot = "0.12"
strum = "0.26"
strum_macros = "0.26"
tokio = { version = "1", features = ["macros", "rt", "time"] }
tonic = { version = "0.12", default-features = false }
