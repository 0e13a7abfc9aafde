[package]
name = "saguaro_common"
version = "0.1.0"
edition = "2021"
publish = false

[dependencies]
rust_decimal = "=1.43.0"
crc32fast = "=1.5.4"
zstd = { version = "=0.13.4", default-features = false, features = ["arrays", "zdict_builder"] }
serde = { version = "=1.0.229", features = ["derive"] }
parking_lot = "=0.12.5"
thiserror = "=2.0.21"
