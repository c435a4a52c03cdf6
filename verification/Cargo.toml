[package]
name = "rdbc2"
version = "0.1.0"
edition = "2021"
publish = false

[dependencies]
mysql = { version = "=28.0.3", default-features = false, features = ["minimal-rust"] }
mysql_common = { version = "=0.37.3", default-features = false }
postgres = "=0.19.14"
rusqlite = { version = "=0.40.2", features = ["bundled", "column_decltype"] }
