[package]
name = "blob_store"
version = "0.1.0"
edition = "2021"
publish = false

[dependencies]
async-trait = "*"
azure_core = { version = "0.21", default-features = false }
azure_storage = { version = "0.21", default-features = false }
azure_storage_blobs = { version = "0.21", default-features = false }
blake3 = "=1.8.7"
bytes = "=1.12.1"
compact_str = "*"
futures = "0.3"
http-body = "1"
http-body-util = "0.1"
hyper = "=1.12.0"
lz4_flex = "=0.14.0"
mail-builder = "=1.0.0"
mail-parser = "=0.11.9"
mysql_async = { version = "*", default-features = false, features = ["minimal"] }
parking_lot = "*"
percent-encoding = "=2.3.2"
rkyv = "0.8"
rusqlite = "*"
serde = { version = "1", features = ["derive"] }
serde_json = "=1.0.154"
sha1 = "=0.10.7"
sha2 = "=0.10.9"
tokio = { version = "1", features = ["full"] }
rust-s3 = { version = "*", default-features = false, features = ["tokio-rustls-tls"] }
