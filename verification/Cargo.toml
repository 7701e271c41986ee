[package]
name = "structdb"
version = "0.1.0"
edition = "2021"
publish = false

[dependencies]
bincode = "=1.3.3"
rocksdb = { version = "=0.21.0", default-features = false, features = ["multi-threaded-cf"] }
serde = { version = "=1.0.229", features = ["derive"] }
thiserror = "=1.0.69"

[dev-dependencies]
byte_counter = "=1.0.0"
vlseqid = "=0.4.0"
