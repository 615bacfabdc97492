[package]
name = "lindera_store"
version = "0.1.0"
edition = "2021"
publish = false

[dependencies]
anyhow = "=1.0.104"
libc = "=0.2.191"
lindera = { version = "=1.5.1", default-features = false, features = ["compress", "mmap"] }
lindera-dictionary = { version = "=1.5.1", default-features = false, features = ["compress", "mmap"] }
rkyv = "=0.8.18"
serde_json = "=1.0.154"
