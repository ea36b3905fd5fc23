[package]
name = "boreal"
version = "1.1.1"
edition = "2021"
publish = false

[dependencies]
sha2 = "0.10"
zip = { version = "2", default-features = false, features = ["deflate"] }
serde = { version = "1", features = ["derive"] }
serde_json = "1"
dirs = "5"
libc = "0.2"
rusqlite = { version = "0.32", features = ["bundled"] }
