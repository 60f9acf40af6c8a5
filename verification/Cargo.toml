[package]
name = "auto_matrix_manager"
version = "0.1.0"
edition = "2021"
publish = false

[dependencies]
serde = { version = "1", features = ["derive"] }
serde_json = "1"
sha2 = "0.10"
hmac = "0.12"
hex = "0.4"
urlencoding = "2"
chrono = "0.4"
uuid = { version = "1", features = ["v4"] }
rand = "0.8"
md5 = "0.7"
crc32fast = "1"
reqwest = { version = "0.12", default-features = false, features = ["json"] }
percent-encoding = "2"
regex = "1"
base64 = "0.22"
rusqlite = { version = "0.31", features = ["bundled"] }
tokio = { version = "1", features = ["full"] }
thiserror = "1"
async-trait = "0.1"
once_cell = "1"
rquickjs = "*"
