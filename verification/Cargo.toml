[package]
name = "filehost"
version = "0.1.0"
edition = "2021"
publish = false

[dependencies]
tiny_id = "*"
bytesize = "*"
actix-web = "*"
actix-files = "*"
actix-multipart = "*"
tokio = { version = "*", features = ["fs", "io-util"] }
serde = { version = "*", features = ["derive"] }
serde_json = "*"
