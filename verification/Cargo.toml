[package]
name = "textmode"
version = "0.1.0"
edition = "2021"
publish = false

[dependencies]
chrono = "0.4"
clap = "2"
csv = "1"
image = { version = "0.24", default-features = false, features = ["gif", "jpeg", "png"] }
png = "0.17"
serde = { version = "1", features = ["derive"] }
serde_json = "1"
wild = "2"
