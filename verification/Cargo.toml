[package]
name = "rs_wfirex4"
version = "0.1.0"
edition = "2021"
publish = false

[dependencies]
actix-rt = "2"
actix-web = { version = "4", default-features = false }
chrono = { version = "0.4", default-features = false, features = ["clock"] }
config = { version = "0.13", default-features = false, features = ["toml"] }
fern = "0.6"
log = "0.4"
serde = { version = "1", features = ["derive"] }
serde_json = "1"
