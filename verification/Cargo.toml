[package]
name = "app_builder"
version = "0.1.0"
edition = "2021"
publish = false

[dependencies]
chrono = { version = "0.4", features = ["serde"] }
rand = "0.8"
uuid = { version = "1", features = ["v4"] }
serde = { version = "1", features = ["derive"] }
serde_json = "1"
toml = "0.8"
dirs = "5"
log = "0.4"
tokio = { version = "1", features = ["full"] }
tokio-util = "0.7"
futures-util = "0.3"
actix-web = { version = "4", default-features = false, features = ["macros", "rustls"] }
actix-ws = "0.3"
actix-multipart = { version = "0.6", default-features = false }
reqwest = { version = "0.11", default-features = false, features = ["json"] }
rustls = "0.20"
rustls-pemfile = "1"
