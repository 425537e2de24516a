[package]
name = "rustmock"
version = "0.1.0"
edition = "2021"
publish = false

[dependencies]
serde_json = "*"
serde = { version = "*", features = ["derive"] }
actix-web = { version = "*", default-features = false, features = ["macros"] }
reqwest = { version = "*", default-features = false, features = ["json"] }
chrono = { version = "*", default-features = false, features = ["clock"] }
clap = { version = "*", features = ["derive"] }
openapiv3 = "*"
log = "*"
env_logger = { version = "*", default-features = false }
