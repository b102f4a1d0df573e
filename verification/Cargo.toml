[package]
name = "cachet_webhook"
version = "0.1.0"
edition = "2021"
publish = false

[dependencies]
regex = "1"
actix-web = { version = "4", default-features = false, features = ["macros"] }
reqwest = { version = "0.12", default-features = false, features = ["json", "rustls-tls"] }
serde = { version = "1", features = ["derive"] }
serde_json = "1"
futures = "0.3"
log = "0.4"
fern = "0.7"
chrono = "0.4"
