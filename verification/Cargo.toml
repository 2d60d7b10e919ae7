[package]
name = "symfonia"
version = "0.1.0"
edition = "2021"
publish = false

[dependencies]
chorus = { version = "=0.20.0", default-features = false, features = ["backend"] }
serde = { version = "=1.0.229", features = ["derive"] }
serde_json = "=1.0.154"
tokio = { version = "=1.54.1", features = ["full"] }
tokio-tungstenite = "=0.30.0"
futures = "=0.3.34"
log = "=0.4.34"
poem = "=3.1.12"
sqlx = { version = "=0.8.6", default-features = false, features = ["postgres", "runtime-tokio", "derive", "macros", "json"] }
rand = "=0.8.8"
