[package]
name = "cockatiel_client"
version = "0.1.0"
edition = "2021"
publish = false

[dependencies]
futures-util = "0.3"
prost = "0.14"
rustls = { version = "0.23", default-features = false, features = ["ring", "std", "tls12"] }
rustls-pemfile = "2"
serde = { version = "1", features = ["derive"] }
serde_json = "1"
tokio = { version = "1", features = ["full"] }
tokio-tungstenite = { version = "0.24", features = ["rustls-tls-webpki-roots"] }
uuid = { version = "1", features = ["v7"] }
