[package]
name = "relink"
version = "0.1.0"
edition = "2021"
publish = false

[dependencies]
actix-cors = "0.7"
actix-web = { version = "4", default-features = false, features = ["macros"] }
dotenv = "0.15"
reqwest = { version = "0.12", default-features = false, features = ["rustls-tls"] }
scraper = { version = "=0.20.0", default-features = false, features = ["deterministic"] }
serde = { version = "1", features = ["derive"] }
serde_json = "1"
url = "=2.5.8"

[dev-dependencies]
regex = "=1.13.1"
