[package]
name = "fscs_web"
version = "0.1.0"
edition = "2021"
publish = false

[dependencies]
regex = "=1.13.1"
chrono = "=0.4.45"
icalendar = { version = "=0.17.17", features = ["chrono-tz"] }
async-std = "=1.13.2"
actix-web = { version = "=4.18.1", features = ["secure-cookies"] }
actix-http = "=3.20.0"
actix-utils = "=3.0.2"
actix-files = "=0.6.10"
actix-cors = "0.7"
futures-util = "=0.3.34"
serde = { version = "=1.0.229", features = ["derive"] }
serde_json = "=1.0.154"
reqwest = { version = "=0.11.27", default-features = false, features = ["json", "rustls-tls"] }
oauth2 = { version = "=4.4.2", default-features = false, features = ["reqwest", "rustls-tls"] }
mime = "=0.3.17"
log = "=0.4.35"
uuid = "=1.29.0"
