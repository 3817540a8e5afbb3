[package]
name = "sidefeed"
version = "0.1.0"
edition = "2021"
publish = false

[dependencies]
hmac = "0.12"
sha2 = "0.10"
hex = "0.4"
uuid = { version = "1", features = ["v4", "v5"] }
serde_json = "1"
feed-rs = "2"
quick-xml = "0.37"
url = "2"
chrono = "0.4"
rss = "2"
serde = { version = "1", features = ["derive"] }
axum = "0.8"
tokio = { version = "1", features = ["full"] }
sqlx = { version = "0.8", default-features = false, features = ["sqlite", "runtime-tokio", "migrate"] }
reqwest = { version = "0.12", default-features = false, features = ["json", "stream"] }
tower-http = { version = "0.6", features = ["limit", "timeout", "trace"] }
tracing = "0.1"
tracing-subscriber = { version = "0.3", features = ["env-filter", "fmt"] }
actix-web = { version = "4", default-features = false, features = ["macros"] }
awc = { version = "3", default-features = false }
error-stack = "0.5"
futures-util = "0.3"
bytes = "1"
async-trait = "0.1"
thiserror = "2"
