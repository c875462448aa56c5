[package]
name = "event_finder"
version = "0.1.0"
edition = "2021"
publish = false

[dependencies]
chrono = "=0.4.45"
uuid = { version = "=1.27.0", features = ["v4"] }
log = "=0.4.34"
datafusion = { version = "=55.1.0", default-features = false, features = ["parquet"] }
object_store = { version = "=0.13.2", features = ["azure"] }
async-nats = "=0.50.0"
tokio = { version = "=1.53.2", features = ["rt-multi-thread", "macros"] }
futures-util = "=0.3.34"
serde = { version = "=1.0.229", features = ["derive"] }
serde_json = "=1.0.151"
serde_yaml = "=0.9.34"
geojson = "=1.0.0"
prost = "=0.14.4"
prometheus = { version = "=0.14.0", default-features = false }
url = "=2.5.8"
anyhow = "=1.0.104"

[dev-dependencies]
geohash = "=0.13.2"
