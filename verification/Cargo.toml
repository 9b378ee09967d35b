[package]
name = "hastic"
version = "0.1.0"
edition = "2021"
publish = false

[dependencies]
anyhow = "=1.0.48"
async-trait = "=0.1.92"
chrono = "=0.4.45"
fastrand = "=1.9.0"
futures = "=0.3.34"
linfa = "=0.7.1"
linfa-svm = "=0.7.2"
ndarray = "=0.15.6"
parking_lot = "=0.11.2"
rusqlite = { version = "=0.25.4", features = ["bundled"] }
serde = { version = "=1.0.229", features = ["derive"] }
serde_json = "=1.0.154"
subbeat = "=0.0.15"
tokio = { version = "=1.54.1", features = ["full"] }
warp = "=0.3.7"
config = "=0.11.0"
