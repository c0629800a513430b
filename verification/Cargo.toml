[package]
name = "bambu_stream"
version = "0.1.0"
edition = "2021"
publish = false

[dependencies]
anyhow = "=1.0.104"
arrow = { version = "=54.3.1", default-features = false }
arrow-flight = "=54.3.1"
dotenvy = "=0.15.7"
futures = "=0.3.34"
rumqttc = "=0.25.1"
serde_json = "=1.0.154"
tokio = { version = "=1.54.1", features = ["full"] }
tokio-stream = "=0.1.19"
tonic = "=0.12.3"
