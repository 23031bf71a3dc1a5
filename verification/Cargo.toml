[package]
name = "service_metrics"
version = "0.1.0"
edition = "2021"
publish = false

[dependencies]
cadence = "=0.24.0"
actix-web = { version = "=4.18.1", default-features = false }
