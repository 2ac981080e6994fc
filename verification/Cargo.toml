[package]
name = "cosmic-sys-monitor"
version = "0.1.0"
edition = "2021"
publish = false

[dependencies]
i18n-embed = { version = "*", features = ["fluent-system"] }
rust-embed = "*"
serde = { version = "1", features = ["derive"] }
sysinfo = "*"
nvml-wrapper = "*"
