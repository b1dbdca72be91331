[package]
name = "dashboard"
version = "0.1.0"
edition = "2021"
publish = false

[dependencies]
iced = { version = "0.7", features = ["canvas", "tokio"] }
iced_lazy = "0.4"
iced_native = "0.8"
plotters = { version = "0.3", default-features = false, features = ["area_series"] }
plotters-iced = "0.6"
