[package]
name = "archscan"
version = "0.1.0"
edition = "2021"
publish = false

[dependencies]
eframe = { version = "0.29", default-features = false, features = ["default_fonts", "glow", "x11"] }
futures = "0.3"
tokio = { version = "1", features = ["rt-multi-thread", "net", "time", "sync"] }
