[package]
name = "jev_game_engine"
version = "0.1.0"
edition = "2021"
publish = false

[dependencies]
anyhow = "=1.0.104"
serde = { version = "=1.0.229", features = ["derive"] }
serde_json = "=1.0.154"
tokio = { version = "=1.54.1", features = ["rt-multi-thread", "macros", "sync", "time"] }
reqwest = { version = "=0.12.28", default-features = false, features = ["json", "rustls-tls"] }
image = { version = "=0.25.10", default-features = false, features = ["png"] }
eframe = { version = "=0.33.3", default-features = false, features = ["default_fonts", "glow", "x11"] }

[dev-dependencies]
tempfile = "=3.27.0"
