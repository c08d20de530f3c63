[package]
name = "opencode_gtk"
version = "0.1.0"
edition = "2021"
publish = false

[dependencies]
pulldown-cmark = { version = "0.12", default-features = false }
serde = { version = "1", features = ["derive"] }
serde_json = "1"
reqwest = { version = "0.12", features = ["json", "stream"] }
tokio = { version = "1", features = ["full"] }
futures = "0.3"
eventsource-stream = "0.2"
clap = { version = "4", features = ["derive"] }
glib = "0.20"
gtk4 = "0.9"
libadwaita = { version = "0.7", features = ["v1_4"] }
