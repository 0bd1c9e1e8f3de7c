[package]
name = "log_analyzer"
version = "0.5.8"
edition = "2021"
publish = false

[dependencies]
serde = { version = "=1.0.229", features = ["derive"] }
serde_json = "=1.0.154"
serde_yaml = "=0.9.34"
regex = "=1.13.1"
glob = "=0.3.4"
chrono = "=0.4.45"
anyhow = "=1.0.104"
thiserror = "=2.0.21"
clap = { version = "=4.6.7", features = ["derive"] }
tracing = "=0.1.44"
tracing-subscriber = { version = "=0.3.23", features = ["env-filter"] }
csv = "=1.4.0"
dirs = "=5.0.1"
indicatif = "=0.17.11"
ssh2 = "=0.9.6"
plotters = { version = "=0.3.7", default-features = false, features = ["bitmap_backend", "bitmap_encoder", "ab_glyph", "all_series", "all_elements", "full_palette"] }
