[package]
name = "codex-monitor"
version = "0.1.0"
edition = "2021"
publish = false

[dependencies]
ab_glyph = "0.2"
anyhow = "1"
chrono = "0.4"
image = { version = "0.25", default-features = false, features = ["png"] }
nix = { version = "0.30", features = ["signal", "process"] }
portable-pty = "0.9"
reqwest = { version = "0.12", default-features = false, features = ["json", "multipart", "rustls-tls"] }
serde = { version = "1", features = ["derive"] }
serde_json = "1"
tokio = { version = "1", features = ["macros", "rt-multi-thread", "time"] }
toml = "0.9"
vt100 = "0.16"
