[package]
name = "mess"
version = "0.1.0"
edition = "2021"
publish = false

[dependencies]
rust-ini = "*"
nix = { version = "*", features = ["feature"] }
reqwest = { version = "*", default-features = false, features = ["json", "rustls-tls"] }
serde = { version = "*", features = ["derive"] }
serenity = { version = "*", default-features = false, features = ["http", "model", "rustls_backend"] }
tokio = { version = "*", features = ["macros", "rt-multi-thread"] }
