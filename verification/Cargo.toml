[package]
name = "translations"
version = "0.1.0"
edition = "2021"
publish = false

[dependencies]
anyhow = "1"
mdbook = { version = "0.4", default-features = false, features = ["search"] }
mdbook-i18n-helpers = "0.3"
serde = { version = "1", features = ["derive"] }
tera = "1"
toml = "0.5"
