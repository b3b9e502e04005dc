[package]
name = "genanki_rs"
version = "0.1.0"
edition = "2021"
publish = false

[dependencies]
ramhorns = "=0.14.0"
rusqlite = { version = "=0.40.2", features = ["bundled", "serialize"] }
zip = { version = "=8.6.0", default-features = false, features = ["deflate"] }

[dev-dependencies]
serde_json = "=1.0.151"
tempfile = "=3.27.0"
