[package]
name = "particle_life"
version = "0.1.0"
edition = "2021"
publish = false

[dependencies]
anyhow = "1"
macroquad = { version = "0.4", default-features = false }
rayon = "1"
serde = { version = "1", features = ["derive"] }
serde_json = "1"
