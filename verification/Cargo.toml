[package]
name = "osm_pbf_dump"
version = "0.1.0"
edition = "2021"
publish = false

[dependencies]
rosm_pbf_reader = "*"
rusqlite = { version = "*", features = ["bundled"] }
serde = { version = "*", features = ["derive"] }
toml = "*"
