[package]
name = "frozen_index_set"
version = "0.1.0"
edition = "2021"
publish = false

[dependencies]
indexmap = { version = "2", features = ["serde"] }
serde = "1"
stable_deref_trait = "1"

[dev-dependencies]
serde_json = "1"
