[package]
name = "ferricml"
version = "0.1.0"
edition = "2021"
publish = false

[dependencies]
smallvec = "=1.16.4"
petgraph = "=0.8.3"
half = { version = "=2.7.1", features = ["serde", "bytemuck"] }
bytemuck = { version = "=1.25.2", features = ["extern_crate_alloc"] }
rayon = "=1.12.0"
serde = { version = "=1.0.229", features = ["derive"] }
serde_json = "=1.0.154"
thiserror = "=2.0.21"
anyhow = "=1.0.104"
